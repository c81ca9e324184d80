use crate::events::Event;
use vstd::prelude::*;

verus! {

/// What a WebSocket connection delivered, as far as the server reads it.
#[derive(Debug, Clone, PartialEq)]
pub enum WsFrame {
    /// A text message.
    Text(String),
    /// The peer closed the connection.
    Close,
    /// Reading the stream failed.
    Error,
    /// A binary, ping, pong or raw frame.
    Other,
}

/// What the server does with a frame.
#[derive(Debug, Clone, PartialEq)]
pub enum WsStep {
    /// Hand the event to the event bus and keep reading.
    Forward(Event),
    /// Stop reading from this connection.
    Stop,
    /// Keep reading.
    Skip,
}

/// The step for each frame: text becomes a `WebSocketMessage` event; a close
/// or a read error ends the connection; anything else is skipped.
pub open spec fn websocket_step_of(frame: WsFrame) -> WsStep {
    match frame {
        WsFrame::Text(text) => WsStep::Forward(Event::WebSocketMessage(text)),
        WsFrame::Close => WsStep::Stop,
        WsFrame::Error => WsStep::Stop,
        WsFrame::Other => WsStep::Skip,
    }
}

/// Decides what the server does with one frame of a connection.
pub fn websocket_step(frame: WsFrame) -> (s: WsStep)
    ensures
        s == websocket_step_of(frame),
{
    match frame {
        WsFrame::Text(text) => WsStep::Forward(Event::WebSocketMessage(text)),
        WsFrame::Close => WsStep::Stop,
        WsFrame::Error => WsStep::Stop,
        WsFrame::Other => WsStep::Skip,
    }
}

} // verus!
