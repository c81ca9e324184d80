use std::sync::mpsc::{Receiver, Sender, TryRecvError};
use vstd::prelude::*;

verus! {

#[verifier::external_type_specification]
#[verifier::external_body]
#[verifier::reject_recursive_types(T)]
pub struct ExMpscSender<T>(Sender<T>);

#[verifier::external_type_specification]
#[verifier::external_body]
#[verifier::reject_recursive_types(T)]
pub struct ExMpscReceiver<T>(Receiver<T>);

/// Something that happened outside the engine and that the main loop reacts to.
#[derive(Debug, Clone, PartialEq)]
pub enum Event {
    Hotkey(u32),
    WebSocketMessage(String),
}

/// Why a non-blocking receive brought back no event.
#[derive(Debug, Clone, Copy, PartialEq, Eq)]
pub enum ReceiveFailure {
    /// Nothing is queued right now.
    Empty,
    /// Every sender is gone and nothing is queued.
    Disconnected,
}

/// The sender `sender` delivers into the receiver `receiver`: both are ends
/// of one channel, so what is sent on the one is received on the other.
pub uninterp spec fn feeds(sender: Sender<Event>, receiver: Receiver<Event>) -> bool;

/// Calls `std::sync::mpsc::channel`, which opens a new channel and hands out
/// its two ends. Claims, as its documentation says, that the sender feeds the
/// receiver. Nothing is claimed of what the channel holds.
#[verifier::external_body]
fn open_channel() -> (r: (Sender<Event>, Receiver<Event>))
    ensures
        feeds(r.0, r.1),
{
    std::sync::mpsc::channel()
}

/// Calls `Sender::clone`, which gives one more sender on the same channel.
/// Claims that the new sender feeds every receiver the old one feeds.
#[verifier::external_body]
fn clone_sender(sender: &Sender<Event>) -> (r: Sender<Event>)
    ensures
        forall|receiver: Receiver<Event>| feeds(*sender, receiver) ==> #[trigger] feeds(r, receiver),
{
    sender.clone()
}

/// Calls `Receiver::try_recv`, which takes the oldest queued event without
/// blocking, and tells the two kinds of failure apart. Nothing is claimed of
/// which outcome comes back: it depends on what other threads have sent.
#[verifier::external_body]
fn try_receive(receiver: &Receiver<Event>) -> (r: Result<Event, ReceiveFailure>) {
    match receiver.try_recv() {
        Ok(event) => Ok(event),
        Err(TryRecvError::Empty) => Err(ReceiveFailure::Empty),
        Err(TryRecvError::Disconnected) => Err(ReceiveFailure::Disconnected),
    }
}

/// What `EventBus::poll` answers for each outcome of a non-blocking receive:
/// the event when there was one, and nothing otherwise, whether the queue was
/// empty or every sender was gone.
pub fn event_from_receive(received: Result<Event, ReceiveFailure>) -> (r: Option<Event>)
    ensures
        r == (match received {
            Ok(event) => Some(event),
            Err(_) => None,
        }),
{
    match received {
        Ok(event) => Some(event),
        Err(_) => None,
    }
}

/// A multi-producer queue of events: producers hold senders, the main loop
/// polls. Its sender and receiver are always the two ends of one channel.
pub struct EventBus {
    sender: Sender<Event>,
    receiver: Receiver<Event>,
}

impl EventBus {
    #[verifier::type_invariant]
    spec fn ends_match(self) -> bool {
        feeds(self.sender, self.receiver)
    }

    /// The bus delivers what it is sent: its own sender feeds its receiver.
    pub closed spec fn connected(self) -> bool {
        feeds(self.sender, self.receiver)
    }

    /// `sender` delivers into this bus: what is sent on it is polled here.
    pub closed spec fn feeds_bus(self, sender: Sender<Event>) -> bool {
        feeds(sender, self.receiver)
    }

    /// Opens a fresh channel and holds both of its ends.
    pub fn new() -> (bus: Self)
        ensures
            bus.connected(),
    {
        let (sender, receiver) = open_channel();
        EventBus { sender, receiver }
    }

    /// Hands out one more producer handle on the bus.
    pub fn get_sender(&self) -> (sender: Sender<Event>)
        ensures
            self.feeds_bus(sender),
    {
        proof {
            use_type_invariant(self);
        }
        clone_sender(&self.sender)
    }

    /// Takes the oldest pending event without blocking, and tells an empty
    /// queue apart from one whose senders are all gone. What comes back
    /// depends on what other threads have sent.
    pub fn receive(&self) -> (r: Result<Event, ReceiveFailure>) {
        try_receive(&self.receiver)
    }

    /// Takes the oldest pending event, if any, without blocking.
    /// The answer for each outcome of the receive is `event_from_receive`.
    pub fn poll(&self) -> (r: Option<Event>) {
        let received = self.receive();
        event_from_receive(received)
    }
}

impl Default for EventBus {
    fn default() -> (bus: Self)
        ensures
            bus.connected(),
    {
        Self::new()
    }
}

} // verus!
