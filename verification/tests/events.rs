use vkawaii::events::{event_from_receive, Event, EventBus, ReceiveFailure};

#[test]
fn test_event_bus() {
    let bus = EventBus::new();
    let sender = bus.get_sender();

    sender.send(Event::Hotkey(1)).unwrap();
    sender.send(Event::Hotkey(2)).unwrap();

    assert_eq!(bus.poll(), Some(Event::Hotkey(1)));
    assert_eq!(bus.poll(), Some(Event::Hotkey(2)));
    assert_eq!(bus.poll(), None);
}

#[test]
fn event_bus_keeps_order_across_senders() {
    let bus = EventBus::default();
    let a = bus.get_sender();
    let b = bus.get_sender();
    a.send(Event::WebSocketMessage("first".to_string())).unwrap();
    b.send(Event::Hotkey(7)).unwrap();
    a.send(Event::WebSocketMessage("third".to_string())).unwrap();
    assert_eq!(bus.poll(), Some(Event::WebSocketMessage("first".to_string())));
    assert_eq!(bus.poll(), Some(Event::Hotkey(7)));
    assert_eq!(bus.poll(), Some(Event::WebSocketMessage("third".to_string())));
    assert_eq!(bus.poll(), None);
}

#[test]
fn event_from_receive_outcomes() {
    assert_eq!(event_from_receive(Ok(Event::Hotkey(3))), Some(Event::Hotkey(3)));
    assert_eq!(event_from_receive(Err(ReceiveFailure::Empty)), None);
    assert_eq!(event_from_receive(Err(ReceiveFailure::Disconnected)), None);
}

#[test]
fn receive_tells_an_empty_queue() {
    let bus = EventBus::new();
    assert_eq!(bus.receive(), Err(ReceiveFailure::Empty));
    bus.get_sender().send(Event::Hotkey(4)).unwrap();
    assert_eq!(bus.receive(), Ok(Event::Hotkey(4)));
    assert_eq!(bus.receive(), Err(ReceiveFailure::Empty));
}
