use odyssey::kernel::events::{GraphEvent, GraphEventBus};

#[test]
fn publish_with_no_subscribers_is_dropped() {
    let bus = GraphEventBus::new();
    let result = bus.publish(GraphEvent::ShutdownStarted);
    assert!(result.is_err(), "no-receiver publish must drop");
}

#[test]
fn subscribe_then_publish_delivers() {
    let mut bus = GraphEventBus::new();
    let mut rx = bus.subscribe();
    assert_eq!(bus.receiver_count(), 1);

    bus.publish(GraphEvent::ShutdownStarted).unwrap();
    let ev = rx.try_recv().expect("event delivered");
    assert_eq!(ev, GraphEvent::ShutdownStarted);
}

#[test]
fn multiple_subscribers_each_get_event() {
    let mut bus = GraphEventBus::new();
    let mut rx1 = bus.subscribe();
    let mut rx2 = bus.subscribe();
    assert_eq!(bus.receiver_count(), 2);

    bus.publish(GraphEvent::ShutdownStarted).unwrap();
    assert_eq!(rx1.try_recv().unwrap(), GraphEvent::ShutdownStarted);
    assert_eq!(rx2.try_recv().unwrap(), GraphEvent::ShutdownStarted);
}

#[test]
fn event_ordering_with_single_sender() {
    let mut bus = GraphEventBus::new();
    let mut rx = bus.subscribe();

    bus.publish(GraphEvent::ShutdownStarted).unwrap();
    bus.publish(GraphEvent::ShutdownCompleted { remaining_slots: 0 }).unwrap();

    let first = rx.try_recv().unwrap();
    let second = rx.try_recv().unwrap();
    assert!(matches!(first, GraphEvent::ShutdownStarted));
    assert!(matches!(second, GraphEvent::ShutdownCompleted { .. }));
}

#[test]
fn a_bus_nobody_subscribed_to_counts_no_receiver() {
    let bus = GraphEventBus::with_capacity(0);
    assert_eq!(bus.receiver_count(), 0);
    assert_eq!(bus.publish(GraphEvent::ShutdownStarted), Err(GraphEvent::ShutdownStarted));
}
