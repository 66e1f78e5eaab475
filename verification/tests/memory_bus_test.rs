use swarm::memory_bus::MemoryBus;
use swarm::tally::Tally;
use swarm::{Message, MessageBrokerStats, MessageError, TextMap};

/// Publishes a message that takes a hundred bytes on the wire.
fn publish(bus: &mut MemoryBus, subject: &str, message: Message) -> Result<(), MessageError> {
    bus.publish(subject, message, 100)
}

fn letter(subject: &str, payload: &[u8]) -> Message {
    Message {
        id: 7,
        subject: subject.to_string(),
        payload: payload.to_vec(),
        headers: TextMap::new(),
        timestamp: 1_000,
        ttl_ms: None,
    }
}

#[test]
fn every_subscriber_gets_its_own_copy() {
    let mut bus = MemoryBus::new(1024);
    let first = bus.subscribe("swarm.tasks.results").unwrap();
    let second = bus.subscribe("swarm.tasks.results").unwrap();
    let other = bus.subscribe("swarm.heartbeat").unwrap();
    assert_eq!((first, second, other), (0, 1, 2));

    let sent = letter("swarm.tasks.results", b"done");
    assert_eq!(publish(&mut bus, "swarm.tasks.results", sent.clone()), Ok(()));

    assert_eq!(bus.next(first), Some(sent.clone()));
    assert_eq!(bus.next(second), Some(sent));
    assert_eq!(bus.next(other), None);
    assert_eq!(bus.next(first), None);
}

#[test]
fn messages_come_out_in_the_order_in_which_they_were_published() {
    let mut bus = MemoryBus::new(1024);
    let id = bus.subscribe("a.b").unwrap();
    for payload in [b"1", b"2", b"3"] {
        assert!(publish(&mut bus, "a.b", letter("a.b", payload)).is_ok());
    }
    assert_eq!(bus.next(id).unwrap().payload, b"1".to_vec());
    assert_eq!(bus.next(id).unwrap().payload, b"2".to_vec());
    assert_eq!(bus.next(id).unwrap().payload, b"3".to_vec());
    assert_eq!(bus.next(id), None);
}

#[test]
fn a_subscription_gets_only_what_is_published_after_it_was_made() {
    let mut bus = MemoryBus::new(1024);
    assert!(publish(&mut bus, "a.b", letter("a.b", b"early")).is_ok());
    let id = bus.subscribe("a.b").unwrap();
    assert_eq!(bus.next(id), None);
    assert!(publish(&mut bus, "a.b", letter("a.b", b"late")).is_ok());
    assert_eq!(bus.next(id).unwrap().payload, b"late".to_vec());
}

#[test]
fn a_closed_subscription_gets_nothing() {
    let mut bus = MemoryBus::new(1024);
    let closed = bus.subscribe("a.b").unwrap();
    let open = bus.subscribe("a.b").unwrap();
    assert!(publish(&mut bus, "a.b", letter("a.b", b"1")).is_ok());
    bus.close(closed);
    assert_eq!(bus.next(closed), None);
    assert!(publish(&mut bus, "a.b", letter("a.b", b"2")).is_ok());
    assert_eq!(bus.next(closed), None);
    bus.close(closed);
    assert_eq!(bus.next(open).unwrap().payload, b"1".to_vec());
    assert_eq!(bus.next(open).unwrap().payload, b"2".to_vec());
    assert_eq!(bus.stats().active_subscriptions, 1);
}

#[test]
fn a_message_of_the_largest_size_is_taken_and_one_byte_more_is_not() {
    let mut bus = MemoryBus::new(10);
    let id = bus.subscribe("a.b").unwrap();
    assert_eq!(bus.publish("a.b", letter("a.b", b"taken"), 10), Ok(()));
    assert_eq!(
        bus.publish("a.b", letter("a.b", b"refused"), 11),
        Err(MessageError::MessageTooLarge { size: 11, max_size: 10 })
    );
    assert_eq!(bus.next(id).unwrap().payload, b"taken".to_vec());
    assert_eq!(bus.next(id), None);
    assert_eq!(
        bus.stats(),
        MessageBrokerStats {
            total_messages_sent: 1,
            total_messages_received: 1,
            active_subscriptions: 1,
            queue_depth: 0,
            error_count: 1,
        }
    );
}

#[test]
fn the_size_of_a_message_is_what_it_takes_on_the_wire() {
    // However little a message holds, it is as large as the one who writes
    // it says.
    let mut bus = MemoryBus::new(1_048_576);
    assert_eq!(bus.publish("a.b", letter("a.b", b"1"), 1_048_576), Ok(()));
    assert_eq!(
        bus.publish("a.b", letter("a.b", b"1"), 1_048_577),
        Err(MessageError::MessageTooLarge { size: 1_048_577, max_size: 1_048_576 })
    );
    assert_eq!(bus.publish("a.b", letter("a.b", &[0; 64]), 0), Ok(()));
}

#[test]
fn the_figures_of_the_bus_count_what_waits() {
    let mut bus = MemoryBus::new(1024);
    let first = bus.subscribe("a").unwrap();
    let _second = bus.subscribe("a").unwrap();
    assert!(publish(&mut bus, "a", letter("a", b"1")).is_ok());
    assert!(publish(&mut bus, "a", letter("a", b"2")).is_ok());
    assert!(publish(&mut bus, "b", letter("b", b"3")).is_ok());
    assert_eq!(bus.stats().queue_depth, 4);
    assert_eq!(bus.stats().total_messages_sent, 3);
    bus.next(first);
    assert_eq!(bus.stats().queue_depth, 3);
    assert_eq!(bus.stats().total_messages_received, 1);
}

#[test]
fn a_tally_counts_each_name_where_it_first_came() {
    let mut tally = Tally::new();
    assert_eq!(tally.len(), 0);
    assert_eq!(tally.get("txt"), 0);
    tally.add("txt");
    tally.add("md");
    tally.add("txt");
    assert_eq!(tally.len(), 2);
    assert_eq!(tally.get("txt"), 2);
    assert_eq!(tally.get("md"), 1);
    assert_eq!(tally.get("pdf"), 0);
    assert_eq!((tally.name_at(0), tally.count_at(0)), ("txt", 2));
    assert_eq!((tally.name_at(1), tally.count_at(1)), ("md", 1));
    let copy = tally.clone();
    assert_eq!(copy.get("txt"), 2);
}

#[test]
fn tallies_are_equal_whatever_the_order_of_their_lines() {
    let mut first = Tally::new();
    first.add("a");
    first.add("b");
    first.add("a");
    let mut second = Tally::new();
    second.add("a");
    second.add("a");
    second.add("b");
    let mut third = Tally::new();
    third.add("b");
    third.add("a");
    third.add("a");
    assert_eq!(first, second);
    assert_eq!(first, third);
    assert_eq!(third, first);
    third.add("b");
    assert_ne!(first, third);
    assert_ne!(first, Tally::new());
}
