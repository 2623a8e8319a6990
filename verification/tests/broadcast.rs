use daemon_core::broadcast::{Delivery, EventBroadcaster};

#[test]
fn new_broadcaster_has_no_subscribers() {
    let broadcaster: EventBroadcaster<u32> = EventBroadcaster::new(4);
    assert_eq!(broadcaster.subscriber_count(), 0);
    assert_eq!(broadcaster.capacity(), 4);
    assert!(broadcaster.can_subscribe());
}

#[test]
fn scenario_two_clients_get_one_copy_each() {
    let mut broadcaster = EventBroadcaster::new(8);
    let first = broadcaster.subscribe().unwrap();
    let second = broadcaster.subscribe().unwrap();
    assert_eq!(first.id(), 0);
    assert_eq!(second.id(), 1);
    assert_eq!(broadcaster.publish(7u32), Vec::<u64>::new());
    assert_eq!(broadcaster.next_event(&first), Delivery::Event(7));
    assert_eq!(broadcaster.next_event(&first), Delivery::Empty);
    assert_eq!(broadcaster.next_event(&second), Delivery::Event(7));
    assert_eq!(broadcaster.next_event(&second), Delivery::Empty);
}

#[test]
fn events_arrive_in_publication_order() {
    let mut broadcaster = EventBroadcaster::new(8);
    let first = broadcaster.subscribe().unwrap();
    let second = broadcaster.subscribe().unwrap();
    for event in [10u32, 20, 30] {
        assert!(broadcaster.publish(event).is_empty());
    }
    for receiver in [&first, &second] {
        assert_eq!(broadcaster.next_event(receiver), Delivery::Event(10));
        assert_eq!(broadcaster.next_event(receiver), Delivery::Event(20));
        assert_eq!(broadcaster.next_event(receiver), Delivery::Event(30));
        assert_eq!(broadcaster.next_event(receiver), Delivery::Empty);
    }
}

#[test]
fn an_event_reaches_all_subscribers() {
    let mut broadcaster = EventBroadcaster::new(2);
    let mut receivers = Vec::new();
    for _ in 0..10 {
        receivers.push(broadcaster.subscribe().unwrap());
    }
    assert_eq!(broadcaster.subscriber_count(), 10);
    assert!(broadcaster.publish('e').is_empty());
    for receiver in &receivers {
        assert_eq!(broadcaster.next_event(receiver), Delivery::Event('e'));
    }
}

#[test]
fn a_subscriber_gets_no_earlier_event() {
    let mut broadcaster = EventBroadcaster::new(8);
    let early = broadcaster.subscribe().unwrap();
    broadcaster.publish(1u8);
    let late = broadcaster.subscribe().unwrap();
    assert_eq!(broadcaster.next_event(&late), Delivery::Empty);
    broadcaster.publish(2u8);
    assert_eq!(broadcaster.next_event(&late), Delivery::Event(2));
    assert_eq!(broadcaster.next_event(&late), Delivery::Empty);
    assert_eq!(broadcaster.next_event(&early), Delivery::Event(1));
    assert_eq!(broadcaster.next_event(&early), Delivery::Event(2));
}

#[test]
fn a_disconnected_client_gets_nothing_more() {
    let mut broadcaster = EventBroadcaster::new(8);
    let stays = broadcaster.subscribe().unwrap();
    let leaves = broadcaster.subscribe().unwrap();
    let left = leaves.id();
    broadcaster.publish(1u8);
    broadcaster.unsubscribe(leaves);
    assert_eq!(broadcaster.subscriber_count(), 1);
    broadcaster.publish(2u8);
    // Identities are not handed out again, so nobody takes its place.
    let joins = broadcaster.subscribe().unwrap();
    assert!(joins.id() != left);
    assert_eq!(joins.id(), 2);
    assert_eq!(broadcaster.next_event(&stays), Delivery::Event(1));
    assert_eq!(broadcaster.next_event(&stays), Delivery::Event(2));
    assert_eq!(broadcaster.next_event(&joins), Delivery::Empty);
}

#[test]
fn unsubscribing_a_stranger_changes_nothing() {
    let mut broadcaster: EventBroadcaster<u8> = EventBroadcaster::new(8);
    let mut other: EventBroadcaster<u8> = EventBroadcaster::new(8);
    let mine = broadcaster.subscribe().unwrap();
    other.subscribe().unwrap();
    let stranger = other.subscribe().unwrap();
    assert!(!broadcaster.is_subscribed(&stranger));
    assert_eq!(broadcaster.next_event(&stranger), Delivery::Disconnected);
    broadcaster.unsubscribe(stranger);
    assert_eq!(broadcaster.subscriber_count(), 1);
    assert!(broadcaster.is_subscribed(&mine));
}

#[test]
fn a_slow_client_is_disconnected_and_delays_nobody() {
    let mut broadcaster = EventBroadcaster::new(2);
    let fast = broadcaster.subscribe().unwrap();
    let slow = broadcaster.subscribe().unwrap();
    assert!(broadcaster.publish(1u8).is_empty());
    assert!(broadcaster.publish(2u8).is_empty());
    assert_eq!(broadcaster.next_event(&fast), Delivery::Event(1));
    assert_eq!(broadcaster.next_event(&fast), Delivery::Event(2));
    // The queue of the slow client is full now.
    assert_eq!(broadcaster.publish(3u8), vec![slow.id()]);
    assert_eq!(broadcaster.subscriber_count(), 1);
    assert!(!broadcaster.is_subscribed(&slow));
    assert_eq!(broadcaster.next_event(&slow), Delivery::Disconnected);
    assert_eq!(broadcaster.next_event(&fast), Delivery::Event(3));
    assert!(broadcaster.publish(4u8).is_empty());
    assert_eq!(broadcaster.next_event(&fast), Delivery::Event(4));
}

#[test]
fn several_slow_clients_are_disconnected_at_once() {
    let mut broadcaster = EventBroadcaster::new(1);
    let a = broadcaster.subscribe().unwrap();
    let b = broadcaster.subscribe().unwrap();
    let c = broadcaster.subscribe().unwrap();
    assert!(broadcaster.publish(1u8).is_empty());
    assert_eq!(broadcaster.next_event(&b), Delivery::Event(1));
    assert_eq!(broadcaster.publish(2u8), vec![a.id(), c.id()]);
    assert_eq!(broadcaster.subscriber_count(), 1);
    assert_eq!(broadcaster.next_event(&b), Delivery::Event(2));
}

#[test]
fn queues_without_room_disconnect_on_the_first_event() {
    let mut broadcaster = EventBroadcaster::new(0);
    let only = broadcaster.subscribe().unwrap();
    assert_eq!(broadcaster.publish(1u8), vec![only.id()]);
    assert_eq!(broadcaster.subscriber_count(), 0);
}

#[test]
fn publishing_without_subscribers_does_nothing() {
    let mut broadcaster = EventBroadcaster::new(1);
    assert!(broadcaster.publish(1u8).is_empty());
    let late = broadcaster.subscribe().unwrap();
    assert_eq!(broadcaster.next_event(&late), Delivery::Empty);
}
