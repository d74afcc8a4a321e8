use chat_core::manager::ChatMessage;
use chat_core::router::{BroadcastRouter, Envelope, Subscription};

fn envelope(room_id: i64, text: &str) -> Envelope {
    Envelope { room_id, chat_message: text.to_string(), sender: Some(1), time_created: 0 }
}

fn drain(router: &mut BroadcastRouter, sub: &Subscription) -> Vec<String> {
    let mut out = Vec::new();
    while let Some(e) = router.receive(sub) {
        out.push(e.chat_message);
    }
    out
}

#[test]
fn a_subscriber_receives_what_is_published_to_its_room() {
    let mut router = BroadcastRouter::new(100);
    let sub = router.subscribe(1);
    router.publish(envelope(1, "hello"));
    let got = router.receive(&sub).unwrap();
    assert_eq!(got.room_id, 1);
    assert_eq!(got.chat_message, "hello");
    assert_eq!(got.sender, Some(1));
    assert!(router.receive(&sub).is_none());
}

#[test]
fn every_subscriber_of_the_room_receives_it() {
    let mut router = BroadcastRouter::new(100);
    let a = router.subscribe(1);
    let b = router.subscribe(1);
    let c = router.subscribe(1);
    router.publish(envelope(1, "hello"));
    assert_eq!(drain(&mut router, &a), vec!["hello"]);
    assert_eq!(drain(&mut router, &b), vec!["hello"]);
    assert_eq!(drain(&mut router, &c), vec!["hello"]);
}

#[test]
fn other_rooms_are_never_observed() {
    let mut router = BroadcastRouter::new(100);
    let a = router.subscribe(1);
    let b = router.subscribe(2);
    router.publish(envelope(2, "for b"));
    router.publish(envelope(3, "for nobody"));
    assert!(router.receive(&a).is_none());
    assert_eq!(drain(&mut router, &b), vec!["for b"]);
}

#[test]
fn other_rooms_are_skipped_between_own_messages() {
    let mut router = BroadcastRouter::new(100);
    let a = router.subscribe(1);
    router.publish(envelope(2, "x"));
    router.publish(envelope(1, "one"));
    router.publish(envelope(2, "y"));
    router.publish(envelope(2, "z"));
    router.publish(envelope(1, "two"));
    router.publish(envelope(3, "w"));
    assert_eq!(router.receive(&a).unwrap().chat_message, "one");
    assert_eq!(router.receive(&a).unwrap().chat_message, "two");
    assert!(router.receive(&a).is_none());
}

#[test]
fn publish_order_is_delivery_order() {
    let mut router = BroadcastRouter::new(100);
    let a = router.subscribe(1);
    let b = router.subscribe(1);
    router.publish(envelope(1, "m1"));
    router.publish(envelope(1, "m2"));
    router.publish(envelope(1, "m3"));
    assert_eq!(drain(&mut router, &a), vec!["m1", "m2", "m3"]);
    assert_eq!(drain(&mut router, &b), vec!["m1", "m2", "m3"]);
}

#[test]
fn order_holds_across_interleaved_receives() {
    let mut router = BroadcastRouter::new(100);
    let a = router.subscribe(1);
    router.publish(envelope(1, "m1"));
    router.publish(envelope(1, "m2"));
    assert_eq!(router.receive(&a).unwrap().chat_message, "m1");
    router.publish(envelope(1, "m3"));
    assert_eq!(router.receive(&a).unwrap().chat_message, "m2");
    assert_eq!(router.receive(&a).unwrap().chat_message, "m3");
    assert!(router.receive(&a).is_none());
}

#[test]
fn a_full_queue_misses_the_message() {
    let mut router = BroadcastRouter::new(2);
    let slow = router.subscribe(1);
    let fast = router.subscribe(1);
    router.publish(envelope(1, "m1"));
    assert_eq!(router.receive(&fast).unwrap().chat_message, "m1");
    router.publish(envelope(1, "m2"));
    assert_eq!(router.receive(&fast).unwrap().chat_message, "m2");
    router.publish(envelope(1, "m3"));
    assert_eq!(router.receive(&fast).unwrap().chat_message, "m3");
    assert_eq!(drain(&mut router, &slow), vec!["m1", "m2"]);
    router.publish(envelope(1, "m4"));
    assert_eq!(drain(&mut router, &slow), vec!["m4"]);
}

#[test]
fn traffic_of_other_rooms_fills_the_queue_too() {
    let mut router = BroadcastRouter::new(2);
    let a = router.subscribe(1);
    router.publish(envelope(2, "x"));
    router.publish(envelope(2, "y"));
    router.publish(envelope(1, "missed"));
    assert!(router.receive(&a).is_none());
    router.publish(envelope(1, "seen"));
    assert_eq!(drain(&mut router, &a), vec!["seen"]);
}

#[test]
fn a_router_without_capacity_delivers_nothing() {
    let mut router = BroadcastRouter::new(0);
    let a = router.subscribe(1);
    router.publish(envelope(1, "m1"));
    assert!(router.receive(&a).is_none());
}

#[test]
fn a_closed_subscription_is_released() {
    let mut router = BroadcastRouter::new(100);
    let a = router.subscribe(1);
    let b = router.subscribe(1);
    assert_eq!(router.subscriber_count(), 2);
    router.publish(envelope(1, "before"));
    router.close(&a);
    assert_eq!(router.subscriber_count(), 1);
    assert!(!router.is_open(&a));
    assert!(router.is_open(&b));
    router.publish(envelope(1, "after"));
    assert!(router.receive(&a).is_none());
    assert_eq!(drain(&mut router, &b), vec!["before", "after"]);
    assert_eq!(router.subscriber_count(), 1);
}

#[test]
fn closing_is_idempotent() {
    let mut router = BroadcastRouter::new(100);
    let a = router.subscribe(1);
    let b = router.subscribe(2);
    router.close(&a);
    router.close(&a);
    router.close(&a);
    assert_eq!(router.subscriber_count(), 1);
    assert!(router.is_open(&b));
    router.publish(envelope(2, "still here"));
    assert_eq!(drain(&mut router, &b), vec!["still here"]);
}

#[test]
fn closing_an_unknown_handle_changes_nothing() {
    let mut router = BroadcastRouter::new(100);
    let a = router.subscribe(1);
    router.close(&Subscription { id: 99, room_id: 1 });
    router.close(&Subscription { id: 0, room_id: 1 });
    assert_eq!(router.subscriber_count(), 1);
    assert!(router.is_open(&a));
}

#[test]
fn numbers_are_not_used_again() {
    let mut router = BroadcastRouter::new(100);
    let a = router.subscribe(1);
    router.close(&a);
    let b = router.subscribe(1);
    assert_ne!(a.id, b.id);
    assert_eq!(a.id, 1);
    assert_eq!(b.id, 2);
    assert_eq!(b.room_id, 1);
    router.publish(envelope(1, "m"));
    assert!(router.receive(&a).is_none());
    assert_eq!(drain(&mut router, &b), vec!["m"]);
}

#[test]
fn a_late_subscriber_sees_only_what_follows() {
    let mut router = BroadcastRouter::new(100);
    router.publish(envelope(1, "early"));
    let a = router.subscribe(1);
    router.publish(envelope(1, "late"));
    assert_eq!(drain(&mut router, &a), vec!["late"]);
}

#[test]
fn the_router_filters_by_the_registered_room() {
    let mut router = BroadcastRouter::new(100);
    let a = router.subscribe(1);
    router.publish(envelope(1, "one"));
    router.publish(envelope(2, "two"));
    let forged = Subscription { id: a.id, room_id: 2 };
    assert_eq!(router.receive(&forged).unwrap().chat_message, "one");
    assert!(router.receive(&forged).is_none());
}

#[test]
fn an_envelope_carries_the_stored_message() {
    let stored = ChatMessage {
        id: 4,
        user_id: Some(7),
        room_id: 3,
        message: "hello".to_string(),
        time_created: 99,
    };
    let e = Envelope::from_message(&stored);
    assert_eq!(e.room_id, 3);
    assert_eq!(e.chat_message, "hello");
    assert_eq!(e.sender, Some(7));
    assert_eq!(e.time_created, 99);
    let copy = e.clone();
    assert_eq!(copy.chat_message, "hello");
}
