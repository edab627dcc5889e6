use codeshare::hub::RoomHub;

#[test]
fn same_slug_same_topic() {
    let mut hub = RoomHub::new();
    let a = hub.get_or_create("alpha");
    let b = hub.get_or_create("beta");
    let a2 = hub.get_or_create("alpha");
    assert_eq!(a, 0);
    assert_eq!(b, 1);
    assert_eq!(a, a2);
    assert_eq!(hub.room_count(), 2);
    assert!(hub.topic(a).same_channel(hub.topic(a2)));
    assert!(!hub.topic(a).same_channel(hub.topic(b)));
}

#[test]
fn many_requests_create_one_topic() {
    let mut hub = RoomHub::new();
    let first = hub.get_or_create("shared");
    for _ in 0..50 {
        assert_eq!(hub.get_or_create("shared"), first);
    }
    assert_eq!(hub.room_count(), 1);
}

#[test]
fn new_topic_has_no_subscriber_and_delivers() {
    let mut hub = RoomHub::new();
    let id = hub.get_or_create("room");
    let tx = hub.topic(id).clone();
    assert_eq!(tx.receiver_count(), 0);
    let mut rx = tx.subscribe();
    assert_eq!(tx.receiver_count(), 1);
    tx.send("one".to_string()).unwrap();
    tx.send("two".to_string()).unwrap();
    assert_eq!(rx.try_recv().unwrap(), "one");
    assert_eq!(rx.try_recv().unwrap(), "two");
}
