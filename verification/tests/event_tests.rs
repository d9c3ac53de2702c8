use bevy_ruby::{DynamicValue, Event, EventQueue, Events, StrMap};

#[test]
fn dynamic_values_read_back() {
    assert_eq!(DynamicValue::Boolean(true).as_bool(), Some(true));
    assert_eq!(DynamicValue::Integer(7).as_bool(), None);
    assert_eq!(DynamicValue::Integer(-3).as_i64(), Some(-3));
    assert_eq!(DynamicValue::Nil.as_i64(), None);
    assert_eq!(DynamicValue::Text("hi".to_string()).as_str(), Some("hi"));
    assert_eq!(DynamicValue::Symbol("sym".to_string()).as_str(), Some("sym"));
    assert_eq!(DynamicValue::Float(1_500_000).as_str(), None);
}

#[test]
fn event_fields_set_and_get() {
    let mut e = Event::new("collision");
    assert_eq!(e.kind_name(), "collision");
    assert!(e.get("other").is_none());
    e.set("other", DynamicValue::Integer(9));
    match e.get("other").unwrap() {
        DynamicValue::Integer(v) => assert_eq!(*v, 9),
        _ => panic!("wrong value kind"),
    }
    let mut data = StrMap::new();
    data.insert("x".to_string(), DynamicValue::Integer(1));
    let e2 = Event::with_data("spawn", data);
    assert_eq!(e2.kind_name(), "spawn");
    assert!(e2.get("x").is_some());
}

#[test]
fn queue_reads_only_what_arrived_since_the_last_read() {
    let mut q = EventQueue::new();
    assert!(q.is_empty());
    assert_eq!(q.unread_count(), 0);
    q.send(Event::new("a"));
    q.send(Event::new("b"));
    assert_eq!(q.len(), 2);
    assert_eq!(q.unread_count(), 2);

    let start = q.read();
    assert_eq!(start, 0);
    assert_eq!(q.unread_count(), 0);
    // A second read without new arrivals has an empty batch.
    assert_eq!(q.read(), 2);

    q.send(Event::new("c"));
    assert_eq!(q.unread_count(), 1);
    let start = q.read();
    assert_eq!(start, 2);
    assert_eq!(q.get_event(start).unwrap().kind_name(), "c");
    assert!(q.get_event(3).is_none());

    q.clear();
    assert!(q.is_empty());
    assert_eq!(q.unread_count(), 0);
}

#[test]
fn events_deliver_by_kind_name() {
    let mut evs = Events::new();
    assert!(!evs.is_registered("hit"));
    evs.register("hit");
    evs.register("hit");
    assert!(evs.is_registered("hit"));

    evs.send(Event::new("hit"));
    evs.send(Event::new("miss")); // unregistered: dropped
    assert_eq!(evs.get_queue("hit").unwrap().len(), 1);
    assert!(evs.get_queue("miss").is_none());

    let start = evs.read("hit").unwrap();
    assert_eq!(start, 0);
    assert_eq!(evs.get_queue("hit").unwrap().unread_count(), 0);
    assert!(evs.read("miss").is_none());

    evs.send(Event::new("hit"));
    evs.get_queue_mut("hit").unwrap().clear();
    assert_eq!(evs.get_queue("hit").unwrap().len(), 0);

    evs.register("tick");
    evs.send(Event::new("tick"));
    evs.send(Event::new("hit"));
    evs.clear_all();
    assert_eq!(evs.get_queue("tick").unwrap().len(), 0);
    assert_eq!(evs.get_queue("hit").unwrap().len(), 0);

    evs.clear("tick");
    assert_eq!(evs.get_queue("tick").unwrap().len(), 0);
}
