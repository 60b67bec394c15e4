use serialport_detect::{
    DeviceInfo, EventInfo, EventType, IdentityCache, IoError, Polled, Queue,
};

fn record(port: &str, vid: Option<&str>) -> DeviceInfo {
    DeviceInfo {
        port: port.to_string(),
        vid: vid.map(|s| s.to_string()),
        pid: None,
        serial: None,
        manufacturer: None,
        product: None,
    }
}

fn attach(port: &str) -> EventInfo {
    EventInfo {
        port: port.to_string(),
        device: record(port, None),
        event: EventType::Add,
    }
}

#[test]
fn items_come_out_in_insertion_order() {
    let waker = futures::task::noop_waker();
    let mut q = Queue::new();
    q.push(Ok(attach("a")));
    q.push(Ok(attach("b")));
    q.push(Err(IoError { message: "oops".to_string() }));
    q.close();
    match q.poll_next(&waker) {
        Polled::Event(ev) => assert_eq!(ev.port, "a"),
        other => panic!("expected the first event, got {:?}", other),
    }
    match q.poll_next(&waker) {
        Polled::Event(ev) => assert_eq!(ev.port, "b"),
        other => panic!("expected the second event, got {:?}", other),
    }
    match q.poll_next(&waker) {
        Polled::Failed(e) => assert_eq!(e.message, "oops"),
        other => panic!("expected the failure, got {:?}", other),
    }
    assert!(matches!(q.poll_next(&waker), Polled::Closed));
}

#[test]
fn polling_an_empty_queue_is_pending() {
    let waker = futures::task::noop_waker();
    let mut q = Queue::new();
    assert!(matches!(q.poll_next(&waker), Polled::Pending));
    assert!(matches!(q.poll_next(&waker), Polled::Pending));
}

#[test]
fn a_push_after_the_close_is_discarded() {
    let waker = futures::task::noop_waker();
    let mut q = Queue::new();
    q.close();
    q.push(Ok(attach("late")));
    assert!(matches!(q.poll_next(&waker), Polled::Closed));
    assert!(matches!(q.poll_next(&waker), Polled::Pending));
}

#[test]
fn a_second_close_changes_nothing() {
    let waker = futures::task::noop_waker();
    let mut q = Queue::new();
    q.close();
    q.close();
    assert!(matches!(q.poll_next(&waker), Polled::Closed));
    assert!(matches!(q.poll_next(&waker), Polled::Pending));
}

#[test]
fn cache_insert_contains_remove() {
    let mut c = IdentityCache::new();
    assert_eq!(c.len(), 0);
    assert!(!c.contains(&"p".to_string()));
    c.insert("p".to_string(), record("p", Some("1")));
    assert_eq!(c.len(), 1);
    assert!(c.contains(&"p".to_string()));
    let rec = c.remove(&"p".to_string()).expect("was inserted");
    assert_eq!(rec.vid.as_deref(), Some("1"));
    assert_eq!(c.len(), 0);
    assert!(c.remove(&"p".to_string()).is_none());
}

#[test]
fn duplicate_copies_every_field() {
    let rec = DeviceInfo {
        port: "/dev/ttyUSB0".to_string(),
        vid: Some("1a86".to_string()),
        pid: Some("7523".to_string()),
        serial: Some("0001".to_string()),
        manufacturer: Some("QinHeng Electronics".to_string()),
        product: Some("CH340 serial converter".to_string()),
    };
    let copy = rec.duplicate();
    assert_eq!(copy.port, rec.port);
    assert_eq!(copy.vid, rec.vid);
    assert_eq!(copy.pid, rec.pid);
    assert_eq!(copy.serial, rec.serial);
    assert_eq!(copy.manufacturer, rec.manufacturer);
    assert_eq!(copy.product, rec.product);
}

#[test]
fn cache_insert_replaces_an_equal_key() {
    let mut c = IdentityCache::new();
    c.insert("p".to_string(), record("p", Some("1")));
    c.insert("p".to_string(), record("p", Some("2")));
    assert_eq!(c.len(), 1);
    let rec = c.lookup(&"p".to_string()).expect("still present");
    assert_eq!(rec.vid.as_deref(), Some("2"));
}
