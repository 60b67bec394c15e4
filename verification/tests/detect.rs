use serialport_detect::{
    Detect, DeviceInfo, EventInfo, EventType, IdentityCache, IoError, PollNext,
};

fn device(port: &str, vid: Option<&str>, pid: Option<&str>) -> DeviceInfo {
    DeviceInfo {
        port: port.to_string(),
        vid: vid.map(|s| s.to_string()),
        pid: pid.map(|s| s.to_string()),
        serial: None,
        manufacturer: None,
        product: None,
    }
}

fn add_event(port: &str, vid: Option<&str>, pid: Option<&str>) -> EventInfo {
    EventInfo {
        port: port.to_string(),
        device: device(port, vid, pid),
        event: EventType::Add,
    }
}

fn remove_event(port: &str) -> EventInfo {
    EventInfo {
        port: port.to_string(),
        device: device(port, None, None),
        event: EventType::Remove,
    }
}

fn streaming() -> Detect {
    Detect::new(IdentityCache::new())
}

#[test]
fn add_is_delivered_and_cached() {
    let waker = futures::task::noop_waker();
    let mut sub = streaming();
    sub.push(Ok(add_event("COM3", Some("1"), Some("2"))));
    match sub.poll_next(&waker) {
        PollNext::Event(ev) => {
            assert!(matches!(ev.event, EventType::Add));
            assert_eq!(ev.port, "COM3");
            assert_eq!(ev.device.vid.as_deref(), Some("1"));
            assert_eq!(ev.device.pid.as_deref(), Some("2"));
        }
        other => panic!("expected an event, got {:?}", other),
    }
    assert!(sub.is_cached(&"COM3".to_string()));
}

#[test]
fn remove_is_enriched_from_cache() {
    let waker = futures::task::noop_waker();
    let mut sub = streaming();
    sub.push(Ok(add_event("COM3", Some("1"), Some("2"))));
    let _ = sub.poll_next(&waker);
    sub.push(Ok(remove_event("COM3")));
    match sub.poll_next(&waker) {
        PollNext::Event(ev) => {
            assert!(matches!(ev.event, EventType::Remove));
            assert_eq!(ev.port, "COM3");
            assert_eq!(ev.device.vid.as_deref(), Some("1"));
            assert_eq!(ev.device.pid.as_deref(), Some("2"));
        }
        other => panic!("expected an event, got {:?}", other),
    }
    assert!(!sub.is_cached(&"COM3".to_string()));
}

#[test]
fn enrichment_is_field_for_field() {
    let waker = futures::task::noop_waker();
    let mut sub = streaming();
    let full = DeviceInfo {
        port: "/dev/ttyACM0".to_string(),
        vid: Some("1a86".to_string()),
        pid: Some("7523".to_string()),
        serial: Some("0001".to_string()),
        manufacturer: Some("QinHeng Electronics".to_string()),
        product: Some("CH340 serial converter".to_string()),
    };
    sub.push(Ok(EventInfo {
        port: "/dev/ttyACM0".to_string(),
        device: full,
        event: EventType::Add,
    }));
    let _ = sub.poll_next(&waker);
    // The raw detach carries none of the metadata.
    sub.push(Ok(remove_event("/dev/ttyACM0")));
    match sub.poll_next(&waker) {
        PollNext::Event(ev) => {
            assert_eq!(ev.device.port, "/dev/ttyACM0");
            assert_eq!(ev.device.vid.as_deref(), Some("1a86"));
            assert_eq!(ev.device.pid.as_deref(), Some("7523"));
            assert_eq!(ev.device.serial.as_deref(), Some("0001"));
            assert_eq!(ev.device.manufacturer.as_deref(), Some("QinHeng Electronics"));
            assert_eq!(ev.device.product.as_deref(), Some("CH340 serial converter"));
        }
        other => panic!("expected an event, got {:?}", other),
    }
}

#[test]
fn second_add_replaces_cached_record() {
    let waker = futures::task::noop_waker();
    let mut sub = streaming();
    sub.push(Ok(add_event("COM7", Some("1"), None)));
    sub.push(Ok(add_event("COM7", Some("9"), None)));
    sub.push(Ok(remove_event("COM7")));
    let _ = sub.poll_next(&waker);
    let _ = sub.poll_next(&waker);
    match sub.poll_next(&waker) {
        PollNext::Event(ev) => {
            assert!(matches!(ev.event, EventType::Remove));
            assert_eq!(ev.device.vid.as_deref(), Some("9"));
        }
        other => panic!("expected an event, got {:?}", other),
    }
}

#[test]
fn unknown_remove_is_suppressed() {
    let waker = futures::task::noop_waker();
    let mut sub = streaming();
    sub.push(Ok(remove_event("COM9")));
    assert!(matches!(sub.poll_next(&waker), PollNext::Pending));
    assert!(!sub.is_cached(&"COM9".to_string()));
}

#[test]
fn unknown_remove_is_skipped_to_next_item() {
    let waker = futures::task::noop_waker();
    let mut sub = streaming();
    sub.push(Ok(remove_event("COM9")));
    sub.push(Ok(add_event("COM3", Some("1"), None)));
    match sub.poll_next(&waker) {
        PollNext::Event(ev) => {
            assert!(matches!(ev.event, EventType::Add));
            assert_eq!(ev.port, "COM3");
        }
        other => panic!("expected the attach, got {:?}", other),
    }
}

#[test]
fn seed_backs_a_remove_without_prior_add() {
    let waker = futures::task::noop_waker();
    let mut seed = IdentityCache::new();
    seed.insert("COM1".to_string(), device("COM1", Some("aa"), Some("bb")));
    let mut sub = Detect::new(seed);
    assert!(sub.is_cached(&"COM1".to_string()));
    sub.push(Ok(remove_event("COM1")));
    match sub.poll_next(&waker) {
        PollNext::Event(ev) => {
            assert!(matches!(ev.event, EventType::Remove));
            assert_eq!(ev.device.vid.as_deref(), Some("aa"));
            assert_eq!(ev.device.pid.as_deref(), Some("bb"));
        }
        other => panic!("expected the detach, got {:?}", other),
    }
    assert!(!sub.is_cached(&"COM1".to_string()));
}

#[test]
fn close_finishes_the_stream() {
    let waker = futures::task::noop_waker();
    let mut sub = streaming();
    sub.close();
    assert!(matches!(sub.poll_next(&waker), PollNext::Finished));
    assert!(matches!(sub.poll_next(&waker), PollNext::Finished));
    assert!(matches!(sub.poll_next(&waker), PollNext::Finished));
}

#[test]
fn error_item_does_not_end_the_stream() {
    let waker = futures::task::noop_waker();
    let mut sub = streaming();
    sub.push(Err(IoError { message: "read failed".to_string() }));
    sub.push(Ok(add_event("COM3", None, None)));
    match sub.poll_next(&waker) {
        PollNext::Failed(e) => assert_eq!(e.message, "read failed"),
        other => panic!("expected the failure, got {:?}", other),
    }
    match sub.poll_next(&waker) {
        PollNext::Event(ev) => assert_eq!(ev.port, "COM3"),
        other => panic!("expected the attach, got {:?}", other),
    }
}

#[test]
fn cancel_is_terminal_and_single_shot() {
    let waker = futures::task::noop_waker();
    let mut sub = streaming();
    assert!(sub.cancel().is_ok());
    assert!(matches!(sub.poll_next(&waker), PollNext::Finished));
    assert!(matches!(sub.poll_next(&waker), PollNext::Finished));
    assert!(sub.cancel().is_err());
}

#[test]
fn cancel_after_complete_is_misuse() {
    let waker = futures::task::noop_waker();
    let mut sub = streaming();
    sub.close();
    assert!(matches!(sub.poll_next(&waker), PollNext::Finished));
    assert!(sub.cancel().is_err());
}

#[test]
fn nothing_pushed_after_close_is_observed() {
    let waker = futures::task::noop_waker();
    let mut sub = streaming();
    sub.push(Ok(add_event("COM3", None, None)));
    sub.close();
    sub.push(Ok(add_event("COM4", None, None)));
    match sub.poll_next(&waker) {
        PollNext::Event(ev) => assert_eq!(ev.port, "COM3"),
        other => panic!("expected the attach, got {:?}", other),
    }
    assert!(matches!(sub.poll_next(&waker), PollNext::Finished));
    assert!(matches!(sub.poll_next(&waker), PollNext::Finished));
}

#[test]
fn empty_queue_is_pending() {
    let waker = futures::task::noop_waker();
    let mut sub = streaming();
    assert!(matches!(sub.poll_next(&waker), PollNext::Pending));
}
