use serialport_detect::{event_kind, read_device_info, scan, wait_action, EventType, Property, RawPort, WaitAction};

fn prop(name: &str, value: &str) -> Property {
    Property { name: name.to_string(), value: value.to_string() }
}

#[test]
fn identifiers_are_taken_as_reported() {
    let props = vec![
        prop("ID_VENDOR_ID", "1a86"),
        prop("ID_MODEL_ID", "7523"),
        prop("ID_SERIAL_SHORT", "0001"),
    ];
    let info = read_device_info("/dev/ttyUSB0".to_string(), &props);
    assert_eq!(info.port, "/dev/ttyUSB0");
    assert_eq!(info.vid.as_deref(), Some("1a86"));
    assert_eq!(info.pid.as_deref(), Some("7523"));
    assert_eq!(info.serial.as_deref(), Some("0001"));
    assert_eq!(info.manufacturer, None);
    assert_eq!(info.product, None);
}

#[test]
fn manufacturer_decodes_escaped_property() {
    let props = vec![
        prop("ID_VENDOR_ENC", "QinHeng\\x20Electronics"),
        prop("ID_VENDOR", "should_not_be_used"),
    ];
    let info = read_device_info("p".to_string(), &props);
    assert_eq!(info.manufacturer.as_deref(), Some("QinHeng Electronics"));
}

#[test]
fn manufacturer_falls_back_to_plain_property_with_spaces() {
    let props = vec![
        prop("ID_VENDOR", "QinHeng_Electronics"),
        prop("ID_VENDOR_FROM_DATABASE", "unused"),
    ];
    let info = read_device_info("p".to_string(), &props);
    assert_eq!(info.manufacturer.as_deref(), Some("QinHeng Electronics"));
}

#[test]
fn manufacturer_falls_back_to_database_property() {
    let props = vec![prop("ID_VENDOR_FROM_DATABASE", "QinHeng Electronics, Inc.")];
    let info = read_device_info("p".to_string(), &props);
    assert_eq!(info.manufacturer.as_deref(), Some("QinHeng Electronics, Inc."));
}

#[test]
fn malformed_escape_falls_back_to_plain_property() {
    let props = vec![
        prop("ID_VENDOR_ENC", "broken\\"),
        prop("ID_VENDOR", "Plain_Name"),
    ];
    let info = read_device_info("p".to_string(), &props);
    assert_eq!(info.manufacturer.as_deref(), Some("Plain Name"));
}

#[test]
fn product_uses_the_same_fallback_chain() {
    let props = vec![prop("ID_MODEL_ENC", "CH340\\x20serial\\x20converter")];
    let info = read_device_info("p".to_string(), &props);
    assert_eq!(info.product.as_deref(), Some("CH340 serial converter"));

    let props = vec![prop("ID_MODEL", "CH340_serial_converter")];
    let info = read_device_info("p".to_string(), &props);
    assert_eq!(info.product.as_deref(), Some("CH340 serial converter"));

    let props = vec![prop("ID_MODEL_FROM_DATABASE", "CH340 serial converter")];
    let info = read_device_info("p".to_string(), &props);
    assert_eq!(info.product.as_deref(), Some("CH340 serial converter"));
}

#[test]
fn no_properties_yield_bare_record() {
    let info = read_device_info("".to_string(), &Vec::new());
    assert_eq!(info.port, "");
    assert_eq!(info.vid, None);
    assert_eq!(info.pid, None);
    assert_eq!(info.serial, None);
    assert_eq!(info.manufacturer, None);
    assert_eq!(info.product, None);
}

#[test]
fn scan_seeds_one_entry_per_port() {
    let ports = vec![
        RawPort {
            port: "/dev/ttyUSB0".to_string(),
            properties: vec![prop("ID_VENDOR_ID", "1a86")],
        },
        RawPort {
            port: "/dev/ttyACM0".to_string(),
            properties: vec![prop("ID_VENDOR_ID", "2341")],
        },
    ];
    let cache = scan(ports);
    assert_eq!(cache.len(), 2);
    let rec = cache.lookup(&"/dev/ttyUSB0".to_string()).expect("port was scanned");
    assert_eq!(rec.vid.as_deref(), Some("1a86"));
    let rec = cache.lookup(&"/dev/ttyACM0".to_string()).expect("port was scanned");
    assert_eq!(rec.vid.as_deref(), Some("2341"));
}

#[test]
fn scan_keeps_the_later_entry_for_a_duplicated_port() {
    let ports = vec![
        RawPort {
            port: "/dev/ttyUSB0".to_string(),
            properties: vec![prop("ID_VENDOR_ID", "old")],
        },
        RawPort {
            port: "/dev/ttyUSB0".to_string(),
            properties: vec![prop("ID_VENDOR_ID", "new")],
        },
    ];
    let cache = scan(ports);
    assert_eq!(cache.len(), 1);
    let rec = cache.lookup(&"/dev/ttyUSB0".to_string()).expect("port was scanned");
    assert_eq!(rec.vid.as_deref(), Some("new"));
}

#[test]
fn scan_of_nothing_is_empty() {
    let cache = scan(Vec::new());
    assert_eq!(cache.len(), 0);
    assert!(cache.lookup(&"/dev/ttyUSB0".to_string()).is_none());
}

#[test]
fn action_names_classify_events() {
    assert!(matches!(
        event_kind(&"add".to_string()),
        Some(EventType::Add)
    ));
    assert!(matches!(
        event_kind(&"remove".to_string()),
        Some(EventType::Remove)
    ));
    assert!(event_kind(&"change".to_string()).is_none());
    assert!(event_kind(&"".to_string()).is_none());
}

#[test]
fn readiness_events_are_classified() {
    assert!(matches!(wait_action(0, true, false), WaitAction::Stop));
    assert!(matches!(wait_action(1, false, true), WaitAction::SourceEnded));
    assert!(matches!(wait_action(1, true, true), WaitAction::SourceEnded));
    assert!(matches!(wait_action(1, true, false), WaitAction::Drain));
    assert!(matches!(wait_action(0, false, false), WaitAction::Ignore));
    assert!(matches!(wait_action(2, true, false), WaitAction::Ignore));
}
