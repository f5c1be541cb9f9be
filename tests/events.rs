use meshgrid::device::MeshEvent;
use meshgrid::events::{parse_monitor_line, MonitorEvent};

#[test]
fn advertisement_line() {
    assert_eq!(
        parse_monitor_line("ADV 0x1a 10 Alice"),
        Some(MonitorEvent::Advertisement { node_hash: 0x1a, rssi: 10, name: Some("Alice".to_string()) })
    );
    assert_eq!(
        parse_monitor_line("ADV ff -90"),
        Some(MonitorEvent::Advertisement { node_hash: 0xff, rssi: -90, name: None })
    );
    assert_eq!(
        parse_monitor_line("ADV 7 -3 Bob Two"),
        Some(MonitorEvent::Advertisement { node_hash: 7, rssi: -3, name: Some("Bob Two".to_string()) })
    );
}

#[test]
fn message_line() {
    assert_eq!(
        parse_monitor_line("MSG 0x1a * 5 2 hello world"),
        Some(MonitorEvent::Message {
            from: "0x1a".to_string(),
            to: None,
            rssi: 5,
            snr: Some(2),
            text: "hello world".to_string(),
        })
    );
    assert_eq!(
        parse_monitor_line("MSG a b -100 x hi"),
        Some(MonitorEvent::Message {
            from: "a".to_string(),
            to: Some("b".to_string()),
            rssi: -100,
            snr: None,
            text: "hi".to_string(),
        })
    );
}

#[test]
fn short_or_unknown_lines_are_ignored() {
    assert_eq!(parse_monitor_line("MSG a b 1 2"), None);
    assert_eq!(parse_monitor_line("ADV 0x1a"), None);
    assert_eq!(parse_monitor_line("{\"type\":\"debug\"}"), None);
    assert_eq!(parse_monitor_line("MSGX"), None);
    assert_eq!(parse_monitor_line(""), None);
}

#[test]
fn ack_and_error_lines() {
    assert_eq!(parse_monitor_line("ACK 0x2b"), Some(MonitorEvent::Ack { from: "0x2b".to_string() }));
    assert_eq!(
        parse_monitor_line("ERR radio busy"),
        Some(MonitorEvent::Error { message: "radio busy".to_string() })
    );
}

#[test]
fn malformed_fields_are_ignored() {
    assert_eq!(parse_monitor_line("ADV zz 10"), None);
    assert_eq!(parse_monitor_line("ADV 0x1a loud"), None);
    assert_eq!(parse_monitor_line("ADV 1 40000"), None);
    assert_eq!(parse_monitor_line("ADV 0x100 5"), None);
    assert_eq!(parse_monitor_line("MSG a b loud 2 hi"), None);
    assert_eq!(
        parse_monitor_line("ADV 0x0x10 -32768"),
        Some(MonitorEvent::Advertisement { node_hash: 0x10, rssi: -32768, name: None })
    );
}

#[test]
fn monitor_event_becomes_mesh_event() {
    let e = parse_monitor_line("MSG n1 * -7 3 yo").unwrap();
    assert_eq!(
        MeshEvent::from_monitor(e),
        MeshEvent::Message { from: "n1".to_string(), to: None, text: "yo".to_string(), rssi: -7, snr: 3 }
    );
    let e = parse_monitor_line("MSG n1 n2 -7 bad yo").unwrap();
    assert!(matches!(MeshEvent::from_monitor(e), MeshEvent::Message { snr: 0, .. }));
}
