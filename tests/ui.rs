use meshgrid::device::MeshEvent;
use meshgrid::events::MonitorEvent;
use meshgrid::monitor::{display_label, plan_tick, Outgoing, ReadOutcome};
use meshgrid::telemetry::{telemetry_from_json, DeviceTelemetry, EnvironmentTelemetry, LocationTelemetry, ScaledReadings, Telemetry};
use meshgrid::ui::{age_label, signal_of, App, Key, LogKind, Signal, LOG_CAPACITY, NEIGHBOR_TTL_MS};

fn ts() -> String {
    "12:00:00".to_string()
}

#[test]
fn log_is_bounded() {
    let mut app = App::new("dev".to_string());
    for i in 0..LOG_CAPACITY + 5 {
        app.add_info(ts(), format!("line {}", i));
    }
    assert_eq!(app.messages().len(), LOG_CAPACITY);
    assert_eq!(app.messages()[0].content, "line 5");
    assert_eq!(app.messages()[LOG_CAPACITY - 1].content, format!("line {}", LOG_CAPACITY + 4));
}

#[test]
fn events_are_logged() {
    let mut app = App::new("dev".to_string());
    app.apply_event(
        MeshEvent::Message { from: "0x1a".to_string(), to: None, text: "hi".to_string(), rssi: -70, snr: 2 },
        ts(),
        0,
    );
    assert_eq!(app.messages()[0].content, "0x1a (-70dB): [->all] hi");
    assert_eq!(app.messages()[0].kind, LogKind::Received);
    app.apply_event(MeshEvent::Advertisement { node_hash: 0x0f, name: None, rssi: -80 }, ts(), 1000);
    assert_eq!(app.messages()[1].content, "ADV: 0x0f (-80dB)");
    assert_eq!(app.neighbors().len(), 1);
    assert_eq!(app.neighbors()[&0x0f].name, "0x0f");
    app.apply_event(MeshEvent::Ack { from: "n2".to_string() }, ts(), 1000);
    assert_eq!(app.messages()[2].content, "ACK from n2");
    app.apply_event(MeshEvent::Error { message: "boom".to_string() }, ts(), 1000);
    assert_eq!(app.messages()[3].kind, LogKind::Error);
}

#[test]
fn neighbors_are_keyed_and_expire() {
    let mut app = App::new("dev".to_string());
    app.update_neighbor(1, Some("a".to_string()), -50, 0);
    app.update_neighbor(2, Some("b".to_string()), -60, 1000);
    app.update_neighbor(1, Some("a2".to_string()), -40, 2000);
    assert_eq!(app.neighbors().len(), 2);
    assert_eq!(app.neighbors()[&1].name, "a2");
    assert_eq!(app.neighbors()[&1].rssi, -40);
    app.update_neighbor(3, None, -90, 1000 + NEIGHBOR_TTL_MS);
    let mut hashes: Vec<u8> = app.neighbors().keys().copied().collect();
    hashes.sort();
    assert_eq!(hashes, vec![1, 3]);
    assert_eq!(app.neighbors()[&3].name, "0x03");
}

#[test]
fn typing_and_sending() {
    let mut app = App::new("dev".to_string());
    assert_eq!(app.handle_key(Key::Enter, ts()), None);
    for c in "hlo".chars() {
        app.handle_key(Key::Char(c), ts());
    }
    app.handle_key(Key::Left, ts());
    app.handle_key(Key::Left, ts());
    app.handle_key(Key::Char('e'), ts());
    app.handle_key(Key::Right, ts());
    app.handle_key(Key::Char('l'), ts());
    assert_eq!(app.input_text(), "hello");
    app.handle_key(Key::Home, ts());
    app.handle_key(Key::Delete, ts());
    app.handle_key(Key::End, ts());
    app.handle_key(Key::Backspace, ts());
    assert_eq!(app.input_text(), "ell");
    assert_eq!(app.cursor(), 3);
    assert_eq!(app.handle_key(Key::Enter, ts()), Some("ell".to_string()));
    assert_eq!(app.input_text(), "");
    assert_eq!(app.messages()[0].content, "You: ell");
    assert!(!app.should_quit());
    app.handle_key(Key::Ctrl('x'), ts());
    assert_eq!(app.input_text(), "x");
    app.handle_key(Key::Ctrl('q'), ts());
    assert!(app.should_quit());
}

#[test]
fn queued_send_is_not_starved_by_a_waiting_read() {
    let plan = plan_tick(ReadOutcome::Nothing, Outgoing::Message("hello".to_string()));
    assert_eq!(plan.send, Some("SEND hello".to_string()));
    assert!(plan.forward.is_none());
    assert!(!plan.stop);
    let plan = plan_tick(
        ReadOutcome::Event(MonitorEvent::Ack { from: "x".to_string() }),
        Outgoing::Message("m".to_string()),
    );
    assert_eq!(plan.send, Some("SEND m".to_string()));
    assert_eq!(plan.forward, Some(MeshEvent::Ack { from: "x".to_string() }));
    let plan = plan_tick(ReadOutcome::Failed("eof".to_string()), Outgoing::Message("m".to_string()));
    assert!(plan.stop);
    assert_eq!(plan.send, None);
    assert_eq!(plan.error, Some("Read error: eof".to_string()));
    let plan = plan_tick(ReadOutcome::Nothing, Outgoing::Closed);
    assert!(plan.stop);
    let plan = plan_tick(ReadOutcome::Nothing, Outgoing::Empty);
    assert!(!plan.stop && plan.send.is_none());
}

#[test]
fn labels() {
    assert_eq!(display_label(0x0a, None), "0x0a");
    assert_eq!(display_label(0x0a, Some("node".to_string())), "node");
}

#[test]
fn telemetry_builders() {
    let t = Telemetry::new();
    assert!(t.device.is_none() && t.environment.is_none() && t.location.is_none());
    let mut d = DeviceTelemetry::new();
    d.battery_percent = 80;
    let e = EnvironmentTelemetry::new().with_temperature_deci(215).with_humidity_deci(455).with_pressure_deci(10132);
    assert_eq!(e.temperature_deci_c(), 215);
    assert_eq!(e.humidity_deci_pct(), 455);
    assert_eq!(e.pressure_deci_hpa(), 10132);
    let mut l = LocationTelemetry::new().with_position_micro(52_370_000, 4_890_000).with_altitude_cm(1200);
    assert!(!l.has_fix());
    l.fix_type = 3;
    assert!(l.has_fix());
    assert_eq!(l.latitude_micro(), 52_370_000);
    assert_eq!(l.altitude_cm(), 1200);
    let l2 = l.clone().with_speed_cm_s(150).with_heading_deci(900);
    assert_eq!(l2.speed_cm_s(), 150);
    assert_eq!(l2.heading_deci(), 900);
    assert_eq!(l2.longitude_micro(), 4_890_000);
    let t = t.with_device(d.clone()).with_environment(e.clone()).with_location(l.clone());
    assert_eq!(t.device, Some(d));
    assert_eq!(t.environment, Some(e));
    assert_eq!(t.location, Some(l));
}

#[test]
fn neighbors_listed_by_signal() {
    let mut app = App::new("dev".to_string());
    app.update_neighbor(1, None, -80, 0);
    app.update_neighbor(2, None, -40, 0);
    app.update_neighbor(3, None, -80, 0);
    app.update_neighbor(4, None, -95, 0);
    assert_eq!(app.signal_order(), vec![2, 1, 3, 4]);
    assert_eq!(App::new("x".to_string()).signal_order(), Vec::<u8>::new());
}

#[test]
fn signal_and_age() {
    assert_eq!(signal_of(-69), Signal::Strong);
    assert_eq!(signal_of(-70), Signal::Fair);
    assert_eq!(signal_of(-90), Signal::Weak);
    assert_eq!(age_label(0), "0s");
    assert_eq!(age_label(59), "59s");
    assert_eq!(age_label(61), "1m");
    assert_eq!(age_label(3600), "60m");
}

#[test]
fn enter_on_empty_line_changes_nothing() {
    let mut app = App::new("dev".to_string());
    app.add_info(ts(), "hello".to_string());
    assert_eq!(app.handle_key(Key::Enter, ts()), None);
    assert!(!app.should_quit());
    assert_eq!(app.messages().len(), 1);
    app.handle_key(Key::Char('a'), ts());
    assert_eq!(app.handle_key(Key::Enter, ts()), Some("a".to_string()));
    assert_eq!(app.messages()[0].content, "hello");
    assert_eq!(app.messages()[1].content, "You: a");
}

#[test]
fn telemetry_from_a_document() {
    let doc: serde_json::Value = serde_json::from_str(
        "{\"device\":{\"battery\":300,\"charging\":true,\"uptime\":42,\"heap\":1000},\"location\":{\"fix\":2,\"satellites\":7}}",
    )
    .unwrap();
    let scaled = ScaledReadings { voltage_mv: Some(3700), lat_micro: Some(5), ..Default::default() };
    let t = telemetry_from_json(&doc, &scaled);
    let d = t.device.unwrap();
    assert_eq!(d.battery_percent, 44);
    assert!(d.charging && !d.usb_power);
    assert_eq!(d.uptime_secs, 42);
    assert_eq!(d.free_heap, 1000);
    assert_eq!(d.voltage_mv, 3700);
    assert!(t.environment.is_none());
    let l = t.location.unwrap();
    assert!(l.has_fix());
    assert_eq!(l.satellites, 7);
    assert_eq!(l.latitude_micro(), 5);
    assert_eq!(l.longitude_micro(), 0);
}
