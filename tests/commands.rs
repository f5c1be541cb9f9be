use base64::Engine;
use sha2::Digest;
use meshgrid::channels::{channel_join_command, channel_leave_command, mode_command, preset_command, time_command};
use meshgrid::cli::{DeviceMode, MessagesAction};
use meshgrid::commands::{
    broadcast_command, channel_send_command, direct_command, expect_json, expect_success, packet_header,
    parse_packet_header, set_name_command, set_power_command, spreading_factor_command, trace_command,
    MAX_PACKET_LEN,
};
use meshgrid::device::{is_node_hash, resolve_destination, NeighborInfo};
use meshgrid::protocol::{ProtocolError, Response};
use meshgrid::records::{trace_poll, trace_reply, TraceResult, TRACE_LIMIT_MS};

#[test]
fn command_texts() {
    assert_eq!(set_name_command("bob"), "SET NAME bob");
    assert_eq!(set_power_command(-5), "SET POWER -5");
    assert_eq!(set_power_command(22), "SET POWER 22");
    assert_eq!(set_power_command(-128), "SET POWER -128");
    assert_eq!(spreading_factor_command(12), "SET SF 12");
    assert_eq!(broadcast_command("hi all"), "SEND hi all");
    assert_eq!(direct_command("0x1a", "hey"), "SEND 0x1a hey");
    assert_eq!(channel_send_command("Public", "yo"), "CHANNEL SEND Public yo");
    assert_eq!(trace_command("node7"), "TRACE node7");
    assert_eq!(time_command("2024-01-02 03:04:05"), "/time 2024-01-02 03:04:05");
    assert_eq!(preset_command("eu"), "SET PRESET EU");
    assert_eq!(MessagesAction::Show.command(), "MESSAGES");
    assert_eq!(MessagesAction::Clear.command(), "MESSAGES CLEAR");
    assert_eq!(channel_leave_command("test"), "CHANNEL LEAVE test");
}

#[test]
fn packet_headers() {
    assert_eq!(packet_header(0), "PKT 0\n");
    assert_eq!(packet_header(1234), "PKT 1234\n");
    assert_eq!(parse_packet_header("PKT 12"), Ok(Some(12)));
    assert_eq!(parse_packet_header("PKT  +7 "), Ok(Some(7)));
    assert_eq!(parse_packet_header("OK"), Ok(None));
    assert_eq!(parse_packet_header("PKTx"), Err(ProtocolError::InvalidPacketHeader("PKTx".to_string())));
    assert_eq!(parse_packet_header("PKT"), Err(ProtocolError::InvalidPacketHeader("PKT".to_string())));
    assert_eq!(parse_packet_header("PKT 99999"), Err(ProtocolError::PacketTooLarge(99999)));
    assert_eq!(parse_packet_header(&format!("PKT {}", MAX_PACKET_LEN)), Ok(Some(MAX_PACKET_LEN)));
}

#[test]
fn mode_commands() {
    assert_eq!(mode_command("Repeater"), Some("/mode repeater".to_string()));
    assert_eq!(mode_command("client"), Some("/mode client".to_string()));
    assert_eq!(mode_command("ROOM"), Some("/mode room".to_string()));
    assert_eq!(mode_command("router"), None);
    assert_eq!(DeviceMode::Room.name(), "room");
}

#[test]
fn hashtag_channel_key_is_derived() {
    // SHA-256("#test") in standard base64
    let expected = base64::engine::general_purpose::STANDARD.encode(sha2::Sha256::digest(b"#test"));
    assert_ne!(expected, "#test");
    assert_eq!(channel_join_command("#test", None), Some(format!("CHANNEL JOIN #test {}", expected)));
    assert_eq!(channel_join_command("#test", Some("ignored")), Some(format!("CHANNEL JOIN #test {}", expected)));
    assert_eq!(channel_join_command("private", Some("a2V5")), Some("CHANNEL JOIN private a2V5".to_string()));
    assert_eq!(channel_join_command("private", None), None);
}

#[test]
fn typed_requests_check_the_reply_kind() {
    assert_eq!(expect_success(Response::Success(None), "REBOOT"), Ok(None));
    assert_eq!(
        expect_success(Response::Error("no".to_string()), "REBOOT"),
        Err(ProtocolError::Device("no".to_string()))
    );
    assert_eq!(
        expect_success(Response::Json(serde_json::Value::Null), "REBOOT"),
        Err(ProtocolError::UnexpectedResponse("REBOOT".to_string()))
    );
    assert_eq!(
        expect_json(Response::Success(Some("x".to_string())), "INFO"),
        Err(ProtocolError::UnexpectedResponse("INFO".to_string()))
    );
    assert_eq!(expect_json(Response::Json(serde_json::Value::Bool(true)), "INFO"), Ok(serde_json::Value::Bool(true)));
}

#[test]
fn trace_answers() {
    let line = "{\"type\":\"trace_response\",\"path\":[\"a\",7,\"b\"],\"hops\":258,\"rtt_ms\":42}";
    assert_eq!(
        trace_reply(line),
        Some(TraceResult { path: vec!["a".to_string(), "b".to_string()], hop_count: 2, rtt_ms: 42 })
    );
    assert_eq!(
        trace_reply("{\"type\":\"trace_response\"}"),
        Some(TraceResult { path: vec![], hop_count: 0, rtt_ms: 0 })
    );
    assert_eq!(trace_reply("{\"type\":\"debug\"}"), None);
    assert_eq!(trace_reply("OK"), None);
    assert!(matches!(trace_poll(100, 100 + TRACE_LIMIT_MS + 1, Some(line)), Some(Ok(_))));
    assert_eq!(trace_poll(100, 100 + TRACE_LIMIT_MS + 1, Some("noise")), Some(Err(ProtocolError::TraceTimeout)));
    assert_eq!(trace_poll(100, 100 + TRACE_LIMIT_MS + 1, None), Some(Err(ProtocolError::TraceTimeout)));
    assert_eq!(trace_poll(100, 100 + TRACE_LIMIT_MS, None), None);
    assert!(matches!(trace_poll(100, 200, Some(line)), Some(Ok(_))));
    assert_eq!(trace_poll(100, 200, Some("noise")), None);
    assert_eq!(trace_poll(100, 200, None), None);
}

#[test]
fn destinations_resolve_by_name() {
    let table = vec![
        NeighborInfo { node_hash: 0x0b, name: Some("alice".to_string()), rssi: -50, snr: 3, last_seen_secs: 1 },
        NeighborInfo { node_hash: 0xc4, name: Some("bob".to_string()), rssi: -60, snr: 1, last_seen_secs: 2 },
    ];
    assert_eq!(resolve_destination("bob", &table), "0xc4");
    assert_eq!(resolve_destination("alice", &table), "0xb");
    assert_eq!(resolve_destination("0x99", &table), "0x99");
    assert_eq!(resolve_destination("carol", &table), "carol");
    assert!(is_node_hash("0x1a"));
    assert!(!is_node_hash("alice"));
}
