use meshgrid::protocol::{classify_line, debug_output_line, COMMAND_TIMEOUT_MS, Arrival, ProtocolError, ReplyWait, Response, SKIP_BUDGET};
use meshgrid::transport::{encode_frame, RxBuffer};

fn json(text: &str) -> serde_json::Value {
    serde_json::from_str(text).unwrap()
}

#[test]
fn classifies_the_response_kinds() {
    assert_eq!(classify_line("OK"), Some(Response::Success(None)));
    assert_eq!(classify_line("OK foo"), Some(Response::Success(Some("foo".to_string()))));
    assert_eq!(classify_line("OK   "), Some(Response::Success(None)));
    assert_eq!(classify_line("ERR bad arg"), Some(Response::Error("bad arg".to_string())));
    assert_eq!(classify_line("{\"a\":1}"), Some(Response::Json(json("{\"a\":1}"))));
    assert_eq!(classify_line("[]"), Some(Response::Json(json("[]"))));
    assert_eq!(classify_line("PONG"), Some(Response::Success(Some("PONG".to_string()))));
    assert_eq!(classify_line("PKT 4"), Some(Response::Success(Some("PKT 4".to_string()))));
}

#[test]
fn skips_debug_and_chatter() {
    assert_eq!(classify_line("{\"type\":\"debug\",\"level\":\"INFO\",\"msg\":\"boot\"}"), None);
    assert_eq!(classify_line("rst:0x1 (POWERON_RESET)"), None);
    assert_eq!(classify_line(""), None);
}

#[test]
fn broken_json_is_skipped_and_counted() {
    assert_eq!(classify_line("{oops"), None);
    assert_eq!(classify_line("[1,"), None);
    let mut wait = ReplyWait::new(0);
    assert_eq!(wait.step(Arrival::Frame(b"{oops".to_vec())), None);
    assert_eq!(wait.skipped_frames(), 1);
    assert_eq!(wait.step(Arrival::Frame(b"OK".to_vec())), Some(Ok(Response::Success(None))));
}

fn debug_frame() -> Vec<u8> {
    b"{\"type\":\"debug\",\"level\":\"INFO\",\"msg\":\"tick\"}".to_vec()
}

fn run(frames: Vec<Vec<u8>>) -> Option<Result<Response, ProtocolError>> {
    let mut wait = ReplyWait::new(0);
    for f in frames {
        if let Some(done) = wait.step(Arrival::Frame(f)) {
            return Some(done);
        }
    }
    None
}

#[test]
fn skip_budget_below_limit_answers() {
    let mut frames: Vec<Vec<u8>> = (0..SKIP_BUDGET - 1).map(|_| debug_frame()).collect();
    frames.push(b"OK".to_vec());
    assert_eq!(run(frames), Some(Ok(Response::Success(None))));
}

#[test]
fn skip_budget_at_limit_fails() {
    let mut frames: Vec<Vec<u8>> = (0..SKIP_BUDGET).map(|_| debug_frame()).collect();
    frames.push(b"OK".to_vec());
    assert_eq!(run(frames), Some(Err(ProtocolError::TooManyUnrecognizedFrames)));
    let mut frames: Vec<Vec<u8>> = (0..SKIP_BUDGET + 5).map(|_| b"garbage".to_vec()).collect();
    frames.push(b"OK".to_vec());
    assert_eq!(run(frames), Some(Err(ProtocolError::TooManyUnrecognizedFrames)));
}

#[test]
fn timeout_is_distinct_from_device_error() {
    let mut wait = ReplyWait::new(0);
    assert_eq!(wait.step(Arrival::Silence), Some(Err(ProtocolError::Timeout)));
    let mut wait = ReplyWait::new(0);
    assert_eq!(
        wait.step(Arrival::Frame(b"ERR nope".to_vec())),
        Some(Ok(Response::Error("nope".to_string())))
    );
    let mut wait = ReplyWait::new(0);
    assert_eq!(wait.step(Arrival::Corrupt), Some(Err(ProtocolError::Framing)));
}

#[test]
fn poll_reads_frames_from_the_buffer() {
    let mut rx = RxBuffer::new();
    let mut bytes = encode_frame(&debug_frame());
    bytes.extend(encode_frame(b"OK done"));
    bytes.extend(encode_frame(b"OK later"));
    let cut = 7;
    rx.extend(&bytes[..cut]);
    let mut wait = ReplyWait::new(0);
    assert_eq!(wait.poll(&mut rx), None);
    rx.extend(&bytes[cut..]);
    assert_eq!(wait.poll(&mut rx), Some(Ok(Response::Success(Some("done".to_string())))));
    assert_eq!(wait.skipped_frames(), 1);
    assert_eq!(rx.take_frame(), Some(Some(b"OK later".to_vec())));
}

#[test]
fn corrupt_frame_in_buffer_is_a_framing_error() {
    let mut rx = RxBuffer::new();
    rx.extend(&[5, 1, 2, 0]);
    let mut wait = ReplyWait::new(0);
    assert_eq!(wait.poll(&mut rx), Some(Err(ProtocolError::Framing)));
}

#[test]
fn lines_are_cut_and_trimmed() {
    let mut rx = RxBuffer::new();
    rx.extend(b"ADV 0x1a 10 Alice  \r\npartial");
    assert_eq!(rx.take_line(), Some("ADV 0x1a 10 Alice".to_string()));
    assert_eq!(rx.take_line(), None);
    assert_eq!(rx.len(), 7);
    rx.extend(b"\n");
    assert_eq!(rx.take_line(), Some("partial".to_string()));
    assert_eq!(rx.take_bytes(3), Vec::<u8>::new());
}

#[test]
fn raw_bytes_come_off_the_front() {
    let mut rx = RxBuffer::new();
    rx.extend(&[9, 8, 7, 6]);
    assert_eq!(rx.take_bytes(3), vec![9, 8, 7]);
    assert_eq!(rx.take_bytes(3), vec![6]);
    rx.extend(&[1]);
    rx.clear();
    assert_eq!(rx.len(), 0);
}

#[test]
fn outgoing_frame_ends_in_delimiter() {
    assert_eq!(encode_frame(b"INFO"), vec![5, b'I', b'N', b'F', b'O', 0]);
}

#[test]
fn debug_frames_are_written_out() {
    assert_eq!(
        debug_output_line("{\"type\":\"debug\",\"level\":\"WARN\",\"msg\":\"low battery\"}"),
        Some("[WARN] low battery\n".to_string())
    );
    assert_eq!(debug_output_line("{\"type\":\"debug\"}"), Some("[INFO] \n".to_string()));
    assert_eq!(debug_output_line("{\"type\":\"info\",\"msg\":\"x\"}"), None);
    assert_eq!(debug_output_line("OK"), None);
}

#[test]
fn request_deadline() {
    let wait = ReplyWait::new(1000);
    assert_eq!(wait.time_left(1000), COMMAND_TIMEOUT_MS);
    assert_eq!(wait.time_left(1000 + COMMAND_TIMEOUT_MS - 1), 1);
    assert_eq!(wait.time_left(1000 + COMMAND_TIMEOUT_MS), 0);
    assert_eq!(wait.time_left(u64::MAX), 0);
    assert_eq!(ReplyWait::new(u64::MAX - 1).time_left(0), u64::MAX);
}
