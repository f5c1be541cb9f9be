use meshgrid::commands::{expect_json, expect_success, set_name_command};
use meshgrid::protocol::{ProtocolError, ReplyWait, Response};
use meshgrid::transport::{encode_frame, RxBuffer};
use meshgrid::{cobs_decode, cobs_encode};

/// A device on the other end of the link, answering framed commands.
struct FakeDevice {
    name: String,
    freq: String,
    power: i32,
}

impl FakeDevice {
    fn answer(&mut self, wire: &[u8]) -> Vec<u8> {
        assert_eq!(*wire.last().unwrap(), 0);
        let cmd = String::from_utf8(cobs_decode(&wire[..wire.len() - 1]).unwrap()).unwrap();
        let mut out = encode_frame(b"{\"type\":\"debug\",\"level\":\"INFO\",\"msg\":\"cmd\"}");
        let reply = if cmd == "INFO" {
            format!("{{\"name\":\"{}\",\"node_hash\":26,\"mode\":\"client\"}}", self.name)
        } else if cmd == "CONFIG" {
            format!("{{\"name\":\"{}\",\"freq_mhz\":{},\"tx_power_dbm\":{}}}", self.name, self.freq, self.power)
        } else if let Some(n) = cmd.strip_prefix("SET NAME ") {
            self.name = n.to_string();
            "OK".to_string()
        } else {
            "ERR unknown command".to_string()
        };
        out.extend(cobs_encode(reply.as_bytes()));
        out.push(0);
        out
    }
}

fn command(dev: &mut FakeDevice, rx: &mut RxBuffer, cmd: &str) -> Result<Response, ProtocolError> {
    rx.clear();
    let wire = encode_frame(cmd.as_bytes());
    let reply = dev.answer(&wire);
    let mut wait = ReplyWait::new(0);
    for chunk in reply.chunks(5) {
        rx.extend(chunk);
        if let Some(done) = wait.poll(rx) {
            return done;
        }
    }
    Err(ProtocolError::Timeout)
}

#[test]
fn connect_info_rename_config() {
    let mut dev = FakeDevice { name: "alice".to_string(), freq: "869.525".to_string(), power: 22 };
    let mut rx = RxBuffer::new();

    let info = expect_json(command(&mut dev, &mut rx, "INFO").unwrap(), "INFO").unwrap();
    assert_eq!(info["name"], "alice");
    assert_eq!(info["node_hash"], 26);

    let before = expect_json(command(&mut dev, &mut rx, "CONFIG").unwrap(), "CONFIG").unwrap();

    let set = command(&mut dev, &mut rx, &set_name_command("bob")).unwrap();
    assert_eq!(set, Response::Success(None));
    assert_eq!(expect_success(set, "SET NAME"), Ok(None));

    let after = expect_json(command(&mut dev, &mut rx, "CONFIG").unwrap(), "CONFIG").unwrap();
    assert_eq!(after["name"], "bob");
    assert_eq!(after["freq_mhz"], before["freq_mhz"]);
    assert_eq!(after["tx_power_dbm"], before["tx_power_dbm"]);

    let err = command(&mut dev, &mut rx, "BOGUS").unwrap();
    assert_eq!(err, Response::Error("unknown command".to_string()));
}
