//! Monitor mode: the event lines that the device emits unasked, and the
//! events that the library hands on.
use vstd::prelude::*;
use crate::number::{int_in, parse_signed, parse_unsigned};
use crate::text::{chars_of, has_prefix, split_n, split_pieces, starts_with, string_of};

verus! {

/// An event line of monitor mode.
#[derive(Debug, Clone, PartialEq, Eq)]
pub enum MonitorEvent {
    /// A text message heard on the mesh; `to` is `None` for a broadcast.
    Message { from: String, to: Option<String>, rssi: i16, snr: Option<i8>, text: String },
    /// A node announced itself.
    Advertisement { node_hash: u8, rssi: i16, name: Option<String> },
    /// A message was acknowledged.
    Ack { from: String },
    /// The device reported an error.
    Error { message: String },
}

/// A `MonitorEvent` with its strings as character sequences.
pub enum MonitorEventView {
    Message { from: Seq<char>, to: Option<Seq<char>>, rssi: i16, snr: Option<i8>, text: Seq<char> },
    Advertisement { node_hash: u8, rssi: i16, name: Option<Seq<char>> },
    Ack { from: Seq<char> },
    Error { message: Seq<char> },
}

/// The characters of an optional string.
pub open spec fn opt_view(s: Option<String>) -> Option<Seq<char>> {
    match s {
        Some(t) => Some(t@),
        None => None,
    }
}

impl View for MonitorEvent {
    type V = MonitorEventView;

    open spec fn view(&self) -> MonitorEventView {
        match self {
            MonitorEvent::Message { from, to, rssi, snr, text } => MonitorEventView::Message {
                from: from@,
                to: opt_view(*to),
                rssi: *rssi,
                snr: *snr,
                text: text@,
            },
            MonitorEvent::Advertisement { node_hash, rssi, name } => MonitorEventView::Advertisement {
                node_hash: *node_hash,
                rssi: *rssi,
                name: opt_view(*name),
            },
            MonitorEvent::Ack { from } => MonitorEventView::Ack { from: from@ },
            MonitorEvent::Error { message } => MonitorEventView::Error { message: message@ },
        }
    }
}

/// `s` without the `0x` prefixes it starts with, as `trim_start_matches("0x")`
/// gives it.
pub open spec fn strip_hex_prefix(s: Seq<char>) -> Seq<char>
    decreases s.len(),
{
    if s.len() >= 2 && s[0] == '0' && s[1] == 'x' {
        strip_hex_prefix(s.skip(2))
    } else {
        s
    }
}

/// A signed strength field: its decimal value; `None` where it does not
/// parse as an `i16`.
pub open spec fn rssi_field(s: Seq<char>) -> Option<i16> {
    match int_in(s, 10, true, -32768, 32767) {
        Some(v) => Some(v as i16),
        None => None,
    }
}

/// A node hash field: hexadecimal after any `0x` prefixes; `None` where it
/// does not parse as a `u8`.
pub open spec fn hash_field(s: Seq<char>) -> Option<u8> {
    match int_in(strip_hex_prefix(s), 16, false, 0, 255) {
        Some(v) => Some(v as u8),
        None => None,
    }
}

/// The event that a monitor line stands for:
/// `MSG <from> <to|*> <rssi> <snr> <text...>`, `ADV <hash> <rssi> [<name>]`,
/// `ACK <from>`, `ERR <message>`. `None` for any other line, for an `MSG`
/// or `ADV` line with too few fields, and for one whose strength or hash
/// does not parse: a malformed line is ignored. A signal-to-noise field that
/// does not parse is reported as absent.
pub open spec fn monitor_event(t: Seq<char>) -> Option<MonitorEventView> {
    if starts_with(t, seq!['M', 'S', 'G', ' ']) {
        let p = split_n(t, 6, ' ');
        if p.len() >= 6 && rssi_field(p[3]) is Some {
            Some(MonitorEventView::Message {
                from: p[1],
                to: if p[2] == seq!['*'] {
                    None
                } else {
                    Some(p[2])
                },
                rssi: rssi_field(p[3])->0,
                snr: match int_in(p[4], 10, true, -128, 127) {
                    Some(v) => Some(v as i8),
                    None => None,
                },
                text: p[5],
            })
        } else {
            None
        }
    } else if starts_with(t, seq!['A', 'D', 'V', ' ']) {
        let p = split_n(t, 4, ' ');
        if p.len() >= 3 && hash_field(p[1]) is Some && rssi_field(p[2]) is Some {
            Some(MonitorEventView::Advertisement {
                node_hash: hash_field(p[1])->0,
                rssi: rssi_field(p[2])->0,
                name: if p.len() > 3 {
                    Some(p[3])
                } else {
                    None
                },
            })
        } else {
            None
        }
    } else if starts_with(t, seq!['A', 'C', 'K', ' ']) {
        Some(MonitorEventView::Ack { from: t.skip(4) })
    } else if starts_with(t, seq!['E', 'R', 'R', ' ']) {
        Some(MonitorEventView::Error { message: t.skip(4) })
    } else {
        None
    }
}

/// Reads a signed strength field.
fn read_rssi(s: &Vec<char>) -> (r: Option<i16>)
    ensures
        r == rssi_field(s@),
{
    proof {
        assert(s@.subrange(0, s@.len() as int) =~= s@);
    }
    match parse_signed(s.as_slice(), 0, s.len(), -32768, 32767) {
        Some(v) => Some(v as i16),
        None => None,
    }
}

/// Reads a node hash field.
fn read_hash(s: &Vec<char>) -> (r: Option<u8>)
    ensures
        r == hash_field(s@),
{
    let mut i: usize = 0;
    proof {
        assert(s@.skip(0) =~= s@);
    }
    while s.len() - i >= 2 && s[i] == '0' && s[i + 1] == 'x'
        invariant
            i <= s@.len(),
            strip_hex_prefix(s@.skip(i as int)) == strip_hex_prefix(s@),
        decreases s@.len() - i,
    {
        proof {
            let t = s@.skip(i as int);
            assert(t[0] == '0' && t[1] == 'x');
            assert(t.skip(2) =~= s@.skip(i + 2));
        }
        i = i + 2;
    }
    proof {
        let t = s@.skip(i as int);
        if t.len() >= 2 {
            assert(t[0] == s@[i as int] && t[1] == s@[i + 1]);
        }
        assert(strip_hex_prefix(t) == t);
        assert(s@.subrange(i as int, s@.len() as int) =~= t);
    }
    match parse_unsigned(s.as_slice(), i, s.len(), 16, 255) {
        Some(v) => Some(v as u8),
        None => None,
    }
}

/// Decodes one monitor line; `None` for a line that is no event, so that a
/// corrupt line costs nothing but itself.
pub fn parse_monitor_line(line: &str) -> (r: Option<MonitorEvent>)
    ensures
        match r {
            Some(e) => monitor_event(line@) == Some(e@),
            None => monitor_event(line@) is None,
        },
{
    let c = chars_of(line);
    let n = c.len();
    if has_prefix(c.as_slice(), &['M', 'S', 'G', ' ']) {
        let p = split_pieces(c.as_slice(), 6, ' ');
        if p.len() < 6 {
            return None;
        }
        let rssi = match read_rssi(&p[3]) {
            Some(v) => v,
            None => return None,
        };
        let to_all = p[2].len() == 1 && p[2][0] == '*';
        proof {
            if p@[2]@.len() == 1 {
                if p@[2]@[0] == '*' {
                    assert(p@[2]@ =~= seq!['*']);
                }
            }
        }
        let to = if to_all {
            None
        } else {
            Some(string_of(p[2].as_slice(), 0, p[2].len()))
        };
        proof {
            assert(p@[4]@.subrange(0, p@[4]@.len() as int) =~= p@[4]@);
        }
        let snr = match parse_signed(p[4].as_slice(), 0, p[4].len(), -128, 127) {
            Some(v) => Some(v as i8),
            None => None,
        };
        proof {
            assert(p@[1]@.subrange(0, p@[1]@.len() as int) =~= p@[1]@);
            assert(p@[2]@.subrange(0, p@[2]@.len() as int) =~= p@[2]@);
            assert(p@[5]@.subrange(0, p@[5]@.len() as int) =~= p@[5]@);
        }
        Some(
            MonitorEvent::Message {
                from: string_of(p[1].as_slice(), 0, p[1].len()),
                to,
                rssi,
                snr,
                text: string_of(p[5].as_slice(), 0, p[5].len()),
            },
        )
    } else if has_prefix(c.as_slice(), &['A', 'D', 'V', ' ']) {
        let p = split_pieces(c.as_slice(), 4, ' ');
        if p.len() < 3 {
            return None;
        }
        let node_hash = match read_hash(&p[1]) {
            Some(v) => v,
            None => return None,
        };
        let rssi = match read_rssi(&p[2]) {
            Some(v) => v,
            None => return None,
        };
        let name = if p.len() > 3 {
            proof {
                assert(p@[3]@.subrange(0, p@[3]@.len() as int) =~= p@[3]@);
            }
            Some(string_of(p[3].as_slice(), 0, p[3].len()))
        } else {
            None
        };
        Some(
            MonitorEvent::Advertisement {
                node_hash,
                rssi,
                name,
            },
        )
    } else if has_prefix(c.as_slice(), &['A', 'C', 'K', ' ']) {
        proof {
            assert(c@.subrange(4, n as int) =~= line@.skip(4));
        }
        Some(MonitorEvent::Ack { from: string_of(c.as_slice(), 4, n) })
    } else if has_prefix(c.as_slice(), &['E', 'R', 'R', ' ']) {
        proof {
            assert(c@.subrange(4, n as int) =~= line@.skip(4));
        }
        Some(MonitorEvent::Error { message: string_of(c.as_slice(), 4, n) })
    } else {
        None
    }
}

} // verus!
