//! Typed records that the device reports, and how the asynchronous answer
//! to a trace is recognised.
use vstd::prelude::*;
use crate::json::{json_document, json_elements, json_get, json_member, json_string, json_u64, parse_json};
use crate::protocol::ProtocolError;
use crate::text::{chars_of, same_chars, string_of};

verus! {

/// How long a trace waits for its answer, in milliseconds.
pub const TRACE_LIMIT_MS: u64 = 10_000;

/// One entry of the device's neighbor table.
#[derive(Debug, Clone, PartialEq, Eq)]
pub struct NeighborInfo {
    pub node_hash: u8,
    pub name: Option<String>,
    pub public_key: Option<[u8; 32]>,
    pub rssi: i16,
    pub snr: i8,
    pub last_seen_secs: u32,
    pub firmware: Option<String>,
}

/// The route that a trace found.
#[derive(Debug, Clone, PartialEq, Eq)]
pub struct TraceResult {
    pub path: Vec<String>,
    pub hop_count: u8,
    pub rtt_ms: u32,
}

/// A `TraceResult` with its strings as character sequences.
pub struct TraceView {
    pub path: Seq<Seq<char>>,
    pub hop_count: u8,
    pub rtt_ms: u32,
}

impl View for TraceResult {
    type V = TraceView;

    open spec fn view(&self) -> TraceView {
        TraceView {
            path: self.path@.map_values(|s: String| s@),
            hop_count: self.hop_count,
            rtt_ms: self.rtt_ms,
        }
    }
}

/// The strings among `items`, in order; other values are passed over.
pub open spec fn strings_in(items: Seq<serde_json::Value>) -> Seq<Seq<char>>
    decreases items.len(),
{
    if items.len() == 0 {
        Seq::empty()
    } else {
        let r = strings_in(items.drop_last());
        match json_string(items.last()) {
            Some(s) => r.push(s),
            None => r,
        }
    }
}

/// A whole-number member of `doc`, or 0 where there is none.
pub open spec fn count_member(doc: serde_json::Value, key: Seq<char>) -> u64 {
    match json_member(doc, key) {
        Some(m) => match json_u64(m) {
            Some(v) => v,
            None => 0,
        },
        None => 0,
    }
}

/// The trace answer that a document holds: an object whose `"type"` is
/// `"trace_response"`, with the strings of its `"path"` array, its `"hops"`
/// cut to a byte and its `"rtt_ms"` cut to 32 bits (0 where missing).
pub open spec fn trace_of(doc: serde_json::Value) -> Option<TraceView> {
    let tag = seq!['t', 'r', 'a', 'c', 'e', '_', 'r', 'e', 's', 'p', 'o', 'n', 's', 'e'];
    match json_member(doc, "type"@) {
        Some(m) => if json_string(m) == Some(tag) {
            Some(
                TraceView {
                    path: match json_member(doc, "path"@) {
                        Some(p) => match json_elements(p) {
                            Some(items) => strings_in(items),
                            None => Seq::empty(),
                        },
                        None => Seq::empty(),
                    },
                    hop_count: count_member(doc, "hops"@) as u8,
                    rtt_ms: count_member(doc, "rtt_ms"@) as u32,
                },
            )
        } else {
            None
        },
        None => None,
    }
}

/// The trace answer that a line holds, if it is one.
pub open spec fn trace_line(t: Seq<char>) -> Option<TraceView> {
    match json_document(t) {
        Some(d) => trace_of(d),
        None => None,
    }
}

/// A whole-number member of `doc`, or 0.
fn read_count(doc: &serde_json::Value, key: &str) -> (r: u64)
    ensures
        r == count_member(*doc, key@),
{
    match json_get(doc, key) {
        Some(m) => match m.as_u64() {
            Some(v) => v,
            None => 0,
        },
        None => 0,
    }
}

/// The strings of a `"path"` member, in order.
fn read_path(doc: &serde_json::Value) -> (r: Vec<String>)
    ensures
        r@.map_values(|s: String| s@) == match json_member(*doc, "path"@) {
            Some(p) => match json_elements(p) {
                Some(items) => strings_in(items),
                None => Seq::empty(),
            },
            None => Seq::empty(),
        },
{
    let mut r: Vec<String> = Vec::new();
    match json_get(doc, "path") {
        Some(p) => match p.as_array() {
            Some(items) => {
                let mut i: usize = 0;
                while i < items.len()
                    invariant
                        i <= items@.len(),
                        r@.map_values(|s: String| s@) == strings_in(items@.take(i as int)),
                    decreases items.len() - i,
                {
                    proof {
                        let t = items@.take(i + 1);
                        assert(t.drop_last() =~= items@.take(i as int));
                        assert(t.last() == items@[i as int]);
                    }
                    match items[i].as_str() {
                        Some(t) => {
                            let c = chars_of(t);
                            let ghost before = r@;
                            r.push(string_of(c.as_slice(), 0, c.len()));
                            proof {
                                assert(c@.subrange(0, c@.len() as int) =~= t@);
                                assert(r@.map_values(|s: String| s@) =~= before.map_values(|s: String| s@).push(t@));
                            }
                        },
                        None => {},
                    }
                    i = i + 1;
                }
                proof {
                    assert(items@.take(items@.len() as int) =~= items@);
                }
                r
            },
            None => {
                proof {
                    assert(r@.map_values(|s: String| s@) =~= Seq::<Seq<char>>::empty());
                }
                r
            },
        },
        None => {
            proof {
                assert(r@.map_values(|s: String| s@) =~= Seq::<Seq<char>>::empty());
            }
            r
        },
    }
}

/// The trace answer that a line holds: `None` for any other line.
pub fn trace_reply(line: &str) -> (r: Option<TraceResult>)
    ensures
        match r {
            Some(t) => trace_line(line@) == Some(t@),
            None => trace_line(line@) is None,
        },
{
    let doc = match parse_json(line) {
        Ok(d) => d,
        Err(_) => return None,
    };
    let is_trace = match json_get(&doc, "type") {
        Some(m) => match m.as_str() {
            Some(t) => {
                let c = chars_of(t);
                same_chars(
                    c.as_slice(),
                    &['t', 'r', 'a', 'c', 'e', '_', 'r', 'e', 's', 'p', 'o', 'n', 's', 'e'],
                )
            },
            None => false,
        },
        None => false,
    };
    if !is_trace {
        return None;
    }
    let path = read_path(&doc);
    let hops = read_count(&doc, "hops");
    let rtt = read_count(&doc, "rtt_ms");
    Some(TraceResult { path, hop_count: hops as u8, rtt_ms: rtt as u32 })
}

/// One look at a trace that waits for its answer: a line that holds the
/// answer ends the wait, even one read as the limit passed; otherwise the
/// trace gives up once more than `TRACE_LIMIT_MS` have passed since
/// `started_ms`, and keeps waiting before that.
pub fn trace_poll(started_ms: u64, now_ms: u64, line: Option<&str>) -> (r: Option<Result<TraceResult, ProtocolError>>)
    ensures
        match line {
            Some(l) if trace_line(l@) is Some => r matches Some(Ok(x)) && x@ == trace_line(l@)->0,
            _ => if now_ms - started_ms > TRACE_LIMIT_MS {
                r == Some(Err::<TraceResult, ProtocolError>(ProtocolError::TraceTimeout))
            } else {
                r is None
            },
        },
{
    match line {
        Some(l) => match trace_reply(l) {
            Some(t) => return Some(Ok(t)),
            None => {},
        },
        None => {},
    }
    if now_ms >= started_ms && now_ms - started_ms > TRACE_LIMIT_MS {
        Some(Err(ProtocolError::TraceTimeout))
    } else {
        None
    }
}

} // verus!
