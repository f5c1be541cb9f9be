//! The device-level view of events and neighbors, and how a destination
//! given by name is resolved to a node hash.
use vstd::prelude::*;
use crate::events::{MonitorEvent, MonitorEventView, opt_view};
use crate::records;
use crate::text::{chars_of, has_prefix, push_char, push_chars, push_str, starts_with};

verus! {

/// An event heard in monitor mode, as the device layer hands it on.
#[derive(Debug, Clone, PartialEq, Eq)]
pub enum MeshEvent {
    Message { from: String, to: Option<String>, text: String, rssi: i16, snr: i8 },
    Advertisement { node_hash: u8, name: Option<String>, rssi: i16 },
    Ack { from: String },
    Error { message: String },
}

/// The event that a monitor event becomes: an absent signal-to-noise ratio
/// reads as 0.
pub open spec fn mesh_event_matches(e: MeshEvent, m: MonitorEventView) -> bool {
    match (e, m) {
        (
            MeshEvent::Message { from, to, text, rssi, snr },
            MonitorEventView::Message { from: f, to: t, rssi: r, snr: s, text: x },
        ) => from@ == f && opt_view(to) == t && text@ == x && rssi == r && snr == match s {
            Some(v) => v,
            None => 0i8,
        },
        (
            MeshEvent::Advertisement { node_hash, name, rssi },
            MonitorEventView::Advertisement { node_hash: h, rssi: r, name: n },
        ) => node_hash == h && opt_view(name) == n && rssi == r,
        (MeshEvent::Ack { from }, MonitorEventView::Ack { from: f }) => from@ == f,
        (MeshEvent::Error { message }, MonitorEventView::Error { message: m }) => message@ == m,
        _ => false,
    }
}

impl MeshEvent {
    /// The event that a decoded monitor line becomes.
    pub fn from_monitor(e: MonitorEvent) -> (r: MeshEvent)
        ensures
            mesh_event_matches(r, e@),
    {
        match e {
            MonitorEvent::Message { from, to, rssi, snr, text } => MeshEvent::Message {
                from,
                to,
                text,
                rssi,
                snr: match snr {
                    Some(v) => v,
                    None => 0,
                },
            },
            MonitorEvent::Advertisement { node_hash, rssi, name } => MeshEvent::Advertisement {
                node_hash,
                name,
                rssi,
            },
            MonitorEvent::Ack { from } => MeshEvent::Ack { from },
            MonitorEvent::Error { message } => MeshEvent::Error { message },
        }
    }
}

/// A neighbor as the device layer reports it.
#[derive(Debug, Clone, PartialEq, Eq)]
pub struct NeighborInfo {
    pub node_hash: u8,
    pub name: Option<String>,
    pub rssi: i16,
    pub snr: i8,
    pub last_seen_secs: u32,
}

impl NeighborInfo {
    /// The device-level entry for a neighbor-table entry.
    pub fn from_record(n: records::NeighborInfo) -> (r: NeighborInfo)
        ensures
            r.node_hash == n.node_hash,
            r.name == n.name,
            r.rssi == n.rssi,
            r.snr == n.snr,
            r.last_seen_secs == n.last_seen_secs,
    {
        NeighborInfo {
            node_hash: n.node_hash,
            name: n.name,
            rssi: n.rssi,
            snr: n.snr,
            last_seen_secs: n.last_seen_secs,
        }
    }
}

/// The lower-case hexadecimal digit for `d`.
pub open spec fn hex_digit(d: nat) -> char {
    if d < 10 {
        (d + 48) as char
    } else {
        (d + 87) as char
    }
}

/// `b` in lower-case hexadecimal without leading zeros: `format!("{:x}")`.
pub open spec fn hex_text(b: u8) -> Seq<char> {
    if b < 16 {
        seq![hex_digit(b as nat)]
    } else {
        seq![hex_digit(b as nat / 16), hex_digit(b as nat % 16)]
    }
}

/// `b` as two lower-case hexadecimal digits: `format!("{:02x}")`.
pub open spec fn hex_pair(b: u8) -> Seq<char> {
    seq![hex_digit(b as nat / 16), hex_digit(b as nat % 16)]
}

/// The character of a hexadecimal digit.
fn hex_char(d: u8) -> (c: char)
    requires
        d < 16,
    ensures
        c == hex_digit(d as nat),
{
    let t: [char; 16] = ['0', '1', '2', '3', '4', '5', '6', '7', '8', '9', 'a', 'b', 'c', 'd', 'e', 'f'];
    let c = t[d as usize];
    proof {
        assert(t@[d as int] == c);
    }
    c
}

/// Appends `b` in hexadecimal: two digits where `pad`, else without leading
/// zeros.
pub fn push_hex(s: &mut String, b: u8, pad: bool)
    ensures
        final(s)@ == old(s)@ + if pad {
            hex_pair(b)
        } else {
            hex_text(b)
        },
{
    if pad || b >= 16 {
        push_char(s, hex_char(b / 16));
    }
    push_char(s, hex_char(b % 16));
    proof {
        if pad || b >= 16 {
            assert(final(s)@ =~= old(s)@ + hex_pair(b));
        } else {
            assert(final(s)@ =~= old(s)@ + hex_text(b));
        }
    }
}

/// Where a direct message goes: a destination that starts with `0x` is a
/// node hash and stays as it is; a name that a neighbor carries becomes
/// that neighbor's hash (`0x` and hexadecimal, the first such neighbor);
/// any other name is sent as given.
pub open spec fn destination(dest: Seq<char>, neighbors: Seq<NeighborInfo>) -> Seq<char> {
    if starts_with(dest, seq!['0', 'x']) {
        dest
    } else if exists|i: int| 0 <= i < neighbors.len() && opt_view(neighbors[i].name) == Some(dest) {
        let i = choose|i: int|
            0 <= i < neighbors.len() && opt_view(neighbors[i].name) == Some(dest) && forall|j: int|
                0 <= j < i ==> opt_view(#[trigger] neighbors[j].name) != Some(dest);
        seq!['0', 'x'] + hex_text(neighbors[i].node_hash)
    } else {
        dest
    }
}

/// Whether a destination is already a node hash (`0x...`), so that no
/// lookup is needed.
pub fn is_node_hash(dest: &str) -> (r: bool)
    ensures
        r == starts_with(dest@, seq!['0', 'x']),
{
    let c = chars_of(dest);
    has_prefix(c.as_slice(), &['0', 'x'])
}

/// Resolves the destination of a direct message against the neighbor table.
pub fn resolve_destination(dest: &str, neighbors: &Vec<NeighborInfo>) -> (r: String)
    ensures
        r@ == destination(dest@, neighbors@),
{
    let c = chars_of(dest);
    let mut out = String::new();
    if has_prefix(c.as_slice(), &['0', 'x']) {
        push_str(&mut out, dest);
        return out;
    }
    let mut i: usize = 0;
    while i < neighbors.len()
        invariant
            i <= neighbors@.len(),
            c@ == dest@,
            !starts_with(dest@, seq!['0', 'x']),
            forall|j: int| 0 <= j < i ==> opt_view(#[trigger] neighbors@[j].name) != Some(dest@),
            out@ == Seq::<char>::empty(),
        decreases neighbors.len() - i,
    {
        let hit = match &neighbors[i].name {
            Some(n) => {
                let nc = chars_of(n.as_str());
                crate::text::same_chars(nc.as_slice(), c.as_slice())
            },
            None => false,
        };
        if hit {
            push_chars(&mut out, &['0', 'x'], 0, 2);
            push_hex(&mut out, neighbors[i].node_hash, false);
            proof {
                assert(opt_view(neighbors@[i as int].name) == Some(dest@));
                assert(exists|k: int| 0 <= k < neighbors@.len() && opt_view(neighbors@[k].name) == Some(dest@));
                assert(!starts_with(dest@, seq!['0', 'x']));
                let w = choose|k: int|
                    0 <= k < neighbors@.len() && opt_view(neighbors@[k].name) == Some(dest@) && forall|j: int|
                        0 <= j < k ==> opt_view(#[trigger] neighbors@[j].name) != Some(dest@);
                assert(0 <= i < neighbors@.len() && opt_view(neighbors@[i as int].name) == Some(dest@)
                    && forall|j: int| 0 <= j < i ==> opt_view(#[trigger] neighbors@[j].name) != Some(dest@));
                if w < i {
                    assert(opt_view(neighbors@[w].name) != Some(dest@));
                }
                if w > i {
                    assert(opt_view(neighbors@[i as int].name) != Some(dest@));
                }
                assert(w == i);
                assert(out@ =~= seq!['0', 'x'] + hex_text(neighbors@[i as int].node_hash));
            }
            return out;
        }
        i = i + 1;
    }
    push_str(&mut out, dest);
    proof {
        assert(out@ =~= dest@);
    }
    out
}

} // verus!
