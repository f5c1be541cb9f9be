//! The decisions of the background task that owns the link while the
//! terminal front end runs: each iteration it looks at what the event read
//! produced and at what the front end queued, and says what to do with both.
use vstd::prelude::*;
use crate::commands::{broadcast_command, broadcast_text};
use crate::device::{MeshEvent, mesh_event_matches, push_hex};
use crate::events::{MonitorEvent, opt_view};
use crate::text::{push_chars, push_str};
use crate::ui::display_name;

verus! {

/// What the event read produced in one iteration.
pub enum ReadOutcome {
    /// No event: the read is still waiting, timed out, or met a line that
    /// is no event.
    Nothing,
    /// An event line.
    Event(MonitorEvent),
    /// The link failed, with what went wrong.
    Failed(String),
}

/// What the front end's queue of outgoing messages held.
pub enum Outgoing {
    /// Nothing queued.
    Empty,
    /// A message to broadcast.
    Message(String),
    /// The front end is gone.
    Closed,
}

/// What the background task does in one iteration.
pub struct TickPlan {
    /// An event to hand to the front end.
    pub forward: Option<MeshEvent>,
    /// A command to send to the device.
    pub send: Option<String>,
    /// An error to show in the log.
    pub error: Option<String>,
    /// Whether the task ends after this iteration.
    pub stop: bool,
}

/// `Read error: <what>`.
pub open spec fn read_error_text(what: Seq<char>) -> Seq<char> {
    seq!['R', 'e', 'a', 'd', ' ', 'e', 'r', 'r', 'o', 'r', ':', ' '] + what
}

/// One iteration of the background task. A queued message is sent in the
/// same iteration whatever the read did, unless the link failed: a read
/// that waits with no data never holds a send back. An event is handed on;
/// a failed read is reported and ends the task, as does a closed queue.
pub fn plan_tick(read: ReadOutcome, outgoing: Outgoing) -> (r: TickPlan)
    ensures
        match (read, outgoing) {
            (ReadOutcome::Failed(_), _) => r.send is None,
            (_, Outgoing::Message(m)) => r.send matches Some(c) && c@ == broadcast_text(m@),
            _ => r.send is None,
        },
        match read {
            ReadOutcome::Event(e) => r.forward matches Some(x) && mesh_event_matches(x, e@),
            _ => r.forward is None,
        },
        match read {
            ReadOutcome::Failed(w) => r.error matches Some(t) && t@ == read_error_text(w@),
            _ => r.error is None,
        },
        r.stop == (read is Failed || outgoing is Closed),
{
    match read {
        ReadOutcome::Failed(w) => {
            let mut t = String::new();
            push_chars(&mut t, &['R', 'e', 'a', 'd', ' ', 'e', 'r', 'r', 'o', 'r', ':', ' '], 0, 12);
            push_str(&mut t, w.as_str());
            proof {
                assert(t@ =~= read_error_text(w@));
            }
            TickPlan { forward: None, send: None, error: Some(t), stop: true }
        },
        ReadOutcome::Nothing => {
            let closed = match &outgoing {
                Outgoing::Closed => true,
                _ => false,
            };
            let send = match &outgoing {
                Outgoing::Message(m) => Some(broadcast_command(m.as_str())),
                _ => None,
            };
            TickPlan { forward: None, send, error: None, stop: closed }
        },
        ReadOutcome::Event(e) => {
            let closed = match &outgoing {
                Outgoing::Closed => true,
                _ => false,
            };
            let send = match &outgoing {
                Outgoing::Message(m) => Some(broadcast_command(m.as_str())),
                _ => None,
            };
            TickPlan { forward: Some(MeshEvent::from_monitor(e)), send, error: None, stop: closed }
        },
    }
}

/// The name under which a device or neighbor is shown: its own, or `0x` and
/// its hash in two hexadecimal digits.
pub fn display_label(node_hash: u8, name: Option<String>) -> (r: String)
    ensures
        r@ == display_name(node_hash, opt_view(name)),
{
    match name {
        Some(n) => n,
        None => {
            let mut t = String::new();
            push_chars(&mut t, &['0', 'x'], 0, 2);
            push_hex(&mut t, node_hash, true);
            proof {
                assert(t@ =~= display_name(node_hash, None));
            }
            t
        },
    }
}

} // verus!
