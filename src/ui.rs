//! The state that the terminal front end keeps: a bounded message log, the
//! neighbors heard lately, and the line being typed. Clock readings and
//! timestamps come from the caller.
use vstd::prelude::*;
use std::collections::HashMap;
use crate::commands::{decimal, push_decimal, push_signed, signed_decimal};
use crate::device::{MeshEvent, hex_pair, push_hex};
use crate::monitor::display_label;
use crate::events::opt_view;
use crate::text::{push_char, push_chars, push_str, string_of};

verus! {

broadcast use vstd::std_specs::hash::group_hash_axioms;

/// Most entries the log keeps; the oldest goes when one more arrives.
pub const LOG_CAPACITY: usize = 1000;

/// How long a neighbor stays listed after it was last heard, in ms.
pub const NEIGHBOR_TTL_MS: u64 = 300_000;

/// What a log entry reports, which decides how it is shown.
#[derive(Debug, Clone, Copy, PartialEq, Eq, Structural)]
pub enum LogKind {
    Info,
    Received,
    Sent,
    Error,
}

/// One line of the message log.
#[derive(Debug, Clone, PartialEq, Eq)]
pub struct LogEntry {
    pub timestamp: String,
    pub content: String,
    pub kind: LogKind,
}

/// A neighbor as the front end lists it.
#[derive(Debug, Clone, PartialEq, Eq)]
pub struct NeighborDisplay {
    pub node_hash: u8,
    pub name: String,
    pub rssi: i16,
    pub last_seen_ms: u64,
}

/// A key press, as far as the front end tells keys apart.
#[derive(Debug, Clone, Copy, PartialEq, Eq)]
pub enum Key {
    /// A character typed without Control.
    Char(char),
    /// A character typed with Control.
    Ctrl(char),
    Enter,
    Backspace,
    Delete,
    Left,
    Right,
    Home,
    End,
    Other,
}

/// How strong a neighbor's signal is, for colouring.
#[derive(Debug, Clone, Copy, PartialEq, Eq, Structural)]
pub enum Signal {
    /// Above -70 dB.
    Strong,
    /// Above -90 dB.
    Fair,
    /// -90 dB or below.
    Weak,
}

/// The strength class of a signal.
pub fn signal_of(rssi: i16) -> (r: Signal)
    ensures
        r == if rssi > -70 {
            Signal::Strong
        } else if rssi > -90 {
            Signal::Fair
        } else {
            Signal::Weak
        },
{
    if rssi > -70 {
        Signal::Strong
    } else if rssi > -90 {
        Signal::Fair
    } else {
        Signal::Weak
    }
}

/// How long ago something was heard: seconds below a minute (`42s`), else
/// whole minutes (`5m`).
pub open spec fn age_text(secs: nat) -> Seq<char> {
    if secs < 60 {
        decimal(secs).push('s')
    } else {
        decimal(secs / 60).push('m')
    }
}

/// How long ago something was heard, as shown.
pub fn age_label(secs: u64) -> (r: String)
    ensures
        r@ == age_text(secs as nat),
{
    let mut s = String::new();
    if secs < 60 {
        push_decimal(&mut s, secs);
        push_char(&mut s, 's');
    } else {
        push_decimal(&mut s, secs / 60);
        push_char(&mut s, 'm');
    }
    proof {
        assert(s@ =~= age_text(secs as nat));
    }
    s
}

/// The log after one more entry: the oldest leaves once the capacity is
/// passed.
pub open spec fn bounded_push(log: Seq<LogEntry>, e: LogEntry) -> Seq<LogEntry> {
    let s = log.push(e);
    if s.len() > LOG_CAPACITY {
        s.drop_first()
    } else {
        s
    }
}

/// Whether `after` is `before` with one more entry, stamped `timestamp`,
/// of kind `kind` and with the text `content`.
pub open spec fn logged(
    before: Seq<LogEntry>,
    after: Seq<LogEntry>,
    timestamp: String,
    kind: LogKind,
    content: Seq<char>,
) -> bool {
    exists|e: LogEntry|
        e.timestamp == timestamp && e.kind == kind && e.content@ == content && after
            == #[trigger] bounded_push(before, e)
}

/// Whether a neighbor was heard within the last `NEIGHBOR_TTL_MS` at `now`.
pub open spec fn fresh(e: NeighborDisplay, now: u64) -> bool {
    now < e.last_seen_ms + NEIGHBOR_TTL_MS
}

/// The entries of a table that are still fresh at `now`.
pub open spec fn keep_fresh(m: Map<u8, NeighborDisplay>, now: u64) -> Map<u8, NeighborDisplay> {
    Map::new(|k: u8| m.contains_key(k) && fresh(m[k], now), |k: u8| m[k])
}

/// Whether each entry of a table sits under its own node hash.
pub open spec fn keyed(m: Map<u8, NeighborDisplay>) -> bool {
    forall|k: u8| m.contains_key(k) ==> #[trigger] m[k].node_hash == k
}

/// The name under which a neighbor is listed: its own, or `0x` and its
/// hash.
pub open spec fn display_name(node_hash: u8, name: Option<Seq<char>>) -> Seq<char> {
    match name {
        Some(n) => n,
        None => seq!['0', 'x'] + hex_pair(node_hash),
    }
}

/// `<from> (<rssi>dB): <text>`.
pub open spec fn received_text(from: Seq<char>, text: Seq<char>, rssi: i16) -> Seq<char> {
    from + seq![' ', '('] + signed_decimal(rssi as int) + seq!['d', 'B', ')', ':', ' '] + text
}

/// `You: <text>`.
pub open spec fn sent_text(text: Seq<char>) -> Seq<char> {
    seq!['Y', 'o', 'u', ':', ' '] + text
}

/// `[-><to or all>] <text>`: a message with its destination.
pub open spec fn addressed_text(to: Option<Seq<char>>, text: Seq<char>) -> Seq<char> {
    seq!['[', '-', '>'] + match to {
        Some(t) => t,
        None => seq!['a', 'l', 'l'],
    } + seq![']', ' '] + text
}

/// `ADV: <name> (<rssi>dB)`.
pub open spec fn advert_text(name: Seq<char>, rssi: i16) -> Seq<char> {
    seq!['A', 'D', 'V', ':', ' '] + name + seq![' ', '('] + signed_decimal(rssi as int) + seq![
        'd',
        'B',
        ')',
    ]
}

/// `ACK from <from>`.
pub open spec fn ack_text(from: Seq<char>) -> Seq<char> {
    seq!['A', 'C', 'K', ' ', 'f', 'r', 'o', 'm', ' '] + from
}

/// Whether the neighbor `a` is listed before `b`: stronger signal first,
/// and by node hash between equal signals.
pub open spec fn listed_before(m: Map<u8, NeighborDisplay>, a: u8, b: u8) -> bool {
    m[a].rssi > m[b].rssi || (m[a].rssi == m[b].rssi && a < b)
}

/// Whether `order` lists the node hashes of `m`, each once, strictly in
/// `listed_before` order.
pub open spec fn by_signal(m: Map<u8, NeighborDisplay>, order: Seq<u8>) -> bool {
    &&& forall|i: int| 0 <= i < order.len() ==> m.contains_key(#[trigger] order[i])
    &&& forall|k: u8| m.contains_key(k) ==> exists|i: int| 0 <= i < order.len() && #[trigger] order[i] == k
    &&& forall|i: int, j: int|
        0 <= i < j < order.len() ==> listed_before(m, #[trigger] order[i], #[trigger] order[j])
}

/// The signal strength of the neighbor listed under `h`.
fn strength(t: &HashMap<u8, NeighborDisplay>, h: u8) -> (r: i16)
    requires
        t@.contains_key(h),
    ensures
        r == t@[h].rssi,
{
    match t.get(&h) {
        Some(e) => e.rssi,
        None => 0,
    }
}

/// The state of the terminal front end.
pub struct App {
    messages: Vec<LogEntry>,
    input: Vec<char>,
    cursor: usize,
    neighbors: HashMap<u8, NeighborDisplay>,
    device_name: String,
    should_quit: bool,
}

impl App {
    /// The log, oldest first.
    pub closed spec fn log(&self) -> Seq<LogEntry> {
        self.messages@
    }

    /// The line being typed.
    pub closed spec fn line(&self) -> Seq<char> {
        self.input@
    }

    /// Where the cursor stands in the line.
    pub closed spec fn cursor_at(&self) -> nat {
        self.cursor as nat
    }

    /// The neighbors, by node hash.
    pub closed spec fn table(&self) -> Map<u8, NeighborDisplay> {
        self.neighbors@
    }

    /// Whether the user asked to quit.
    pub closed spec fn quitting(&self) -> bool {
        self.should_quit
    }

    /// The name of the device shown in the header.
    pub closed spec fn name(&self) -> Seq<char> {
        self.device_name@
    }

    /// The state's invariant: the log within its capacity, the cursor
    /// within the line, and each neighbor under its own node hash.
    pub open spec fn wf(&self) -> bool {
        &&& self.log().len() <= LOG_CAPACITY
        &&& self.cursor_at() <= self.line().len()
        &&& keyed(self.table())
    }

    /// A fresh state for the named device.
    pub fn new(device_name: String) -> (r: App)
        ensures
            r.wf(),
            r.log().len() == 0,
            r.line().len() == 0,
            r.cursor_at() == 0,
            r.table() == Map::<u8, NeighborDisplay>::empty(),
            !r.quitting(),
            r.name() == device_name@,
    {
        App {
            messages: Vec::new(),
            input: Vec::new(),
            cursor: 0,
            neighbors: HashMap::new(),
            device_name,
            should_quit: false,
        }
    }

    /// Appends a log entry, dropping the oldest once the capacity is passed.
    pub fn add_message(&mut self, timestamp: String, content: String, kind: LogKind)
        requires
            old(self).wf(),
        ensures
            final(self).wf(),
            final(self).name() == old(self).name(),
            final(self).log() == bounded_push(
                old(self).log(),
                LogEntry { timestamp, content, kind },
            ),
            final(self).line() == old(self).line(),
            final(self).cursor_at() == old(self).cursor_at(),
            final(self).table() == old(self).table(),
            final(self).quitting() == old(self).quitting(),
    {
        self.messages.push(LogEntry { timestamp, content, kind });
        if self.messages.len() > LOG_CAPACITY {
            self.messages.remove(0);
        }
    }

    /// Logs a notice.
    pub fn add_info(&mut self, timestamp: String, content: String)
        requires
            old(self).wf(),
        ensures
            final(self).wf(),
            final(self).name() == old(self).name(),
            final(self).log() == bounded_push(
                old(self).log(),
                LogEntry { timestamp, content, kind: LogKind::Info },
            ),
            final(self).line() == old(self).line(),
            final(self).cursor_at() == old(self).cursor_at(),
            final(self).table() == old(self).table(),
            final(self).quitting() == old(self).quitting(),
    {
        self.add_message(timestamp, content, LogKind::Info);
    }

    /// Logs an error.
    pub fn add_error(&mut self, timestamp: String, content: String)
        requires
            old(self).wf(),
        ensures
            final(self).wf(),
            final(self).name() == old(self).name(),
            final(self).log() == bounded_push(
                old(self).log(),
                LogEntry { timestamp, content, kind: LogKind::Error },
            ),
            final(self).line() == old(self).line(),
            final(self).cursor_at() == old(self).cursor_at(),
            final(self).table() == old(self).table(),
            final(self).quitting() == old(self).quitting(),
    {
        self.add_message(timestamp, content, LogKind::Error);
    }

    /// Logs a message heard from another node.
    pub fn add_received(&mut self, timestamp: String, from: &str, text: &str, rssi: i16)
        requires
            old(self).wf(),
        ensures
            final(self).wf(),
            final(self).name() == old(self).name(),
            logged(old(self).log(), final(self).log(), timestamp, LogKind::Received, received_text(from@, text@, rssi)),
            final(self).table() == old(self).table(),
            final(self).line() == old(self).line(),
            final(self).cursor_at() == old(self).cursor_at(),
            final(self).quitting() == old(self).quitting(),
    {
        let mut content = String::new();
        push_str(&mut content, from);
        push_chars(&mut content, &[' ', '('], 0, 2);
        push_signed(&mut content, rssi as i32);
        push_chars(&mut content, &['d', 'B', ')', ':', ' '], 0, 5);
        push_str(&mut content, text);
        proof {
            assert(content@ =~= received_text(from@, text@, rssi));
        }
        self.add_message(timestamp, content, LogKind::Received);
    }

    /// Logs a message that the user sent.
    pub fn add_sent(&mut self, timestamp: String, text: &str)
        requires
            old(self).wf(),
        ensures
            final(self).wf(),
            final(self).name() == old(self).name(),
            logged(old(self).log(), final(self).log(), timestamp, LogKind::Sent, sent_text(text@)),
            final(self).table() == old(self).table(),
            final(self).line() == old(self).line(),
            final(self).cursor_at() == old(self).cursor_at(),
            final(self).quitting() == old(self).quitting(),
    {
        let mut content = String::new();
        push_chars(&mut content, &['Y', 'o', 'u', ':', ' '], 0, 5);
        push_str(&mut content, text);
        proof {
            assert(content@ =~= sent_text(text@));
        }
        self.add_message(timestamp, content, LogKind::Sent);
    }

    /// Takes in one event heard on the mesh: a message is logged with its
    /// destination, an advertisement updates the neighbor table and is
    /// logged, an acknowledgement and an error are logged.
    pub fn apply_event(&mut self, event: MeshEvent, timestamp: String, now_ms: u64)
        requires
            old(self).wf(),
        ensures
            final(self).wf(),
            final(self).name() == old(self).name(),
            final(self).line() == old(self).line(),
            final(self).cursor_at() == old(self).cursor_at(),
            final(self).quitting() == old(self).quitting(),
            match event {
                MeshEvent::Message { from, to, text, rssi, .. } => {
                    &&& logged(old(self).log(), final(self).log(), timestamp, LogKind::Received, received_text(from@, addressed_text(opt_view(to), text@), rssi))
                    &&& final(self).table() == old(self).table()
                },
                MeshEvent::Advertisement { node_hash, name, rssi } => {
                    &&& logged(old(self).log(), final(self).log(), timestamp, LogKind::Info, advert_text(display_name(node_hash, opt_view(name)), rssi))
                    &&& exists|shown: String|
                        shown@ == display_name(node_hash, opt_view(name)) && final(self).table() == keep_fresh(
                            old(self).table().insert(
                                node_hash,
                                NeighborDisplay { node_hash, name: shown, rssi, last_seen_ms: now_ms },
                            ),
                            now_ms,
                        )
                },
                MeshEvent::Ack { from } => {
                    &&& logged(old(self).log(), final(self).log(), timestamp, LogKind::Info, ack_text(from@))
                    &&& final(self).table() == old(self).table()
                },
                MeshEvent::Error { message } => {
                    &&& final(self).log() == bounded_push(old(self).log(), LogEntry { timestamp, content: message, kind: LogKind::Error })
                    &&& final(self).table() == old(self).table()
                },
            },
    {
        match event {
            MeshEvent::Message { from, to, text, rssi, snr: _ } => {
                let mut body = String::new();
                push_chars(&mut body, &['[', '-', '>'], 0, 3);
                match &to {
                    Some(t) => push_str(&mut body, t.as_str()),
                    None => push_chars(&mut body, &['a', 'l', 'l'], 0, 3),
                }
                push_chars(&mut body, &[']', ' '], 0, 2);
                push_str(&mut body, text.as_str());
                proof {
                    assert(body@ =~= addressed_text(opt_view(to), text@));
                }
                self.add_received(timestamp, from.as_str(), body.as_str(), rssi);
            },
            MeshEvent::Advertisement { node_hash, name, rssi } => {
                let mut content = String::new();
                push_chars(&mut content, &['A', 'D', 'V', ':', ' '], 0, 5);
                match &name {
                    Some(n) => push_str(&mut content, n.as_str()),
                    None => {
                        push_chars(&mut content, &['0', 'x'], 0, 2);
                        push_hex(&mut content, node_hash, true);
                    },
                }
                push_chars(&mut content, &[' ', '('], 0, 2);
                push_signed(&mut content, rssi as i32);
                push_chars(&mut content, &['d', 'B', ')'], 0, 3);
                proof {
                    assert(content@ =~= advert_text(display_name(node_hash, opt_view(name)), rssi));
                }
                self.update_neighbor(node_hash, name, rssi, now_ms);
                self.add_info(timestamp, content);
            },
            MeshEvent::Ack { from } => {
                let mut content = String::new();
                push_chars(&mut content, &['A', 'C', 'K', ' ', 'f', 'r', 'o', 'm', ' '], 0, 9);
                push_str(&mut content, from.as_str());
                proof {
                    assert(content@ =~= ack_text(from@));
                }
                self.add_info(timestamp, content);
            },
            MeshEvent::Error { message } => {
                self.add_error(timestamp, message);
            },
        }
    }

    /// Takes in one key press. Control-Q and Control-C ask to quit; Enter
    /// hands back the typed line to be sent (logging it and clearing the
    /// line) unless it is empty; other characters are inserted at the
    /// cursor; Backspace and Delete remove the character before or at the
    /// cursor; the arrows, Home and End move the cursor.
    pub fn handle_key(&mut self, key: Key, timestamp: String) -> (r: Option<String>)
        requires
            old(self).wf(),
        ensures
            final(self).wf(),
            final(self).name() == old(self).name(),
            final(self).table() == old(self).table(),
            final(self).quitting() == (old(self).quitting() || (key matches Key::Ctrl(c) && (c == 'q' || c == 'c'))),
            !(key is Enter) ==> final(self).log() == old(self).log(),
            match key {
                Key::Ctrl(c) if c == 'q' || c == 'c' => r is None && final(self).line() == old(self).line()
                    && final(self).cursor_at() == old(self).cursor_at(),
                Key::Char(c) | Key::Ctrl(c) => r is None && final(self).line() == old(self).line().insert(
                    old(self).cursor_at() as int,
                    c,
                ) && final(self).cursor_at() == old(self).cursor_at() + 1 && final(self).log() == old(
                    self,
                ).log(),
                Key::Enter => if old(self).line().len() == 0 {
                    r is None && final(self).log() == old(self).log() && final(self).line() == old(
                        self,
                    ).line() && final(self).cursor_at() == old(self).cursor_at()
                } else {
                    r matches Some(m) && m@ == old(self).line() && final(self).line().len() == 0
                        && final(self).cursor_at() == 0 && logged(
                        old(self).log(),
                        final(self).log(),
                        timestamp,
                        LogKind::Sent,
                        sent_text(old(self).line()),
                    )
                },
                Key::Backspace => r is None && final(self).log() == old(self).log() && if old(
                    self,
                ).cursor_at() > 0 {
                    final(self).line() == old(self).line().remove(old(self).cursor_at() - 1)
                        && final(self).cursor_at() == old(self).cursor_at() - 1
                } else {
                    final(self).line() == old(self).line() && final(self).cursor_at() == 0
                },
                Key::Delete => r is None && final(self).log() == old(self).log()
                    && final(self).cursor_at() == old(self).cursor_at() && if old(self).cursor_at()
                    < old(self).line().len() {
                    final(self).line() == old(self).line().remove(old(self).cursor_at() as int)
                } else {
                    final(self).line() == old(self).line()
                },
                Key::Left => r is None && final(self).line() == old(self).line()
                    && final(self).cursor_at() == if old(self).cursor_at() > 0 {
                    old(self).cursor_at() - 1
                } else {
                    0
                },
                Key::Right => r is None && final(self).line() == old(self).line()
                    && final(self).cursor_at() == if old(self).cursor_at() < old(self).line().len() {
                    old(self).cursor_at() + 1
                } else {
                    old(self).cursor_at()
                },
                Key::Home => r is None && final(self).line() == old(self).line()
                    && final(self).cursor_at() == 0,
                Key::End => r is None && final(self).line() == old(self).line()
                    && final(self).cursor_at() == old(self).line().len(),
                Key::Other => r is None && final(self).line() == old(self).line()
                    && final(self).cursor_at() == old(self).cursor_at(),
            },
    {
        match key {
            Key::Ctrl(c) if c == 'q' || c == 'c' => {
                self.should_quit = true;
                None
            },
            Key::Char(c) | Key::Ctrl(c) => {
                self.input.insert(self.cursor, c);
                if self.cursor < self.input.len() {
                    self.cursor = self.cursor + 1;
                }
                None
            },
            Key::Enter => {
                if self.input.len() == 0 {
                    return None;
                }
                let msg = string_of(self.input.as_slice(), 0, self.input.len());
                proof {
                    assert(self.input@.subrange(0, self.input@.len() as int) =~= self.input@);
                }
                self.add_sent(timestamp, msg.as_str());
                self.input = Vec::new();
                self.cursor = 0;
                Some(msg)
            },
            Key::Backspace => {
                if self.cursor > 0 {
                    self.cursor = self.cursor - 1;
                    self.input.remove(self.cursor);
                }
                None
            },
            Key::Delete => {
                if self.cursor < self.input.len() {
                    self.input.remove(self.cursor);
                }
                None
            },
            Key::Left => {
                if self.cursor > 0 {
                    self.cursor = self.cursor - 1;
                }
                None
            },
            Key::Right => {
                if self.cursor < self.input.len() {
                    self.cursor = self.cursor + 1;
                }
                None
            },
            Key::Home => {
                self.cursor = 0;
                None
            },
            Key::End => {
                self.cursor = self.input.len();
                None
            },
            Key::Other => None,
        }
    }

    /// The log entries, oldest first.
    pub fn messages(&self) -> (r: &Vec<LogEntry>)
        ensures
            r@ == self.log(),
    {
        &self.messages
    }

    /// The neighbors, in the order first heard.
    pub fn neighbors(&self) -> (r: &HashMap<u8, NeighborDisplay>)
        ensures
            r@ == self.table(),
    {
        &self.neighbors
    }

    /// The node hashes of the neighbors, strongest signal first and by hash
    /// between equal signals: every neighbor once.
    pub fn signal_order(&self) -> (r: Vec<u8>)
        requires
            self.wf(),
        ensures
            by_signal(self.table(), r@),
    {
        let t = &self.neighbors;
        let ghost m = t@;
        let mut order: Vec<u8> = Vec::new();
        let mut k: u16 = 0;
        while k < 256
            invariant
                k <= 256,
                t@ == m,
                forall|i: int| 0 <= i < order@.len() ==> m.contains_key(#[trigger] order@[i]) && order@[i] < k,
                forall|h: u8| h < k && m.contains_key(h) ==> exists|i: int| 0 <= i < order@.len() && #[trigger] order@[i] == h,
                forall|i: int, j: int|
                    0 <= i < j < order@.len() ==> listed_before(m, #[trigger] order@[i], #[trigger] order@[j]),
            decreases 256 - k,
        {
            let h = k as u8;
            match t.get(&h) {
                Some(e) => {
                    let rssi = e.rssi;
                    let mut p: usize = 0;
                    while p < order.len() && strength(t, order[p]) >= rssi
                        invariant
                            p <= order@.len(),
                            t@ == m,
                            m.contains_key(h) && m[h].rssi == rssi,
                            forall|i: int| 0 <= i < order@.len() ==> m.contains_key(#[trigger] order@[i]) && order@[i] < h,
                            forall|q: int| 0 <= q < p ==> listed_before(m, #[trigger] order@[q], h),
                        decreases order.len() - p,
                    {
                        p = p + 1;
                    }
                    let ghost before = order@;
                    proof {
                        if p < before.len() {
                            assert(m[before[p as int]].rssi < rssi);
                        }
                        assert forall|q: int| p <= q < before.len() implies listed_before(m, h, #[trigger] before[q]) by {
                            if q > p {
                                assert(listed_before(m, before[p as int], before[q]));
                            }
                        }
                    }
                    order.insert(p, h);
                    proof {
                        assert forall|i: int| 0 <= i < order@.len() implies m.contains_key(#[trigger] order@[i]) && order@[i] < k + 1 by {
                            if i < p {
                                assert(order@[i] == before[i]);
                            } else if i > p {
                                assert(order@[i] == before[i - 1]);
                            }
                        }
                        assert forall|g: u8| g < k + 1 && m.contains_key(g) implies exists|i: int| 0 <= i < order@.len() && #[trigger] order@[i] == g by {
                            if g == h {
                                assert(order@[p as int] == h);
                            } else {
                                let i = choose|i: int| 0 <= i < before.len() && before[i] == g;
                                if i < p {
                                    assert(order@[i] == g);
                                } else {
                                    assert(order@[i + 1] == g);
                                }
                            }
                        }
                        assert forall|i: int, j: int| 0 <= i < j < order@.len() implies listed_before(m, #[trigger] order@[i], #[trigger] order@[j]) by {
                            if i < p && j < p {
                                assert(order@[i] == before[i] && order@[j] == before[j]);
                            } else if i < p && j == p {
                                assert(order@[i] == before[i]);
                            } else if i < p {
                                assert(order@[i] == before[i] && order@[j] == before[j - 1]);
                            } else if i == p {
                                assert(order@[j] == before[j - 1]);
                            } else {
                                assert(order@[i] == before[i - 1] && order@[j] == before[j - 1]);
                            }
                        }
                    }
                },
                None => {},
            }
            k = k + 1;
        }
        order
    }

    /// The line being typed.
    pub fn input_text(&self) -> (r: String)
        ensures
            r@ == self.line(),
    {
        proof {
            assert(self.input@.subrange(0, self.input@.len() as int) =~= self.input@);
        }
        string_of(self.input.as_slice(), 0, self.input.len())
    }

    /// Where the cursor stands in the line, in characters.
    pub fn cursor(&self) -> (r: usize)
        ensures
            r == self.cursor_at(),
    {
        self.cursor
    }

    /// The name of the device shown in the header.
    pub fn device_name(&self) -> (r: &String)
        ensures
            r@ == self.name(),
    {
        &self.device_name
    }

    /// Whether the user asked to quit.
    pub fn should_quit(&self) -> (r: bool)
        ensures
            r == self.quitting(),
    {
        self.should_quit
    }

    /// Records that a neighbor was heard at `now_ms`, then drops the
    /// neighbors not heard within `NEIGHBOR_TTL_MS`.
    pub fn update_neighbor(&mut self, node_hash: u8, name: Option<String>, rssi: i16, now_ms: u64)
        requires
            old(self).wf(),
        ensures
            final(self).wf(),
            final(self).name() == old(self).name(),
            exists|shown: String|
                shown@ == display_name(node_hash, opt_view(name)) && final(self).table() == keep_fresh(
                    old(self).table().insert(
                        node_hash,
                        NeighborDisplay { node_hash, name: shown, rssi, last_seen_ms: now_ms },
                    ),
                    now_ms,
                ),
            final(self).log() == old(self).log(),
            final(self).line() == old(self).line(),
            final(self).cursor_at() == old(self).cursor_at(),
            final(self).quitting() == old(self).quitting(),
    {
        let shown = display_label(node_hash, name);
        let entry = NeighborDisplay { node_hash, name: shown, rssi, last_seen_ms: now_ms };
        let ghost placed = self.neighbors@.insert(node_hash, entry);
        self.neighbors.insert(node_hash, entry);
        let mut k: u16 = 0;
        while k < 256
            invariant
                k <= 256,
                self.neighbors@ == Map::new(
                    |j: u8| placed.contains_key(j) && (j < k ==> fresh(placed[j], now_ms)),
                    |j: u8| placed[j],
                ),
                self.log() == old(self).log(),
                self.line() == old(self).line(),
                self.cursor_at() == old(self).cursor_at(),
                self.quitting() == old(self).quitting(),
                self.name() == old(self).name(),
            decreases 256 - k,
        {
            let h = k as u8;
            let stale = match self.neighbors.get(&h) {
                Some(e) => (now_ms as u128) >= (e.last_seen_ms as u128) + (NEIGHBOR_TTL_MS as u128),
                None => false,
            };
            if stale {
                self.neighbors.remove(&h);
            }
            proof {
                assert(self.neighbors@ =~= Map::new(
                    |j: u8| placed.contains_key(j) && (j < k + 1 ==> fresh(placed[j], now_ms)),
                    |j: u8| placed[j],
                ));
            }
            k = k + 1;
        }
        proof {
            assert(self.neighbors@ =~= keep_fresh(placed, now_ms));
        }
    }
}

} // verus!
