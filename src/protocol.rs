//! The command/response engine: what a decoded frame means, and how long the
//! engine waits through frames that answer nothing.
use vstd::prelude::*;
use crate::json::{json_document, json_get, json_member, json_string, parse_json};
use crate::text::{chars_of, has_prefix, push_chars, push_str, same_chars, starts_with, string_of, trim, trim_bounds, utf8_lossy, lossy_text};

verus! {

/// How many frames that answer nothing (debug output, chatter) a request
/// tolerates before it is abandoned.
pub const SKIP_BUDGET: usize = 50;

/// A device's answer to one command.
#[derive(Debug, Clone, PartialEq)]
pub enum Response {
    /// The command succeeded, with an optional message.
    Success(Option<String>),
    /// The device refused the command, with its message.
    Error(String),
    /// A JSON document.
    Json(serde_json::Value),
}

/// A `Response` with its strings as character sequences.
pub enum ResponseView {
    Success(Option<Seq<char>>),
    Error(Seq<char>),
    Json(serde_json::Value),
}

impl View for Response {
    type V = ResponseView;

    open spec fn view(&self) -> ResponseView {
        match self {
            Response::Success(m) => ResponseView::Success(
                match m {
                    Some(s) => Some(s@),
                    None => None,
                },
            ),
            Response::Error(e) => ResponseView::Error(e@),
            Response::Json(v) => ResponseView::Json(*v),
        }
    }
}

/// Why an exchange with the device failed.
#[derive(Debug, Clone, PartialEq, Eq)]
pub enum ProtocolError {
    /// The link failed: open, read or write error, or end of stream.
    Transport(String),
    /// A frame did not decode.
    Framing,
    /// No answer arrived before the deadline.
    Timeout,
    /// Too many frames arrived that answer nothing.
    TooManyUnrecognizedFrames,
    /// The device answered `ERR`, with its message.
    Device(String),
    /// The device answered with another kind of response than the command
    /// calls for; the command's name.
    UnexpectedResponse(String),
    /// A JSON answer that does not have the expected shape; what was missing.
    Deserialization(String),
    /// A packet header whose length does not parse; the header.
    InvalidPacketHeader(String),
    /// A packet header announcing more bytes than a packet may hold.
    PacketTooLarge(usize),
    /// The answer to a trace did not arrive in time.
    TraceTimeout,
}

/// What one frame of text means to a waiting request.
pub enum Verdict {
    /// Answers nothing: skipped, and counted against the budget.
    Skip,
    /// The answer.
    Reply(ResponseView),
}

/// Whether a parsed document is a JSON object whose `"type"` is `"debug"`.
pub open spec fn debug_doc(doc: Option<serde_json::Value>) -> bool {
    match doc {
        Some(v) => match json_member(v, "type"@) {
            Some(m) => json_string(m) == Some(seq!['d', 'e', 'b', 'u', 'g']),
            None => false,
        },
        None => false,
    }
}

/// Whether a text is a JSON object whose `"type"` is `"debug"`.
pub open spec fn is_debug(t: Seq<char>) -> bool {
    debug_doc(json_document(t))
}

/// `None` for an empty message.
pub open spec fn message(m: Seq<char>) -> Option<Seq<char>> {
    if m.len() == 0 {
        None
    } else {
        Some(m)
    }
}

/// What a frame's text means, given whether it is debug output and the
/// JSON document it parses to: debug output is skipped; `OK`, `ERR`, a JSON
/// object or array that parses, `PKT` and `PONG` answer; anything else,
/// text that opens like JSON and does not parse included, is skipped.
pub open spec fn verdict_given(t: Seq<char>, debug: bool, doc: Option<serde_json::Value>) -> Verdict {
    if debug {
        Verdict::Skip
    } else if starts_with(t, seq!['O', 'K']) {
        Verdict::Reply(ResponseView::Success(message(trim(t.skip(2)))))
    } else if starts_with(t, seq!['E', 'R', 'R']) {
        Verdict::Reply(ResponseView::Error(trim(t.skip(3))))
    } else if starts_with(t, seq!['{']) || starts_with(t, seq!['[']) {
        match doc {
            Some(v) => Verdict::Reply(ResponseView::Json(v)),
            None => Verdict::Skip,
        }
    } else if starts_with(t, seq!['P', 'K', 'T']) || starts_with(t, seq!['P', 'O', 'N', 'G']) {
        Verdict::Reply(ResponseView::Success(Some(t)))
    } else {
        Verdict::Skip
    }
}

/// What a frame's text means.
pub open spec fn verdict(t: Seq<char>) -> Verdict {
    verdict_given(t, is_debug(t), json_document(t))
}

/// Whether a parsed document is a JSON object whose `"type"` is `"debug"`.
pub fn is_debug_doc(doc: &Option<serde_json::Value>) -> (r: bool)
    ensures
        r == debug_doc(*doc),
{
    match doc {
        Some(v) => match json_get(v, "type") {
            Some(m) => match m.as_str() {
                Some(t) => {
                    let c = chars_of(t);
                    same_chars(c.as_slice(), &['d', 'e', 'b', 'u', 'g'])
                },
                None => false,
            },
            None => false,
        },
        None => false,
    }
}

/// Whether `line` is a JSON object whose `"type"` is `"debug"`.
pub fn is_debug_line(line: &str) -> (r: bool)
    ensures
        r == is_debug(line@),
{
    let doc = match parse_json(line) {
        Ok(v) => Some(v),
        Err(_) => None,
    };
    is_debug_doc(&doc)
}

/// The text of a string member of a JSON document, or `default`.
pub open spec fn text_member(v: serde_json::Value, key: Seq<char>, default: Seq<char>) -> Seq<char> {
    match json_member(v, key) {
        Some(m) => match json_string(m) {
            Some(t) => t,
            None => default,
        },
        None => default,
    }
}

/// The line that a debug frame is written out as: `[<level>] <msg>` and a
/// newline, the level `INFO` and the message empty where missing; `None`
/// for a frame that is no debug output.
pub open spec fn debug_output(t: Seq<char>) -> Option<Seq<char>> {
    if is_debug(t) {
        let v = json_document(t)->0;
        Some(
            seq!['['] + text_member(v, "level"@, seq!['I', 'N', 'F', 'O']) + seq![']', ' ']
                + text_member(v, "msg"@, Seq::empty()) + seq!['\n'],
        )
    } else {
        None
    }
}

/// Appends the text of a string member, or `default` where there is none.
fn push_member(s: &mut String, v: &serde_json::Value, key: &str, default: &[char])
    ensures
        final(s)@ == old(s)@ + text_member(*v, key@, default@),
{
    match json_get(v, key) {
        Some(m) => match m.as_str() {
            Some(t) => push_str(s, t),
            None => push_chars(s, default, 0, default.len()),
        },
        None => push_chars(s, default, 0, default.len()),
    }
    proof {
        assert(default@.subrange(0, default@.len() as int) =~= default@);
    }
}

/// How a debug frame is written out; `None` for any other frame.
pub fn debug_output_line(line: &str) -> (r: Option<String>)
    ensures
        match debug_output(line@) {
            Some(t) => r matches Some(x) && x@ == t,
            None => r is None,
        },
{
    if !is_debug_line(line) {
        return None;
    }
    let doc = match parse_json(line) {
        Ok(d) => d,
        Err(_) => return None,
    };
    let mut s = String::new();
    push_chars(&mut s, &['['], 0, 1);
    push_member(&mut s, &doc, "level", &['I', 'N', 'F', 'O']);
    push_chars(&mut s, &[']', ' '], 0, 2);
    push_member(&mut s, &doc, "msg", &[]);
    push_chars(&mut s, &['\n'], 0, 1);
    proof {
        assert(s@ =~= debug_output(line@)->0);
    }
    Some(s)
}

/// Carries out the verdict on a frame's text, given whether it is debug
/// output and what it parses to: `None` where the frame is skipped, else the
/// answer or the error.
pub fn classify_parsed(line: &str, debug: bool, doc: Option<serde_json::Value>) -> (r: Option<Response>)
    ensures
        match verdict_given(line@, debug, doc) {
            Verdict::Skip => r is None,
            Verdict::Reply(v) => r matches Some(resp) && resp@ == v,
        },
{
    if debug {
        return None;
    }
    let c = chars_of(line);
    let n = c.len();
    proof {
        assert(c@.subrange(0, n as int) =~= line@);
    }
    if has_prefix(c.as_slice(), &['O', 'K']) {
        let (a, b) = trim_bounds(c.as_slice(), 2, n);
        proof {
            assert(c@.subrange(2, n as int) =~= line@.skip(2));
        }
        if a == b {
            Some(Response::Success(None))
        } else {
            Some(Response::Success(Some(string_of(c.as_slice(), a, b))))
        }
    } else if has_prefix(c.as_slice(), &['E', 'R', 'R']) {
        let (a, b) = trim_bounds(c.as_slice(), 3, n);
        proof {
            assert(c@.subrange(3, n as int) =~= line@.skip(3));
        }
        Some(Response::Error(string_of(c.as_slice(), a, b)))
    } else if n > 0 && (c[0] == '{' || c[0] == '[') {
        proof {
            assert(line@.take(1) =~= seq![line@[0]]);
        }
        match doc {
            Some(v) => Some(Response::Json(v)),
            None => None,
        }
    } else if has_prefix(c.as_slice(), &['P', 'K', 'T']) || has_prefix(c.as_slice(), &['P', 'O', 'N', 'G']) {
        proof {
            if n > 0 {
                assert(line@.take(1) =~= seq![line@[0]]);
            }
        }
        Some(Response::Success(Some(string_of(c.as_slice(), 0, n))))
    } else {
        proof {
            if n > 0 {
                assert(line@.take(1) =~= seq![line@[0]]);
            }
        }
        None
    }
}

/// Carries out the verdict on a frame's text: `None` where the frame is
/// skipped, else the answer or the error.
pub fn classify_line(line: &str) -> (r: Option<Response>)
    ensures
        match verdict(line@) {
            Verdict::Skip => r is None,
            Verdict::Reply(v) => r matches Some(resp) && resp@ == v,
        },
{
    let doc = match parse_json(line) {
        Ok(v) => Some(v),
        Err(_) => None,
    };
    let debug = is_debug_doc(&doc);
    classify_parsed(line, debug, doc)
}

/// What the link delivered while a request waits.
pub enum Arrival {
    /// A frame, decoded.
    Frame(Vec<u8>),
    /// A frame that did not decode.
    Corrupt,
    /// Nothing before the deadline.
    Silence,
}

/// An `Arrival` with its bytes as a sequence.
pub enum ArrivalView {
    Frame(Seq<u8>),
    Corrupt,
    Silence,
}

impl View for Arrival {
    type V = ArrivalView;

    open spec fn view(&self) -> ArrivalView {
        match self {
            Arrival::Frame(f) => ArrivalView::Frame(f@),
            Arrival::Corrupt => ArrivalView::Corrupt,
            Arrival::Silence => ArrivalView::Silence,
        }
    }
}

/// Where a waiting request stands after an arrival.
pub enum Outcome {
    /// Still waiting, with this many frames skipped.
    Waiting(nat),
    /// Answered.
    Answered(ResponseView),
    /// Failed: a frame did not decode.
    Framing,
    /// Failed: nothing arrived before the deadline.
    Timeout,
    /// Failed: the skip budget ran out.
    TooManyUnrecognizedFrames,
    /// Failed with an error that no arrival causes.
    Other,
}

/// One step of a waiting request that has skipped `skipped` frames.
pub open spec fn wait_step(skipped: nat, a: ArrivalView) -> Outcome {
    match a {
        ArrivalView::Silence => Outcome::Timeout,
        ArrivalView::Corrupt => Outcome::Framing,
        ArrivalView::Frame(f) => match verdict(lossy_text(f)) {
            Verdict::Skip => if skipped + 1 >= SKIP_BUDGET {
                Outcome::TooManyUnrecognizedFrames
            } else {
                Outcome::Waiting(skipped + 1)
            },
            Verdict::Reply(v) => Outcome::Answered(v),
        },
    }
}

/// Where a request stands after a run of arrivals, from `skipped` frames
/// skipped; it stops at the first outcome that is not `Waiting`.
pub open spec fn wait_run(skipped: nat, arrivals: Seq<ArrivalView>) -> Outcome
    decreases arrivals.len(),
{
    if arrivals.len() == 0 {
        Outcome::Waiting(skipped)
    } else {
        match wait_step(skipped, arrivals[0]) {
            Outcome::Waiting(k) => wait_run(k, arrivals.drop_first()),
            o => o,
        }
    }
}

/// The outcome that an executable step result stands for.
pub open spec fn outcome_of(r: Option<Result<Response, ProtocolError>>, skipped: nat) -> Outcome {
    match r {
        None => Outcome::Waiting(skipped),
        Some(Ok(resp)) => Outcome::Answered(resp@),
        Some(Err(ProtocolError::Framing)) => Outcome::Framing,
        Some(Err(ProtocolError::Timeout)) => Outcome::Timeout,
        Some(Err(ProtocolError::TooManyUnrecognizedFrames)) => Outcome::TooManyUnrecognizedFrames,
        Some(Err(_)) => Outcome::Other,
    }
}

/// How long a command waits for its answer, in milliseconds.
pub const COMMAND_TIMEOUT_MS: u64 = 5000;

/// A request waiting for its answer: counts the frames it skipped, and
/// knows when it gives up.
pub struct ReplyWait {
    skipped: usize,
    deadline_ms: u64,
}

impl ReplyWait {
    /// Frames skipped so far.
    pub closed spec fn skipped(&self) -> nat {
        self.skipped as nat
    }

    /// The clock reading at which the request gives up.
    pub closed spec fn deadline(&self) -> u64 {
        self.deadline_ms
    }

    /// The state's invariant: the budget is not spent.
    pub open spec fn wf(&self) -> bool {
        self.skipped() < SKIP_BUDGET
    }

    /// A request sent at `now_ms` that has skipped nothing yet; it waits
    /// `COMMAND_TIMEOUT_MS` at most.
    pub fn new(now_ms: u64) -> (r: Self)
        ensures
            r.wf(),
            r.skipped() == 0,
            r.deadline() == if now_ms <= u64::MAX - COMMAND_TIMEOUT_MS {
                now_ms + COMMAND_TIMEOUT_MS
            } else {
                u64::MAX as int
            },
    {
        let deadline_ms = if now_ms <= u64::MAX - COMMAND_TIMEOUT_MS {
            now_ms + COMMAND_TIMEOUT_MS
        } else {
            u64::MAX
        };
        ReplyWait { skipped: 0, deadline_ms }
    }

    /// How long the request may still wait at `now_ms`; 0 once the deadline
    /// has come, when the caller reports `Silence`.
    pub fn time_left(&self, now_ms: u64) -> (r: u64)
        ensures
            r == if now_ms < self.deadline() {
                self.deadline() - now_ms
            } else {
                0
            },
    {
        if now_ms < self.deadline_ms {
            self.deadline_ms - now_ms
        } else {
            0
        }
    }

    /// Frames skipped so far.
    pub fn skipped_frames(&self) -> (r: usize)
        ensures
            r == self.skipped(),
    {
        self.skipped
    }

    /// Takes one arrival: `None` while the request still waits, else how it
    /// ended.
    pub fn step(&mut self, a: Arrival) -> (r: Option<Result<Response, ProtocolError>>)
        requires
            old(self).wf(),
        ensures
            outcome_of(r, final(self).skipped()) == wait_step(old(self).skipped(), a@),
            r is None ==> final(self).wf(),
            final(self).deadline() == old(self).deadline(),
    {
        match a {
            Arrival::Silence => Some(Err(ProtocolError::Timeout)),
            Arrival::Corrupt => Some(Err(ProtocolError::Framing)),
            Arrival::Frame(f) => {
                let line = utf8_lossy(f.as_slice());
                match classify_line(line.as_str()) {
                    None => {
                        if self.skipped + 1 >= SKIP_BUDGET {
                            Some(Err(ProtocolError::TooManyUnrecognizedFrames))
                        } else {
                            self.skipped = self.skipped + 1;
                            None
                        }
                    },
                    Some(r) => Some(Ok(r)),
                }
            },
        }
    }
}

/// Skip budget: a request that meets `n` frames that answer nothing and
/// then its answer gets the answer when `n` is below the budget, and fails
/// with `TooManyUnrecognizedFrames` when `n` is at or above it.
pub proof fn lemma_skip_budget(skips: Seq<Seq<u8>>, answer: Seq<u8>)
    requires
        forall|i: int| 0 <= i < skips.len() ==> verdict(lossy_text(#[trigger] skips[i])) is Skip,
        verdict(lossy_text(answer)) is Reply,
    ensures
        ({
            let arrivals = Seq::new(skips.len(), |i: int| ArrivalView::Frame(skips[i])).push(
                ArrivalView::Frame(answer),
            );
            &&& skips.len() < SKIP_BUDGET ==> wait_run(0, arrivals) == Outcome::Answered(
                verdict(lossy_text(answer))->Reply_0,
            )
            &&& skips.len() >= SKIP_BUDGET ==> wait_run(0, arrivals)
                == Outcome::TooManyUnrecognizedFrames
        }),
{
    lemma_skip_run(0, skips, answer);
}

proof fn lemma_skip_run(k: nat, skips: Seq<Seq<u8>>, answer: Seq<u8>)
    requires
        k < SKIP_BUDGET,
        forall|i: int| 0 <= i < skips.len() ==> verdict(lossy_text(#[trigger] skips[i])) is Skip,
        verdict(lossy_text(answer)) is Reply,
    ensures
        ({
            let arrivals = Seq::new(skips.len(), |i: int| ArrivalView::Frame(skips[i])).push(
                ArrivalView::Frame(answer),
            );
            &&& k + skips.len() < SKIP_BUDGET ==> wait_run(k, arrivals) == Outcome::Answered(
                verdict(lossy_text(answer))->Reply_0,
            )
            &&& k + skips.len() >= SKIP_BUDGET ==> wait_run(k, arrivals)
                == Outcome::TooManyUnrecognizedFrames
        }),
    decreases skips.len(),
{
    let arrivals = Seq::new(skips.len(), |i: int| ArrivalView::Frame(skips[i])).push(
        ArrivalView::Frame(answer),
    );
    if skips.len() == 0 {
        assert(arrivals[0] == ArrivalView::Frame(answer));
        assert(arrivals.drop_first().len() == 0);
    } else {
        assert(arrivals[0] == ArrivalView::Frame(skips[0]));
        assert(verdict(lossy_text(skips[0])) is Skip);
        if k + 1 < SKIP_BUDGET {
            let rest = skips.drop_first();
            assert forall|i: int| 0 <= i < rest.len() implies verdict(lossy_text(#[trigger] rest[i])) is Skip by {
                assert(rest[i] == skips[i + 1]);
            }
            lemma_skip_run(k + 1, rest, answer);
            assert(arrivals.drop_first() =~= Seq::new(rest.len(), |i: int| ArrivalView::Frame(rest[i])).push(
                ArrivalView::Frame(answer),
            ));
        }
    }
}

/// Timeout independence: a request that hears nothing fails with
/// `Timeout`, while one that hears `ERR` is answered with the device's
/// error, whatever it skipped before.
pub proof fn lemma_timeout_distinct(skipped: nat, err_frame: Seq<u8>)
    requires
        skipped < SKIP_BUDGET,
        verdict(lossy_text(err_frame)) is Reply,
        verdict(lossy_text(err_frame))->Reply_0 is Error,
    ensures
        wait_run(skipped, seq![ArrivalView::Silence]) == Outcome::Timeout,
        wait_run(skipped, seq![ArrivalView::Frame(err_frame)]) == Outcome::Answered(
            verdict(lossy_text(err_frame))->Reply_0,
        ),
        wait_run(skipped, seq![ArrivalView::Silence]) != wait_run(
            skipped,
            seq![ArrivalView::Frame(err_frame)],
        ),
{
}

} // verus!
