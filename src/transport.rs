//! The receive side of the link: a buffer that collects the bytes read from
//! the port and cuts newline-terminated lines and 0-terminated frames out of
//! them; and the bytes that carry one outgoing frame.
use vstd::prelude::*;
use crate::codec::{cobs_decode, cobs_encode, decode, encode, lemma_encode_zero_free, lemma_round_trip};
use crate::protocol::{Arrival, ArrivalView, Outcome, ProtocolError, ReplyWait, Response, outcome_of, wait_run, wait_step};
use crate::text::{chars_of, index_of, lemma_index_of, lossy_text, string_of, trim_end, trim_end_bound, utf8_lossy};

verus! {

/// The delimiter that ends a frame on the wire.
pub const FRAME_END: u8 = 0;

/// The byte that ends a line.
pub const LINE_END: u8 = 10;

/// The bytes that put `payload` on the wire as one frame: its encoding and
/// the delimiter.
pub open spec fn frame_bytes(payload: Seq<u8>) -> Seq<u8> {
    encode(payload).push(FRAME_END)
}

/// Framing: the bytes of a frame hold the delimiter once, as their last
/// byte, and what precedes it decodes to the payload.
pub proof fn lemma_single_delimiter(payload: Seq<u8>)
    ensures
        index_of(frame_bytes(payload), FRAME_END) == frame_bytes(payload).len() - 1,
        first_frame(frame_bytes(payload)) == Some(Some(payload)),
        after_first(frame_bytes(payload), FRAME_END).len() == 0,
{
    let f = frame_bytes(payload);
    let e = encode(payload);
    lemma_encode_zero_free(payload);
    lemma_round_trip(payload);
    assert forall|m: int| 0 <= m < e.len() implies f[m] != FRAME_END by {
        assert(f[m] == e[m]);
    }
    lemma_index_of(f, FRAME_END, e.len() as int);
    assert(f.take(e.len() as int) =~= e);
    assert(f.skip(e.len() as int + 1).len() == 0);
}

/// The bytes that carry `payload` as one frame.
pub fn encode_frame(payload: &[u8]) -> (r: Vec<u8>)
    ensures
        r@ == frame_bytes(payload@),
{
    let mut r = cobs_encode(payload);
    r.push(FRAME_END);
    r
}

/// Bytes received and not yet consumed.
pub struct RxBuffer {
    buf: Vec<u8>,
}

/// The elements `v[from..]` as a new vector.
fn tail_of(v: &Vec<u8>, from: usize) -> (r: Vec<u8>)
    requires
        from <= v@.len(),
    ensures
        r@ == v@.skip(from as int),
{
    let mut r: Vec<u8> = Vec::new();
    let mut i: usize = from;
    while i < v.len()
        invariant
            from <= i <= v@.len(),
            r@ == v@.subrange(from as int, i as int),
        decreases v.len() - i,
    {
        r.push(v[i]);
        proof {
            assert(v@.subrange(from as int, i + 1) =~= v@.subrange(from as int, i as int).push(v@[i as int]));
        }
        i = i + 1;
    }
    r
}

/// The elements `v[..to]` as a new vector.
fn head_of(v: &Vec<u8>, to: usize) -> (r: Vec<u8>)
    requires
        to <= v@.len(),
    ensures
        r@ == v@.take(to as int),
{
    let mut r: Vec<u8> = Vec::new();
    let mut i: usize = 0;
    while i < to
        invariant
            i <= to <= v@.len(),
            r@ == v@.take(i as int),
        decreases to - i,
    {
        r.push(v[i]);
        proof {
            assert(v@.take(i + 1) =~= v@.take(i as int).push(v@[i as int]));
        }
        i = i + 1;
    }
    r
}

/// Index of the first `x` in `v`, or `None`.
fn find_byte(v: &Vec<u8>, x: u8) -> (r: Option<usize>)
    ensures
        match r {
            Some(p) => index_of(v@, x) == p as int && p < v@.len() && p < usize::MAX,
            None => index_of(v@, x) == -1,
        },
{
    let mut i: usize = 0;
    while i < v.len()
        invariant
            i <= v@.len(),
            forall|m: int| 0 <= m < i ==> v@[m] != x,
        decreases v.len() - i,
    {
        if v[i] == x {
            proof {
                lemma_index_of(v@, x, i as int);
            }
            return Some(i);
        }
        i = i + 1;
    }
    proof {
        lemma_index_of(v@, x, i as int);
    }
    None
}

impl View for RxBuffer {
    type V = Seq<u8>;

    closed spec fn view(&self) -> Seq<u8> {
        self.buf@
    }
}

/// The line that a buffer starts with, if it holds a whole one: the bytes
/// before the first newline, read as text, without trailing white space.
pub open spec fn first_line(b: Seq<u8>) -> Option<Seq<char>> {
    let p = index_of(b, LINE_END);
    if p < 0 {
        None
    } else {
        Some(trim_end(lossy_text(b.take(p))))
    }
}

/// What a buffer holds after its first line (or frame) ending in `x` is cut
/// off; unchanged where it holds no `x`.
pub open spec fn after_first(b: Seq<u8>, x: u8) -> Seq<u8> {
    let p = index_of(b, x);
    if p < 0 {
        b
    } else {
        b.skip(p + 1)
    }
}

/// The frame that a buffer starts with, if it holds a whole one: `Some` of
/// the decoded payload, or `Some(None)` where the frame is malformed.
pub open spec fn first_frame(b: Seq<u8>) -> Option<Option<Seq<u8>>> {
    let p = index_of(b, FRAME_END);
    if p < 0 {
        None
    } else {
        Some(decode(b.take(p)))
    }
}

impl RxBuffer {
    /// An empty buffer.
    pub fn new() -> (r: Self)
        ensures
            r@ == Seq::<u8>::empty(),
    {
        RxBuffer { buf: Vec::new() }
    }

    /// Number of bytes held.
    pub fn len(&self) -> (r: usize)
        ensures
            r == self@.len(),
    {
        self.buf.len()
    }

    /// Appends bytes that were read from the port.
    pub fn extend(&mut self, bytes: &[u8])
        ensures
            final(self)@ == old(self)@ + bytes@,
    {
        let mut i: usize = 0;
        while i < bytes.len()
            invariant
                i <= bytes@.len(),
                self@ == old(self)@ + bytes@.take(i as int),
            decreases bytes.len() - i,
        {
            self.buf.push(bytes[i]);
            proof {
                assert(bytes@.take(i + 1) =~= bytes@.take(i as int).push(bytes@[i as int]));
                assert(old(self)@ + bytes@.take(i + 1) =~= (old(self)@ + bytes@.take(i as int)).push(bytes@[i as int]));
            }
            i = i + 1;
        }
        proof {
            assert(bytes@.take(bytes@.len() as int) =~= bytes@);
        }
    }

    /// Drops everything held.
    pub fn clear(&mut self)
        ensures
            final(self)@ == Seq::<u8>::empty(),
    {
        self.buf.clear();
    }

    /// Cuts the first whole line off the buffer: the text before the first
    /// newline, without trailing white space. `None`, and the buffer
    /// unchanged, while no newline has arrived.
    pub fn take_line(&mut self) -> (r: Option<String>)
        ensures
            final(self)@ == after_first(old(self)@, LINE_END),
            match r {
                Some(s) => first_line(old(self)@) == Some(s@),
                None => first_line(old(self)@) is None,
            },
    {
        match find_byte(&self.buf, LINE_END) {
            None => None,
            Some(p) => {
                let head = head_of(&self.buf, p);
                let text = utf8_lossy(head.as_slice());
                let c = chars_of(text.as_str());
                let e = trim_end_bound(c.as_slice(), 0, c.len());
                proof {
                    assert(c@.subrange(0, c@.len() as int) =~= c@);
                }
                let line = string_of(c.as_slice(), 0, e);
                self.buf = tail_of(&self.buf, p + 1);
                Some(line)
            },
        }
    }

    /// Cuts the first whole frame off the buffer and decodes it: `Some(None)`
    /// where it is malformed. `None`, and the buffer unchanged, while no
    /// delimiter has arrived.
    pub fn take_frame(&mut self) -> (r: Option<Option<Vec<u8>>>)
        ensures
            final(self)@ == after_first(old(self)@, FRAME_END),
            match r {
                Some(Some(f)) => first_frame(old(self)@) == Some(Some(f@)),
                Some(None) => first_frame(old(self)@) == Some(None::<Seq<u8>>),
                None => first_frame(old(self)@) is None,
            },
    {
        match find_byte(&self.buf, FRAME_END) {
            None => None,
            Some(p) => {
                let head = head_of(&self.buf, p);
                let frame = cobs_decode(head.as_slice());
                self.buf = tail_of(&self.buf, p + 1);
                Some(frame)
            },
        }
    }

    /// Takes up to `max` bytes off the front, unframed.
    pub fn take_bytes(&mut self, max: usize) -> (r: Vec<u8>)
        ensures
            r@.len() == if old(self)@.len() < max {
                old(self)@.len()
            } else {
                max as nat
            },
            r@ == old(self)@.take(r@.len() as int),
            final(self)@ == old(self)@.skip(r@.len() as int),
    {
        let n = if self.buf.len() < max {
            self.buf.len()
        } else {
            max
        };
        let head = head_of(&self.buf, n);
        self.buf = tail_of(&self.buf, n);
        head
    }
}

/// The arrival that the first whole frame of a buffer stands for.
pub open spec fn frame_arrival(f: Option<Seq<u8>>) -> ArrivalView {
    match f {
        Some(p) => ArrivalView::Frame(p),
        None => ArrivalView::Corrupt,
    }
}

/// The frames that a buffer holds whole, in order, as arrivals.
pub open spec fn buffered_arrivals(b: Seq<u8>) -> Seq<ArrivalView>
    decreases b.len(),
{
    match first_frame(b) {
        None => Seq::empty(),
        Some(f) => {
            let rest = after_first(b, FRAME_END);
            if rest.len() < b.len() {
                seq![frame_arrival(f)] + buffered_arrivals(rest)
            } else {
                Seq::empty()
            }
        },
    }
}

proof fn lemma_after_first_shorter(b: Seq<u8>, x: u8)
    ensures
        index_of(b, x) >= 0 ==> index_of(b, x) < b.len() && after_first(b, x).len() < b.len(),
    decreases b.len(),
{
    if b.len() > 0 && b[0] != x {
        lemma_after_first_shorter(b.drop_first(), x);
    }
}

impl ReplyWait {
    /// Feeds the waiting request the whole frames that the buffer holds, in
    /// order, until it is answered or fails; `None` when the buffer holds no
    /// whole frame any more and the request still waits.
    pub fn poll(&mut self, rx: &mut RxBuffer) -> (r: Option<Result<Response, ProtocolError>>)
        requires
            old(self).wf(),
        ensures
            exists|k: int|
                0 <= k <= buffered_arrivals(old(rx)@).len() && outcome_of(r, final(self).skipped())
                    == wait_run(old(self).skipped(), buffered_arrivals(old(rx)@).take(k)) && (r is None ==> k
                    == buffered_arrivals(old(rx)@).len()) && (r is Some ==> k > 0),
            r is None ==> final(self).wf() && first_frame(final(rx)@) is None,
    {
        let ghost start = self.skipped();
        let ghost all = buffered_arrivals(rx@);
        let ghost mut k: int = 0;
        proof {
            assert(all.take(0) =~= Seq::<ArrivalView>::empty());
        }
        loop
            invariant
                self.wf(),
                0 <= k <= all.len(),
                all == buffered_arrivals(old(rx)@),
                start == old(self).skipped(),
                wait_run(start, all.take(k)) == Outcome::Waiting(self.skipped()),
                buffered_arrivals(rx@) == all.skip(k),
            decreases rx@.len(),
        {
            let ghost b = rx@;
            proof {
                lemma_after_first_shorter(b, FRAME_END);
            }
            match rx.take_frame() {
                None => {
                    proof {
                        assert(all.skip(k).len() == 0);
                        assert(all.take(k) =~= all);
                    }
                    return None;
                },
                Some(f) => {
                    let a = match f {
                        Some(p) => Arrival::Frame(p),
                        None => Arrival::Corrupt,
                    };
                    proof {
                        assert(buffered_arrivals(b) == seq![frame_arrival(first_frame(b)->0)]
                            + buffered_arrivals(after_first(b, FRAME_END)));
                        assert(frame_arrival(first_frame(b)->0) == a@);
                        assert(all.skip(k) == buffered_arrivals(b));
                        assert(all.skip(k)[0] == a@);
                        lemma_wait_run_push(start, all.take(k), a@);
                        assert(all.take(k + 1) =~= all.take(k).push(a@));
                        assert(all.skip(k + 1) =~= all.skip(k).drop_first());
                    }
                    let r = self.step(a);
                    proof {
                        k = k + 1;
                    }
                    if r.is_some() {
                        return r;
                    }
                },
            }
        }
    }
}

/// Running one more arrival after a run that still waits.
proof fn lemma_wait_run_push(skipped: nat, arrivals: Seq<ArrivalView>, a: ArrivalView)
    requires
        wait_run(skipped, arrivals) is Waiting,
    ensures
        wait_run(skipped, arrivals.push(a)) == wait_step(wait_run(skipped, arrivals)->Waiting_0, a),
    decreases arrivals.len(),
{
    if arrivals.len() == 0 {
        let t = arrivals.push(a);
        assert(t[0] == a);
        assert(t.drop_first() =~= Seq::<ArrivalView>::empty());
        match wait_step(skipped, a) {
            Outcome::Waiting(j) => {
                assert(wait_run(j, t.drop_first()) == Outcome::Waiting(j));
            },
            _ => {},
        }
    } else {
        assert(arrivals.push(a)[0] == arrivals[0]);
        assert(arrivals.push(a).drop_first() =~= arrivals.drop_first().push(a));
        match wait_step(skipped, arrivals[0]) {
            Outcome::Waiting(j) => lemma_wait_run_push(j, arrivals.drop_first(), a),
            _ => {},
        }
    }
}

} // verus!
