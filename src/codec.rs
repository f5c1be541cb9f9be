//! Consistent-overhead byte stuffing (COBS).
//!
//! An encoded frame never holds the delimiter byte 0: the writer appends one
//! 0 after it, and the reader cuts the stream at each 0.
use vstd::prelude::*;

verus! {

/// Longest run of data bytes that one group can carry.
pub const MAX_RUN: usize = 254;

/// Length of the run that starts `d`: the bytes before its first 0, at most
/// `MAX_RUN` of them.
pub open spec fn run_len(d: Seq<u8>) -> nat
    decreases d.len(),
{
    if d.len() == 0 || d[0] == 0 {
        0
    } else {
        let r = 1 + run_len(d.drop_first());
        if r > MAX_RUN {
            MAX_RUN as nat
        } else {
            r
        }
    }
}

/// The COBS encoding of `d`, without the trailing delimiter.
pub open spec fn encode(d: Seq<u8>) -> Seq<u8>
    decreases d.len(),
{
    let n = run_len(d);
    let group = seq![(n + 1) as u8] + d.take(n as int);
    if n == MAX_RUN && n <= d.len() {
        group + encode(d.skip(MAX_RUN as int))
    } else if n < d.len() {
        group + encode(d.skip(n as int + 1))
    } else {
        group
    }
}

/// Whether no byte of `s` is the delimiter.
pub open spec fn zero_free(s: Seq<u8>) -> bool {
    forall|i: int| 0 <= i < s.len() ==> s[i] != 0
}

/// The payload that an encoded frame stands for, or `None` where the frame is
/// malformed: it holds a 0, or a group claims more bytes than remain.
pub open spec fn decode(e: Seq<u8>) -> Option<Seq<u8>>
    decreases e.len(),
{
    if e.len() == 0 {
        Some(Seq::empty())
    } else {
        let c = e[0] as int;
        if c == 0 || c > e.len() || !zero_free(e.subrange(1, c)) {
            None
        } else {
            let data = e.subrange(1, c);
            let rest = e.skip(c);
            match decode(rest) {
                None => None,
                Some(r) => if c < 255 && rest.len() > 0 {
                    Some(data + seq![0u8] + r)
                } else {
                    Some(data + r)
                },
            }
        }
    }
}

/// Whether `k` is where a group of `e` starts (or `e` ends), walking the
/// groups from the front.
pub open spec fn group_boundary(e: Seq<u8>, k: int) -> bool
    decreases e.len(),
{
    if k == 0 {
        true
    } else if e.len() == 0 || e[0] == 0 || e[0] as int > k || e[0] as int > e.len() {
        false
    } else {
        group_boundary(e.skip(e[0] as int), k - e[0] as int)
    }
}

proof fn lemma_run_len_bounds(d: Seq<u8>)
    ensures
        run_len(d) <= MAX_RUN,
        run_len(d) <= d.len(),
        forall|i: int| 0 <= i < run_len(d) ==> d[i] != 0,
        run_len(d) < MAX_RUN && run_len(d) < d.len() ==> d[run_len(d) as int] == 0,
    decreases d.len(),
{
    if d.len() > 0 && d[0] != 0 {
        let t = d.drop_first();
        lemma_run_len_bounds(t);
        assert forall|i: int| 0 <= i < run_len(d) implies d[i] != 0 by {
            if i > 0 {
                assert(d[i] == t[i - 1]);
            }
        }
        if run_len(d) < MAX_RUN && run_len(d) < d.len() {
            assert(d[run_len(d) as int] == t[run_len(t) as int]);
        }
    }
}

/// A scan that stops at the first 0, at the cap, or at the end has measured
/// the run.
proof fn lemma_run_len_scan(d: Seq<u8>, k: nat)
    requires
        k <= MAX_RUN,
        k <= d.len(),
        forall|i: int| 0 <= i < k ==> d[i] != 0,
        k == MAX_RUN || k == d.len() || d[k as int] == 0,
    ensures
        run_len(d) == k,
    decreases k,
{
    if k > 0 {
        let t = d.drop_first();
        assert forall|i: int| 0 <= i < k - 1 implies t[i] != 0 by {
            assert(t[i] == d[i + 1]);
        }
        if k == MAX_RUN {
            lemma_run_len_bounds(t);
            if run_len(t) < (k - 1) as nat {
                assert(t[run_len(t) as int] == d[run_len(t) as int + 1]);
            }
        } else {
            if k < d.len() {
                assert(t[k - 1] == d[k as int]);
            }
            lemma_run_len_scan(t, (k - 1) as nat);
        }
    } else {
        assert(d.len() == 0 || d[0] == 0);
    }
}

proof fn lemma_encode_nonempty(d: Seq<u8>)
    ensures
        encode(d).len() > 0,
        encode(d)[0] as int == run_len(d) + 1,
{
    lemma_run_len_bounds(d);
    let n = run_len(d);
    let group = seq![(n + 1) as u8] + d.take(n as int);
    assert(group[0] == (n + 1) as u8);
    if n == MAX_RUN && n <= d.len() {
        assert(encode(d) == group + encode(d.skip(MAX_RUN as int)));
    } else if n < d.len() {
        assert(encode(d) == group + encode(d.skip(n as int + 1)));
    } else {
        assert(encode(d) == group);
    }
}

/// Decoding one well-formed group followed by a tail.
proof fn lemma_decode_group(data: Seq<u8>, rest: Seq<u8>)
    requires
        data.len() < 255,
        zero_free(data),
    ensures
        decode(seq![(data.len() + 1) as u8] + data + rest) == match decode(rest) {
            None => None,
            Some(r) => if data.len() + 1 < 255 && rest.len() > 0 {
                Some(data + seq![0u8] + r)
            } else {
                Some(data + r)
            },
        },
{
    let e = seq![(data.len() + 1) as u8] + data + rest;
    let c = data.len() as int + 1;
    assert(e[0] as int == c);
    assert(e.subrange(1, c) =~= data);
    assert(e.skip(c) =~= rest);
}

/// Decoding an encoded payload gives the payload back.
pub proof fn lemma_round_trip(d: Seq<u8>)
    ensures
        decode(encode(d)) == Some(d),
    decreases d.len(),
{
    lemma_run_len_bounds(d);
    let n = run_len(d);
    let data = d.take(n as int);
    assert(zero_free(data));
    let group = seq![(n + 1) as u8] + data;
    assert(data.len() == n);
    if n == MAX_RUN && n <= d.len() {
        let rest = encode(d.skip(MAX_RUN as int));
        lemma_round_trip(d.skip(MAX_RUN as int));
        lemma_decode_group(data, rest);
        assert(data + d.skip(MAX_RUN as int) =~= d);
    } else if n < d.len() {
        let rest = encode(d.skip(n as int + 1));
        lemma_round_trip(d.skip(n as int + 1));
        lemma_encode_nonempty(d.skip(n as int + 1));
        lemma_decode_group(data, rest);
        assert(d[n as int] == 0);
        assert(data + seq![0u8] + d.skip(n as int + 1) =~= d);
    } else {
        lemma_decode_group(data, Seq::empty());
        assert(group + Seq::<u8>::empty() =~= group);
        assert(data + Seq::<u8>::empty() =~= d);
    }
}

/// An encoded payload holds no delimiter byte.
pub proof fn lemma_encode_zero_free(d: Seq<u8>)
    ensures
        zero_free(encode(d)),
    decreases d.len(),
{
    lemma_run_len_bounds(d);
    let n = run_len(d);
    let group = seq![(n + 1) as u8] + d.take(n as int);
    assert(zero_free(group)) by {
        assert forall|i: int| 0 <= i < group.len() implies group[i] != 0 by {
            if i > 0 {
                assert(group[i] == d[i - 1]);
            }
        }
    }
    if n == MAX_RUN && n <= d.len() {
        lemma_encode_zero_free(d.skip(MAX_RUN as int));
        let t = encode(d.skip(MAX_RUN as int));
        assert forall|i: int| 0 <= i < (group + t).len() implies (group + t)[i] != 0 by {
            if i >= group.len() {
                assert((group + t)[i] == t[i - group.len()]);
            }
        }
    } else if n < d.len() {
        lemma_encode_zero_free(d.skip(n as int + 1));
        let t = encode(d.skip(n as int + 1));
        assert forall|i: int| 0 <= i < (group + t).len() implies (group + t)[i] != 0 by {
            if i >= group.len() {
                assert((group + t)[i] == t[i - group.len()]);
            }
        }
    }
}

/// A buffer that holds the delimiter byte is rejected.
pub proof fn lemma_decode_rejects_delimiter(e: Seq<u8>)
    requires
        !zero_free(e),
    ensures
        decode(e) is None,
    decreases e.len(),
{
    let i = choose|i: int| 0 <= i < e.len() && e[i] == 0;
    let c = e[0] as int;
    if c != 0 && c <= e.len() && zero_free(e.subrange(1, c)) {
        if i < c {
            assert(i > 0);
            assert(e.subrange(1, c)[i - 1] == 0);
        } else {
            assert(e.skip(c)[i - c] == 0);
            lemma_decode_rejects_delimiter(e.skip(c));
        }
    }
}

/// A prefix of a well-formed frame decodes exactly when the cut falls between
/// two groups; a cut inside a group is reported as malformed.
pub proof fn lemma_truncation(e: Seq<u8>, k: int)
    requires
        decode(e) is Some,
        0 <= k <= e.len(),
    ensures
        decode(e.take(k)) is Some <==> group_boundary(e, k),
    decreases e.len(),
{
    let t = e.take(k);
    if k > 0 {
        let c = e[0] as int;
        assert(t[0] == e[0]);
        if c <= k {
            assert(t.subrange(1, c) =~= e.subrange(1, c));
            assert(t.skip(c) =~= e.skip(c).take(k - c));
            lemma_truncation(e.skip(c), k - c);
        }
    } else {
        assert(t.len() == 0);
    }
}

/// A prefix of a well-formed frame that does decode gives a prefix of the
/// payload, never other bytes.
pub proof fn lemma_truncation_prefix(e: Seq<u8>, k: int)
    requires
        decode(e) is Some,
        0 <= k <= e.len(),
        decode(e.take(k)) is Some,
    ensures
        decode(e.take(k))->0.len() <= decode(e)->0.len(),
        decode(e)->0.take(decode(e.take(k))->0.len() as int) == decode(e.take(k))->0,
    decreases e.len(),
{
    let t = e.take(k);
    if k == 0 {
        assert(t.len() == 0);
        assert(decode(e)->0.take(0) =~= Seq::<u8>::empty());
    } else {
        let c = e[0] as int;
        assert(t[0] == e[0]);
        assert(c <= k);
        let data = e.subrange(1, c);
        assert(t.subrange(1, c) =~= data);
        let rest = e.skip(c);
        let rest_t = t.skip(c);
        assert(rest_t =~= rest.take(k - c));
        lemma_truncation_prefix(rest, k - c);
        let r = decode(rest)->0;
        let q = decode(rest_t)->0;
        let whole = decode(e)->0;
        let part = decode(t)->0;
        if c < 255 && rest_t.len() > 0 {
            assert(whole == data + seq![0u8] + r);
            assert(part == data + seq![0u8] + q);
            assert(whole.take(part.len() as int) =~= part);
        } else if c < 255 && rest.len() > 0 {
            assert(rest_t.len() == 0);
            assert(part == data + q);
            assert(q.len() == 0);
            assert(whole == data + seq![0u8] + r);
            assert(whole.take(part.len() as int) =~= part);
        } else {
            assert(whole == data + r);
            assert(part == data + q);
            assert(whole.take(part.len() as int) =~= part);
        }
    }
}

/// COBS-encodes `data`. The result holds no 0; the caller appends the
/// delimiter.
pub fn cobs_encode(data: &[u8]) -> (r: Vec<u8>)
    ensures
        r@ == encode(data@),
        zero_free(r@),
{
    let mut out: Vec<u8> = Vec::new();
    let mut i: usize = 0;
    proof {
        assert(data@.skip(0) =~= data@);
    }
    loop
        invariant
            i <= data.len(),
            encode(data@) == out@ + encode(data@.skip(i as int)),
        decreases data.len() - i,
    {
        let ghost rest = data@.skip(i as int);
        let mut j: usize = i;
        while j < data.len() && j - i < MAX_RUN && data[j] != 0
            invariant
                i <= j <= data.len(),
                j - i <= MAX_RUN,
                forall|m: int| i <= m < j ==> data@[m] != 0,
            decreases data.len() - j,
        {
            j = j + 1;
        }
        let n = j - i;
        proof {
            assert forall|m: int| 0 <= m < n implies rest[m] != 0 by {
                assert(rest[m] == data@[i + m]);
            }
            if n < MAX_RUN && n < rest.len() {
                assert(rest[n as int] == data@[j as int]);
            }
            lemma_run_len_scan(rest, n as nat);
        }
        let ghost before = out@;
        out.push((n + 1) as u8);
        let mut k: usize = i;
        while k < j
            invariant
                i <= k <= j <= data.len(),
                out@ == before + seq![(n + 1) as u8] + data@.subrange(i as int, k as int),
            decreases j - k,
        {
            out.push(data[k]);
            proof {
                assert(data@.subrange(i as int, k + 1) =~= data@.subrange(i as int, k as int).push(data@[k as int]));
            }
            k = k + 1;
        }
        proof {
            assert(data@.subrange(i as int, j as int) =~= rest.take(n as int));
        }
        if n == MAX_RUN {
            proof {
                assert(rest.skip(MAX_RUN as int) =~= data@.skip(j as int));
                assert(out@ + encode(data@.skip(j as int)) =~= before + encode(rest));
            }
            i = j;
        } else if j < data.len() {
            proof {
                assert(rest.skip(n as int + 1) =~= data@.skip(j + 1));
                assert(out@ + encode(data@.skip(j + 1)) =~= before + encode(rest));
            }
            i = j + 1;
        } else {
            proof {
                assert(out@ =~= before + encode(rest));
                lemma_encode_zero_free(data@);
            }
            return out;
        }
    }
}

/// Decodes one COBS frame (without its delimiter). `None` where the frame is
/// malformed: it holds a 0, or a group claims more bytes than remain.
pub fn cobs_decode(data: &[u8]) -> (r: Option<Vec<u8>>)
    ensures
        match r {
            Some(v) => decode(data@) == Some(v@),
            None => decode(data@) is None,
        },
{
    let mut out: Vec<u8> = Vec::new();
    let mut i: usize = 0;
    proof {
        assert(data@.skip(0) =~= data@);
    }
    while i < data.len()
        invariant
            i <= data.len(),
            decode(data@) == match decode(data@.skip(i as int)) {
                None => None,
                Some(t) => Some(out@ + t),
            },
        decreases data.len() - i,
    {
        let ghost e = data@.skip(i as int);
        let code = data[i];
        proof {
            assert(e.len() == data.len() - i);
            assert(e[0] == code);
        }
        if code == 0 || (code as usize) > data.len() - i {
            return None;
        }
        let end = i + code as usize;
        let ghost before = out@;
        let mut k: usize = i + 1;
        while k < end
            invariant
                i < k <= end <= data.len(),
                end == i + code as usize,
                e == data@.skip(i as int),
                1 <= code <= e.len(),
                e[0] == code,
                decode(data@) == match decode(e) {
                    None => None,
                    Some(t) => Some(before + t),
                },
                out@ == before + data@.subrange(i + 1, k as int),
                forall|m: int| i + 1 <= m < k ==> data@[m] != 0,
            decreases end - k,
        {
            if data[k] == 0 {
                proof {
                    assert(e.subrange(1, code as int)[k - i - 1] == data@[k as int]);
                    assert(!zero_free(e.subrange(1, code as int)));
                }
                return None;
            }
            out.push(data[k]);
            proof {
                assert(data@.subrange(i + 1, k + 1) =~= data@.subrange(i + 1, k as int).push(data@[k as int]));
            }
            k = k + 1;
        }
        proof {
            assert(e.subrange(1, code as int) =~= data@.subrange(i + 1, end as int));
            assert(e.skip(code as int) =~= data@.skip(end as int));
        }
        if code < 255 && end < data.len() {
            out.push(0);
            proof {
                match decode(data@.skip(end as int)) {
                    None => {}
                    Some(t) => {
                        assert(out@ + t =~= before + (data@.subrange(i + 1, end as int) + seq![0u8] + t));
                    }
                }
            }
        } else {
            proof {
                match decode(data@.skip(end as int)) {
                    None => {}
                    Some(t) => {
                        assert(out@ + t =~= before + (data@.subrange(i + 1, end as int) + t));
                    }
                }
            }
        }
        i = end;
    }
    proof {
        assert(data@.skip(i as int) =~= Seq::<u8>::empty());
        assert(out@ + Seq::<u8>::empty() =~= out@);
    }
    Some(out)
}

} // verus!
