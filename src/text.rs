//! Character-level helpers for the protocol's text lines: conversions between
//! bytes, `String` and `Vec<char>`, whitespace trimming as `str::trim` does it,
//! splitting on a separator, and integer parsing as `from_str_radix` does it.
use vstd::prelude::*;

verus! {

/// What `String::from_utf8_lossy` makes of a byte string.
pub uninterp spec fn lossy_text(b: Seq<u8>) -> Seq<char>;

/// Whether every byte is ASCII.
pub open spec fn ascii_bytes(b: Seq<u8>) -> bool {
    forall|i: int| 0 <= i < b.len() ==> b[i] < 128
}

/// The characters that ASCII bytes stand for.
pub open spec fn ascii_chars(b: Seq<u8>) -> Seq<char> {
    Seq::new(b.len(), |i: int| b[i] as char)
}

/// Relies on `String::from_utf8_lossy`: valid UTF-8 comes back unchanged, so
/// ASCII bytes become the same characters.
#[verifier::external_body]
pub(crate) fn utf8_lossy(b: &[u8]) -> (r: String)
    ensures
        r@ == lossy_text(b@),
        ascii_bytes(b@) ==> r@ == ascii_chars(b@),
{
    String::from_utf8_lossy(b).into_owned()
}

/// Relies on `String::push`: appends one character.
#[verifier::external_body]
pub(crate) fn push_char(s: &mut String, c: char)
    ensures
        final(s)@ == old(s)@.push(c),
{
    s.push(c);
}

/// What `str::to_lowercase` makes of a text.
pub uninterp spec fn lower_of(s: Seq<char>) -> Seq<char>;

/// What `str::to_uppercase` makes of a text.
pub uninterp spec fn upper_of(s: Seq<char>) -> Seq<char>;

/// Relies on `str::to_lowercase`: the result depends on the characters
/// alone, and an empty text stays empty.
#[verifier::external_body]
pub(crate) fn lowercase(s: &str) -> (r: String)
    ensures
        r@ == lower_of(s@),
        s@.len() == 0 ==> r@.len() == 0,
{
    s.to_lowercase()
}

/// Relies on `str::to_uppercase`: the result depends on the characters
/// alone, and an empty text stays empty.
#[verifier::external_body]
pub(crate) fn uppercase(s: &str) -> (r: String)
    ensures
        r@ == upper_of(s@),
        s@.len() == 0 ==> r@.len() == 0,
{
    s.to_uppercase()
}

/// The characters of `s`, one per element.
pub fn chars_of(s: &str) -> (r: Vec<char>)
    ensures
        r@ == s@,
{
    let n = s.unicode_len();
    let mut r: Vec<char> = Vec::new();
    let mut i: usize = 0;
    while i < n
        invariant
            n == s@.len(),
            i <= n,
            r@ == s@.take(i as int),
        decreases n - i,
    {
        r.push(s.get_char(i));
        proof {
            assert(s@.take(i + 1) =~= s@.take(i as int).push(s@[i as int]));
        }
        i = i + 1;
    }
    proof {
        assert(s@.take(n as int) =~= s@);
    }
    r
}

/// A `String` holding the characters `c[from..to]`.
pub fn string_of(c: &[char], from: usize, to: usize) -> (r: String)
    requires
        from <= to <= c@.len(),
    ensures
        r@ == c@.subrange(from as int, to as int),
{
    let mut r = String::new();
    let mut i: usize = from;
    while i < to
        invariant
            from <= i <= to <= c@.len(),
            r@ == c@.subrange(from as int, i as int),
        decreases to - i,
    {
        push_char(&mut r, c[i]);
        proof {
            assert(c@.subrange(from as int, i + 1) =~= c@.subrange(from as int, i as int).push(c@[i as int]));
        }
        i = i + 1;
    }
    r
}

/// Appends the characters `c[from..to]` to `s`.
pub fn push_chars(s: &mut String, c: &[char], from: usize, to: usize)
    requires
        from <= to <= c@.len(),
    ensures
        final(s)@ == old(s)@ + c@.subrange(from as int, to as int),
{
    let mut i: usize = from;
    while i < to
        invariant
            from <= i <= to <= c@.len(),
            s@ == old(s)@ + c@.subrange(from as int, i as int),
        decreases to - i,
    {
        push_char(s, c[i]);
        proof {
            assert(c@.subrange(from as int, i + 1) =~= c@.subrange(from as int, i as int).push(c@[i as int]));
        }
        i = i + 1;
    }
}

/// Appends the characters of `t` to `s`.
pub fn push_str(s: &mut String, t: &str)
    ensures
        final(s)@ == old(s)@ + t@,
{
    let c = chars_of(t);
    push_chars(s, c.as_slice(), 0, c.len());
    proof {
        assert(c@.subrange(0, c@.len() as int) =~= t@);
    }
}

/// Whether `s` starts with `p`.
pub open spec fn starts_with(s: Seq<char>, p: Seq<char>) -> bool {
    p.len() <= s.len() && s.take(p.len() as int) == p
}

/// Whether `s` starts with `p`.
pub fn has_prefix(s: &[char], p: &[char]) -> (r: bool)
    ensures
        r == starts_with(s@, p@),
{
    if p.len() > s.len() {
        return false;
    }
    let mut i: usize = 0;
    while i < p.len()
        invariant
            p@.len() <= s@.len(),
            i <= p@.len(),
            forall|k: int| 0 <= k < i ==> s@[k] == p@[k],
        decreases p.len() - i,
    {
        if s[i] != p[i] {
            proof {
                assert(s@.take(p@.len() as int)[i as int] != p@[i as int]);
            }
            return false;
        }
        i = i + 1;
    }
    proof {
        assert(s@.take(p@.len() as int) =~= p@);
    }
    true
}

/// Whether `s` equals `p`.
pub fn same_chars(s: &[char], p: &[char]) -> (r: bool)
    ensures
        r == (s@ == p@),
{
    let r = s.len() == p.len() && has_prefix(s, p);
    proof {
        if s@ == p@ {
            assert(s@.take(p@.len() as int) =~= p@);
        }
        if s@.len() == p@.len() && starts_with(s@, p@) {
            assert(s@.take(p@.len() as int) =~= s@);
        }
    }
    r
}

/// Whether `c` is white space in the sense of `char::is_whitespace`: the
/// Unicode `White_Space` property.
pub open spec fn is_space(c: char) -> bool {
    let u = c as u32;
    (0x9 <= u <= 0xd) || u == 0x20 || u == 0x85 || u == 0xa0 || u == 0x1680 || (0x2000 <= u
        <= 0x200a) || u == 0x2028 || u == 0x2029 || u == 0x202f || u == 0x205f || u == 0x3000
}

/// Whether `c` is white space, as `char::is_whitespace` decides it.
pub fn space(c: char) -> (r: bool)
    ensures
        r == is_space(c),
{
    let u = c as u32;
    (0x9 <= u && u <= 0xd) || u == 0x20 || u == 0x85 || u == 0xa0 || u == 0x1680 || (0x2000 <= u
        && u <= 0x200a) || u == 0x2028 || u == 0x2029 || u == 0x202f || u == 0x205f || u == 0x3000
}

/// Number of white-space characters that `s` starts with.
pub open spec fn lead_space(s: Seq<char>) -> nat
    decreases s.len(),
{
    if s.len() > 0 && is_space(s[0]) {
        1 + lead_space(s.drop_first())
    } else {
        0
    }
}

/// Number of white-space characters that `s` ends with.
pub open spec fn trail_space(s: Seq<char>) -> nat
    decreases s.len(),
{
    if s.len() > 0 && is_space(s.last()) {
        1 + trail_space(s.drop_last())
    } else {
        0
    }
}

/// `s` without trailing white space, as `str::trim_end` gives it.
pub open spec fn trim_end(s: Seq<char>) -> Seq<char> {
    s.take(s.len() - trail_space(s))
}

/// `s` without leading white space, as `str::trim_start` gives it.
pub open spec fn trim_start(s: Seq<char>) -> Seq<char> {
    s.skip(lead_space(s) as int)
}

/// `s` without leading or trailing white space, as `str::trim` gives it.
pub open spec fn trim(s: Seq<char>) -> Seq<char> {
    trim_end(trim_start(s))
}

proof fn lemma_lead_space(s: Seq<char>, k: int)
    requires
        0 <= k <= s.len(),
        forall|m: int| 0 <= m < k ==> is_space(s[m]),
        k == s.len() || !is_space(s[k]),
    ensures
        lead_space(s) == k,
    decreases k,
{
    if k > 0 {
        let t = s.drop_first();
        assert forall|m: int| 0 <= m < k - 1 implies is_space(t[m]) by {
            assert(t[m] == s[m + 1]);
        }
        if k < s.len() {
            assert(t[k - 1] == s[k]);
        }
        lemma_lead_space(t, k - 1);
    }
}

proof fn lemma_trail_space(s: Seq<char>, k: int)
    requires
        0 <= k <= s.len(),
        forall|m: int| k <= m < s.len() ==> is_space(s[m]),
        k == 0 || !is_space(s[k - 1]),
    ensures
        trail_space(s) == s.len() - k,
    decreases s.len() - k,
{
    if k < s.len() {
        let t = s.drop_last();
        assert forall|m: int| k <= m < t.len() implies is_space(t[m]) by {
            assert(t[m] == s[m]);
        }
        if k > 0 {
            assert(t[k - 1] == s[k - 1]);
        }
        lemma_trail_space(t, k);
    }
}

/// The bounds `(a, b)` of `trim(c[from..to])` inside `c`.
pub fn trim_bounds(c: &[char], from: usize, to: usize) -> (r: (usize, usize))
    requires
        from <= to <= c@.len(),
    ensures
        from <= r.0 <= r.1 <= to,
        c@.subrange(r.0 as int, r.1 as int) == trim(c@.subrange(from as int, to as int)),
{
    let ghost s = c@.subrange(from as int, to as int);
    let mut a: usize = from;
    while a < to && space(c[a])
        invariant
            from <= a <= to <= c@.len(),
            forall|m: int| from <= m < a ==> is_space(c@[m]),
        decreases to - a,
    {
        a = a + 1;
    }
    proof {
        lemma_lead_space(s, a - from);
    }
    let ghost u = trim_start(s);
    proof {
        assert(u =~= c@.subrange(a as int, to as int));
    }
    let mut b: usize = to;
    while b > a && space(c[b - 1])
        invariant
            from <= a <= b <= to <= c@.len(),
            forall|m: int| b <= m < to ==> is_space(c@[m]),
        decreases b - a,
    {
        b = b - 1;
    }
    proof {
        lemma_trail_space(u, b - a);
        assert(c@.subrange(a as int, b as int) =~= trim_end(u));
    }
    (a, b)
}

/// The end of `trim_end(c[from..to])` inside `c`.
pub fn trim_end_bound(c: &[char], from: usize, to: usize) -> (r: usize)
    requires
        from <= to <= c@.len(),
    ensures
        from <= r <= to,
        c@.subrange(from as int, r as int) == trim_end(c@.subrange(from as int, to as int)),
{
    let ghost s = c@.subrange(from as int, to as int);
    let mut b: usize = to;
    while b > from && space(c[b - 1])
        invariant
            from <= b <= to <= c@.len(),
            forall|m: int| b <= m < to ==> is_space(c@[m]),
        decreases b - from,
    {
        b = b - 1;
    }
    proof {
        lemma_trail_space(s, b - from);
        assert(c@.subrange(from as int, b as int) =~= trim_end(s));
    }
    b
}

/// Index of the first `x` in `s`, or -1.
pub open spec fn index_of<T>(s: Seq<T>, x: T) -> int
    decreases s.len(),
{
    if s.len() == 0 {
        -1
    } else if s[0] == x {
        0
    } else {
        let r = index_of(s.drop_first(), x);
        if r < 0 {
            -1
        } else {
            r + 1
        }
    }
}

pub proof fn lemma_index_of<T>(s: Seq<T>, x: T, k: int)
    requires
        0 <= k <= s.len(),
        forall|m: int| 0 <= m < k ==> s[m] != x,
        k == s.len() || s[k] == x,
    ensures
        index_of(s, x) == if k == s.len() {
            -1
        } else {
            k
        },
    decreases k,
{
    if k > 0 {
        let t = s.drop_first();
        assert forall|m: int| 0 <= m < k - 1 implies t[m] != x by {
            assert(t[m] == s[m + 1]);
        }
        if k < s.len() {
            assert(t[k - 1] == s[k]);
        }
        lemma_index_of(t, x, k - 1);
    }
}

/// The pieces of `s` between occurrences of `sep`, at most `n` of them, the
/// last holding the rest: `str::splitn`.
pub open spec fn split_n(s: Seq<char>, n: nat, sep: char) -> Seq<Seq<char>>
    decreases n,
{
    if n == 0 {
        Seq::empty()
    } else if n == 1 || index_of(s, sep) < 0 {
        seq![s]
    } else {
        let i = index_of(s, sep);
        seq![s.take(i)] + split_n(s.skip(i + 1), (n - 1) as nat, sep)
    }
}

/// Splits `s` on `sep` into at most `n` pieces, the last holding the rest.
pub fn split_pieces(s: &[char], n: usize, sep: char) -> (r: Vec<Vec<char>>)
    ensures
        r@.len() == split_n(s@, n as nat, sep).len(),
        forall|k: int| 0 <= k < r@.len() ==> r@[k]@ == split_n(s@, n as nat, sep)[k],
{
    let mut r: Vec<Vec<char>> = Vec::new();
    if n == 0 {
        return r;
    }
    let mut start: usize = 0;
    let mut left: usize = n;
    proof {
        assert(s@.subrange(0, s@.len() as int) =~= s@);
    }
    loop
        invariant
            1 <= left <= n,
            start <= s@.len(),
            r@.len() + split_n(s@.subrange(start as int, s@.len() as int), left as nat, sep).len()
                == split_n(s@, n as nat, sep).len(),
            forall|k: int| 0 <= k < r@.len() ==> r@[k]@ == split_n(s@, n as nat, sep)[k],
            forall|k: int|
                0 <= k < split_n(s@.subrange(start as int, s@.len() as int), left as nat, sep).len()
                    ==> split_n(s@, n as nat, sep)[r@.len() + k] == split_n(
                    s@.subrange(start as int, s@.len() as int),
                    left as nat,
                    sep,
                )[k],
        decreases s@.len() - start,
    {
        let ghost rest = s@.subrange(start as int, s@.len() as int);
        let mut j: usize = start;
        if left > 1 {
            while j < s.len() && s[j] != sep
                invariant
                    start <= j <= s@.len(),
                    forall|m: int| start <= m < j ==> s@[m] != sep,
                decreases s.len() - j,
            {
                j = j + 1;
            }
            proof {
                assert forall|m: int| 0 <= m < j - start implies rest[m] != sep by {
                    assert(rest[m] == s@[start + m]);
                }
                if j < s@.len() {
                    assert(rest[j - start] == s@[j as int]);
                }
                lemma_index_of(rest, sep, j - start);
            }
        }
        if left == 1 || j == s.len() {
            let piece = slice_vec(s, start, s.len());
            proof {
                assert(split_n(rest, left as nat, sep) =~= seq![rest]);
                assert(piece@ =~= rest);
            }
            let ghost old_r = r@;
            r.push(piece);
            proof {
                assert forall|k: int| 0 <= k < r@.len() implies r@[k]@ == split_n(s@, n as nat, sep)[k] by {
                    if k == old_r.len() {
                        assert(split_n(rest, left as nat, sep)[0] == rest);
                    }
                }
            }
            return r;
        }
        let piece = slice_vec(s, start, j);
        let ghost tail = split_n(s@.subrange(j + 1, s@.len() as int), (left - 1) as nat, sep);
        proof {
            assert(rest.take(j - start) =~= s@.subrange(start as int, j as int));
            assert(rest.skip(j - start + 1) =~= s@.subrange(j + 1, s@.len() as int));
            assert(split_n(rest, left as nat, sep) == seq![rest.take(j - start)] + tail);
        }
        let ghost old_r = r@;
        r.push(piece);
        proof {
            assert forall|k: int| 0 <= k < r@.len() implies r@[k]@ == split_n(s@, n as nat, sep)[k] by {
                if k == old_r.len() {
                    assert(split_n(rest, left as nat, sep)[0] == rest.take(j - start));
                }
            }
            assert forall|k: int| 0 <= k < tail.len() implies split_n(s@, n as nat, sep)[r@.len() + k]
                == tail[k] by {
                assert(split_n(rest, left as nat, sep)[k + 1] == tail[k]);
            }
        }
        start = j + 1;
        left = left - 1;
    }
}

/// Whether `p` occurs in `s`.
pub open spec fn contains(s: Seq<char>, p: Seq<char>) -> bool {
    exists|i: int| 0 <= i && i + p.len() <= s.len() && #[trigger] s.subrange(i, i + p.len()) == p
}

/// Whether `p` occurs in `s`, as `str::contains` finds it.
pub fn find_text(s: &[char], p: &[char]) -> (r: bool)
    ensures
        r == contains(s@, p@),
{
    if p.len() > s.len() {
        return false;
    }
    let mut i: usize = 0;
    while i <= s.len() - p.len()
        invariant
            p@.len() <= s@.len(),
            i <= s@.len() - p@.len() + 1,
            forall|k: int| 0 <= k < i ==> #[trigger] s@.subrange(k, k + p@.len()) != p@,
        decreases s.len() - p.len() + 1 - i,
    {
        let mut j: usize = 0;
        let n = s.len();
        while j < p.len() && s[i + j] == p[j]
            invariant
                n == s@.len(),
                i + p@.len() <= s@.len(),
                j <= p@.len(),
                forall|m: int| 0 <= m < j ==> s@[i + m] == p@[m],
            decreases p.len() - j,
        {
            j = j + 1;
        }
        if j == p.len() {
            proof {
                assert(s@.subrange(i as int, i + p@.len()) =~= p@);
            }
            return true;
        }
        proof {
            assert(s@.subrange(i as int, i + p@.len())[j as int] != p@[j as int]);
        }
        i = i + 1;
    }
    proof {
        assert forall|k: int| 0 <= k && k + p@.len() <= s@.len() implies #[trigger] s@.subrange(k, k + p@.len()) != p@ by {
            assert(k < i);
        }
    }
    false
}

/// The elements `c[from..to]` as a new vector.
pub fn slice_vec(c: &[char], from: usize, to: usize) -> (r: Vec<char>)
    requires
        from <= to <= c@.len(),
    ensures
        r@ == c@.subrange(from as int, to as int),
{
    let mut r: Vec<char> = Vec::new();
    let mut i: usize = from;
    while i < to
        invariant
            from <= i <= to <= c@.len(),
            r@ == c@.subrange(from as int, i as int),
        decreases to - i,
    {
        r.push(c[i]);
        proof {
            assert(c@.subrange(from as int, i + 1) =~= c@.subrange(from as int, i as int).push(c@[i as int]));
        }
        i = i + 1;
    }
    r
}

} // verus!
