//! Integer parsing with the rules of `from_str_radix`: an optional sign, then
//! one or more digits of the radix, and no value outside the target type.
use vstd::prelude::*;

verus! {

/// The value of `c` as a digit: `0`-`9`, then letters of either case from 10
/// on; -1 for any other character.
pub open spec fn digit_value(c: char) -> int {
    if '0' <= c <= '9' {
        c as int - '0' as int
    } else if 'a' <= c <= 'z' {
        c as int - 'a' as int + 10
    } else if 'A' <= c <= 'Z' {
        c as int - 'A' as int + 10
    } else {
        -1
    }
}

/// The number that the digits `s` spell in `radix`; `None` where `s` is empty
/// or holds a character that is no digit of `radix`.
pub open spec fn digits_value(s: Seq<char>, radix: int) -> Option<int>
    decreases s.len(),
{
    if s.len() == 0 {
        None
    } else {
        let d = digit_value(s.last());
        if d < 0 || d >= radix {
            None
        } else if s.len() == 1 {
            Some(d)
        } else {
            match digits_value(s.drop_last(), radix) {
                Some(v) => Some(v * radix + d),
                None => None,
            }
        }
    }
}

/// The integer that `s` spells: a `+` may lead, and a `-` where `signed`.
pub open spec fn int_value(s: Seq<char>, radix: int, signed: bool) -> Option<int> {
    if s.len() > 0 && s[0] == '+' {
        digits_value(s.drop_first(), radix)
    } else if signed && s.len() > 0 && s[0] == '-' {
        match digits_value(s.drop_first(), radix) {
            Some(v) => Some(-v),
            None => None,
        }
    } else {
        digits_value(s, radix)
    }
}

/// `int_value`, kept only inside `lo..=hi`: what `from_str_radix` returns for
/// a type with that range.
pub open spec fn int_in(s: Seq<char>, radix: int, signed: bool, lo: int, hi: int) -> Option<int> {
    match int_value(s, radix, signed) {
        Some(v) => if lo <= v <= hi {
            Some(v)
        } else {
            None
        },
        None => None,
    }
}

proof fn lemma_digits_nonneg(s: Seq<char>, radix: int)
    requires
        radix >= 1,
        digits_value(s, radix) is Some,
    ensures
        digits_value(s, radix)->0 >= 0,
    decreases s.len(),
{
    if s.len() > 1 {
        lemma_digits_nonneg(s.drop_last(), radix);
        let v = digits_value(s.drop_last(), radix)->0;
        assert(v * radix >= 0) by (nonlinear_arith)
            requires
                v >= 0,
                radix >= 1,
        ;
    }
}

/// The value of a prefix never exceeds the value of the whole.
proof fn lemma_digits_prefix(s: Seq<char>, radix: int, k: int)
    requires
        radix >= 1,
        1 <= k <= s.len(),
        digits_value(s, radix) is Some,
    ensures
        digits_value(s.take(k), radix) is Some,
        digits_value(s.take(k), radix)->0 <= digits_value(s, radix)->0,
    decreases s.len(),
{
    if k == s.len() {
        assert(s.take(k) =~= s);
    } else {
        let t = s.drop_last();
        lemma_digits_prefix(t, radix, k);
        assert(t.take(k) =~= s.take(k));
        lemma_digits_nonneg(t, radix);
        let v = digits_value(t, radix)->0;
        assert(v <= v * radix) by (nonlinear_arith)
            requires
                v >= 0,
                radix >= 1,
        ;
    }
}

/// The value of the digits `s[from..to]` in `radix`, where it is at most
/// `limit`.
pub fn digits_upto(s: &[char], from: usize, to: usize, radix: u32, limit: u64) -> (r: Option<u64>)
    requires
        from <= to <= s@.len(),
        2 <= radix <= 36,
    ensures
        r == match digits_value(s@.subrange(from as int, to as int), radix as int) {
            Some(v) => if v <= limit {
                Some(v as u64)
            } else {
                None::<u64>
            },
            None => None,
        },
{
    if from == to {
        return None;
    }
    let mut acc: u64 = 0;
    let mut k: usize = from;
    while k < to
        invariant
            from <= k <= to <= s@.len(),
            2 <= radix <= 36,
            acc <= limit,
            k == from ==> acc == 0,
            k > from ==> digits_value(s@.subrange(from as int, k as int), radix as int) == Some(
                acc as int,
            ),
        decreases to - k,
    {
        let c = s[k];
        let d: u32 = if '0' <= c && c <= '9' {
            (c as u32) - ('0' as u32)
        } else if 'a' <= c && c <= 'z' {
            (c as u32) - ('a' as u32) + 10
        } else if 'A' <= c && c <= 'Z' {
            (c as u32) - ('A' as u32) + 10
        } else {
            radix
        };
        let ghost pre = s@.subrange(from as int, k as int);
        let ghost next = s@.subrange(from as int, k + 1);
        proof {
            assert(next.last() == c);
            assert(next.drop_last() =~= pre);
            assert(d >= radix <==> (digit_value(c) < 0 || digit_value(c) >= radix as int));
            assert(d < radix ==> d as int == digit_value(c));
        }
        if d >= radix {
            proof {
                let full = s@.subrange(from as int, to as int);
                if digits_value(full, radix as int) is Some {
                    lemma_digits_prefix(full, radix as int, k - from + 1);
                    assert(full.take(k - from + 1) =~= next);
                }
            }
            return None;
        }
        let d64 = d as u64;
        if d64 > limit || acc > (limit - d64) / (radix as u64) {
            proof {
                let q = (limit as int - d as int) / radix as int;
                if d64 <= limit {
                    assert(acc as int * radix as int + d as int > limit as int) by (nonlinear_arith)
                        requires
                            acc > q,
                            q == (limit as int - d as int) / radix as int,
                            radix >= 2,
                            d64 == d,
                            d64 <= limit,
                    ;
                }
                let full = s@.subrange(from as int, to as int);
                if digits_value(full, radix as int) is Some {
                    lemma_digits_prefix(full, radix as int, k - from + 1);
                    assert(full.take(k - from + 1) =~= next);
                }
            }
            return None;
        }
        proof {
            assert(acc as int * radix as int + d as int <= limit as int) by (nonlinear_arith)
                requires
                    acc as int <= (limit as int - d as int) / radix as int,
                    radix >= 2,
                    d64 == d,
                    d64 <= limit,
            ;
        }
        acc = acc * (radix as u64) + d64;
        k = k + 1;
    }
    Some(acc)
}

/// `s[from..to]` read as an unsigned number in `radix` no larger than `max`,
/// as `from_str_radix` reads it.
pub fn parse_unsigned(s: &[char], from: usize, to: usize, radix: u32, max: u64) -> (r: Option<u64>)
    requires
        from <= to <= s@.len(),
        2 <= radix <= 36,
    ensures
        r matches Some(v) ==> int_in(s@.subrange(from as int, to as int), radix as int, false, 0, max as int) == Some(v as int),
        r is None ==> int_in(s@.subrange(from as int, to as int), radix as int, false, 0, max as int) is None,
{
    let ghost t = s@.subrange(from as int, to as int);
    if from < to && s[from] == '+' {
        proof {
            assert(t.drop_first() =~= s@.subrange(from + 1, to as int));
        }
        let r = digits_upto(s, from + 1, to, radix, max);
        proof {
            if digits_value(t.drop_first(), radix as int) is Some {
                lemma_digits_nonneg(t.drop_first(), radix as int);
            }
        }
        r
    } else {
        let r = digits_upto(s, from, to, radix, max);
        proof {
            if digits_value(t, radix as int) is Some {
                lemma_digits_nonneg(t, radix as int);
            }
        }
        r
    }
}

/// `s[from..to]` read as a signed decimal number in `lo..=hi`, as
/// `str::parse` reads it for a signed type with that range.
pub fn parse_signed(s: &[char], from: usize, to: usize, lo: i64, hi: i64) -> (r: Option<i64>)
    requires
        from <= to <= s@.len(),
        -0x8000_0000 <= lo <= 0 <= hi <= 0x7fff_ffff,
    ensures
        r matches Some(v) ==> int_in(s@.subrange(from as int, to as int), 10, true, lo as int, hi as int) == Some(v as int),
        r is None ==> int_in(s@.subrange(from as int, to as int), 10, true, lo as int, hi as int) is None,
{
    let ghost t = s@.subrange(from as int, to as int);
    if from < to && s[from] == '+' {
        proof {
            assert(t.drop_first() =~= s@.subrange(from + 1, to as int));
        }
        let r = digits_upto(s, from + 1, to, 10, hi as u64);
        proof {
            if digits_value(t.drop_first(), 10) is Some {
                lemma_digits_nonneg(t.drop_first(), 10);
            }
        }
        match r {
            Some(v) => Some(v as i64),
            None => None,
        }
    } else if from < to && s[from] == '-' {
        proof {
            assert(t.drop_first() =~= s@.subrange(from + 1, to as int));
        }
        let mag = (0 - lo) as u64;
        let r = digits_upto(s, from + 1, to, 10, mag);
        proof {
            if digits_value(t.drop_first(), 10) is Some {
                lemma_digits_nonneg(t.drop_first(), 10);
            }
        }
        match r {
            Some(v) => Some(0 - (v as i64)),
            None => None,
        }
    } else {
        let r = digits_upto(s, from, to, 10, hi as u64);
        proof {
            if digits_value(t, 10) is Some {
                lemma_digits_nonneg(t, 10);
            }
        }
        match r {
            Some(v) => Some(v as i64),
            None => None,
        }
    }
}

} // verus!
