//! Decimal integer parsing with the rules of core's `FromStr` for integers.

use vstd::prelude::*;

verus! {

/// An ASCII decimal digit.
pub open spec fn is_digit(c: char) -> bool {
    '0' <= c && c <= '9'
}

/// Every character of `d` is an ASCII decimal digit.
pub open spec fn all_digits(d: Seq<char>) -> bool {
    forall|i: int| 0 <= i < d.len() ==> is_digit(#[trigger] d[i])
}

/// The number that the decimal digits `d` denote.
pub open spec fn digits_value(d: Seq<char>) -> nat
    decreases d.len(),
{
    if d.len() == 0 {
        0
    } else {
        digits_value(d.drop_last()) * 10 + ((d.last() as u32) - ('0' as u32)) as nat
    }
}

/// The value that `str::parse` gives for an integer type, before the range
/// check: an optional `+` (or `-` where the type is signed) and then at least
/// one decimal digit; a lone sign is refused.
pub open spec fn parse_int(s: Seq<char>, signed: bool) -> Option<int> {
    if s.len() == 1 && (s[0] == '+' || s[0] == '-') {
        None
    } else {
        let neg = signed && s.len() > 0 && s[0] == '-';
        let d = if s.len() > 0 && (s[0] == '+' || neg) {
            s.drop_first()
        } else {
            s
        };
        if d.len() == 0 || !all_digits(d) {
            None
        } else if neg {
            Some(-(digits_value(d) as int))
        } else {
            Some(digits_value(d) as int)
        }
    }
}

/// `s.parse::<i32>()` as an `Option`.
pub open spec fn parse_i32(s: Seq<char>) -> Option<i32> {
    match parse_int(s, true) {
        Some(v) => if i32::MIN <= v <= i32::MAX {
            Some(v as i32)
        } else {
            None
        },
        None => None,
    }
}

/// `s.parse::<u64>()` as an `Option`.
pub open spec fn parse_u64(s: Seq<char>) -> Option<u64> {
    match parse_int(s, false) {
        Some(v) => if 0 <= v <= u64::MAX {
            Some(v as u64)
        } else {
            None
        },
        None => None,
    }
}

pub proof fn lemma_digits_value_prefix(d: Seq<char>, k: int)
    requires
        0 <= k <= d.len(),
        all_digits(d),
    ensures
        digits_value(d.take(k)) <= digits_value(d),
    decreases d.len(),
{
    if k < d.len() {
        let e = d.drop_last();
        assert(all_digits(e)) by {
            assert forall|i: int| 0 <= i < e.len() implies is_digit(#[trigger] e[i]) by {
                assert(e[i] == d[i]);
            }
        }
        lemma_digits_value_prefix(e, k);
        assert(e.take(k) =~= d.take(k));
    } else {
        assert(d.take(k) =~= d);
    }
}

/// Magnitude of the digits `s[lo..hi]`, or `None` once it passes `limit`
/// or a non-digit appears.
fn digits_upto(s: &[char], lo: usize, hi: usize, limit: u64) -> (r: Option<u64>)
    requires
        lo <= hi <= s@.len(),
        limit >= 9,
    ensures
        match r {
            Some(v) => all_digits(s@.subrange(lo as int, hi as int)) && v == digits_value(
                s@.subrange(lo as int, hi as int),
            ) && v <= limit,
            None => !all_digits(s@.subrange(lo as int, hi as int)) || digits_value(
                s@.subrange(lo as int, hi as int),
            ) > limit,
        },
{
    let ghost d = s@.subrange(lo as int, hi as int);
    let mut acc: u64 = 0;
    let mut i: usize = lo;
    while i < hi
        invariant
            lo <= i <= hi <= s@.len(),
            d == s@.subrange(lo as int, hi as int),
            all_digits(d.take(i - lo)),
            acc == digits_value(d.take(i - lo)),
            acc <= limit,
            limit >= 9,
        decreases hi - i,
    {
        let c = s[i];
        if !('0' <= c && c <= '9') {
            assert(d[i - lo] == c);
            return None;
        }
        let x: u64 = ((c as u32) - ('0' as u32)) as u64;
        proof {
            let t = d.take(i - lo + 1);
            assert(t.drop_last() =~= d.take(i - lo));
            assert(t.last() == c);
            assert(all_digits(t)) by {
                assert forall|j: int| 0 <= j < t.len() implies is_digit(#[trigger] t[j]) by {
                    if j < t.len() - 1 {
                        assert(t[j] == d.take(i - lo)[j]);
                    }
                }
            }
        }
        if acc > (limit - x) / 10 {
            proof {
                let t = d.take(i - lo + 1);
                assert(acc * 10 + x > limit) by (nonlinear_arith)
                    requires
                        acc > (limit - x) / 10,
                        x <= limit,
                ;
                if all_digits(d) {
                    lemma_digits_value_prefix(d, i - lo + 1);
                }
            }
            return None;
        }
        proof {
            assert(acc * 10 + x <= limit) by (nonlinear_arith)
                requires
                    acc <= (limit - x) / 10,
                    x <= limit,
            ;
        }
        acc = acc * 10 + x;
        i = i + 1;
    }
    assert(d.take(hi - lo) =~= d);
    Some(acc)
}

/// `str::parse::<u64>` over `s[lo..hi]`.
pub fn parse_u64_at(s: &[char], lo: usize, hi: usize) -> (r: Option<u64>)
    requires
        lo <= hi <= s@.len(),
    ensures
        r == parse_u64(s@.subrange(lo as int, hi as int)),
{
    let ghost t = s@.subrange(lo as int, hi as int);
    if hi - lo == 1 && (s[lo] == '+' || s[lo] == '-') {
        return None;
    }
    let start = if hi > lo && s[lo] == '+' {
        lo + 1
    } else {
        lo
    };
    assert(start > lo ==> s@.subrange(start as int, hi as int) =~= t.drop_first());
    assert(start == lo ==> s@.subrange(start as int, hi as int) =~= t);
    if start == hi {
        return None;
    }
    digits_upto(s, start, hi, u64::MAX)
}

/// `str::parse::<i32>` over `s[lo..hi]`.
pub fn parse_i32_at(s: &[char], lo: usize, hi: usize) -> (r: Option<i32>)
    requires
        lo <= hi <= s@.len(),
    ensures
        r == parse_i32(s@.subrange(lo as int, hi as int)),
{
    let ghost t = s@.subrange(lo as int, hi as int);
    if hi - lo == 1 && (s[lo] == '+' || s[lo] == '-') {
        return None;
    }
    let neg = hi > lo && s[lo] == '-';
    let start = if hi > lo && (s[lo] == '+' || neg) {
        lo + 1
    } else {
        lo
    };
    assert(start > lo ==> s@.subrange(start as int, hi as int) =~= t.drop_first());
    assert(start == lo ==> s@.subrange(start as int, hi as int) =~= t);
    if start == hi {
        return None;
    }
    let limit: u64 = if neg {
        0x8000_0000
    } else {
        0x7fff_ffff
    };
    match digits_upto(s, start, hi, limit) {
        Some(v) => {
            if neg {
                let r: i64 = -(v as i64);
                Some(r as i32)
            } else {
                Some(v as i32)
            }
        },
        None => None,
    }
}

} // verus!
