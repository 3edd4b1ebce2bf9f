//! A verified decimal parse with the "invalid input gives zero" convention
//! the event translator uses for summary indices.

use vstd::prelude::*;
use crate::chars::chars_of;

verus! {

pub open spec fn is_digit(c: char) -> bool {
    '0' <= c && c <= '9'
}

pub open spec fn digit_val(c: char) -> int {
    c as int - '0' as int
}

pub open spec fn all_digits(s: Seq<char>) -> bool {
    forall|i: int| 0 <= i < s.len() ==> is_digit(s[i])
}

/// The integer value of a digit sequence, most significant digit first.
pub open spec fn digits_value(s: Seq<char>) -> int
    decreases s.len(),
{
    if s.len() == 0 {
        0
    } else {
        digits_value(s.drop_last()) * 10 + digit_val(s.last())
    }
}

/// The value a decimal string parses to: an optional sign followed by one or
/// more digits, provided the value fits an i64; anything else gives zero.
pub open spec fn parse_i64_spec(s: Seq<char>) -> i64 {
    let neg = s.len() > 0 && s[0] == '-';
    let mag = if s.len() > 0 && (s[0] == '-' || s[0] == '+') {
        s.drop_first()
    } else {
        s
    };
    if mag.len() > 0 && all_digits(mag) {
        let v = if neg {
            -digits_value(mag)
        } else {
            digits_value(mag)
        };
        if i64::MIN <= v <= i64::MAX {
            v as i64
        } else {
            0
        }
    } else {
        0
    }
}

proof fn lemma_digits_value_nonneg(s: Seq<char>)
    requires
        all_digits(s),
    ensures
        0 <= digits_value(s),
    decreases s.len(),
{
    if s.len() > 0 {
        assert(all_digits(s.drop_last()));
        lemma_digits_value_nonneg(s.drop_last());
    }
}

proof fn lemma_digits_prefix_le(s: Seq<char>, i: int)
    requires
        all_digits(s),
        0 <= i <= s.len(),
    ensures
        digits_value(s.subrange(0, i)) <= digits_value(s),
    decreases s.len() - i,
{
    if i < s.len() {
        let t = s.subrange(0, i + 1);
        assert(t.drop_last() =~= s.subrange(0, i));
        assert(all_digits(s.subrange(0, i)));
        lemma_digits_value_nonneg(s.subrange(0, i));
        assert(digits_value(t) == digits_value(s.subrange(0, i)) * 10 + digit_val(s[i]));
        assert(digits_value(s.subrange(0, i)) <= digits_value(t));
        lemma_digits_prefix_le(s, i + 1);
        assert(s.subrange(0, s.len() as int) =~= s);
    } else {
        assert(s.subrange(0, s.len() as int) =~= s);
    }
}

/// Parses a decimal integer, yielding zero for anything that is not a valid
/// in-range i64 literal.
pub fn parse_i64_or_zero(s: &String) -> (r: i64)
    ensures
        r == parse_i64_spec(s@),
{
    let v = chars_of(s.as_str());
    let n = v.len();
    if n == 0 {
        return 0;
    }
    let neg = v[0] == '-';
    let start: usize = if v[0] == '-' || v[0] == '+' {
        1
    } else {
        0
    };
    let ghost mag = if start == 1 {
        s@.drop_first()
    } else {
        s@
    };
    assert(mag =~= v@.subrange(start as int, n as int));
    if start == n {
        return 0;
    }
    let mut acc: u64 = 0;
    let mut i = start;
    while i < n
        invariant
            v@ == s@,
            n == v@.len(),
            start <= i <= n,
            start < n,
            neg == (s@.len() > 0 && s@[0] == '-'),
            mag == (if s@.len() > 0 && (s@[0] == '-' || s@[0] == '+') {
                s@.drop_first()
            } else {
                s@
            }),
            mag =~= v@.subrange(start as int, n as int),
            all_digits(mag.subrange(0, i - start)),
            acc == digits_value(mag.subrange(0, i - start)),
        decreases n - i,
    {
        let c = v[i];
        if !(c >= '0' && c <= '9') {
            assert(!is_digit(mag[i - start]));
            assert(!all_digits(mag));
            return 0;
        }
        let d: u64 = ((c as u32) - 48) as u64;
        assert(d == digit_val(mag[i - start]));
        proof {
            assert(mag.subrange(0, i + 1 - start).drop_last() =~= mag.subrange(0, i - start));
        }
        let next = match acc.checked_mul(10) {
            Some(m) => m.checked_add(d),
            None => None,
        };
        match next {
            Some(m) => {
                acc = m;
            },
            None => {
                proof {
                    if all_digits(mag) {
                        assert(digits_value(mag.subrange(0, i + 1 - start)) == acc * 10 + d);
                        assert(acc * 10 + d > u64::MAX);
                        lemma_digits_prefix_le(mag, i + 1 - start);
                        assert(digits_value(mag) > u64::MAX);
                        assert(u64::MAX >= i64::MAX);
                    }
                }
                return 0;
            },
        }
        i = i + 1;
    }
    assert(mag.subrange(0, n - start) =~= mag);
    assert(acc == digits_value(mag));
    assert(all_digits(mag));
    if !neg {
        if acc <= i64::MAX as u64 {
            acc as i64
        } else {
            0
        }
    } else {
        if acc <= i64::MAX as u64 {
            let r = -(acc as i64);
            assert(r == parse_i64_spec(s@));
            r
        } else if acc == 9223372036854775808u64 {
            assert(-(digits_value(mag)) == i64::MIN);
            i64::MIN
        } else {
            0
        }
    }
}

} // verus!
