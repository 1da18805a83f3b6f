//! Reading integers from number tokens.
use vstd::prelude::*;

use crate::text_format::tokenizer::is_digit;

verus! {

/// The value of an ASCII digit.
pub open spec fn digit_value(c: char) -> int {
    (c as u32) - ('0' as u32)
}

/// The value of a sequence of decimal digits.
pub open spec fn digits_value(t: Seq<char>) -> int
    decreases t.len(),
{
    if t.len() == 0 {
        0
    } else {
        digits_value(t.drop_last()) * 10 + digit_value(t.last())
    }
}

/// Whether every character is an ASCII digit.
pub open spec fn all_digits(t: Seq<char>) -> bool {
    forall|i: int| 0 <= i < t.len() ==> is_digit(#[trigger] t[i])
}

/// Whether a character is a sign.
pub open spec fn is_sign(c: char) -> bool {
    c == '+' || c == '-'
}

/// The `i64` that a text denotes, as `str::parse::<i64>` reads it: an
/// optional sign and at least one digit, within the range of `i64`.
pub open spec fn parse_i64(t: Seq<char>) -> Option<i64> {
    if t.len() > 0 && is_sign(t[0]) {
        let d = t.drop_first();
        let v = if t[0] == '-' {
            -digits_value(d)
        } else {
            digits_value(d)
        };
        if d.len() > 0 && all_digits(d) && i64::MIN <= v <= i64::MAX {
            Some(v as i64)
        } else {
            None
        }
    } else {
        if t.len() > 0 && all_digits(t) && digits_value(t) <= i64::MAX {
            Some(digits_value(t) as i64)
        } else {
            None
        }
    }
}

/// Whether a number text starts with a zero that more digits could follow
/// (after its sign, if it has one).
pub open spec fn might_be_octal(t: Seq<char>) -> bool {
    if t.len() > 0 && is_sign(t[0]) {
        t.len() != 2 && t.len() > 1 && t[1] == '0'
    } else {
        t.len() != 1 && t.len() > 0 && t[0] == '0'
    }
}

/// Whether the characters `cs[a..b]` might be an octal literal.
pub fn might_be_octal_range(cs: &[char], a: usize, b: usize) -> (r: bool)
    requires
        a <= b <= cs@.len(),
    ensures
        r == might_be_octal(cs@.subrange(a as int, b as int)),
{
    let len = b - a;
    if len > 0 && (cs[a] == '+' || cs[a] == '-') {
        if len == 2 {
            return false;
        }
        len > 1 && cs[a + 1] == '0'
    } else {
        if len == 1 {
            return false;
        }
        len > 0 && cs[a] == '0'
    }
}

proof fn lemma_digits_value_nonneg(t: Seq<char>)
    requires
        all_digits(t),
    ensures
        digits_value(t) >= 0,
    decreases t.len(),
{
    if t.len() > 0 {
        assert(is_digit(t[t.len() - 1]));
        assert(all_digits(t.drop_last())) by {
            assert forall|i: int| 0 <= i < t.drop_last().len() implies is_digit(
                #[trigger] t.drop_last()[i],
            ) by {
                assert(t.drop_last()[i] == t[i]);
            }
        }
        lemma_digits_value_nonneg(t.drop_last());
    }
}

/// Reads the `i64` of the characters `cs[a..b]`, if they denote one.
pub fn parse_i64_range(cs: &[char], a: usize, b: usize) -> (r: Option<i64>)
    requires
        a <= b <= cs@.len(),
    ensures
        r == parse_i64(cs@.subrange(a as int, b as int)),
{
    let ghost t = cs@.subrange(a as int, b as int);
    let negative = a < b && cs[a] == '-';
    let signed = a < b && (cs[a] == '+' || cs[a] == '-');
    let start = if signed {
        a + 1
    } else {
        a
    };
    let ghost d = cs@.subrange(start as int, b as int);
    assert(signed ==> d =~= t.drop_first());
    assert(!signed ==> d =~= t);
    if start == b {
        return None;
    }
    let mut acc: u128 = 0;
    let mut over = false;
    let mut i: usize = start;
    let bound: u128 = 0x8000_0000_0000_0000;
    assert(cs@.subrange(start as int, start as int) =~= Seq::<char>::empty());
    while i < b
        invariant
            start <= i <= b <= cs@.len(),
            d == cs@.subrange(start as int, b as int),
            t == cs@.subrange(a as int, b as int),
            signed ==> d =~= t.drop_first(),
            !signed ==> d =~= t,
            signed == (t.len() > 0 && is_sign(t[0])),
            negative == (t.len() > 0 && t[0] == '-'),
            start < b,
            bound == 0x8000_0000_0000_0000,
            all_digits(cs@.subrange(start as int, i as int)),
            !over ==> acc == digits_value(cs@.subrange(start as int, i as int)) && acc <= bound,
            over ==> digits_value(cs@.subrange(start as int, i as int)) > bound,
        decreases b - i,
    {
        let ghost prev = cs@.subrange(start as int, i as int);
        let ghost next = cs@.subrange(start as int, i + 1);
        assert(next.drop_last() =~= prev);
        let c = cs[i];
        if !('0' <= c && c <= '9') {
            assert(!all_digits(d)) by {
                assert(d[i - start] == c);
            }
            return None;
        }
        let dv = (c as u32 - '0' as u32) as u128;
        assert(dv == digit_value(c));
        if !over {
            let v = acc * 10 + dv;
            if v > bound {
                over = true;
            } else {
                acc = v;
            }
        } else {
            proof {
                lemma_digits_value_nonneg(prev);
            }
        }
        assert(all_digits(next)) by {
            assert forall|j: int| 0 <= j < next.len() implies is_digit(#[trigger] next[j]) by {
                if j < prev.len() {
                    assert(next[j] == prev[j]);
                }
            }
        }
        i = i + 1;
    }
    assert(cs@.subrange(start as int, b as int) =~= d);
    if over {
        return None;
    }
    if negative {
        let v: i128 = -(acc as i128);
        Some(v as i64)
    } else if acc <= 0x7FFF_FFFF_FFFF_FFFF {
        Some(acc as i64)
    } else {
        None
    }
}

} // verus!
