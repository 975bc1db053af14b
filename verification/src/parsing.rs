//! Validation of numeric option values: a value is accepted exactly when it
//! is a non-empty string of decimal digits whose value is positive and fits
//! in `usize`.

use vstd::prelude::*;
use vstd::string::*;

verus! {

/// Numeric value of a decimal digit character; 10 marks a non-digit.
pub open spec fn digit_val(c: char) -> nat {
    if c == '0' {
        0
    } else if c == '1' {
        1
    } else if c == '2' {
        2
    } else if c == '3' {
        3
    } else if c == '4' {
        4
    } else if c == '5' {
        5
    } else if c == '6' {
        6
    } else if c == '7' {
        7
    } else if c == '8' {
        8
    } else if c == '9' {
        9
    } else {
        10
    }
}

pub open spec fn is_digit(c: char) -> bool {
    digit_val(c) < 10
}

pub open spec fn all_digits(s: Seq<char>) -> bool {
    forall|i: int| 0 <= i < s.len() ==> is_digit(#[trigger] s[i])
}

/// The number denoted by a string of decimal digits (most significant first).
pub open spec fn dec_value(s: Seq<char>) -> nat
    decreases s.len(),
{
    if s.len() == 0 {
        0
    } else {
        dec_value(s.drop_last()) * 10 + digit_val(s.last())
    }
}

/// A string is a well-formed positive count exactly when it is non-empty,
/// all digits, and denotes a positive value that fits in `usize`.
pub open spec fn parse_ok(s: Seq<char>) -> bool {
    s.len() > 0 && all_digits(s) && 0 < dec_value(s) <= usize::MAX
}

/// The value denoted by a prefix never exceeds the value of the whole string.
proof fn lemma_dec_value_prefix_le(s: Seq<char>, i: int)
    requires
        0 <= i <= s.len(),
    ensures
        dec_value(s.take(i)) <= dec_value(s),
    decreases s.len() - i,
{
    if i < s.len() {
        assert(s.take(i + 1).drop_last() =~= s.take(i));
        assert(s.take(i + 1).last() == s[i]);
        assert(dec_value(s.take(i + 1)) == dec_value(s.take(i)) * 10 + digit_val(s[i]));
        lemma_dec_value_prefix_le(s, i + 1);
    } else {
        assert(s.take(i) =~= s);
    }
}

/// Digit lookup for a character; mirrors `digit_val`.
fn digit_of(c: char) -> (r: Option<u8>)
    ensures
        r is Some <==> is_digit(c),
        r matches Some(d) ==> d == digit_val(c),
{
    if c == '0' {
        Some(0)
    } else if c == '1' {
        Some(1)
    } else if c == '2' {
        Some(2)
    } else if c == '3' {
        Some(3)
    } else if c == '4' {
        Some(4)
    } else if c == '5' {
        Some(5)
    } else if c == '6' {
        Some(6)
    } else if c == '7' {
        Some(7)
    } else if c == '8' {
        Some(8)
    } else if c == '9' {
        Some(9)
    } else {
        None
    }
}

/// Parse a numeric option value, accepting exactly the positive decimal
/// counts; on rejection the error carries the offending value unchanged.
pub fn parse_positive_int(val: &str) -> (r: Result<usize, String>)
    ensures
        r is Ok <==> parse_ok(val@),
        r matches Ok(n) ==> n == dec_value(val@),
        r matches Err(e) ==> e@ == val@,
{
    let len = val.unicode_len();
    let mut acc: usize = 0;
    let mut i: usize = 0;
    while i < len
        invariant
            i <= len,
            len == val@.len(),
            all_digits(val@.take(i as int)),
            acc == dec_value(val@.take(i as int)),
        decreases len - i,
    {
        let c = val.get_char(i);
        let d = match digit_of(c) {
            Some(d) => d,
            None => {
                proof {
                    assert(!is_digit(val@[i as int]));
                }
                return Err(val.to_owned());
            },
        };
        proof {
            assert(val@.take(i + 1).drop_last() =~= val@.take(i as int));
            assert(val@.take(i + 1).last() == val@[i as int]);
        }
        let next = match acc.checked_mul(10) {
            Some(m) => m.checked_add(d as usize),
            None => None,
        };
        match next {
            Some(v) => {
                acc = v;
            },
            None => {
                proof {
                    assert(dec_value(val@.take(i + 1)) > usize::MAX);
                    lemma_dec_value_prefix_le(val@, i + 1);
                }
                return Err(val.to_owned());
            },
        }
        i = i + 1;
    }
    proof {
        assert(val@.take(len as int) =~= val@);
    }
    if acc == 0 {
        Err(val.to_owned())
    } else {
        Ok(acc)
    }
}

} // verus!
