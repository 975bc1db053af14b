//! Rendering of 1-based line numbers: the number right-aligned in a field of
//! width 6, followed by a tab, followed by the line content.

use vstd::prelude::*;
use vstd::string::*;

verus! {

/// The decimal digit character for a value below ten.
pub open spec fn digit_char(d: nat) -> char {
    if d == 0 {
        '0'
    } else if d == 1 {
        '1'
    } else if d == 2 {
        '2'
    } else if d == 3 {
        '3'
    } else if d == 4 {
        '4'
    } else if d == 5 {
        '5'
    } else if d == 6 {
        '6'
    } else if d == 7 {
        '7'
    } else if d == 8 {
        '8'
    } else {
        '9'
    }
}

/// Decimal representation of a number, most significant digit first.
pub open spec fn dec_rep(n: nat) -> Seq<char>
    decreases n,
{
    if n < 10 {
        seq![digit_char(n)]
    } else {
        dec_rep(n / 10).push(digit_char(n % 10))
    }
}

pub open spec fn spaces(n: nat) -> Seq<char> {
    Seq::new(n, |i: int| ' ')
}

/// The number field: right-aligned in width 6 and closed by a tab.
pub open spec fn gutter(k: nat) -> Seq<char> {
    let d = dec_rep(k);
    (if d.len() < 6 {
        spaces((6 - d.len()) as nat) + d
    } else {
        d
    }) + seq!['\t']
}

/// A line prefixed by its number field.
pub open spec fn numbered(k: nat, line: Seq<char>) -> Seq<char> {
    gutter(k) + line
}

/// The one-character string for a decimal digit.
fn digit_str(d: usize) -> (r: &'static str)
    requires
        d < 10,
    ensures
        r@ == seq![digit_char(d as nat)],
{
    if d == 0 {
        proof {
            reveal_strlit("0");
            assert("0"@ =~= seq![digit_char(0)]);
        }
        "0"
    } else if d == 1 {
        proof {
            reveal_strlit("1");
            assert("1"@ =~= seq![digit_char(1)]);
        }
        "1"
    } else if d == 2 {
        proof {
            reveal_strlit("2");
            assert("2"@ =~= seq![digit_char(2)]);
        }
        "2"
    } else if d == 3 {
        proof {
            reveal_strlit("3");
            assert("3"@ =~= seq![digit_char(3)]);
        }
        "3"
    } else if d == 4 {
        proof {
            reveal_strlit("4");
            assert("4"@ =~= seq![digit_char(4)]);
        }
        "4"
    } else if d == 5 {
        proof {
            reveal_strlit("5");
            assert("5"@ =~= seq![digit_char(5)]);
        }
        "5"
    } else if d == 6 {
        proof {
            reveal_strlit("6");
            assert("6"@ =~= seq![digit_char(6)]);
        }
        "6"
    } else if d == 7 {
        proof {
            reveal_strlit("7");
            assert("7"@ =~= seq![digit_char(7)]);
        }
        "7"
    } else if d == 8 {
        proof {
            reveal_strlit("8");
            assert("8"@ =~= seq![digit_char(8)]);
        }
        "8"
    } else {
        proof {
            reveal_strlit("9");
            assert("9"@ =~= seq![digit_char(9)]);
        }
        "9"
    }
}

/// Append the decimal representation of `n`.
fn push_digits(s: &mut String, n: usize)
    ensures
        final(s)@ == old(s)@ + dec_rep(n as nat),
    decreases n,
{
    if n >= 10 {
        push_digits(s, n / 10);
        s.append(digit_str(n % 10));
        proof {
            assert(dec_rep(n as nat) =~= dec_rep(n as nat / 10) + seq![
                digit_char(n as nat % 10),
            ]);
            assert(s@ =~= old(s)@ + dec_rep(n as nat));
        }
    } else {
        s.append(digit_str(n));
        proof {
            assert(s@ =~= old(s)@ + dec_rep(n as nat));
        }
    }
}

/// The rendered number field for `k`.
fn line_number_field(k: usize) -> (r: String)
    ensures
        r@ == gutter(k as nat),
{
    let mut digits = String::new();
    push_digits(&mut digits, k);
    proof {
        assert(digits@ =~= dec_rep(k as nat));
    }
    let dlen = digits.as_str().unicode_len();
    let mut r = String::new();
    let target: usize = if dlen < 6 {
        6 - dlen
    } else {
        0
    };
    let mut pad: usize = 0;
    while pad < target
        invariant
            pad <= target,
            r@ == spaces(pad as nat),
        decreases target - pad,
    {
        r.append(" ");
        pad = pad + 1;
        proof {
            reveal_strlit(" ");
            assert(r@ =~= spaces(pad as nat));
        }
    }
    r.append(digits.as_str());
    r.append("\t");
    proof {
        reveal_strlit("\t");
        assert("\t"@ =~= seq!['\t']);
        assert(r@ =~= gutter(k as nat));
    }
    r
}

/// A line prefixed with its number, as the numbering modes emit it.
pub fn number_line(k: usize, line: &String) -> (r: String)
    ensures
        r@ == numbered(k as nat, line@),
{
    let mut r = line_number_field(k);
    r.append(line.as_str());
    r
}

} // verus!
