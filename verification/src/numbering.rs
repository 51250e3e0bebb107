//! The numbering policy: when a line gets a number, and what the numbered
//! form of a line looks like (the decimal counter value right-justified in a
//! six-character field, a tab, then the line's own text).

use vstd::prelude::*;

verus! {

/// The character for a single decimal digit value.
pub open spec fn digit_char(d: nat) -> char {
    if d == 0 {
        '0'
    } else if d == 1 {
        '1'
    } else if d == 2 {
        '2'
    } else if d == 3 {
        '3'
    } else if d == 4 {
        '4'
    } else if d == 5 {
        '5'
    } else if d == 6 {
        '6'
    } else if d == 7 {
        '7'
    } else if d == 8 {
        '8'
    } else {
        '9'
    }
}

/// The decimal digits of `n`, most significant first, with no leading zeros
/// (the single digit `0` for zero).
pub open spec fn dec_digits(n: nat) -> Seq<char>
    decreases n,
{
    if n < 10 {
        seq![digit_char(n)]
    } else {
        dec_digits(n / 10).push(digit_char(n % 10))
    }
}

/// A run of `n` spaces.
pub open spec fn spaces(n: nat) -> Seq<char> {
    Seq::new(n, |i: int| ' ')
}

/// How many spaces left-pad a counter of `digits` decimal digits so that it
/// stands right-justified in a six-character field; none once the counter
/// has six or more digits.
pub open spec fn pad_width(digits: nat) -> nat {
    if digits >= 6 {
        0
    } else {
        (6 - digits) as nat
    }
}

/// The prefix put before a numbered line: the counter value in decimal,
/// right-justified in a six-character field, and a tab.
pub open spec fn number_prefix(n: nat) -> Seq<char> {
    spaces(pad_width(dec_digits(n).len())) + dec_digits(n) + seq!['\t']
}

/// Whether a line receives a number: never when neither flag is set, and,
/// under nonblank numbering, never for a blank line.  Nonblank numbering
/// overrides all-line numbering.
pub open spec fn line_is_numbered(number_all: bool, number_nonblank: bool, line: Seq<char>) -> bool {
    (number_all || number_nonblank) && !(number_nonblank && line.len() == 0)
}

/// The emitted form of a line when `numbered_before` lines were numbered
/// earlier in the same source: the prefixed line if this one is numbered,
/// the line unchanged otherwise.
pub open spec fn rendered_line(
    number_all: bool,
    number_nonblank: bool,
    numbered_before: nat,
    line: Seq<char>,
) -> Seq<char> {
    if line_is_numbered(number_all, number_nonblank, line) {
        number_prefix(numbered_before + 1) + line
    } else {
        line
    }
}

/// A one-character string slice for a single decimal digit value.
fn digit_str(d: u64) -> (r: &'static str)
    requires
        d < 10,
    ensures
        r@ =~= seq![digit_char(d as nat)],
{
    proof {
        reveal_strlit("0");
        reveal_strlit("1");
        reveal_strlit("2");
        reveal_strlit("3");
        reveal_strlit("4");
        reveal_strlit("5");
        reveal_strlit("6");
        reveal_strlit("7");
        reveal_strlit("8");
        reveal_strlit("9");
    }
    match d {
        0 => "0",
        1 => "1",
        2 => "2",
        3 => "3",
        4 => "4",
        5 => "5",
        6 => "6",
        7 => "7",
        8 => "8",
        _ => "9",
    }
}

/// The decimal representation of `n`, as a string.
pub fn dec_string(n: u64) -> (s: String)
    ensures
        s@ == dec_digits(n as nat),
    decreases n,
{
    if n < 10 {
        String::from_str(digit_str(n))
    } else {
        let mut s = dec_string(n / 10);
        s.append(digit_str(n % 10));
        proof {
            assert(s@ =~= dec_digits(n as nat));
        }
        s
    }
}

/// A string of `n` spaces.
fn space_string(n: usize) -> (s: String)
    ensures
        s@ == spaces(n as nat),
{
    let mut s = String::new();
    let mut i: usize = 0;
    proof {
        assert(s@ =~= spaces(0));
    }
    while i < n
        invariant
            i <= n,
            s@ == spaces(i as nat),
        decreases n - i,
    {
        s.append(" ");
        i = i + 1;
        proof {
            reveal_strlit(" ");
            assert(s@ =~= spaces(i as nat));
        }
    }
    s
}

/// Whether a line receives a number under the given flags.
pub fn should_number(number_all: bool, number_nonblank: bool, line: &str) -> (r: bool)
    ensures
        r == line_is_numbered(number_all, number_nonblank, line@),
{
    (number_all || number_nonblank) && !(number_nonblank && line.is_empty())
}

/// The output line for `line` when `numbered_before` lines were numbered
/// earlier in the same source.
pub fn render_line(number_all: bool, number_nonblank: bool, numbered_before: u64, line: &str) -> (out:
    String)
    requires
        numbered_before < u64::MAX,
    ensures
        out@ == rendered_line(number_all, number_nonblank, numbered_before as nat, line@),
{
    if should_number(number_all, number_nonblank, line) {
        let num = dec_string(numbered_before + 1);
        let digits = num.as_str().unicode_len();
        let pad = if digits >= 6 {
            0
        } else {
            6 - digits
        };
        let mut out = space_string(pad);
        out.append(num.as_str());
        out.append("\t");
        out.append(line);
        proof {
            reveal_strlit("\t");
            assert(out@ =~= rendered_line(
                number_all,
                number_nonblank,
                numbered_before as nat,
                line@,
            ));
        }
        out
    } else {
        line.to_owned()
    }
}

} // verus!
