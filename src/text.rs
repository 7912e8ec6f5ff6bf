//! # Text building
//!
//! Decimal numerals and indentation, appended to a `String`.
use vstd::prelude::*;

verus! {

/// The character of a decimal digit.
pub open spec fn digit_char(d: nat) -> char {
    if d == 0 {
        '0'
    } else if d == 1 {
        '1'
    } else if d == 2 {
        '2'
    } else if d == 3 {
        '3'
    } else if d == 4 {
        '4'
    } else if d == 5 {
        '5'
    } else if d == 6 {
        '6'
    } else if d == 7 {
        '7'
    } else if d == 8 {
        '8'
    } else {
        '9'
    }
}

/// The decimal numeral of `n`, without leading zeros.
pub open spec fn nat_text(n: nat) -> Seq<char>
    decreases n,
{
    if n < 10 {
        seq![digit_char(n)]
    } else {
        nat_text(n / 10).push(digit_char(n % 10))
    }
}

/// The decimal numeral of `n`, with a leading `-` when it is negative.
pub open spec fn int_text(n: int) -> Seq<char> {
    if n < 0 {
        seq!['-'] + nat_text((-n) as nat)
    } else {
        nat_text(n as nat)
    }
}

/// `n` tab characters.
pub open spec fn tabs(n: nat) -> Seq<char> {
    Seq::new(n, |i: int| '\t')
}

fn digit_str(d: u64) -> (r: &'static str)
    requires
        d < 10,
    ensures
        r@ == seq![digit_char(d as nat)],
{
    if d == 0 {
        proof { reveal_strlit("0"); }
        "0"
    } else if d == 1 {
        proof { reveal_strlit("1"); }
        "1"
    } else if d == 2 {
        proof { reveal_strlit("2"); }
        "2"
    } else if d == 3 {
        proof { reveal_strlit("3"); }
        "3"
    } else if d == 4 {
        proof { reveal_strlit("4"); }
        "4"
    } else if d == 5 {
        proof { reveal_strlit("5"); }
        "5"
    } else if d == 6 {
        proof { reveal_strlit("6"); }
        "6"
    } else if d == 7 {
        proof { reveal_strlit("7"); }
        "7"
    } else if d == 8 {
        proof { reveal_strlit("8"); }
        "8"
    } else {
        proof { reveal_strlit("9"); }
        "9"
    }
}

/// Append the decimal numeral of `n`.
pub fn append_nat(text: &mut String, n: u64)
    ensures
        final(text)@ == old(text)@ + nat_text(n as nat),
    decreases n,
{
    if n >= 10 {
        append_nat(text, n / 10);
    }
    text.append(digit_str(n % 10));
    proof {
        if n >= 10 {
            assert(nat_text(n as nat) == nat_text((n / 10) as nat).push(digit_char((n % 10) as nat)));
        }
    }
    assert(text@ =~= old(text)@ + nat_text(n as nat));
}

/// Append the decimal numeral of `n`, signed.
pub fn append_int(text: &mut String, n: isize)
    ensures
        final(text)@ == old(text)@ + int_text(n as int),
{
    if n < 0 {
        proof { reveal_strlit("-"); }
        text.append("-");
        let magnitude: u64 = (0 - (n as i128)) as u64;
        append_nat(text, magnitude);
        assert(text@ =~= old(text)@ + int_text(n as int));
    } else {
        append_nat(text, n as u64);
    }
}

/// Append `n` tab characters.
pub fn append_tabs(text: &mut String, n: usize)
    ensures
        final(text)@ == old(text)@ + tabs(n as nat),
{
    let ghost start = text@;
    let mut i: usize = 0;
    while i < n
        invariant
            i <= n,
            text@ == start + tabs(i as nat),
        decreases n - i,
    {
        proof { reveal_strlit("\t"); }
        text.append("\t");
        i = i + 1;
        assert(text@ =~= start + tabs(i as nat));
    }
}

} // verus!
