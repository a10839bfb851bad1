//! Decimal numbers and padding, as sequences of characters.

use vstd::prelude::*;
use vstd::string::StringExecFns;

verus! {

/// The character that writes the digit `d`.
pub open spec fn digit(d: nat) -> char {
    if d == 0 {
        '0'
    } else if d == 1 {
        '1'
    } else if d == 2 {
        '2'
    } else if d == 3 {
        '3'
    } else if d == 4 {
        '4'
    } else if d == 5 {
        '5'
    } else if d == 6 {
        '6'
    } else if d == 7 {
        '7'
    } else if d == 8 {
        '8'
    } else {
        '9'
    }
}

/// The decimal numeral of `n`, without leading zeros.
pub open spec fn decimal(n: nat) -> Seq<char>
    decreases n,
{
    if n < 10 {
        seq![digit(n)]
    } else {
        decimal(n / 10).push(digit(n % 10))
    }
}

/// The decimal numeral of `n`, filled with zeros on the left to three digits.
pub open spec fn decimal3(n: nat) -> Seq<char> {
    if n < 10 {
        seq!['0', '0'] + decimal(n)
    } else if n < 100 {
        seq!['0'] + decimal(n)
    } else {
        decimal(n)
    }
}

/// The numeral of an integer: a minus sign before the numeral of a negative one.
pub open spec fn signed_decimal(n: int) -> Seq<char> {
    if n < 0 {
        seq!['-'] + decimal((-n) as nat)
    } else {
        decimal(n as nat)
    }
}

/// `n` spaces.
pub open spec fn spaces(n: nat) -> Seq<char> {
    Seq::new(n, |i: int| ' ')
}

/// The one-character text of a digit.
fn digit_str(d: u8) -> (s: &'static str)
    requires
        d < 10,
    ensures
        s@ == seq![digit(d as nat)],
{
    proof {
        reveal_strlit("0");
        reveal_strlit("1");
        reveal_strlit("2");
        reveal_strlit("3");
        reveal_strlit("4");
        reveal_strlit("5");
        reveal_strlit("6");
        reveal_strlit("7");
        reveal_strlit("8");
        reveal_strlit("9");
    }
    let s = if d == 0 {
        "0"
    } else if d == 1 {
        "1"
    } else if d == 2 {
        "2"
    } else if d == 3 {
        "3"
    } else if d == 4 {
        "4"
    } else if d == 5 {
        "5"
    } else if d == 6 {
        "6"
    } else if d == 7 {
        "7"
    } else if d == 8 {
        "8"
    } else {
        "9"
    };
    assert(s@ =~= seq![digit(d as nat)]);
    s
}

/// Appends the decimal numeral of `n`.
pub fn push_decimal(buffer: &mut String, n: u128)
    ensures
        final(buffer)@ == old(buffer)@ + decimal(n as nat),
    decreases n,
{
    if n >= 10 {
        push_decimal(buffer, n / 10);
    }
    let d: u8 = (n % 10) as u8;
    buffer.append(digit_str(d));
    assert(buffer@ =~= old(buffer)@ + decimal(n as nat));
}

/// Appends the numeral of `n`, filled with zeros on the left to three digits.
pub fn push_decimal3(buffer: &mut String, n: u128)
    ensures
        final(buffer)@ == old(buffer)@ + decimal3(n as nat),
{
    if n < 10 {
        buffer.append(digit_str(0));
        buffer.append(digit_str(0));
    } else if n < 100 {
        buffer.append(digit_str(0));
    }
    push_decimal(buffer, n);
    assert(buffer@ =~= old(buffer)@ + decimal3(n as nat));
}

/// Appends the numeral of `n`, with a minus sign if it is negative.
pub fn push_signed_decimal(buffer: &mut String, n: i128)
    ensures
        final(buffer)@ == old(buffer)@ + signed_decimal(n as int),
{
    if n < 0 {
        proof {
            reveal_strlit("-");
        }
        buffer.append("-");
        let magnitude: u128 = if n == i128::MIN {
            0x8000_0000_0000_0000_0000_0000_0000_0000u128
        } else {
            (-n) as u128
        };
        push_decimal(buffer, magnitude);
        assert(buffer@ =~= old(buffer)@ + signed_decimal(n as int));
    } else {
        push_decimal(buffer, n as u128);
    }
}

/// Appends `n` spaces.
pub fn push_spaces(buffer: &mut String, n: usize)
    ensures
        final(buffer)@ == old(buffer)@ + spaces(n as nat),
{
    let mut i: usize = 0;
    proof {
        reveal_strlit(" ");
    }
    assert(buffer@ =~= old(buffer)@ + spaces(0));
    while i < n
        invariant
            i <= n,
            " "@ == seq![' '],
            buffer@ == old(buffer)@ + spaces(i as nat),
        decreases n - i,
    {
        buffer.append(" ");
        i = i + 1;
        assert(buffer@ =~= old(buffer)@ + spaces(i as nat));
    }
}

} // verus!
