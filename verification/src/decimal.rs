//! Decimal numerals, as they stand in file names and clock times.

use vstd::prelude::*;
use vstd::string::*;

verus! {

/// The character of one decimal digit.
pub open spec fn digit_char(digit: int) -> char {
    if digit == 0 {
        '0'
    } else if digit == 1 {
        '1'
    } else if digit == 2 {
        '2'
    } else if digit == 3 {
        '3'
    } else if digit == 4 {
        '4'
    } else if digit == 5 {
        '5'
    } else if digit == 6 {
        '6'
    } else if digit == 7 {
        '7'
    } else if digit == 8 {
        '8'
    } else {
        '9'
    }
}

/// The decimal numeral of a number, without sign or leading zeros.
pub open spec fn decimal(number: nat) -> Seq<char>
    decreases number,
{
    if number < 10 {
        seq![digit_char(number as int)]
    } else {
        decimal(number / 10).push(digit_char((number % 10) as int))
    }
}

/// A run of `count` zeros.
pub open spec fn zeros(count: nat) -> Seq<char> {
    Seq::new(count, |i: int| '0')
}

/// The decimal numeral of a number, with zeros in front of it until it is at
/// least `width` characters long.
pub open spec fn zero_padded(number: nat, width: nat) -> Seq<char> {
    let numeral = decimal(number);
    if numeral.len() >= width {
        numeral
    } else {
        zeros((width - numeral.len()) as nat) + numeral
    }
}

/// A numeral has as many characters as the number has digits: one below ten,
/// and one more with every factor of ten.
pub proof fn lemma_decimal_len(number: nat)
    ensures
        decimal(number).len() >= 1,
        number < 10 ==> decimal(number).len() == 1,
        10 <= number < 100 ==> decimal(number).len() == 2,
        100 <= number < 1000 ==> decimal(number).len() == 3,
        number >= 1000 ==> decimal(number).len() >= 4,
    decreases number,
{
    if number >= 10 {
        lemma_decimal_len(number / 10);
    }
}

fn digit_str(digit: u64) -> (text: &'static str)
    requires
        digit < 10,
    ensures
        text@ == seq![digit_char(digit as int)],
{
    proof {
        reveal_strlit("0");
        reveal_strlit("1");
        reveal_strlit("2");
        reveal_strlit("3");
        reveal_strlit("4");
        reveal_strlit("5");
        reveal_strlit("6");
        reveal_strlit("7");
        reveal_strlit("8");
        reveal_strlit("9");
    }
    let text: &'static str = if digit == 0 {
        "0"
    } else if digit == 1 {
        "1"
    } else if digit == 2 {
        "2"
    } else if digit == 3 {
        "3"
    } else if digit == 4 {
        "4"
    } else if digit == 5 {
        "5"
    } else if digit == 6 {
        "6"
    } else if digit == 7 {
        "7"
    } else if digit == 8 {
        "8"
    } else {
        "9"
    };
    assert(text@ =~= seq![digit_char(digit as int)]);
    text
}

/// Appends the decimal numeral of `number` to `out`.
pub fn push_decimal(out: &mut String, number: u64)
    ensures
        final(out)@ == old(out)@ + decimal(number as nat),
    decreases number,
{
    if number >= 10 {
        push_decimal(out, number / 10);
    }
    out.append(digit_str(number % 10));
    assert(out@ =~= old(out)@ + decimal(number as nat));
}

/// How many characters the decimal numeral of `number` has.
pub fn decimal_len(number: u64) -> (len: u64)
    ensures
        len == decimal(number as nat).len(),
        len >= 1,
{
    let mut rest: u64 = number;
    let mut len: u64 = 1;
    while rest >= 10
        invariant
            len >= 1,
            len + rest <= number + 1,
            decimal(number as nat).len() == decimal(rest as nat).len() + len - 1,
        decreases rest,
    {
        rest = rest / 10;
        len = len + 1;
    }
    len
}

/// Appends the decimal numeral of `number` to `out`, with zeros in front of
/// it until it is at least `width` characters long.
pub fn push_zero_padded(out: &mut String, number: u64, width: u64)
    ensures
        final(out)@ == old(out)@ + zero_padded(number as nat, width as nat),
{
    let len: u64 = decimal_len(number);
    let mut written: u64 = len;
    while written < width
        invariant
            len <= written,
            written <= width || written == len,
            out@ == old(out)@ + zeros((written - len) as nat),
        decreases width - written,
    {
        proof {
            reveal_strlit("0");
        }
        out.append("0");
        written = written + 1;
        assert(out@ =~= old(out)@ + zeros((written - len) as nat));
    }
    push_decimal(out, number);
    assert(out@ =~= old(out)@ + zero_padded(number as nat, width as nat));
}

} // verus!
