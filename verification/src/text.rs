//! Whole numbers as decimal text.

use vstd::prelude::*;
use vstd::string::StringExecFns;

verus! {

/// The text of one decimal digit.
pub open spec fn digit_text(digit: int) -> Seq<char> {
    if digit == 0 {
        "0"@
    } else if digit == 1 {
        "1"@
    } else if digit == 2 {
        "2"@
    } else if digit == 3 {
        "3"@
    } else if digit == 4 {
        "4"@
    } else if digit == 5 {
        "5"@
    } else if digit == 6 {
        "6"@
    } else if digit == 7 {
        "7"@
    } else if digit == 8 {
        "8"@
    } else {
        "9"@
    }
}

/// The decimal text of a natural number, without leading zeros.
pub open spec fn natural_text(n: nat) -> Seq<char>
    decreases n,
{
    if n < 10 {
        digit_text(n as int)
    } else {
        natural_text(n / 10) + digit_text((n % 10) as int)
    }
}

/// The decimal text of a whole number, with a minus sign before a negative
/// one.
pub open spec fn decimal_text(value: int) -> Seq<char> {
    if value < 0 {
        "-"@ + natural_text((-value) as nat)
    } else {
        natural_text(value as nat)
    }
}

fn digit_str(digit: u64) -> (text: &'static str)
    requires
        digit < 10,
    ensures
        text@ == digit_text(digit as int),
{
    if digit == 0 {
        "0"
    } else if digit == 1 {
        "1"
    } else if digit == 2 {
        "2"
    } else if digit == 3 {
        "3"
    } else if digit == 4 {
        "4"
    } else if digit == 5 {
        "5"
    } else if digit == 6 {
        "6"
    } else if digit == 7 {
        "7"
    } else if digit == 8 {
        "8"
    } else {
        "9"
    }
}

/// Appends the decimal text of `n` to `text`.
pub fn append_natural(text: &mut String, n: u64)
    ensures
        final(text)@ == old(text)@ + natural_text(n as nat),
    decreases n,
{
    if n >= 10 {
        append_natural(text, n / 10);
    }
    text.append(digit_str(n % 10));
    proof {
        if n >= 10 {
            assert(old(text)@ + natural_text((n / 10) as nat) + digit_text((n % 10) as int)
                =~= old(text)@ + (natural_text((n / 10) as nat) + digit_text((n % 10) as int)));
        }
    }
}

/// Appends the decimal text of `value` to `text`.
pub fn append_decimal(text: &mut String, value: i32)
    ensures
        final(text)@ == old(text)@ + decimal_text(value as int),
{
    let wide: i64 = value as i64;
    if wide < 0 {
        text.append("-");
        append_natural(text, (-wide) as u64);
        assert(old(text)@ + "-"@ + natural_text((-wide) as nat) =~= old(text)@ + ("-"@
            + natural_text((-wide) as nat)));
    } else {
        append_natural(text, wide as u64);
    }
}

/// The decimal text of `value`.
pub fn decimal(value: i32) -> (text: String)
    ensures
        text@ == decimal_text(value as int),
{
    let mut text = String::new();
    append_decimal(&mut text, value);
    assert(Seq::<char>::empty() + decimal_text(value as int) =~= decimal_text(value as int));
    text
}

} // verus!
