//! Decimal numerals.

use crate::grammar::is_digit;
use vstd::prelude::*;

verus! {

/// The failure of `str::parse` at an integer type, `std::num::ParseIntError`:
/// a value that is carried along and never looked into.
#[verifier::external_type_specification]
#[verifier::external_body]
pub struct ExParseIntError(std::num::ParseIntError);

/// Tells whether `text` is one decimal digit or more.
pub open spec fn is_decimal(text: Seq<char>) -> bool {
    text.len() > 0 && forall|i: int| 0 <= i < text.len() ==> is_digit(#[trigger] text[i])
}

/// The number that the decimal digits `digits` denote.
pub open spec fn decimal_value(digits: Seq<char>) -> nat
    decreases digits.len(),
{
    if digits.len() == 0 {
        0
    } else {
        10 * decimal_value(digits.drop_last()) + (digits.last() as nat - '0' as nat) as nat
    }
}

/// The digits of a numeral: the numeral without the plus sign that may stand
/// before them.
pub open spec fn digits_of(text: Seq<char>) -> Seq<char> {
    if text.len() > 0 && text[0] == '+' {
        text.subrange(1, text.len() as int)
    } else {
        text
    }
}

/// The 32-bit number that `text` denotes: its digits must be decimal and
/// their value within range.
pub open spec fn numeral(text: Seq<char>) -> Option<u32> {
    let digits = digits_of(text);
    if is_decimal(digits) && decimal_value(digits) <= u32::MAX {
        Some(decimal_value(digits) as u32)
    } else {
        None
    }
}

/// The number that `text` denotes, by `str::parse` at `u32`. The call
/// succeeds on an optional plus sign followed by decimal digits whose value
/// fits in 32 bits, with that value, and fails on every other text.
#[verifier::external_body]
pub(crate) fn parse_u32(text: &str) -> (result: Result<u32, std::num::ParseIntError>)
    ensures
        match result {
            Ok(value) => numeral(text@) == Some(value),
            Err(_) => numeral(text@) is None,
        },
{
    text.parse::<u32>()
}

} // verus!
