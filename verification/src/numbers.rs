//! Integers in decimal notation.

use vstd::prelude::*;

verus! {

/// The decimal digit for a value below 10.
pub open spec fn decimal_digit(value: int) -> char {
    ('0' as int + value) as char
}

/// A natural number in decimal notation, without leading zeros.
pub open spec fn decimal_text(value: nat) -> Seq<char>
    decreases value,
{
    if value < 10 {
        seq![decimal_digit(value as int)]
    } else {
        decimal_text(value / 10).push(decimal_digit(value as int % 10))
    }
}

/// An integer in decimal notation, with a minus sign where it is negative.
pub open spec fn integer_text(value: int) -> Seq<char> {
    if value < 0 {
        seq!['-'] + decimal_text((-value) as nat)
    } else {
        decimal_text(value as nat)
    }
}

/// The number that a text in decimal notation, with an optional sign,
/// stands for if it fits 64 bits with a sign.
pub uninterp spec fn i64_value(text: Seq<char>) -> Option<i64>;

/// The number that a text in decimal notation stands for if it fits 64
/// bits without a sign.
pub uninterp spec fn u64_value(text: Seq<char>) -> Option<u64>;

/// Calls `str::parse` for a signed 64-bit integer.
#[verifier::external_body]
pub(crate) fn parse_i64(text: &str) -> (value: Option<i64>)
    ensures
        value == i64_value(text@),
{
    text.parse::<i64>().ok()
}

/// Calls `ToString::to_string` on a signed 64-bit integer, which writes it
/// in decimal notation. Parsing the text gives the integer back.
#[verifier::external_body]
pub(crate) fn render_i64(value: i64) -> (text: String)
    ensures
        text@ == integer_text(value as int),
        i64_value(text@) == Some(value),
{
    value.to_string()
}

/// Calls `str::parse` for an unsigned 64-bit integer.
#[verifier::external_body]
pub(crate) fn parse_u64(text: &str) -> (value: Option<u64>)
    ensures
        value == u64_value(text@),
{
    text.parse::<u64>().ok()
}

/// Calls `ToString::to_string` on an unsigned 64-bit integer, which writes
/// it in decimal notation. Parsing the text gives the integer back.
#[verifier::external_body]
pub(crate) fn render_u64(value: u64) -> (text: String)
    ensures
        text@ == decimal_text(value as nat),
        u64_value(text@) == Some(value),
{
    value.to_string()
}

} // verus!
