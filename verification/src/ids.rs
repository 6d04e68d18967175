//! Item identifiers: 128-bit numbers, written as hyphenated lowercase
//! hexadecimal.

use vstd::prelude::*;
use crate::encoding::hex_digit;

verus! {

/// 16 to the power of `exponent`.
pub open spec fn pow16(exponent: nat) -> nat
    decreases exponent,
{
    if exponent == 0 {
        1
    } else {
        16 * pow16((exponent - 1) as nat)
    }
}

/// The hexadecimal digit of `id` at `position`, counted from the most
/// significant of its 32 digits.
pub open spec fn id_digit(id: u128, position: int) -> int {
    (id as int / pow16((31 - position) as nat) as int) % 16
}

/// The number of hyphens that stand before position `i` of an identifier
/// text.
pub open spec fn hyphens_before(i: int) -> int {
    (if i > 8 {
        1int
    } else {
        0int
    }) + (if i > 13 {
        1int
    } else {
        0int
    }) + (if i > 18 {
        1int
    } else {
        0int
    }) + (if i > 23 {
        1int
    } else {
        0int
    })
}

/// The text of an identifier: its 32 lowercase hexadecimal digits in
/// groups of 8, 4, 4, 4 and 12, with hyphens between the groups.
pub open spec fn uuid_text(id: u128) -> Seq<char> {
    Seq::new(
        36,
        |i: int|
            if i == 8 || i == 13 || i == 18 || i == 23 {
                '-'
            } else {
                hex_digit(id_digit(id, i - hyphens_before(i)))
            },
    )
}

/// The identifier that a text names, in any of the notations that the uuid
/// crate reads: hyphenated, simple, braced or as a URN.
pub uninterp spec fn uuid_value(text: Seq<char>) -> Option<u128>;

/// Calls `Uuid::new_v4` of the uuid crate and takes the identifier as its
/// 128-bit number. Nothing is known of a random identifier.
#[verifier::external_body]
pub(crate) fn fresh_id() -> (id: u128)
{
    uuid::Uuid::new_v4().as_u128()
}

/// Calls `Uuid::from_u128` and the `Display` of the uuid crate, which
/// writes the hyphenated lowercase notation. Parsing the text gives the
/// identifier back.
#[verifier::external_body]
fn render_uuid(id: u128) -> (text: String)
    ensures
        text@ == uuid_text(id),
        uuid_value(text@) == Some(id),
{
    uuid::Uuid::from_u128(id).to_string()
}

/// Calls `Uuid::parse_str` of the uuid crate.
#[verifier::external_body]
fn parse_uuid(text: &str) -> (id: Option<u128>)
    ensures
        id == uuid_value(text@),
{
    uuid::Uuid::parse_str(text).ok().map(|id| id.as_u128())
}

/// The text of an identifier.
pub fn id_to_text(id: u128) -> (text: String)
    ensures
        text@ == uuid_text(id),
        text@.len() == 36,
        uuid_value(text@) == Some(id),
{
    render_uuid(id)
}

/// The identifier that a text names, if it names one.
pub fn id_from_text(text: &str) -> (id: Option<u128>)
    ensures
        id == uuid_value(text@),
{
    parse_uuid(text)
}

} // verus!
