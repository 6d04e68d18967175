//! The policy that a master password has to meet.

use vstd::prelude::*;
use vstd::std_specs::iter::IteratorSpec;
use vstd::string::StrSliceExecFns;
use crate::errors::{ChacrabError, ErrorKind};
use crate::text::{char_is_whitespace, is_whitespace};

verus! {

broadcast use vstd::string::group_string_axioms;

/// The least number of characters of a master password.
pub const MIN_MASTER_PASSWORD_LENGTH: usize = 12;

/// An ASCII lowercase letter.
pub open spec fn is_lower(c: char) -> bool {
    'a' <= c <= 'z'
}

/// An ASCII uppercase letter.
pub open spec fn is_upper(c: char) -> bool {
    'A' <= c <= 'Z'
}

/// An ASCII digit.
pub open spec fn is_digit(c: char) -> bool {
    '0' <= c <= '9'
}

/// A symbol: neither an ASCII letter or digit nor white space.
pub open spec fn is_symbol(c: char) -> bool {
    !is_lower(c) && !is_upper(c) && !is_digit(c) && !is_whitespace(c)
}

/// The number of character classes, of lowercase, uppercase, digit and
/// symbol, that occur in `text`.
pub open spec fn class_count(text: Seq<char>) -> nat {
    (if exists|i: int| 0 <= i < text.len() && is_lower(text[i]) {
        1nat
    } else {
        0nat
    }) + (if exists|i: int| 0 <= i < text.len() && is_upper(text[i]) {
        1nat
    } else {
        0nat
    }) + (if exists|i: int| 0 <= i < text.len() && is_digit(text[i]) {
        1nat
    } else {
        0nat
    }) + (if exists|i: int| 0 <= i < text.len() && is_symbol(text[i]) {
        1nat
    } else {
        0nat
    })
}

/// The reason with which a password that is too short is turned away.
pub open spec fn too_short_reason() -> Seq<char> {
    "weak master password: use at least 12 characters"@
}

/// The reason with which a password of too few character classes is turned
/// away.
pub open spec fn too_simple_reason() -> Seq<char> {
    "weak master password: use at least 3 of upper/lower/digit/symbol"@
}

/// What the policy says of a candidate: nothing, or the reason for which
/// it is turned away. The length is checked first.
pub open spec fn policy_verdict(candidate: Seq<char>) -> Option<Seq<char>> {
    if candidate.len() < MIN_MASTER_PASSWORD_LENGTH {
        Some(too_short_reason())
    } else if class_count(candidate) < 3 {
        Some(too_simple_reason())
    } else {
        None
    }
}

/// The character classes that occur in a text.
pub struct ClassesFound {
    pub lower: bool,
    pub upper: bool,
    pub digit: bool,
    pub symbol: bool,
}

/// Finds out which character classes occur in `text`.
pub fn classes_of(text: &str) -> (found: ClassesFound)
    ensures
        found.lower == (exists|i: int| 0 <= i < text@.len() && is_lower(text@[i])),
        found.upper == (exists|i: int| 0 <= i < text@.len() && is_upper(text@[i])),
        found.digit == (exists|i: int| 0 <= i < text@.len() && is_digit(text@[i])),
        found.symbol == (exists|i: int| 0 <= i < text@.len() && is_symbol(text@[i])),
{
    let mut found = ClassesFound { lower: false, upper: false, digit: false, symbol: false };
    let mut rest = text.chars();
    let ghost mut seen: int = 0;
    loop
        invariant
            rest.obeys_prophetic_iter_laws(),
            rest.decrease() is Some,
            0 <= seen <= text@.len(),
            rest.remaining() == text@.skip(seen),
            found.lower == (exists|i: int| 0 <= i < seen && is_lower(text@[i])),
            found.upper == (exists|i: int| 0 <= i < seen && is_upper(text@[i])),
            found.digit == (exists|i: int| 0 <= i < seen && is_digit(text@[i])),
            found.symbol == (exists|i: int| 0 <= i < seen && is_symbol(text@[i])),
        ensures
            seen == text@.len(),
            found.lower == (exists|i: int| 0 <= i < seen && is_lower(text@[i])),
            found.upper == (exists|i: int| 0 <= i < seen && is_upper(text@[i])),
            found.digit == (exists|i: int| 0 <= i < seen && is_digit(text@[i])),
            found.symbol == (exists|i: int| 0 <= i < seen && is_symbol(text@[i])),
        decreases rest.decrease()->0,
    {
        let ghost before = rest;
        match rest.next() {
            Some(c) => {
                assert(c == text@[seen]);
                let lower: bool = 'a' <= c && c <= 'z';
                let upper: bool = 'A' <= c && c <= 'Z';
                let digit: bool = '0' <= c && c <= '9';
                let symbol: bool = !lower && !upper && !digit && !char_is_whitespace(c);
                found.lower = found.lower || lower;
                found.upper = found.upper || upper;
                found.digit = found.digit || digit;
                found.symbol = found.symbol || symbol;
                proof {
                    assert(text@.skip(seen).drop_first() =~= text@.skip(seen + 1));
                    seen = seen + 1;
                }
            },
            None => {
                break ;
            },
        }
    }
    found
}

/// Checks a candidate master password against the policy: at least 12
/// characters, and at least 3 of the 4 classes lowercase, uppercase, digit
/// and symbol.
pub fn validate_master_password(candidate: &str) -> (r: Result<(), ChacrabError>)
    ensures
        match r {
            Ok(_) => policy_verdict(candidate@) is None,
            Err(e) => policy_verdict(candidate@) matches Some(reason) && e@ == ErrorKind::Config(
                reason,
            ),
        },
{
    if candidate.unicode_len() < MIN_MASTER_PASSWORD_LENGTH {
        return Err(ChacrabError::config("weak master password: use at least 12 characters"));
    }
    let found = classes_of(candidate);
    let mut classes: u8 = 0;
    if found.lower {
        classes += 1;
    }
    if found.upper {
        classes += 1;
    }
    if found.digit {
        classes += 1;
    }
    if found.symbol {
        classes += 1;
    }
    if classes < 3 {
        return Err(
            ChacrabError::config("weak master password: use at least 3 of upper/lower/digit/symbol"),
        );
    }
    Ok(())
}

} // verus!
