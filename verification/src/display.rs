//! What the front end shows: its options and the short form of an
//! identifier.

use vstd::prelude::*;
use crate::text::{chars_of, string_of};

verus! {

/// How the front end writes.
#[derive(Clone, Copy, Debug, PartialEq, Eq, Structural)]
pub struct UiOptions {
    /// One JSON object per line in place of plain text.
    pub json: bool,
    /// Nothing but errors.
    pub quiet: bool,
    /// Coloured output.
    pub color: bool,
}

/// What the header shows of the session.
#[derive(Clone, Copy, Debug, PartialEq, Eq, Structural)]
pub enum SessionIndicator {
    Active,
    Locked,
}

/// The number of characters of a short identifier.
pub const SHORT_ID_LEN: usize = 8;

/// The first `count` characters of `text`, or all of it where it is
/// shorter.
pub open spec fn first_chars(text: Seq<char>, count: nat) -> Seq<char> {
    if text.len() <= count {
        text
    } else {
        text.take(count as int)
    }
}

/// The first `count` characters of `text`.
pub fn take_chars(text: &str, count: usize) -> (taken: String)
    ensures
        taken@ == first_chars(text@, count as nat),
{
    let chars = chars_of(text);
    if chars.len() <= count {
        return string_of(chars.as_slice());
    }
    let mut kept: Vec<char> = Vec::new();
    let mut i: usize = 0;
    while i < count
        invariant
            i <= count,
            count < chars.len(),
            kept@ == chars@.take(i as int),
        decreases count - i,
    {
        kept.push(chars[i]);
        i += 1;
        assert(kept@ =~= chars@.take(i as int));
    }
    string_of(kept.as_slice())
}

/// The short form of an identifier: its first eight characters.
pub fn short_id(id: &str) -> (short: String)
    ensures
        short@ == first_chars(id@, SHORT_ID_LEN as nat),
{
    take_chars(id, SHORT_ID_LEN)
}

} // verus!
