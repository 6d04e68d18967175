//! The cells of the item table.

use vstd::prelude::*;
use vstd::string::StringExecFns;
use crate::display::take_chars;
use crate::text::chars_of;

verus! {

/// `value` cut to at most `max` characters: a value that is longer keeps
/// its first `max - 1` characters, followed by an ellipsis.
pub open spec fn truncated(value: Seq<char>, max: nat) -> Seq<char> {
    if value.len() <= max {
        value
    } else if max == 0 {
        "…"@
    } else {
        value.take(max - 1) + "…"@
    }
}

/// Cuts `value` to the width of a table cell.
pub fn truncate(value: &str, max: usize) -> (cell: String)
    ensures
        cell@ == truncated(value@, max as nat),
{
    let length: usize = chars_of(value).len();
    if length <= max {
        return value.to_owned();
    }
    let keep: usize = max.saturating_sub(1);
    let mut cell = take_chars(value, keep);
    cell.append("…");
    proof {
        if max == 0 {
            assert(value@.take(0) =~= Seq::<char>::empty());
            assert(cell@ =~= "…"@);
        }
    }
    cell
}

} // verus!
