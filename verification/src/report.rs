//! How a report is shown.

use vstd::prelude::*;

verus! {

/// The longest name that is shown in full, in characters.
pub const NAME_WIDTH: usize = 38;

/// How the name of a function is shown: in full when it has no more than
/// [`NAME_WIDTH`] characters, else its first characters and `..`, which
/// together make [`NAME_WIDTH`] characters.
pub open spec fn shown_name(name: Seq<char>) -> Seq<char> {
    if name.len() > NAME_WIDTH {
        name.take(NAME_WIDTH - 2) + ".."@
    } else {
        name
    }
}

/// How the name of a function is shown in the summary.
pub fn display_name(name: &str) -> (shown: String)
    ensures
        shown@ == shown_name(name@),
{
    if name.unicode_len() > NAME_WIDTH {
        let mut shown = name.substring_char(0, NAME_WIDTH - 2).to_owned();
        shown.append("..");
        assert(name@.take(NAME_WIDTH - 2) == name@.subrange(0, NAME_WIDTH - 2));
        shown
    } else {
        name.to_owned()
    }
}

} // verus!
