//! How many terminal columns a character takes.

use unicode_width::UnicodeWidthChar;
use vstd::prelude::*;

verus! {

/// The width that the tables of `unicode-width` hold for a character from U+00A0 on.
pub uninterp spec fn table_width(c: char) -> usize;

/// The width of a character in columns, `None` for a control character.
pub open spec fn display_width(c: char) -> Option<usize> {
    if 0x20 <= c as u32 && (c as u32) < 0x7f {
        Some(1usize)
    } else if (c as u32) < 0xa0 {
        None
    } else {
        Some(table_width(c))
    }
}

/// Columns by which writing `c` moves the cursor: its width, or one for a control character.
pub open spec fn columns_of(c: char) -> u16 {
    match display_width(c) {
        Some(w) => w as u16,
        None => 1,
    }
}

/// Whether `c` fills two cells.
pub open spec fn is_wide(c: char) -> bool {
    display_width(c) == Some(2usize)
}

/// Calls `UnicodeWidthChar::width` of `unicode-width`. Printable ASCII is one column wide, C0
/// controls, DEL and C1 controls have no width, and every other character has the width that
/// the crate's tables hold for it, which is three at most.
#[verifier::external_body]
pub(crate) fn char_width(c: char) -> (r: Option<usize>)
    ensures
        (c as u32) < 0x20 || (0x7f <= c as u32 && (c as u32) < 0xa0) ==> r is None,
        0x20 <= c as u32 && (c as u32) < 0x7f ==> r == Some(1usize),
        0xa0 <= c as u32 ==> r == Some(table_width(c)),
        r matches Some(w) ==> w <= 3,
{
    c.width()
}

/// The columns that `c` takes on the screen.
pub fn columns(c: char) -> (r: u16)
    ensures
        r == columns_of(c),
        r <= 3,
{
    match char_width(c) {
        Some(w) => w as u16,
        None => 1,
    }
}

/// Whether `c` takes two cells.
pub fn wide(c: char) -> (r: bool)
    ensures
        r == is_wide(c),
{
    match char_width(c) {
        Some(w) => w == 2,
        None => false,
    }
}

} // verus!
