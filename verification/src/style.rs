//! Colours of the cells of a pane.

use vstd::prelude::*;

verus! {

/// A foreground or background colour.
#[derive(Clone, Copy, PartialEq, Eq, Structural, Debug)]
pub enum Color {
    Reset,
    Black,
    Red,
    Green,
    Yellow,
    Blue,
    Magenta,
    Cyan,
    Gray,
    DarkGray,
    White,
    Rgb(u8, u8, u8),
    Indexed(u8),
}

} // verus!
