use vstd::prelude::*;

verus! {

/// A terminal color for a board cell. `DefaultColor` marks an empty cell;
/// any other color marks an occupied one. How a color is drawn on a real
/// terminal is the caller's business, not this crate's.
#[derive(Clone, Copy, Debug, PartialEq, Eq, Structural)]
pub enum Color {
    Black,
    Red,
    Green,
    Yellow,
    Blue,
    Magenta,
    Cyan,
    White,
    DefaultColor,
}

} // verus!
