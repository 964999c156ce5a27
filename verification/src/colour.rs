use vstd::prelude::*;

verus! {

/// The palette the dashboard paints with; the terminal front end maps each
/// variant onto its own colour type.
#[derive(Debug, Clone, Copy, PartialEq, Eq, Structural)]
pub enum Colour {
    Black,
    Red,
    Green,
    Yellow,
    Blue,
    Magenta,
    Cyan,
    Gray,
    DarkGray,
}

} // verus!
