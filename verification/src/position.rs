use vstd::prelude::*;

verus! {

/// A zero-based (column, row) address into a document: `x` is the scalar
/// offset within the row, `y` the row index. Pure value type.
#[derive(Clone, Copy, PartialEq, Eq, Structural, Debug)]
pub struct Position {
    pub x: usize,
    pub y: usize,
}

impl Default for Position {
    /// The origin: the top-left of the document.
    fn default() -> (p: Position)
        ensures
            p.x == 0,
            p.y == 0,
    {
        Position { x: 0, y: 0 }
    }
}

} // verus!
