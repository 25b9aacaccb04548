use vstd::prelude::*;

verus! {

/// A terminal extent: columns across, rows down.
#[derive(Clone, Copy, PartialEq, Eq, Structural, Debug)]
pub struct Size {
    pub colums: u16,
    pub rows: u16,
}

/// The core's record of the terminal it draws into. Only the size lives
/// here; emitting escape sequences is a capability of the surrounding
/// application.
pub struct Terminal {
    size: Size,
}

impl Terminal {
    /// Builds the record from a queried terminal extent, keeping the bottom
    /// two rows free for the status and message bars.
    pub fn new(colums: u16, rows: u16) -> (t: Terminal)
        ensures
            t.spec_size().colums == colums,
            t.spec_size().rows == if rows >= 2 {
                rows - 2
            } else {
                0
            },
    {
        Terminal { size: Size { colums, rows: rows.saturating_sub(2) } }
    }

    /// The viewport extent.
    pub closed spec fn spec_size(&self) -> Size {
        self.size
    }

    /// The viewport extent.
    pub fn size(&self) -> (s: &Size)
        ensures
            *s == self.spec_size(),
    {
        &self.size
    }
}

} // verus!
