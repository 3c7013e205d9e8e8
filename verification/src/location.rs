use vstd::prelude::*;

verus! {

/// A position in a source file: 1-based row, column as the parser reports it.
#[derive(Debug, Clone, Copy, PartialEq, Eq, Structural)]
pub struct Location {
    pub row: usize,
    pub column: usize,
}

impl Location {
    pub fn new(row: usize, column: usize) -> (r: Location)
        ensures
            r.row == row,
            r.column == column,
    {
        Location { row, column }
    }

    pub fn row(&self) -> (r: usize)
        ensures
            r == self.row,
    {
        self.row
    }

    pub fn column(&self) -> (r: usize)
        ensures
            r == self.column,
    {
        self.column
    }
}

} // verus!
