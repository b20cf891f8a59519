//! The ways in which an edit is turned down.

use vstd::prelude::*;

verus! {

/// Why an operation was rejected. A rejected operation changes nothing.
#[derive(Clone, Copy, Debug, PartialEq, Eq, Structural, Hash)]
pub enum EditError {
    /// A segment would have a number of control points other than 0, 2, 3 or 4.
    InvalidShape,
    /// The two segments that meet at a join do not end and start on the same
    /// point.
    JoinMismatch,
    /// A segment was appended to a contour that is already closed.
    ContourClosed,
    /// A position would fall off the lattice.
    OutOfRange,
}

impl EditError {
    /// A short description of the error.
    pub fn message(&self) -> (r: &'static str)
        ensures
            *self == EditError::InvalidShape ==> r@ == "a segment has 0, 2, 3 or 4 control points"@,
            *self == EditError::JoinMismatch ==> r@
                == "consecutive segments must meet on one point"@,
            *self == EditError::ContourClosed ==> r@ == "the contour is closed"@,
            *self == EditError::OutOfRange ==> r@ == "a position falls off the lattice"@,
    {
        match self {
            EditError::InvalidShape => "a segment has 0, 2, 3 or 4 control points",
            EditError::JoinMismatch => "consecutive segments must meet on one point",
            EditError::ContourClosed => "the contour is closed",
            EditError::OutOfRange => "a position falls off the lattice",
        }
    }
}

} // verus!
