//! Small things that several parts of the editor share.

use vstd::prelude::*;

verus! {

/// One of two things.
#[derive(Debug, PartialEq, Eq)]
pub enum Either<A, B> {
    A(A),
    B(B),
}

} // verus!
