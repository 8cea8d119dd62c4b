//! The errors that the tree's operations report.

use std::ops::Bound;
use vstd::prelude::*;

verus! {

/// An error in calculating a partial sum.
#[derive(Debug, PartialEq, Eq)]
pub enum SumError {
    /// The bounds do not lie within the tree: `bounds` is the pair that was
    /// asked for and `len` the length of the tree.
    OutOfRange { bounds: (Bound<usize>, Bound<usize>), len: usize },
}

/// An error in adding a delta to an element of the tree.
#[derive(Debug, PartialEq, Eq)]
pub enum AddError {
    /// The index is not below the size of the tree.
    IndexOutOfRange { index: usize, size: usize },
}

} // verus!
