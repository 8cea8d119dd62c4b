//! A binary indexed tree (Fenwick tree): a fixed-length sequence of additive
//! elements in which one element is updated, and any stretch is summed, in
//! logarithmically many steps.
//!
//! # Overview
//!
//! [`FenwickTree`] is the tree. It is made with a length and all elements
//! zero, changed by [`FenwickTree::add`] and queried by [`FenwickTree::sum`],
//! which takes a pair of [`std::ops::Bound`]s, each of them inclusive,
//! exclusive or unbounded. An element type implements [`Additive`], as the
//! primitive integer types do.
//!
//! # Layout
//!
//! The tree stores no element. It stores one cell for each index, and the
//! cell at the zero-based index `i` holds the sum of the elements from
//! [`bits::block_start`]`(i)` up to and including `i`: a block of as many
//! elements as the lowest set bit of `i + 1` says.
//!
//! * A sum of the first `k` elements is gathered by walking down from the
//!   one-based position `k`: the cell at `k - 1` is taken and the lowest set
//!   bit of `k` is cleared ([`prev`]), until the position is zero.
//! * An element at `i` is updated by walking up from the zero-based index
//!   `i`: the cell at `i` is changed and the lowest unset bit of `i` is set
//!   ([`next`]), until the index leaves the tree. The cells met on the way
//!   are those whose block contains `i`.
//! * A sum from `start` to `end` walks down from `end` and then from `start`
//!   until the two walks meet, adding the cells of the first walk and
//!   subtracting those of the second.
//!
//! # Contracts
//!
//! The view of a tree is the sequence of integers that its elements stand
//! for. [`tree::sum_model`] and [`tree::add_model`] say, over that sequence,
//! what a sum yields and what an update changes; [`laws`] relates the two.
//! Element types of limited range ask that no step leaves their range:
//! [`tree::sum_fits`] and [`tree::add_fits`] say exactly when that is so, and
//! [`capacity`] gives a condition that is simple to keep.

pub mod additive;
pub mod bits;
pub mod bounds;
pub mod capacity;
pub mod errors;
pub mod laws;
pub mod sums;
pub mod tree;

pub use additive::Additive;
pub use bits::{next, prev};
pub use bounds::{as_pair, end, start};
pub use errors::{AddError, SumError};
pub use tree::FenwickTree;
