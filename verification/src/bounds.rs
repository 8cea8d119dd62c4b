//! Turning a pair of range bounds into the half-open stretch of indices that
//! it stands for.

use std::ops::Bound;
use vstd::prelude::*;

verus! {

/// Makes `std::ops::Bound` known to the verifier as the enum that it is, with
/// its variants `Included`, `Excluded` and `Unbounded`.
#[verifier::external_type_specification]
#[verifier::reject_recursive_types(T)]
pub struct ExBound<T>(Bound<T>);

/// The bound that owns the index which `bound` borrows.
pub open spec fn owned(bound: Bound<&usize>) -> Bound<usize> {
    match bound {
        Bound::Included(x) => Bound::Included(*x),
        Bound::Excluded(x) => Bound::Excluded(*x),
        Bound::Unbounded => Bound::Unbounded,
    }
}

/// The first index of the stretch that starts at `bound`. A stretch that
/// starts after the largest index starts at the largest index.
pub open spec fn start_index(bound: Bound<usize>) -> nat {
    match bound {
        Bound::Included(x) => x as nat,
        Bound::Excluded(x) => if x < usize::MAX {
            (x + 1) as nat
        } else {
            usize::MAX as nat
        },
        Bound::Unbounded => 0,
    }
}

/// The index just behind the stretch that ends at `bound`, in a sequence of
/// length `len`. A stretch that includes the largest index ends at it.
pub open spec fn end_index(bound: Bound<usize>, len: nat) -> nat {
    match bound {
        Bound::Included(x) => if x < usize::MAX {
            (x + 1) as nat
        } else {
            usize::MAX as nat
        },
        Bound::Excluded(x) => x as nat,
        Bound::Unbounded => len,
    }
}

/// The pair of bounds that stands for the half-open stretch from `from` up
/// to, and not including, `to`.
pub open spec fn half_open(from: usize, to: usize) -> (Bound<usize>, Bound<usize>) {
    (Bound::Included(from), Bound::Excluded(to))
}

/// The start bound as an inclusive index.
pub fn start(bound: Bound<&usize>) -> (index: usize)
    ensures
        index == start_index(owned(bound)),
{
    match bound {
        Bound::Excluded(x) => if *x == usize::MAX {
            usize::MAX
        } else {
            *x + 1
        },
        Bound::Included(x) => *x,
        Bound::Unbounded => usize::MIN,
    }
}

/// The end bound as an exclusive index, in a sequence of length `len`.
pub fn end(bound: Bound<&usize>, len: usize) -> (index: usize)
    ensures
        index == end_index(owned(bound), len as nat),
{
    match bound {
        Bound::Included(x) => if *x == usize::MAX {
            usize::MAX
        } else {
            *x + 1
        },
        Bound::Excluded(x) => *x,
        Bound::Unbounded => len,
    }
}

/// The bound behind a reference, with its index borrowed.
pub(crate) fn borrowed(bound: &Bound<usize>) -> (r: Bound<&usize>)
    ensures
        owned(r) == *bound,
{
    match bound {
        Bound::Included(x) => Bound::Included(x),
        Bound::Excluded(x) => Bound::Excluded(x),
        Bound::Unbounded => Bound::Unbounded,
    }
}

/// The pair of owned bounds for a start and an end bound.
pub fn as_pair(start: Bound<&usize>, end: Bound<&usize>) -> (pair: (Bound<usize>, Bound<usize>))
    ensures
        pair == (owned(start), owned(end)),
{
    let first = match start {
        Bound::Included(x) => Bound::Included(*x),
        Bound::Excluded(x) => Bound::Excluded(*x),
        Bound::Unbounded => Bound::Unbounded,
    };
    let second = match end {
        Bound::Included(x) => Bound::Included(*x),
        Bound::Excluded(x) => Bound::Excluded(*x),
        Bound::Unbounded => Bound::Unbounded,
    };
    (first, second)
}

} // verus!
