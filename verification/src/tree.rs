//! The tree: a fixed number of cells, each holding the sum of a block of
//! elements, over which one element is updated and a stretch is summed in
//! logarithmically many steps.

use crate::additive::Additive;
use crate::bits::{
    ascend, block_start, descend, lemma_ascend_increases, lemma_ascend_widens_block,
    lemma_descend_decreases, lemma_descend_inside, lemma_descend_outside, lemma_descents_meet,
    lemma_visits_descend, meeting_point, next, prev, visits,
};
use crate::bounds::{borrowed, end, end_index, start, start_index};
use crate::errors::{AddError, SumError};
use crate::sums::{lemma_range_sum_update, range_sum, zeros};
use std::ops::Bound;
use vstd::prelude::*;

verus! {

/// A binary indexed tree (Fenwick tree) over a fixed number of elements.
///
/// Its view is the sequence of the integers that the elements stand for. The
/// elements themselves are never stored: the cell at index `i` holds the sum
/// of the elements from `block_start(i)` up to and including `i`.
pub struct FenwickTree<I: Additive> {
    tree: Vec<I>,
}

/// What `sum` yields for `bounds` on a tree whose elements are `values`: the
/// sum of the stretch that the bounds stand for, which is zero when the
/// stretch is empty or decreasing, or an error when the stretch starts at or
/// behind the length or ends behind it.
pub open spec fn sum_model(values: Seq<int>, bounds: (Bound<usize>, Bound<usize>)) -> Result<
    int,
    SumError,
> {
    let start: nat = start_index(bounds.0);
    let end: nat = end_index(bounds.1, values.len());
    if start >= values.len() || end > values.len() {
        Err(SumError::OutOfRange { bounds, len: values.len() as usize })
    } else {
        Ok(range_sum(values, start as int, end as int))
    }
}

/// The elements of a tree after `add` with `index` and `delta`, where they
/// were `values` before it: `delta` more at `index`, or the same where the
/// index is not below the length.
pub open spec fn add_model(values: Seq<int>, index: usize, delta: int) -> Seq<int> {
    if index < values.len() {
        values.update(index as int, values[index as int] + delta)
    } else {
        values
    }
}

/// Whether `add` with `index` and `delta` stays within the range of `I` on a
/// tree whose elements are `values`: each cell whose block contains `index`
/// can take `delta` on top of the sum of its block.
pub open spec fn add_fits<I: Additive>(values: Seq<int>, index: usize, delta: int) -> bool {
    forall|i: nat|
        index <= i < values.len() && #[trigger] block_start(i) <= index ==> I::representable(
            range_sum(values, block_start(i) as int, (i + 1) as int) + delta,
        )
}

/// Whether `sum` with `bounds` stays within the range of `I` on a tree whose
/// elements are `values`. Nothing is asked of a stretch that is outside the
/// tree, empty or decreasing. For any other, with `start` and `end` its first
/// index and the index behind its last: the walk descending from `end` adds a
/// cell at each position above `start`, and the running sum, which then
/// reaches from the position below to `end`, is representable; the walk
/// descending from `start` subtracts a cell at each position above the one
/// where the two walks meet, and what is left of the running sum is
/// representable.
pub open spec fn sum_fits<I: Additive>(values: Seq<int>, bounds: (Bound<usize>, Bound<usize>)) -> bool {
    let start: nat = start_index(bounds.0);
    let end: nat = end_index(bounds.1, values.len());
    let meet: nat = meeting_point(start, end);
    start < end <= values.len() ==> {
        &&& forall|p: nat|
            start < p && #[trigger] visits(end, p) ==> I::representable(
                range_sum(values, descend(p) as int, end as int),
            )
        &&& forall|p: nat|
            meet < p && #[trigger] visits(start, p) ==> I::representable(
                range_sum(values, meet as int, end as int) - range_sum(
                    values,
                    descend(p) as int,
                    start as int,
                ),
            )
    }
}

/// The integers that the cells stand for.
spec fn cell_values<I: Additive>(cells: Seq<I>) -> Seq<int> {
    cells.map_values(|cell: I| cell.value())
}

/// The sum of the cells that the walk descending from position `k` comes by:
/// the sum of the first `k` elements.
spec fn descent_sum(cells: Seq<int>, k: nat) -> int
    decreases k,
    via descent_sum_decreases
{
    if k == 0 {
        0
    } else {
        cells[k - 1] + descent_sum(cells, descend(k))
    }
}

#[via_fn]
proof fn descent_sum_decreases(cells: Seq<int>, k: nat) {
    if k > 0 {
        lemma_descend_decreases(k);
    }
}

/// The elements that a sequence of cells stands for: each is the difference
/// of two neighbouring prefix sums.
spec fn elements(cells: Seq<int>) -> Seq<int> {
    Seq::new(
        cells.len(),
        |i: int| descent_sum(cells, (i + 1) as nat) - descent_sum(cells, i as nat),
    )
}

impl<I: Additive> View for FenwickTree<I> {
    type V = Seq<int>;

    closed spec fn view(&self) -> Seq<int> {
        elements(self.cells())
    }
}

/// The sum of a stretch of elements is the difference of the descent sums at
/// its two ends.
proof fn lemma_descent_sums_telescope(cells: Seq<int>, lo: nat, hi: nat)
    requires
        lo <= hi <= cells.len(),
    ensures
        range_sum(elements(cells), lo as int, hi as int) == descent_sum(cells, hi) - descent_sum(
            cells,
            lo,
        ),
    decreases hi - lo,
{
    if lo < hi {
        lemma_descent_sums_telescope(cells, lo, (hi - 1) as nat);
    }
}

/// Each cell holds the sum of its block.
proof fn lemma_cell_is_block_sum(cells: Seq<int>, i: nat)
    requires
        i < cells.len(),
    ensures
        block_start(i) <= i,
        cells[i as int] == range_sum(elements(cells), block_start(i) as int, (i + 1) as int),
{
    lemma_descend_decreases(i + 1);
    lemma_descent_sums_telescope(cells, block_start(i), i + 1);
}

/// Cells that are all zero stand for elements that are all zero.
proof fn lemma_zero_cells(cells: Seq<int>, k: nat)
    requires
        k <= cells.len(),
        forall|i: int| 0 <= i < cells.len() ==> cells[i] == 0,
    ensures
        descent_sum(cells, k) == 0,
    decreases k,
{
    if k > 0 {
        lemma_descend_decreases(k);
        lemma_zero_cells(cells, descend(k));
    }
}

/// Adding `delta` to the cell at `i` adds `delta` to the descent sum at every
/// position within the reach of that cell, from `i + 1` to `ascend(i)`, and
/// to no other.
proof fn lemma_descent_sum_update(cells: Seq<int>, i: nat, delta: int, k: nat)
    requires
        i < cells.len() <= usize::MAX,
        k <= cells.len(),
    ensures
        descent_sum(cells.update(i as int, cells[i as int] + delta), k) == descent_sum(cells, k)
            + if i < k <= ascend(i) {
            delta
        } else {
            0
        },
    decreases k,
{
    if k > 0 {
        lemma_descend_decreases(k);
        lemma_ascend_increases(i);
        lemma_descent_sum_update(cells, i, delta, descend(k));
        if i + 1 < k <= ascend(i) {
            lemma_descend_inside(i, k);
        } else if k > ascend(i) {
            lemma_descend_outside(i, k);
        }
    }
}

impl<I: Additive> FenwickTree<I> {
    /// The integers that the stored cells stand for, one cell for each
    /// element.
    pub closed spec fn cells(&self) -> Seq<int> {
        cell_values(self.tree@)
    }

    /// The layout of the tree: there is one cell for each element, as many as
    /// a `usize` can count, and the cell at `i` holds the sum of the elements
    /// from `block_start(i)` up to and including `i`.
    pub proof fn lemma_cells_hold_block_sums(&self, i: nat)
        requires
            i < self@.len(),
        ensures
            self.cells().len() == self@.len() <= usize::MAX,
            block_start(i) <= i,
            self.cells()[i as int] == range_sum(self@, block_start(i) as int, (i + 1) as int),
    {
        assert(self@.len() == self.tree.len());
        lemma_cell_is_block_sum(self.cells(), i);
    }

    /// Constructs a tree of `len` elements, each of them zero, with each of
    /// its cells zero.
    pub fn with_len(len: usize) -> (tree: Self)
        ensures
            tree@ == zeros(len as nat),
            tree.cells() == zeros(len as nat),
    {
        let zero = I::zero();
        let mut cells: Vec<I> = Vec::with_capacity(len);
        while cells.len() < len
            invariant
                cells.len() <= len,
                forall|i: int| 0 <= i < cells.len() ==> cells@[i] == zero,
                zero.value() == 0,
            decreases len - cells.len(),
        {
            cells.push(zero);
        }
        let tree = Self { tree: cells };
        proof {
            assert forall|i: int| 0 <= i < len implies #[trigger] tree@[i] == 0 by {
                lemma_zero_cells(tree.cells(), (i + 1) as nat);
                lemma_zero_cells(tree.cells(), i as nat);
            }
            assert(tree@ =~= zeros(len as nat));
            assert(tree.cells() =~= zeros(len as nat));
        }
        tree
    }

    /// The number of elements of the tree.
    pub fn len(&self) -> (len: usize)
        ensures
            len == self@.len(),
    {
        self.tree.len()
    }

    /// The sum of the elements within `bounds`, which is zero for an empty or
    /// decreasing stretch; an error where the stretch does not lie within the
    /// tree.
    #[verifier::loop_isolation(false)]
    pub fn sum(&self, bounds: (Bound<usize>, Bound<usize>)) -> (result: Result<I, SumError>)
        requires
            sum_fits::<I>(self@, bounds),
        ensures
            match result {
                Ok(sum) => sum_model(self@, bounds) == Ok::<int, SumError>(sum.value()),
                Err(error) => sum_model(self@, bounds) == Err::<int, SumError>(error),
            },
            start_index(bounds.0) < self@.len() && end_index(bounds.1, self@.len()) <= start_index(
                bounds.0,
            ) ==> result is Ok && result->Ok_0.value() == 0,
    {
        let len: usize = self.len();

        let mut sum = I::zero();
        let mut start: usize = start(borrowed(&bounds.0));
        let mut end: usize = end(borrowed(&bounds.1), len);

        if start >= len || end > len {
            return Err(SumError::OutOfRange { bounds, len });
        }
        // An empty or decreasing stretch sums to zero.
        if start >= end {
            return Ok(sum);
        }
        let ghost cells = self.cells();
        let ghost first: nat = start as nat;
        let ghost behind: nat = end as nat;
        let ghost meet: nat = meeting_point(first, behind);
        // The last position that the first walk has left.
        let ghost mut above: nat = behind;

        while end > start
            invariant
                start == first,
                end <= behind,
                visits(behind, end as nat),
                meeting_point(first, end as nat) == meet,
                end == behind || (end == descend(above) && first < above <= behind),
                sum.value() == descent_sum(cells, behind) - descent_sum(cells, end as nat),
            decreases end,
        {
            proof {
                lemma_descend_decreases(end as nat);
                lemma_visits_descend(behind, end as nat);
                lemma_descent_sums_telescope(cells, descend(end as nat), behind);
                above = end as nat;
            }
            sum.add_assign(self.tree[end - 1]);
            end = prev(end);
        }

        while start > end
            invariant
                end == meet,
                meet <= start <= first,
                visits(first, start as nat),
                sum.value() == (descent_sum(cells, behind) - descent_sum(cells, meet as nat)) - (
                descent_sum(cells, first) - descent_sum(cells, start as nat)),
            decreases start,
        {
            proof {
                lemma_descents_meet(above, start as nat);
                lemma_visits_descend(first, start as nat);
                lemma_descent_sums_telescope(cells, meet, behind);
                lemma_descent_sums_telescope(cells, descend(start as nat), first);
            }
            sum.sub_assign(self.tree[start - 1]);
            start = prev(start);
        }

        proof {
            lemma_descent_sums_telescope(cells, first, behind);
        }
        Ok(sum)
    }

    /// Adds `delta` to the element at `index`, by adding it to each cell whose
    /// block contains `index`; an error, and no change, where the index is
    /// not below the length.
    #[verifier::loop_isolation(false)]
    pub fn add(&mut self, index: usize, delta: I) -> (result: Result<(), AddError>)
        requires
            add_fits::<I>(old(self)@, index, delta.value()),
        ensures
            result == if index < old(self)@.len() {
                Ok::<(), AddError>(())
            } else {
                Err::<(), AddError>(
                    AddError::IndexOutOfRange { index, size: old(self)@.len() as usize },
                )
            },
            final(self)@ == add_model(old(self)@, index, delta.value()),
            result is Err ==> *final(self) == *old(self),
            forall|i: int|
                0 <= i < old(self)@.len() ==> #[trigger] final(self).cells()[i] == old(
                    self,
                ).cells()[i] + if result is Ok && block_start(i as nat) <= index <= i {
                    delta.value()
                } else {
                    0
                },
    {
        let size: usize = self.len();

        if index >= size {
            return Err(AddError::IndexOutOfRange { index, size });
        }
        let ghost before = self.cells();
        let mut i: usize = index;
        proof {
            lemma_descend_decreases((index + 1) as nat);
        }

        while i < size
            invariant
                size == self.tree.len(),
                index <= i,
                i < size ==> block_start(i as nat) <= index,
                forall|m: int| i <= m < size ==> self.cells()[m] == before[m],
                forall|k: nat|
                    k <= size ==> #[trigger] descent_sum(self.cells(), k) == descent_sum(before, k)
                        + if index < k <= i {
                        delta.value()
                    } else {
                        0
                    },
            decreases
                    (if i < size {
                        size - i
                    } else {
                        0
                    }),
        {
            let ghost cells = self.cells();
            proof {
                lemma_cell_is_block_sum(before, i as nat);
            }
            self.tree[i].add_assign(delta);
            proof {
                assert(self.cells() =~= cells.update(i as int, cells[i as int] + delta.value()));
                assert forall|k: nat| k <= size implies #[trigger] descent_sum(self.cells(), k)
                    == descent_sum(before, k) + if index < k <= ascend(i as nat) {
                    delta.value()
                } else {
                    0
                } by {
                    lemma_descent_sum_update(cells, i as nat, delta.value(), k);
                }
                lemma_ascend_increases(i as nat);
                if ascend(i as nat) < size {
                    lemma_ascend_widens_block(i as nat);
                }
            }
            i = next(i);
        }

        proof {
            assert(self@ =~= add_model(old(self)@, index, delta.value()));
            assert forall|i: int| 0 <= i < size implies #[trigger] self.cells()[i] == before[i]
                + if block_start(i as nat) <= index <= i {
                delta.value()
            } else {
                0
            } by {
                old(self).lemma_cells_hold_block_sums(i as nat);
                self.lemma_cells_hold_block_sums(i as nat);
                lemma_range_sum_update(
                    old(self)@,
                    index as int,
                    delta.value(),
                    block_start(i as nat) as int,
                    i + 1,
                );
            }
        }
        Ok(())
    }
}

} // verus!
