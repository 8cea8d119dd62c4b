//! A condition that is easy to keep and under which the tree's arithmetic
//! stays within the range of its element type: the elements lie between two
//! bounds, and the element type represents as many times either bound as
//! there are elements.

use crate::additive::Additive;
use crate::bits::{
    block_start, descend, lemma_descend_decreases, lemma_descents_meet, lemma_meeting_point,
    lemma_visits_below, meeting_point, visits,
};
use crate::bounds::{end_index, start_index};
use crate::sums::{lemma_range_sum_between, lemma_range_sum_split, lemma_range_sum_update, range_sum};
use crate::tree::{add_fits, add_model, sum_fits};
use std::ops::Bound;
use vstd::prelude::*;

verus! {

/// Whether every element of `values` lies between `low`, which is zero or
/// less, and `high`, which is zero or more, and `I` represents every integer
/// between `len * low` and `len * high`, where `len` is the number of
/// elements.
pub open spec fn within_capacity<I: Additive>(values: Seq<int>, low: int, high: int) -> bool {
    &&& values.len() <= usize::MAX
    &&& low <= 0 <= high
    &&& forall|i: int| 0 <= i < values.len() ==> low <= #[trigger] values[i] <= high
    &&& forall|v: int|
        values.len() * low <= v <= values.len() * high ==> #[trigger] I::representable(v)
}

/// With a bound on either side of zero, what `count` elements can sum to
/// lies within what `len` elements can sum to, for `count` up to `len`.
proof fn lemma_scaled_bounds(count: int, len: int, low: int, high: int)
    requires
        0 <= count <= len,
        low <= 0 <= high,
    ensures
        len * low <= count * low,
        count * high <= len * high,
{
    assert(len * low <= count * low && count * high <= len * high) by (nonlinear_arith)
        requires
            0 <= count <= len,
            low <= 0 <= high,
    ;
}

/// What two counts of elements can sum to, taken together.
proof fn lemma_scaled_sum(first: int, second: int, bound: int)
    ensures
        (first + second) * bound == first * bound + second * bound,
{
    assert((first + second) * bound == first * bound + second * bound) by (nonlinear_arith);
}

/// On elements within capacity, `sum` stays within the range of `I` for any
/// bounds.
pub proof fn lemma_sum_fits_within_capacity<I: Additive>(
    values: Seq<int>,
    low: int,
    high: int,
    bounds: (Bound<usize>, Bound<usize>),
)
    requires
        within_capacity::<I>(values, low, high),
    ensures
        sum_fits::<I>(values, bounds),
{
    let len: int = values.len() as int;
    let start: nat = start_index(bounds.0);
    let end: nat = end_index(bounds.1, values.len());
    let meet: nat = meeting_point(start, end);
    if start < end <= values.len() {
        let above: nat = lemma_meeting_point(start, end);
        assert forall|p: nat| start < p && #[trigger] visits(end, p) implies I::representable(
            range_sum(values, descend(p) as int, end as int),
        ) by {
            lemma_visits_below(end, p);
            lemma_descend_decreases(p);
            lemma_range_sum_between(values, low, high, descend(p) as int, end as int);
            lemma_scaled_bounds(end - descend(p), len, low, high);
        }
        assert forall|p: nat| meet < p && #[trigger] visits(start, p) implies I::representable(
            range_sum(values, meet as int, end as int) - range_sum(
                values,
                descend(p) as int,
                start as int,
            ),
        ) by {
            lemma_visits_below(start, p);
            lemma_descents_meet(above, p);
            let below: int = descend(p) as int;
            lemma_range_sum_split(values, meet as int, below, end as int);
            lemma_range_sum_split(values, below, start as int, end as int);
            lemma_range_sum_between(values, low, high, meet as int, below);
            lemma_range_sum_between(values, low, high, start as int, end as int);
            lemma_scaled_sum(below - meet, end - start, low);
            lemma_scaled_sum(below - meet, end - start, high);
            lemma_scaled_bounds((below - meet) + (end - start), len, low, high);
        }
    }
}

/// Where the elements are within capacity once `delta` is added at `index`,
/// `add` with `index` and `delta` stays within the range of `I`.
pub proof fn lemma_add_fits_within_capacity<I: Additive>(
    values: Seq<int>,
    low: int,
    high: int,
    index: usize,
    delta: int,
)
    requires
        within_capacity::<I>(add_model(values, index, delta), low, high),
    ensures
        add_fits::<I>(values, index, delta),
{
    let len: int = values.len() as int;
    let after = add_model(values, index, delta);
    assert forall|i: nat|
        index <= i < values.len() && #[trigger] block_start(i) <= index implies I::representable(
        range_sum(values, block_start(i) as int, (i + 1) as int) + delta,
    ) by {
        lemma_range_sum_update(values, index as int, delta, block_start(i) as int, (i + 1) as int);
        lemma_range_sum_between(after, low, high, block_start(i) as int, (i + 1) as int);
        lemma_scaled_bounds(i + 1 - block_start(i), len, low, high);
    }
}

} // verus!
