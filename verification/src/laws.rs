//! Laws that relate the tree's operations to each other, stated over the
//! elements of a tree and proved from the models of `sum` and `add`.

use crate::bounds::{end_index, half_open, start_index};
use crate::errors::SumError;
use crate::sums::{lemma_range_sum_split, lemma_range_sum_update, range_sum, zeros};
use crate::tree::{add_model, sum_model};
use std::ops::Bound;
use vstd::prelude::*;

verus! {

/// Additivity. After `delta` is added at a valid `index`, the sum of the
/// stretch that holds `index` alone is `delta` more than before; the sum for
/// any bounds whose stretch contains `index` is `delta` more than before; and
/// for any bounds whose stretch does not contain `index`, the outcome, sum or
/// error, is the same as before.
pub proof fn law_additivity(
    values: Seq<int>,
    index: usize,
    delta: int,
    bounds: (Bound<usize>, Bound<usize>),
)
    requires
        index < values.len() <= usize::MAX,
    ensures
        sum_model(values, half_open(index, (index + 1) as usize)) == Ok::<int, SumError>(
            values[index as int],
        ),
        sum_model(add_model(values, index, delta), half_open(index, (index + 1) as usize)) == Ok::<
            int,
            SumError,
        >(values[index as int] + delta),
        match sum_model(values, bounds) {
            Ok(sum) => sum_model(add_model(values, index, delta), bounds) == Ok::<int, SumError>(
                if start_index(bounds.0) <= index < end_index(bounds.1, values.len()) {
                    sum + delta
                } else {
                    sum
                },
            ),
            Err(error) => sum_model(add_model(values, index, delta), bounds) == Err::<
                int,
                SumError,
            >(error),
        },
{
    assert(range_sum(values, index as int, index + 1) == values[index as int]) by {
        reveal_with_fuel(range_sum, 2);
    }
    lemma_range_sum_update(values, index as int, delta, index as int, index + 1);
    if sum_model(values, bounds) is Ok {
        lemma_range_sum_update(
            values,
            index as int,
            delta,
            start_index(bounds.0) as int,
            end_index(bounds.1, values.len()) as int,
        );
    }
}

/// Prefix consistency. For `a <= b <= c` within the tree, with `b` below the
/// length, the sum from `a` to `c` is the sum from `a` to `b` plus the sum
/// from `b` to `c`.
pub proof fn law_prefix_consistency(values: Seq<int>, a: usize, b: usize, c: usize)
    requires
        a <= b <= c <= values.len(),
        b < values.len(),
    ensures
        sum_model(values, half_open(a, b)) is Ok,
        sum_model(values, half_open(b, c)) is Ok,
        sum_model(values, half_open(a, c)) == Ok::<int, SumError>(
            sum_model(values, half_open(a, b))->Ok_0 + sum_model(values, half_open(b, c))->Ok_0,
        ),
{
    lemma_range_sum_split(values, a as int, b as int, c as int);
}

/// Empty and decreasing stretches. For `a >= b` with `a` below the length,
/// the sum from `a` to `b` is zero.
pub proof fn law_empty_range(values: Seq<int>, a: usize, b: usize)
    requires
        b <= a < values.len(),
    ensures
        sum_model(values, half_open(a, b)) == Ok::<int, SumError>(0),
{
}

/// The elements of a tree that was made with the length of `values` and to
/// which `values[i]` was then added at `i`, once for each `i` below `count`.
pub open spec fn filled(values: Seq<int>, count: nat) -> Seq<int>
    decreases count,
{
    if count == 0 {
        zeros(values.len())
    } else {
        add_model(filled(values, (count - 1) as nat), (count - 1) as usize, values[count - 1])
    }
}

/// A tree that is filled up to `count` holds `values` below `count` and zeros
/// from there on.
proof fn lemma_filled(values: Seq<int>, count: nat)
    requires
        count <= values.len() <= usize::MAX,
    ensures
        filled(values, count).len() == values.len(),
        forall|i: int|
            0 <= i < values.len() ==> #[trigger] filled(values, count)[i] == if i < count {
                values[i]
            } else {
                0
            },
    decreases count,
{
    if count > 0 {
        lemma_filled(values, (count - 1) as nat);
    }
}

/// Round trip. A tree of one element or more, to which `values[i]` was added
/// at `i` once for each index, holds `values`, and its sum from `0` to the
/// length is the sum of all of `values`.
pub proof fn law_round_trip(values: Seq<int>)
    requires
        0 < values.len() <= usize::MAX,
    ensures
        filled(values, values.len()) == values,
        sum_model(filled(values, values.len()), half_open(0, values.len() as usize)) == Ok::<
            int,
            SumError,
        >(range_sum(values, 0, values.len() as int)),
{
    lemma_filled(values, values.len());
    assert(filled(values, values.len()) =~= values);
}

} // verus!
