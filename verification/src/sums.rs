//! Sums over a stretch of a sequence of integers, and the facts about them
//! that the tree's contracts rest on.

use vstd::prelude::*;

verus! {

/// The sum of `values[lo], ..., values[hi - 1]`; zero when the stretch is
/// empty or decreasing.
pub open spec fn range_sum(values: Seq<int>, lo: int, hi: int) -> int
    decreases hi - lo,
{
    if lo >= hi {
        0
    } else {
        range_sum(values, lo, hi - 1) + values[hi - 1]
    }
}

/// The sequence of `len` zeros.
pub open spec fn zeros(len: nat) -> Seq<int> {
    Seq::new(len, |i: int| 0int)
}

/// A stretch can be summed in two pieces.
pub proof fn lemma_range_sum_split(values: Seq<int>, a: int, b: int, c: int)
    requires
        a <= b <= c,
    ensures
        range_sum(values, a, c) == range_sum(values, a, b) + range_sum(values, b, c),
    decreases c - b,
{
    if b < c {
        lemma_range_sum_split(values, a, b, c - 1);
    }
}

/// Adding `delta` to the element at `index` adds `delta` to the sum of every
/// stretch that contains `index` and leaves every other sum as it was.
pub proof fn lemma_range_sum_update(values: Seq<int>, index: int, delta: int, lo: int, hi: int)
    requires
        0 <= index < values.len(),
        0 <= lo,
        hi <= values.len(),
    ensures
        range_sum(values.update(index, values[index] + delta), lo, hi) == range_sum(
            values,
            lo,
            hi,
        ) + if lo <= index < hi {
            delta
        } else {
            0
        },
    decreases hi - lo,
{
    if lo < hi {
        lemma_range_sum_update(values, index, delta, lo, hi - 1);
    }
}

/// A stretch of `hi - lo` elements that all lie between `low` and `high`
/// sums to a value between `(hi - lo) * low` and `(hi - lo) * high`.
pub proof fn lemma_range_sum_between(values: Seq<int>, low: int, high: int, lo: int, hi: int)
    requires
        0 <= lo <= hi <= values.len(),
        forall|i: int| lo <= i < hi ==> low <= #[trigger] values[i] <= high,
    ensures
        (hi - lo) * low <= range_sum(values, lo, hi) <= (hi - lo) * high,
    decreases hi - lo,
{
    if lo < hi {
        lemma_range_sum_between(values, low, high, lo, hi - 1);
        assert((hi - lo) * low == (hi - 1 - lo) * low + low) by (nonlinear_arith);
        assert((hi - lo) * high == (hi - 1 - lo) * high + high) by (nonlinear_arith);
    } else {
        assert((hi - lo) * low == 0 && (hi - lo) * high == 0) by (nonlinear_arith)
            requires
                hi == lo,
        ;
    }
}

} // verus!
