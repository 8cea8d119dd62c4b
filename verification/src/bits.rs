//! Index arithmetic of the tree: the lowest set bit of a position and the two
//! steps that walk the implicit tree, one towards the root and one away from it.

use vstd::prelude::*;

verus! {

/// The value of the lowest set bit of `n`: the largest power of two that
/// divides `n`, and `0` when `n` is `0`.
pub open spec fn lowest_set_bit(n: nat) -> nat
    decreases n,
{
    if n == 0 {
        0
    } else if n % 2 == 1 {
        1
    } else {
        2 * lowest_set_bit(n / 2)
    }
}

/// The position reached from the one-based position `p` by clearing its
/// lowest set bit.
pub open spec fn descend(p: nat) -> nat {
    (p - lowest_set_bit(p)) as nat
}

/// The index reached from the zero-based index `i` by setting its lowest
/// unset bit.
pub open spec fn ascend(i: nat) -> nat {
    i + lowest_set_bit(i + 1)
}

/// The first index of the block of elements that the cell at the zero-based
/// index `i` accumulates; the block ends at `i` itself.
pub open spec fn block_start(i: nat) -> nat {
    descend(i + 1)
}

/// Whether the walk that starts at the one-based position `from` and
/// descends until it reaches zero comes by the position `p`.
pub open spec fn visits(from: nat, p: nat) -> bool
    decreases from,
    via visits_decreases
{
    p == from || (from > 0 && visits(descend(from), p))
}

#[via_fn]
proof fn visits_decreases(from: nat, p: nat) {
    if from > 0 {
        lemma_descend_decreases(from);
    }
}

/// The first position at or below `start` that the walk descending from
/// `end` comes by.
pub open spec fn meeting_point(start: nat, end: nat) -> nat
    decreases end,
    via meeting_point_decreases
{
    if end <= start {
        end
    } else {
        meeting_point(start, descend(end))
    }
}

#[via_fn]
proof fn meeting_point_decreases(start: nat, end: nat) {
    if end > 0 {
        lemma_descend_decreases(end);
    }
}

/// The lowest set bit of a positive number is positive and no larger than
/// the number.
pub proof fn lemma_lowest_set_bit_bounds(n: nat)
    requires
        n > 0,
    ensures
        1 <= lowest_set_bit(n) <= n,
    decreases n,
{
    if n % 2 == 0 {
        lemma_lowest_set_bit_bounds(n / 2);
    }
}

/// Descending from a positive position gives a strictly smaller one.
pub proof fn lemma_descend_decreases(p: nat)
    requires
        p > 0,
    ensures
        descend(p) < p,
        descend(p) == p - lowest_set_bit(p),
{
    lemma_lowest_set_bit_bounds(p);
}

/// Ascending gives a strictly larger index.
pub proof fn lemma_ascend_increases(i: nat)
    ensures
        ascend(i) > i,
{
    lemma_lowest_set_bit_bounds(i + 1);
}

/// A walk that comes by a positive position comes by the position below
/// it as well.
pub proof fn lemma_visits_descend(from: nat, p: nat)
    requires
        visits(from, p),
        p > 0,
    ensures
        visits(from, descend(p)),
    decreases from,
{
    lemma_descend_decreases(p);
    if p == from {
        assert(visits(descend(from), descend(p)));
    } else {
        lemma_descend_decreases(from);
        lemma_visits_descend(descend(from), p);
    }
}

/// A walk never comes by a position above the one it starts at.
pub proof fn lemma_visits_below(from: nat, p: nat)
    requires
        visits(from, p),
    ensures
        p <= from,
    decreases from,
{
    if p != from {
        lemma_descend_decreases(from);
        lemma_visits_below(descend(from), p);
    }
}

/// Where `start` is below `end`, the two walks meet at or below `start`, just
/// under a position above `start` that the walk from `end` comes by; that
/// position is returned.
pub proof fn lemma_meeting_point(start: nat, end: nat) -> (above: nat)
    requires
        start < end,
    ensures
        start < above <= end,
        visits(end, above),
        meeting_point(start, end) == descend(above),
        meeting_point(start, end) <= start,
    decreases end,
{
    lemma_descend_decreases(end);
    if descend(end) <= start {
        assert(meeting_point(start, descend(end)) == descend(end));
        end
    } else {
        lemma_meeting_point(start, descend(end))
    }
}

/// Masking an odd number with its predecessor clears its last bit.
proof fn lemma_and_of_odd(i: usize)
    by (bit_vector)
    requires
        i % 2 == 1,
    ensures
        i & ((i - 1) as usize) == i - 1,
{
}

/// Masking an even number with its predecessor is masking its half with the
/// predecessor of its half, one bit further up.
proof fn lemma_and_of_even(i: usize)
    by (bit_vector)
    requires
        i > 0,
        i % 2 == 0,
    ensures
        i & ((i - 1) as usize) == 2 * ((i / 2) & ((i / 2 - 1) as usize)),
{
}

/// Masking a positive number with its predecessor clears its lowest set bit.
pub proof fn lemma_and_clears_lowest_set_bit(i: usize)
    requires
        i > 0,
    ensures
        i & ((i - 1) as usize) == descend(i as nat),
    decreases i,
{
    lemma_lowest_set_bit_bounds(i as nat);
    if i % 2 == 1 {
        lemma_and_of_odd(i);
    } else {
        lemma_and_of_even(i);
        lemma_and_clears_lowest_set_bit(i / 2);
        lemma_lowest_set_bit_bounds((i / 2) as nat);
    }
}

/// Joining `i` with its successor `j` adds the lowest set bit of `j` to `i`.
proof fn lemma_or_as_sum(i: usize, j: usize)
    by (bit_vector)
    requires
        j == i + 1,
    ensures
        i | j == i + (j - (j & i)),
{
}

/// Joining a number with its successor sets its lowest unset bit.
pub proof fn lemma_or_sets_lowest_unset_bit(i: usize)
    requires
        i < usize::MAX,
    ensures
        i | ((i + 1) as usize) == ascend(i as nat),
{
    lemma_or_as_sum(i, (i + 1) as usize);
    lemma_and_clears_lowest_set_bit((i + 1) as usize);
    lemma_lowest_set_bit_bounds((i + 1) as nat);
}

/// `lemma_descend_inside` on machine words: `n` is `i + 1` and `m` is `k - 1`.
proof fn lemma_bits_descend_inside(i: usize, n: usize, k: usize, m: usize)
    by (bit_vector)
    requires
        n == i + 1,
        n < k,
        k <= (i | n),
        m == k - 1,
    ensures
        (k & m) >= n,
{
}

/// `lemma_descend_outside` on machine words: `n` is `i + 1` and `m` is
/// `k - 1`.
proof fn lemma_bits_descend_outside(i: usize, n: usize, k: usize, m: usize)
    by (bit_vector)
    requires
        n == i + 1,
        k > (i | n),
        m == k - 1,
    ensures
        (k & m) > (i | n) || (k & m) <= i,
{
}

/// `lemma_ascend_widens_block` on machine words: `n` is `i + 1`, `a` the
/// index reached by ascending from `i`, and `b` is `a + 1`.
proof fn lemma_bits_ascend_widens(i: usize, n: usize, a: usize, b: usize)
    by (bit_vector)
    requires
        n == i + 1,
        a == (i | n),
        b == a + 1,
    ensures
        (b & a) <= (n & i),
{
}

/// `lemma_descents_meet` on machine words: `w` is `x - 1` and `z` is `y - 1`.
proof fn lemma_bits_descents_meet(x: usize, w: usize, y: usize, z: usize)
    by (bit_vector)
    requires
        x > 0,
        w == x - 1,
        (x & w) < y,
        y < x,
        z == y - 1,
    ensures
        (y & z) >= (x & w),
{
}

/// A position strictly inside the reach of the cell at `i`, that is above
/// `i + 1` and no further than `ascend(i)`, descends to a position that is
/// still inside it.
pub proof fn lemma_descend_inside(i: nat, k: nat)
    requires
        i + 1 < k <= ascend(i),
        k <= usize::MAX,
    ensures
        i + 1 <= descend(k) < k,
{
    let iu: usize = i as usize;
    let ku: usize = k as usize;
    lemma_or_sets_lowest_unset_bit(iu);
    lemma_and_clears_lowest_set_bit(ku);
    lemma_descend_decreases(k);
    lemma_bits_descend_inside(iu, (iu + 1) as usize, ku, (ku - 1) as usize);
}

/// A position beyond the reach of the cell at `i` descends to a position that
/// is beyond it as well, or to one in front of the cell.
pub proof fn lemma_descend_outside(i: nat, k: nat)
    requires
        ascend(i) < k <= usize::MAX,
    ensures
        descend(k) > ascend(i) || descend(k) <= i,
{
    let iu: usize = i as usize;
    let ku: usize = k as usize;
    lemma_ascend_increases(i);
    lemma_or_sets_lowest_unset_bit(iu);
    lemma_and_clears_lowest_set_bit(ku);
    lemma_bits_descend_outside(iu, (iu + 1) as usize, ku, (ku - 1) as usize);
}

/// The block of the cell reached by ascending from `i` starts no later than
/// the block of the cell at `i`.
pub proof fn lemma_ascend_widens_block(i: nat)
    requires
        ascend(i) < usize::MAX,
    ensures
        block_start(ascend(i)) <= block_start(i),
{
    let iu: usize = i as usize;
    lemma_ascend_increases(i);
    lemma_or_sets_lowest_unset_bit(iu);
    let au: usize = iu | ((iu + 1) as usize);
    lemma_and_clears_lowest_set_bit((iu + 1) as usize);
    lemma_and_clears_lowest_set_bit((au + 1) as usize);
    lemma_bits_ascend_widens(iu, (iu + 1) as usize, au, (au + 1) as usize);
}

/// A position strictly between `descend(x)` and `x` descends to a position
/// that is not below `descend(x)`.
pub proof fn lemma_descents_meet(x: nat, y: nat)
    requires
        0 < x <= usize::MAX,
        descend(x) < y < x,
    ensures
        descend(x) <= descend(y) < y,
{
    let xu: usize = x as usize;
    let yu: usize = y as usize;
    lemma_and_clears_lowest_set_bit(xu);
    lemma_and_clears_lowest_set_bit(yu);
    lemma_descend_decreases(y);
    lemma_bits_descents_meet(xu, (xu - 1) as usize, yu, (yu - 1) as usize);
}

/// The descend step: clears the lowest set bit of the one-based position `i`.
pub fn prev(i: usize) -> (r: usize)
    requires
        i > 0,
    ensures
        r == descend(i as nat),
        r < i,
{
    proof {
        lemma_and_clears_lowest_set_bit(i);
        lemma_descend_decreases(i as nat);
    }
    i & (i - 1)
}

/// The ascend step: sets the lowest unset bit of the zero-based index `i`.
pub fn next(i: usize) -> (r: usize)
    requires
        i < usize::MAX,
    ensures
        r == ascend(i as nat),
        r > i,
{
    proof {
        lemma_or_sets_lowest_unset_bit(i);
        lemma_ascend_increases(i as nat);
    }
    i | (i + 1)
}

} // verus!
