use std::ops::Bound;

use fenwick_tree::{AddError, FenwickTree, SumError};

fn half_open(from: usize, to: usize) -> (Bound<usize>, Bound<usize>) {
    (Bound::Included(from), Bound::Excluded(to))
}

fn one_two_three() -> FenwickTree<i32> {
    let mut tree = FenwickTree::<i32>::with_len(3);
    tree.add(0, 1).unwrap();
    tree.add(1, 2).unwrap();
    tree.add(2, 3).unwrap();
    tree
}

#[test]
fn three_elements_give_all_partial_sums() {
    let tree = one_two_three();

    assert_eq!(tree.sum(half_open(0, 1)).unwrap(), 1);
    assert_eq!(tree.sum(half_open(0, 2)).unwrap(), 3);
    assert_eq!(tree.sum(half_open(0, 3)).unwrap(), 6);

    assert_eq!(tree.sum(half_open(1, 2)).unwrap(), 2);
    assert_eq!(tree.sum(half_open(1, 3)).unwrap(), 5);

    assert_eq!(tree.sum(half_open(2, 3)).unwrap(), 3);
}

#[test]
fn three_elements_summed_through_every_form_of_bounds() {
    let tree = one_two_three();

    assert_eq!(tree.sum((Bound::Unbounded, Bound::Unbounded)).unwrap(), 6);
    assert_eq!(tree.sum((Bound::Included(0), Bound::Unbounded)).unwrap(), 6);
    assert_eq!(tree.sum((Bound::Unbounded, Bound::Excluded(3))).unwrap(), 6);
    assert_eq!(tree.sum((Bound::Unbounded, Bound::Included(2))).unwrap(), 6);
    assert_eq!(tree.sum((Bound::Included(0), Bound::Included(2))).unwrap(), 6);
    assert_eq!(tree.sum((Bound::Excluded(0), Bound::Excluded(3))).unwrap(), 5);
    assert_eq!(tree.sum((Bound::Excluded(1), Bound::Unbounded)).unwrap(), 3);
}

#[test]
fn one_hundred_elements_sum_to_5050() {
    let mut tree = FenwickTree::<i32>::with_len(100);
    for i in 1..=100usize {
        tree.add(i - 1, i as i32).unwrap();
    }

    assert_eq!(tree.sum(half_open(0, 100)).unwrap(), 5050);
    assert_eq!(tree.sum(half_open(1, 100)).unwrap(), 5049);
    assert_eq!(tree.sum(half_open(4, 100)).unwrap(), 5040);
}

#[test]
fn sum_behind_the_tree_is_out_of_range() {
    let tree = FenwickTree::<i32>::with_len(3);

    assert_eq!(
        tree.sum(half_open(3, 4)),
        Err(SumError::OutOfRange {
            bounds: (Bound::Included(3), Bound::Excluded(4)),
            len: 3
        })
    );
}

#[test]
fn add_behind_the_tree_is_out_of_range() {
    let mut tree = FenwickTree::<i32>::with_len(3);

    assert_eq!(
        tree.add(4, 0),
        Err(AddError::IndexOutOfRange { index: 4, size: 3 })
    );
    assert_eq!(
        tree.add(3, 1),
        Err(AddError::IndexOutOfRange { index: 3, size: 3 })
    );
}

#[test]
fn failed_add_changes_nothing() {
    let mut tree = one_two_three();

    assert!(tree.add(3, 100).is_err());
    assert!(tree.add(usize::MAX, 100).is_err());

    assert_eq!(tree.len(), 3);
    assert_eq!(tree.sum(half_open(0, 1)).unwrap(), 1);
    assert_eq!(tree.sum(half_open(1, 2)).unwrap(), 2);
    assert_eq!(tree.sum(half_open(2, 3)).unwrap(), 3);
}

#[test]
fn sum_that_starts_at_the_length_is_out_of_range_even_when_empty() {
    let tree = one_two_three();

    assert_eq!(
        tree.sum(half_open(3, 3)),
        Err(SumError::OutOfRange {
            bounds: (Bound::Included(3), Bound::Excluded(3)),
            len: 3
        })
    );
    assert_eq!(
        tree.sum((Bound::Excluded(2), Bound::Unbounded)),
        Err(SumError::OutOfRange {
            bounds: (Bound::Excluded(2), Bound::Unbounded),
            len: 3
        })
    );
}

#[test]
fn sum_that_ends_behind_the_length_is_out_of_range() {
    let tree = one_two_three();

    assert_eq!(
        tree.sum((Bound::Unbounded, Bound::Included(3))),
        Err(SumError::OutOfRange {
            bounds: (Bound::Unbounded, Bound::Included(3)),
            len: 3
        })
    );
    assert_eq!(
        tree.sum(half_open(0, 4)),
        Err(SumError::OutOfRange {
            bounds: (Bound::Included(0), Bound::Excluded(4)),
            len: 3
        })
    );
}

#[test]
fn bounds_at_the_largest_index_are_clamped_and_out_of_range() {
    let tree = one_two_three();

    assert_eq!(
        tree.sum((Bound::Excluded(usize::MAX), Bound::Unbounded)),
        Err(SumError::OutOfRange {
            bounds: (Bound::Excluded(usize::MAX), Bound::Unbounded),
            len: 3
        })
    );
    assert_eq!(
        tree.sum((Bound::Unbounded, Bound::Included(usize::MAX))),
        Err(SumError::OutOfRange {
            bounds: (Bound::Unbounded, Bound::Included(usize::MAX)),
            len: 3
        })
    );
}

#[test]
fn empty_tree_has_length_zero_and_no_valid_sum() {
    let mut tree = FenwickTree::<i64>::with_len(0);

    assert_eq!(tree.len(), 0);
    assert_eq!(
        tree.sum((Bound::Unbounded, Bound::Unbounded)),
        Err(SumError::OutOfRange {
            bounds: (Bound::Unbounded, Bound::Unbounded),
            len: 0
        })
    );
    assert_eq!(
        tree.sum(half_open(0, 0)),
        Err(SumError::OutOfRange {
            bounds: (Bound::Included(0), Bound::Excluded(0)),
            len: 0
        })
    );
    assert_eq!(
        tree.add(0, 1),
        Err(AddError::IndexOutOfRange { index: 0, size: 0 })
    );
}

#[test]
fn new_tree_has_the_given_length_and_sums_to_zero() {
    for len in 1..40usize {
        let tree = FenwickTree::<i32>::with_len(len);
        assert_eq!(tree.len(), len);
        for from in 0..len {
            for to in 0..=len {
                assert_eq!(tree.sum(half_open(from, to)).unwrap(), 0);
            }
        }
    }
}

#[test]
fn decreasing_range_of_a_filled_tree_is_zero() {
    let tree = one_two_three();

    assert_eq!(tree.sum(half_open(2, 0)).unwrap(), 0);
    assert_eq!(tree.sum(half_open(2, 1)).unwrap(), 0);
    assert_eq!(tree.sum(half_open(1, 0)).unwrap(), 0);
    assert_eq!(tree.sum(half_open(1, 1)).unwrap(), 0);
    assert_eq!(tree.sum((Bound::Excluded(1), Bound::Included(0))).unwrap(), 0);
}

#[test]
fn repeated_adds_accumulate() {
    let mut tree = FenwickTree::<i64>::with_len(8);
    tree.add(5, 10).unwrap();
    tree.add(5, -3).unwrap();
    tree.add(5, 4).unwrap();
    tree.add(0, -7).unwrap();

    assert_eq!(tree.sum(half_open(5, 6)).unwrap(), 11);
    assert_eq!(tree.sum(half_open(0, 1)).unwrap(), -7);
    assert_eq!(tree.sum(half_open(0, 8)).unwrap(), 4);
    assert_eq!(tree.sum(half_open(1, 5)).unwrap(), 0);
}
