use std::ops::Bound;

use fenwick_tree::FenwickTree;

fn half_open(from: usize, to: usize) -> (Bound<usize>, Bound<usize>) {
    (Bound::Included(from), Bound::Excluded(to))
}

/// A fixed sequence of small numbers, some of them negative.
fn sample(len: usize) -> Vec<i64> {
    let mut state: u64 = 0x2545_f491_4f6c_dd1d;
    let mut values = Vec::with_capacity(len);
    for _ in 0..len {
        state = state.wrapping_mul(6364136223846793005).wrapping_add(1442695040888963407);
        values.push(((state >> 33) % 2001) as i64 - 1000);
    }
    values
}

fn tree_of(values: &[i64]) -> FenwickTree<i64> {
    let mut tree = FenwickTree::<i64>::with_len(values.len());
    for (i, value) in values.iter().enumerate() {
        tree.add(i, *value).unwrap();
    }
    tree
}

#[test]
fn add_raises_the_sum_of_its_own_index_by_delta() {
    let values = sample(37);
    let mut tree = tree_of(&values);

    for index in 0..values.len() {
        let before = tree.sum(half_open(index, index + 1)).unwrap();
        assert_eq!(before, values[index]);
        tree.add(index, 17).unwrap();
        let after = tree.sum(half_open(index, index + 1)).unwrap();
        assert_eq!(after, before + 17);
    }
}

#[test]
fn add_leaves_sums_without_its_index_unchanged() {
    let values = sample(21);
    let len = values.len();

    for index in 0..len {
        let mut tree = tree_of(&values);
        let mut before = Vec::new();
        for from in 0..len {
            for to in 0..=len {
                before.push(tree.sum(half_open(from, to)).unwrap());
            }
        }
        tree.add(index, -5).unwrap();
        let mut at = 0;
        for from in 0..len {
            for to in 0..=len {
                let after = tree.sum(half_open(from, to)).unwrap();
                if from <= index && index < to {
                    assert_eq!(after, before[at] - 5);
                } else {
                    assert_eq!(after, before[at]);
                }
                at += 1;
            }
        }
    }
}

#[test]
fn sums_of_neighbouring_ranges_add_up() {
    let values = sample(33);
    let tree = tree_of(&values);
    let len = values.len();

    for a in 0..len {
        for b in a..len {
            for c in b..=len {
                let whole = tree.sum(half_open(a, c)).unwrap();
                let left = tree.sum(half_open(a, b)).unwrap();
                let right = tree.sum(half_open(b, c)).unwrap();
                assert_eq!(whole, left + right);
            }
        }
    }
}

#[test]
fn empty_and_decreasing_ranges_sum_to_zero() {
    let values = sample(33);
    let tree = tree_of(&values);

    for a in 0..values.len() {
        for b in 0..=a {
            assert_eq!(tree.sum(half_open(a, b)).unwrap(), 0);
        }
    }
}

#[test]
fn every_sum_is_the_sum_of_the_elements_added() {
    for len in 1..50usize {
        let values = sample(len);
        let tree = tree_of(&values);
        for from in 0..len {
            for to in from..=len {
                let expected: i64 = values[from..to].iter().sum();
                assert_eq!(tree.sum(half_open(from, to)).unwrap(), expected);
            }
        }
    }
}

#[test]
fn filling_a_tree_once_gives_the_total() {
    for len in 1..200usize {
        let values = sample(len);
        let tree = tree_of(&values);
        let total: i64 = values.iter().sum();
        assert_eq!(tree.sum(half_open(0, len)).unwrap(), total);
        assert_eq!(tree.sum((Bound::Unbounded, Bound::Unbounded)).unwrap(), total);
    }
}

#[test]
fn filling_in_any_order_gives_the_same_sums() {
    let values = sample(64);
    let forward = tree_of(&values);
    let mut backward = FenwickTree::<i64>::with_len(values.len());
    for i in (0..values.len()).rev() {
        backward.add(i, values[i]).unwrap();
    }

    for from in 0..values.len() {
        for to in from..=values.len() {
            assert_eq!(
                forward.sum(half_open(from, to)).unwrap(),
                backward.sum(half_open(from, to)).unwrap()
            );
        }
    }
}
