use merge_mt::{arrange_deterministic_random_sequence, merge, mergesort, mergesort_mt};

/// Abstracted for consistent testing.
fn arrange_test_sequence() -> Vec<u8> {
    arrange_deterministic_random_sequence(10000)
}

fn assert_ascending(collection: &[u8]) {
    for i in 1..collection.len() {
        assert!(collection[i - 1] <= collection[i]);
    }
}

#[test]
fn sort_ascending_order() {
    let bytes = arrange_test_sequence();
    let result = mergesort(&bytes[..]);
    assert_ascending(&result)
}

#[test]
fn lib_sort_ascending_order() {
    let bytes = arrange_test_sequence();
    let result = mergesort_mt(&bytes[..], 8);
    assert_ascending(&result)
}

#[test]
fn concrete_scenario_budget_four() {
    let bytes: Vec<u8> = vec![5, 3, 1, 4, 2];
    assert_eq!(mergesort_mt(&bytes[..], 4), vec![1, 2, 3, 4, 5]);
}

#[test]
fn empty_input_any_budget() {
    let bytes: Vec<u8> = Vec::new();
    assert_eq!(mergesort(&bytes[..]), Vec::<u8>::new());
    assert_eq!(mergesort_mt(&bytes[..], 0), Vec::<u8>::new());
    assert_eq!(mergesort_mt(&bytes[..], 7), Vec::<u8>::new());
}

#[test]
fn single_element_budget_zero() {
    let bytes: Vec<u8> = vec![7];
    assert_eq!(mergesort_mt(&bytes[..], 0), vec![7]);
    assert_eq!(mergesort(&bytes[..]), vec![7]);
}

#[test]
fn merge_keeps_order_and_takes_ties_from_the_left() {
    let a: Vec<u8> = vec![1, 3, 5];
    let b: Vec<u8> = vec![2, 3, 6];
    assert_eq!(merge(&a[..], &b[..]), vec![1, 2, 3, 3, 5, 6]);
}

#[test]
fn merge_with_empty_side_copies_the_other() {
    let a: Vec<u8> = vec![1, 2, 9];
    let b: Vec<u8> = Vec::new();
    assert_eq!(merge(&a[..], &b[..]), vec![1, 2, 9]);
    assert_eq!(merge(&b[..], &a[..]), vec![1, 2, 9]);
}

#[test]
fn budget_invariance_of_result() {
    let bytes = arrange_deterministic_random_sequence(257);
    let sequential = mergesort(&bytes[..]);
    assert_eq!(mergesort_mt(&bytes[..], 0), sequential);
    assert_eq!(mergesort_mt(&bytes[..], 1), sequential);
    assert_eq!(mergesort_mt(&bytes[..], 8), sequential);
}

#[test]
fn sort_is_idempotent() {
    let bytes = arrange_deterministic_random_sequence(100);
    let once = mergesort(&bytes[..]);
    let twice = mergesort(&once[..]);
    assert_eq!(twice, once);
}

#[test]
fn already_sorted_input_is_unchanged() {
    let bytes: Vec<u8> = vec![0, 1, 1, 2, 3, 5, 8, 13, 21, 34];
    assert_eq!(mergesort(&bytes[..]), bytes);
    assert_eq!(mergesort_mt(&bytes[..], 3), bytes);
}

#[test]
fn reverse_sorted_input_fully_inverts() {
    let bytes: Vec<u8> = vec![9, 8, 7, 6, 5, 4, 3, 2, 1, 0];
    let expected: Vec<u8> = vec![0, 1, 2, 3, 4, 5, 6, 7, 8, 9];
    assert_eq!(mergesort(&bytes[..]), expected);
    assert_eq!(mergesort_mt(&bytes[..], 2), expected);
}

#[test]
fn duplicates_are_all_kept() {
    let bytes: Vec<u8> = vec![4, 4, 2, 4, 2, 0, 255, 0];
    let expected: Vec<u8> = vec![0, 0, 2, 2, 4, 4, 4, 255];
    assert_eq!(mergesort(&bytes[..]), expected);
    assert_eq!(mergesort_mt(&bytes[..], 5), expected);
}

#[test]
fn generator_returns_requested_length_reproducibly() {
    let first = arrange_deterministic_random_sequence(100);
    assert_eq!(first.len(), 100);
    let second = arrange_deterministic_random_sequence(100);
    assert_eq!(first, second);
    assert_eq!(arrange_deterministic_random_sequence(0).len(), 0);
}

#[test]
fn split_budget_shares_sum_to_budget() {
    assert_eq!(merge_mt::split_budget(0), (0, 0));
    assert_eq!(merge_mt::split_budget(1), (0, 1));
    assert_eq!(merge_mt::split_budget(2), (1, 1));
    assert_eq!(merge_mt::split_budget(5), (2, 3));
}

#[test]
fn forking_needs_two_task_slots() {
    assert!(!merge_mt::should_fork(0));
    assert!(!merge_mt::should_fork(1));
    assert!(merge_mt::should_fork(2));
    assert!(merge_mt::should_fork(8));
}
