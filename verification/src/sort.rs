//! The recursive partitioners: a sequential merge sort and a
//! thread-budget-bounded variant whose result is provably independent of
//! how the budget is split.

use vstd::prelude::*;

use crate::merge::merge;
use crate::model::{
    lemma_sort_seq_len, lemma_sort_seq_multiset, lemma_sort_seq_sorted, sort_seq, sorted,
};
use vstd::slice::{slice_subrange, slice_to_vec};

verus! {

/// Sort a byte slice by recursive merge sort: split at the midpoint (the
/// left half gets the smaller share of an odd length), sort both halves,
/// merge. Returns a newly allocated vector; the input is not changed.
pub fn mergesort(collection: &[u8]) -> (sorted_out: Vec<u8>)
    ensures
        sorted_out@ == sort_seq(collection@),
        sorted(sorted_out@),
        sorted_out@.to_multiset() == collection@.to_multiset(),
        sorted_out@.len() == collection@.len(),
    decreases collection@.len(),
{
    proof {
        lemma_sort_seq_sorted(collection@);
        lemma_sort_seq_multiset(collection@);
        lemma_sort_seq_len(collection@);
    }
    let collection_length = collection.len();
    if collection_length < 2 {
        return slice_to_vec(collection);
    }
    let pivot = collection_length / 2;
    let half_one = mergesort(slice_subrange(collection, 0, pivot));
    let half_two = mergesort(slice_subrange(collection, pivot, collection_length));

    merge(half_one.as_slice(), half_two.as_slice())
}

/// Divide a thread budget between the two children of a recursion node:
/// the left child gets half, rounded down, and the right child the rest,
/// so the larger share of an odd budget goes to the right branch. The
/// shares sum exactly to the budget received, so a subtree never runs
/// more helper tasks than its caller granted.
pub fn split_budget(max_threads: usize) -> (shares: (usize, usize))
    ensures
        shares.0 == max_threads / 2,
        shares.1 == max_threads - max_threads / 2,
        shares.0 + shares.1 == max_threads,
{
    let fork_a_count = max_threads / 2;
    let fork_b_count = max_threads - fork_a_count;
    (fork_a_count, fork_b_count)
}

/// The decision rule for running a node's two children concurrently: a
/// concurrent driver forks only when the budget admits two helper tasks,
/// so that the two branches run concurrently with each other rather than
/// one branch alone beside its parent; below that, both children run in
/// the caller's own thread.
pub fn should_fork(max_threads: usize) -> (fork: bool)
    ensures
        fork == (max_threads >= 2),
{
    max_threads >= 2
}

/// The budget-bounded partitioner: sort a byte slice by the same
/// midpoint recursion as `mergesort`, dividing the thread budget between
/// the two children at every node via `split_budget`.
///
/// The budget only bounds how a concurrent driver may schedule the two
/// child calls (both may run concurrently when `max_threads >= 2`, and a
/// node's children never receive more budget together than the node
/// received); it has no effect on the value computed. This function
/// executes the children in the current thread, and its contract pins the
/// result to `sort_seq` of the input — the same sequence `mergesort`
/// returns for every budget, which is what makes any schedule of the
/// children safe to join and merge.
pub fn mergesort_mt(collection: &[u8], max_threads: usize) -> (sorted_out: Vec<u8>)
    ensures
        sorted_out@ == sort_seq(collection@),
        sorted(sorted_out@),
        sorted_out@.to_multiset() == collection@.to_multiset(),
        sorted_out@.len() == collection@.len(),
    decreases collection@.len(),
{
    proof {
        lemma_sort_seq_sorted(collection@);
        lemma_sort_seq_multiset(collection@);
        lemma_sort_seq_len(collection@);
    }
    let collection_length = collection.len();
    if collection_length < 2 {
        return slice_to_vec(collection);
    }
    let pivot = collection_length / 2;
    let (fork_a_count, fork_b_count) = split_budget(max_threads);
    let left = mergesort_mt(slice_subrange(collection, 0, pivot), fork_a_count);
    let right = mergesort_mt(slice_subrange(collection, pivot, collection_length), fork_b_count);

    merge(left.as_slice(), right.as_slice())
}

} // verus!
