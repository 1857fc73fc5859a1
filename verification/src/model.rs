//! Mathematical model of the sort: what a sorted sequence is, what the
//! stable merge of two sequences is, and what merge sort produces.

use vstd::prelude::*;

verus! {

use vstd::multiset::Multiset;

/// A sequence is sorted in non-decreasing order.
pub open spec fn sorted(s: Seq<u8>) -> bool {
    forall|i: int, j: int| 0 <= i <= j < s.len() ==> s[i] <= s[j]
}

/// The stable merge of two sequences: on a tie the element of `a` is
/// taken first.
pub open spec fn merge_seqs(a: Seq<u8>, b: Seq<u8>) -> Seq<u8>
    decreases a.len() + b.len(),
{
    if a.len() == 0 {
        b
    } else if b.len() == 0 {
        a
    } else if a[0] <= b[0] {
        seq![a[0]] + merge_seqs(a.drop_first(), b)
    } else {
        seq![b[0]] + merge_seqs(a, b.drop_first())
    }
}

/// What merge sort produces: split at the midpoint, sort both halves,
/// merge. The left half gets the smaller share of an odd length.
pub open spec fn sort_seq(s: Seq<u8>) -> Seq<u8>
    decreases s.len(),
{
    if s.len() < 2 {
        s
    } else {
        let pivot = s.len() as int / 2;
        merge_seqs(sort_seq(s.take(pivot)), sort_seq(s.skip(pivot)))
    }
}

/// The merge of two sequences has the length of both together.
pub proof fn lemma_merge_seqs_len(a: Seq<u8>, b: Seq<u8>)
    ensures
        merge_seqs(a, b).len() == a.len() + b.len(),
    decreases a.len() + b.len(),
{
    if a.len() == 0 {
    } else if b.len() == 0 {
    } else if a[0] <= b[0] {
        lemma_merge_seqs_len(a.drop_first(), b);
    } else {
        lemma_merge_seqs_len(a, b.drop_first());
    }
}

/// The merge of two sequences holds exactly the elements of both: it is
/// a permutation of their concatenation.
pub proof fn lemma_merge_seqs_multiset(a: Seq<u8>, b: Seq<u8>)
    ensures
        merge_seqs(a, b).to_multiset() == a.to_multiset().add(b.to_multiset()),
    decreases a.len() + b.len(),
{
    broadcast use vstd::multiset::group_multiset_axioms, vstd::seq_lib::group_to_multiset_ensures;

    if a.len() == 0 {
        vstd::multiset::lemma_multiset_empty_len(a.to_multiset());
        assert(a.to_multiset() =~= Multiset::<u8>::empty());
        assert(merge_seqs(a, b).to_multiset() =~= a.to_multiset().add(b.to_multiset()));
    } else if b.len() == 0 {
        vstd::multiset::lemma_multiset_empty_len(b.to_multiset());
        assert(b.to_multiset() =~= Multiset::<u8>::empty());
        assert(merge_seqs(a, b).to_multiset() =~= a.to_multiset().add(b.to_multiset()));
    } else if a[0] <= b[0] {
        lemma_merge_seqs_multiset(a.drop_first(), b);
        vstd::seq_lib::lemma_multiset_commutative(seq![a[0]], merge_seqs(a.drop_first(), b));
        vstd::seq_lib::lemma_multiset_commutative(seq![a[0]], a.drop_first());
        assert(seq![a[0]] + a.drop_first() =~= a);
        assert(merge_seqs(a, b).to_multiset() =~= a.to_multiset().add(b.to_multiset()));
    } else {
        lemma_merge_seqs_multiset(a, b.drop_first());
        vstd::seq_lib::lemma_multiset_commutative(seq![b[0]], merge_seqs(a, b.drop_first()));
        vstd::seq_lib::lemma_multiset_commutative(seq![b[0]], b.drop_first());
        assert(seq![b[0]] + b.drop_first() =~= b);
        assert(merge_seqs(a, b).to_multiset() =~= a.to_multiset().add(b.to_multiset()));
    }
}

/// Every element of the merge of two sequences stands in one of them.
proof fn lemma_merge_seqs_element_bound(a: Seq<u8>, b: Seq<u8>, i: int)
    requires
        0 <= i < merge_seqs(a, b).len(),
    ensures
        a.contains(merge_seqs(a, b)[i]) || b.contains(merge_seqs(a, b)[i]),
{
    broadcast use vstd::seq_lib::group_to_multiset_ensures, vstd::multiset::group_multiset_axioms;

    let m = merge_seqs(a, b);
    lemma_merge_seqs_multiset(a, b);
    assert(m.contains(m[i]));
    assert(m.to_multiset().count(m[i]) > 0);
    assert(a.to_multiset().count(m[i]) > 0 || b.to_multiset().count(m[i]) > 0);
}

/// Merging two sorted sequences yields a sorted sequence.
pub proof fn lemma_merge_seqs_sorted(a: Seq<u8>, b: Seq<u8>)
    requires
        sorted(a),
        sorted(b),
    ensures
        sorted(merge_seqs(a, b)),
    decreases a.len() + b.len(),
{
    if a.len() == 0 || b.len() == 0 {
    } else if a[0] <= b[0] {
        assert(sorted(a.drop_first()));
        lemma_merge_seqs_sorted(a.drop_first(), b);
        let rest = merge_seqs(a.drop_first(), b);
        let m = merge_seqs(a, b);
        assert(m == seq![a[0]] + rest);
        assert forall|i: int, j: int| 0 <= i <= j < m.len() implies m[i] <= m[j] by {
            if i == 0 && j > 0 {
                lemma_merge_seqs_element_bound(a.drop_first(), b, j - 1);
                assert(a.drop_first().contains(rest[j - 1]) || b.contains(rest[j - 1]));
            }
        }
    } else {
        assert(sorted(b.drop_first()));
        lemma_merge_seqs_sorted(a, b.drop_first());
        let rest = merge_seqs(a, b.drop_first());
        let m = merge_seqs(a, b);
        assert(m == seq![b[0]] + rest);
        assert forall|i: int, j: int| 0 <= i <= j < m.len() implies m[i] <= m[j] by {
            if i == 0 && j > 0 {
                lemma_merge_seqs_element_bound(a, b.drop_first(), j - 1);
                assert(a.contains(rest[j - 1]) || b.drop_first().contains(rest[j - 1]));
            }
        }
    }
}

/// Merge sort keeps the length of its input.
pub proof fn lemma_sort_seq_len(s: Seq<u8>)
    ensures
        sort_seq(s).len() == s.len(),
    decreases s.len(),
{
    if s.len() < 2 {
    } else {
        let pivot = s.len() as int / 2;
        lemma_sort_seq_len(s.take(pivot));
        lemma_sort_seq_len(s.skip(pivot));
        lemma_merge_seqs_len(sort_seq(s.take(pivot)), sort_seq(s.skip(pivot)));
    }
}

/// Merge sort permutes its input: the output holds exactly the elements
/// the input held.
pub proof fn lemma_sort_seq_multiset(s: Seq<u8>)
    ensures
        sort_seq(s).to_multiset() == s.to_multiset(),
    decreases s.len(),
{
    broadcast use vstd::multiset::group_multiset_axioms;

    if s.len() < 2 {
    } else {
        let pivot = s.len() as int / 2;
        lemma_sort_seq_multiset(s.take(pivot));
        lemma_sort_seq_multiset(s.skip(pivot));
        lemma_merge_seqs_multiset(sort_seq(s.take(pivot)), sort_seq(s.skip(pivot)));
        vstd::seq_lib::lemma_multiset_commutative(s.take(pivot), s.skip(pivot));
        assert(s.take(pivot) + s.skip(pivot) =~= s);
    }
}

/// Merge sort sorts: its output is in non-decreasing order.
pub proof fn lemma_sort_seq_sorted(s: Seq<u8>)
    ensures
        sorted(sort_seq(s)),
    decreases s.len(),
{
    if s.len() < 2 {
    } else {
        let pivot = s.len() as int / 2;
        lemma_sort_seq_sorted(s.take(pivot));
        lemma_sort_seq_sorted(s.skip(pivot));
        lemma_merge_seqs_sorted(sort_seq(s.take(pivot)), sort_seq(s.skip(pivot)));
    }
}

/// When no element of `a` exceeds any element of `b`, the merge is plain
/// concatenation: ties go to the side of `a`.
proof fn lemma_merge_seqs_concat(a: Seq<u8>, b: Seq<u8>)
    requires
        forall|i: int, j: int| 0 <= i < a.len() && 0 <= j < b.len() ==> a[i] <= b[j],
    ensures
        merge_seqs(a, b) == a + b,
    decreases a.len() + b.len(),
{
    if a.len() == 0 {
        assert(merge_seqs(a, b) =~= a + b);
    } else if b.len() == 0 {
        assert(merge_seqs(a, b) =~= a + b);
    } else {
        assert(a[0] <= b[0]);
        lemma_merge_seqs_concat(a.drop_first(), b);
        assert(seq![a[0]] + (a.drop_first() + b) =~= a + b);
    }
}

/// Sorting a sequence that is already sorted returns it unchanged. In
/// particular the empty sequence and every one-element sequence are
/// fixed points of the sort.
pub proof fn lemma_sort_seq_sorted_id(s: Seq<u8>)
    requires
        sorted(s),
    ensures
        sort_seq(s) == s,
    decreases s.len(),
{
    if s.len() < 2 {
    } else {
        let pivot = s.len() as int / 2;
        assert(sorted(s.take(pivot)));
        assert(sorted(s.skip(pivot)));
        lemma_sort_seq_sorted_id(s.take(pivot));
        lemma_sort_seq_sorted_id(s.skip(pivot));
        lemma_merge_seqs_concat(s.take(pivot), s.skip(pivot));
        assert(s.take(pivot) + s.skip(pivot) =~= s);
    }
}

/// The merge is stable: on a tie the element of `a` is emitted first,
/// and the rest of the merge carries on with `a`'s remainder, so equal
/// values keep their a-before-b order.
pub proof fn lemma_merge_seqs_stable_tie(a: Seq<u8>, b: Seq<u8>)
    requires
        a.len() > 0,
        b.len() > 0,
        a[0] == b[0],
    ensures
        merge_seqs(a, b)[0] == a[0],
        merge_seqs(a, b) == seq![a[0]] + merge_seqs(a.drop_first(), b),
{
}

/// Two sorted sequences holding the same elements are the same sequence:
/// a sorted permutation is unique.
pub proof fn lemma_sorted_permutation_unique(a: Seq<u8>, b: Seq<u8>)
    requires
        sorted(a),
        sorted(b),
        a.to_multiset() == b.to_multiset(),
    ensures
        a == b,
    decreases a.len(),
{
    broadcast use vstd::seq_lib::group_to_multiset_ensures, vstd::multiset::group_multiset_axioms;

    assert(a.to_multiset().len() == a.len());
    assert(b.to_multiset().len() == b.len());
    if a.len() == 0 {
        assert(b.len() == 0);
        assert(a =~= b);
    } else {
        assert(b.len() > 0);
        assert(a.contains(a[0]));
        assert(b.to_multiset().count(a[0]) > 0);
        assert(b.contains(a[0]));
        assert(a.to_multiset().count(b[0]) > 0);
        assert(a.contains(b[0]));
        let i = choose|i: int| 0 <= i < b.len() && b[i] == a[0];
        let j = choose|j: int| 0 <= j < a.len() && a[j] == b[0];
        assert(b[0] <= b[i] && a[0] <= a[j]);
        assert(a[0] == b[0]);
        assert(a.drop_first() =~= a.remove(0));
        assert(b.drop_first() =~= b.remove(0));
        assert(a.drop_first().to_multiset() == b.drop_first().to_multiset());
        assert(sorted(a.drop_first()) && sorted(b.drop_first()));
        lemma_sorted_permutation_unique(a.drop_first(), b.drop_first());
        assert(a =~= seq![a[0]] + a.drop_first());
        assert(b =~= seq![b[0]] + b.drop_first());
    }
}

/// A sequence in non-increasing order sorts to its own reversal.
pub proof fn lemma_sort_seq_reverse_sorted(s: Seq<u8>)
    requires
        forall|i: int, j: int| 0 <= i <= j < s.len() ==> s[i] >= s[j],
    ensures
        sort_seq(s) == s.reverse(),
{
    s.lemma_reverse_to_multiset();
    lemma_sort_seq_sorted(s);
    lemma_sort_seq_multiset(s);
    assert(sorted(s.reverse()));
    lemma_sorted_permutation_unique(sort_seq(s), s.reverse());
}

/// Sorting is idempotent: sorting a sorted result changes nothing.
pub proof fn lemma_sort_seq_idempotent(s: Seq<u8>)
    ensures
        sort_seq(sort_seq(s)) == sort_seq(s),
{
    lemma_sort_seq_sorted(s);
    lemma_sort_seq_sorted_id(sort_seq(s));
}

} // verus!
