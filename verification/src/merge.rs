//! The merge step: combine two sorted byte slices into one sorted vector.

use vstd::prelude::*;

use crate::model::merge_seqs;

verus! {

/// Combine two slices into one newly allocated vector holding the stable
/// merge of the two: elements are taken in order, and on a tie the element
/// of `collection_a` is taken first. When both inputs are sorted the
/// result is sorted (see `model::lemma_merge_seqs_sorted`).
pub fn merge(collection_a: &[u8], collection_b: &[u8]) -> (merged: Vec<u8>)
    requires
        collection_a@.len() + collection_b@.len() <= usize::MAX,
    ensures
        merged@ == merge_seqs(collection_a@, collection_b@),
{
    let len_a = collection_a.len();
    let len_b = collection_b.len();
    let len_merged = len_a + len_b;
    let mut merged: Vec<u8> = Vec::new();
    let mut index_a: usize = 0;
    let mut index_b: usize = 0;

    proof {
        assert(collection_a@.skip(0) =~= collection_a@);
        assert(collection_b@.skip(0) =~= collection_b@);
        assert(merged@ + merge_seqs(collection_a@, collection_b@) =~= merge_seqs(
            collection_a@,
            collection_b@,
        ));
    }
    while index_a + index_b < len_merged
        invariant
            len_a == collection_a@.len(),
            len_b == collection_b@.len(),
            len_merged == len_a + len_b,
            index_a <= len_a,
            index_b <= len_b,
            merged@.len() == index_a + index_b,
            merge_seqs(collection_a@, collection_b@) == merged@ + merge_seqs(
                collection_a@.skip(index_a as int),
                collection_b@.skip(index_b as int),
            ),
        decreases len_merged - (index_a + index_b),
    {
        let ghost rest_a = collection_a@.skip(index_a as int);
        let ghost rest_b = collection_b@.skip(index_b as int);
        if index_b == len_b || (index_a != len_a && collection_a[index_a] <= collection_b[index_b])
        {
            proof {
                assert(rest_a.len() > 0);
                assert(rest_a[0] == collection_a@[index_a as int]);
                assert(rest_a.drop_first() =~= collection_a@.skip(index_a as int + 1));
                if rest_b.len() > 0 {
                    assert(merge_seqs(rest_a, rest_b) == seq![rest_a[0]] + merge_seqs(
                        rest_a.drop_first(),
                        rest_b,
                    ));
                } else {
                    assert(merge_seqs(rest_a.drop_first(), rest_b) == rest_a.drop_first());
                    assert(merge_seqs(rest_a, rest_b) =~= seq![rest_a[0]] + merge_seqs(
                        rest_a.drop_first(),
                        rest_b,
                    ));
                }
                assert(merged@ + merge_seqs(rest_a, rest_b) =~= merged@.push(
                    collection_a@[index_a as int],
                ) + merge_seqs(rest_a.drop_first(), rest_b));
            }
            merged.push(collection_a[index_a]);
            index_a += 1;
        } else {
            proof {
                assert(rest_b.len() > 0);
                assert(rest_b[0] == collection_b@[index_b as int]);
                assert(rest_b.drop_first() =~= collection_b@.skip(index_b as int + 1));
                if rest_a.len() > 0 {
                    assert(rest_b[0] < rest_a[0]);
                    assert(merge_seqs(rest_a, rest_b) == seq![rest_b[0]] + merge_seqs(
                        rest_a,
                        rest_b.drop_first(),
                    ));
                } else {
                    assert(merge_seqs(rest_a, rest_b.drop_first()) == rest_b.drop_first());
                    assert(merge_seqs(rest_a, rest_b) =~= seq![rest_b[0]] + merge_seqs(
                        rest_a,
                        rest_b.drop_first(),
                    ));
                }
                assert(merged@ + merge_seqs(rest_a, rest_b) =~= merged@.push(
                    collection_b@[index_b as int],
                ) + merge_seqs(rest_a, rest_b.drop_first()));
            }
            merged.push(collection_b[index_b]);
            index_b += 1;
        }
    }
    proof {
        assert(collection_a@.skip(len_a as int) =~= Seq::<u8>::empty());
        assert(collection_b@.skip(len_b as int) =~= Seq::<u8>::empty());
        assert(merged@ + merge_seqs(Seq::<u8>::empty(), Seq::<u8>::empty()) =~= merged@);
    }
    merged
}

} // verus!
