//! Ordering of performance values and the binary search over a player's
//! best plays.
use vstd::prelude::*;
use std::cmp::Ordering;

verus! {

/// Three-way comparison of two performance keys.
pub fn key_order(a: u32, b: u32) -> (r: Ordering)
    ensures
        (r == Ordering::Less) == (a < b),
        (r == Ordering::Equal) == (a == b),
        (r == Ordering::Greater) == (a > b),
{
    if a < b {
        Ordering::Less
    } else if a == b {
        Ordering::Equal
    } else {
        Ordering::Greater
    }
}

/// The keys never increase from one position to the next.
pub open spec fn sorted_descending(keys: Seq<u32>) -> bool {
    forall|i: int, j: int| 0 <= i <= j < keys.len() ==> keys[i] >= keys[j]
}

/// What a binary search promises on a list sorted from the highest key down:
/// `Ok` holds the position of a key equal to the target, `Err` the position
/// where the target would go (all keys before it higher, all keys from it on
/// lower).
pub open spec fn search_outcome(keys: Seq<u32>, target: u32, r: Result<usize, usize>) -> bool {
    match r {
        Ok(i) => i < keys.len() && keys[i as int] == target,
        Err(i) => i <= keys.len() && (forall|j: int| 0 <= j < i ==> keys[j] > target) && (forall|
            j: int,
        |
            i <= j < keys.len() ==> keys[j] < target),
    }
}

/// What `<[u32]>::binary_search_by` returns when it searches `keys` with the
/// comparator that orders `target` against each key (the order of a list
/// sorted from the highest key down).
pub uninterp spec fn descending_search(keys: Seq<u32>, target: u32) -> Result<usize, usize>;

/// `<[u32]>::binary_search_by`, with a comparator that orders the target
/// against each key. The result is named `descending_search`; what std's
/// documentation promises is stated for a list sorted from the highest key
/// down: `Ok` holds the position of a key equal to the target, `Err` the
/// position where the target would go (all keys before it higher, all keys
/// from it on lower). On an unsorted list only the name is stated.
#[verifier::external_body]
pub(crate) fn search_descending(keys: &[u32], target: u32) -> (r: Result<usize, usize>)
    ensures
        r == descending_search(keys@, target),
        sorted_descending(keys@) ==> search_outcome(keys@, target, r),
{
    keys.binary_search_by(|k| key_order(target, *k))
}

/// `<[u32]>::sort_by` with the comparator that puts higher keys first: std's
/// documentation promises a sorted permutation of the input.
#[verifier::external_body]
pub(crate) fn sort_descending(keys: &mut Vec<u32>)
    ensures
        sorted_descending(final(keys)@),
        final(keys)@.to_multiset() == old(keys)@.to_multiset(),
{
    keys.sort_by(|a, b| key_order(*b, *a))
}

} // verus!
