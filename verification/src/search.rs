//! Searching a sequence for the first element of a kind.

use vstd::prelude::*;

verus! {

/// The index of the first element of `s` that is `wanted`.
pub open spec fn first_index<T>(s: Seq<T>, wanted: spec_fn(T) -> bool) -> Option<int>
    decreases s.len(),
{
    if s.len() == 0 {
        None
    } else if wanted(s[0]) {
        Some(0)
    } else {
        match first_index(s.drop_first(), wanted) {
            Some(index) => Some(index + 1),
            None => None,
        }
    }
}

/// The first element of `s` that is `wanted`.
pub open spec fn first_match<T>(s: Seq<T>, wanted: spec_fn(T) -> bool) -> Option<T> {
    match first_index(s, wanted) {
        Some(index) => Some(s[index]),
        None => None,
    }
}

/// The index that a search gives is that of a wanted element, and no element before it
/// is wanted. Where a search gives none, no element is wanted.
pub proof fn lemma_first_index<T>(s: Seq<T>, wanted: spec_fn(T) -> bool)
    ensures
        match first_index(s, wanted) {
            Some(index) => {
                &&& 0 <= index < s.len()
                &&& wanted(s[index])
                &&& forall|k: int| 0 <= k < index ==> !wanted(#[trigger] s[k])
            },
            None => forall|k: int| 0 <= k < s.len() ==> !wanted(#[trigger] s[k]),
        },
    decreases s.len(),
{
    if s.len() > 0 && !wanted(s[0]) {
        let rest = s.drop_first();
        lemma_first_index(rest, wanted);
        match first_index(rest, wanted) {
            Some(index) => {
                assert(rest[index] == s[index + 1]);
                assert forall|k: int| 0 <= k < index + 1 implies !wanted(#[trigger] s[k]) by {
                    if k > 0 {
                        assert(rest[k - 1] == s[k]);
                    }
                }
            },
            None => {
                assert forall|k: int| 0 <= k < s.len() implies !wanted(#[trigger] s[k]) by {
                    if k > 0 {
                        assert(rest[k - 1] == s[k]);
                    }
                }
            },
        }
    }
}

/// Where no element before `index` is wanted, a search gives `index` if the element
/// there is wanted, and none if `index` is the end of the sequence.
pub proof fn lemma_first_index_found<T>(s: Seq<T>, wanted: spec_fn(T) -> bool, index: int)
    requires
        0 <= index <= s.len(),
        forall|k: int| 0 <= k < index ==> !wanted(#[trigger] s[k]),
    ensures
        index < s.len() && wanted(s[index]) ==> first_index(s, wanted) == Some(index),
        index == s.len() ==> first_index(s, wanted) is None,
    decreases s.len(),
{
    if index > 0 {
        let rest = s.drop_first();
        assert(!wanted(s[0]));
        assert forall|k: int| 0 <= k < index - 1 implies !wanted(#[trigger] rest[k]) by {
            assert(rest[k] == s[k + 1]);
        }
        lemma_first_index_found(rest, wanted, index - 1);
        if index < s.len() {
            assert(rest[index - 1] == s[index]);
        }
    }
}

} // verus!
