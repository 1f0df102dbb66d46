//! The first element of a sequence that satisfies a predicate.
use vstd::prelude::*;

verus! {

/// `s[i]` is the first element of `s` that satisfies `p`.
pub open spec fn is_first_match<T>(s: Seq<T>, p: spec_fn(T) -> bool, i: int) -> bool {
    &&& 0 <= i < s.len()
    &&& p(s[i])
    &&& forall|j: int| 0 <= j < i ==> !p(s[j])
}

/// The index of the first element of `s` that satisfies `p`, if any.
pub open spec fn first_match<T>(s: Seq<T>, p: spec_fn(T) -> bool) -> Option<int> {
    if exists|i: int| is_first_match(s, p, i) {
        Some(choose|i: int| is_first_match(s, p, i))
    } else {
        None
    }
}

pub proof fn lemma_first_match_at<T>(s: Seq<T>, p: spec_fn(T) -> bool, i: int)
    requires
        is_first_match(s, p, i),
    ensures
        first_match(s, p) == Some(i),
{
    let k = choose|k: int| is_first_match(s, p, k);
    assert(is_first_match(s, p, k));
    if k < i {
        assert(!p(s[k]));
    }
    if i < k {
        assert(!p(s[i]));
    }
}

pub proof fn lemma_first_match_none<T>(s: Seq<T>, p: spec_fn(T) -> bool)
    requires
        forall|j: int| 0 <= j < s.len() ==> !p(#[trigger] s[j]),
    ensures
        first_match(s, p) is None,
{
}

/// Where some element satisfies `p`, there is a first one.
pub proof fn lemma_first_exists<T>(s: Seq<T>, p: spec_fn(T) -> bool, i: int)
    requires
        0 <= i < s.len(),
        p(s[i]),
    ensures
        exists|k: int| is_first_match(s, p, k),
    decreases i,
{
    if exists|j: int| 0 <= j < i && p(s[j]) {
        let j = choose|j: int| 0 <= j < i && p(s[j]);
        lemma_first_exists(s, p, j);
    } else {
        assert(is_first_match(s, p, i));
    }
}

} // verus!
