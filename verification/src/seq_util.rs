//! The first element of a sequence that satisfies a predicate.
use vstd::prelude::*;

verus! {

/// The index of the first element of `s` satisfying `p`, if any.
pub open spec fn first_where<T>(s: Seq<T>, p: spec_fn(T) -> bool) -> Option<int> {
    if exists|i: int| 0 <= i < s.len() && p(#[trigger] s[i]) {
        Some(
            choose|i: int|
                0 <= i < s.len() && p(#[trigger] s[i]) && forall|j: int| 0 <= j < i ==> !p(#[trigger] s[j]),
        )
    } else {
        None
    }
}

pub proof fn lemma_first_where<T>(s: Seq<T>, p: spec_fn(T) -> bool, i: int)
    requires
        0 <= i < s.len(),
        p(s[i]),
        forall|j: int| 0 <= j < i ==> !p(#[trigger] s[j]),
    ensures
        first_where(s, p) == Some(i),
{
    let k = choose|k: int|
        0 <= k < s.len() && p(#[trigger] s[k]) && forall|j: int| 0 <= j < k ==> !p(#[trigger] s[j]);
    assert(0 <= k < s.len() && p(s[k]) && forall|j: int| 0 <= j < k ==> !p(#[trigger] s[j]));
    if k < i {
        assert(!p(s[k]));
    } else if i < k {
        assert(!p(s[i]));
    }
}

pub proof fn lemma_first_where_none<T>(s: Seq<T>, p: spec_fn(T) -> bool)
    requires
        forall|j: int| 0 <= j < s.len() ==> !p(#[trigger] s[j]),
    ensures
        first_where(s, p) is None,
{
}

proof fn lemma_exists_first<T>(s: Seq<T>, p: spec_fn(T) -> bool)
    requires
        exists|i: int| 0 <= i < s.len() && p(#[trigger] s[i]),
    ensures
        exists|i: int|
            0 <= i < s.len() && p(#[trigger] s[i]) && forall|j: int| 0 <= j < i ==> !p(#[trigger] s[j]),
    decreases s.len(),
{
    let d = s.drop_last();
    if exists|i: int| 0 <= i < d.len() && p(#[trigger] d[i]) {
        lemma_exists_first(d, p);
        let i = choose|i: int|
            0 <= i < d.len() && p(#[trigger] d[i]) && forall|j: int| 0 <= j < i ==> !p(#[trigger] d[j]);
        assert(s[i] == d[i]);
        assert forall|j: int| 0 <= j < i implies !p(#[trigger] s[j]) by {
            assert(s[j] == d[j]);
        }
    } else {
        let k = s.len() - 1;
        let w = choose|i: int| 0 <= i < s.len() && p(#[trigger] s[i]);
        if w < k {
            assert(d[w] == s[w]);
        }
        assert forall|j: int| 0 <= j < k implies !p(#[trigger] s[j]) by {
            assert(s[j] == d[j]);
        }
        assert(p(s[k]));
    }
}

/// When some element satisfies `p`, `first_where` names the first one.
pub proof fn lemma_first_where_found<T>(s: Seq<T>, p: spec_fn(T) -> bool)
    requires
        exists|i: int| 0 <= i < s.len() && p(#[trigger] s[i]),
    ensures
        first_where(s, p) is Some,
        0 <= first_where(s, p)->0 < s.len(),
        p(s[first_where(s, p)->0]),
        forall|j: int| 0 <= j < first_where(s, p)->0 ==> !p(#[trigger] s[j]),
{
    lemma_exists_first(s, p);
}

} // verus!
