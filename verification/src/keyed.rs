//! Stable sorting by a string key, and finding a repeated key.
use vstd::prelude::*;
use crate::text::{
    lemma_text_lt_irreflexive, lemma_text_lt_total, lemma_text_lt_transitive, str_eq, text_less,
    text_lt,
};

verus! {

/// A value with a string key.
pub trait Keyed {
    spec fn key_view(&self) -> Seq<char>;

    fn key_str(&self) -> (r: &str)
        ensures
            r@ == self.key_view(),
    ;
}

// ---------------------------------------------------------------------
// Stable sort by key
// ---------------------------------------------------------------------

/// Where an entry of key `k` goes in a list sorted by key: before the first
/// entry whose key is not smaller.
pub open spec fn insert_pos<T: Keyed>(t: Seq<T>, k: Seq<char>) -> nat
    decreases t.len(),
{
    if t.len() == 0 {
        0
    } else if !text_lt(t[0].key_view(), k) {
        0
    } else {
        1 + insert_pos(t.drop_first(), k)
    }
}

/// The list sorted by key, entries of equal key keeping their order (the
/// result of a stable sort).
pub open spec fn sort_by_key<T: Keyed>(s: Seq<T>) -> Seq<T>
    decreases s.len(),
{
    if s.len() == 0 {
        s
    } else {
        let rest = sort_by_key(s.drop_first());
        rest.insert(insert_pos(rest, s[0].key_view()) as int, s[0])
    }
}

pub open spec fn sorted_by_key<T: Keyed>(s: Seq<T>) -> bool {
    forall|i: int, j: int| 0 <= i < j < s.len() ==> !text_lt(#[trigger] s[j].key_view(), #[trigger] s[i].key_view())
}

pub open spec fn one_per_key<T: Keyed>(s: Seq<T>) -> bool {
    forall|i: int, j: int| 0 <= i < j < s.len() ==> #[trigger] s[i].key_view() != #[trigger] s[j].key_view()
}

proof fn lemma_insert_pos<T: Keyed>(t: Seq<T>, k: Seq<char>)
    ensures
        insert_pos(t, k) <= t.len(),
        forall|i: int| 0 <= i < insert_pos(t, k) ==> text_lt(#[trigger] t[i].key_view(), k),
        insert_pos(t, k) < t.len() ==> !text_lt(t[insert_pos(t, k) as int].key_view(), k),
    decreases t.len(),
{
    if t.len() > 0 && text_lt(t[0].key_view(), k) {
        lemma_insert_pos(t.drop_first(), k);
        assert forall|i: int| 0 <= i < insert_pos(t, k) implies text_lt(#[trigger] t[i].key_view(), k) by {
            if i > 0 {
                assert(t[i] == t.drop_first()[i - 1]);
            }
        }
    }
}

proof fn lemma_insert_pos_first<T: Keyed>(t: Seq<T>, k: Seq<char>, j: int)
    requires
        0 <= j <= t.len(),
        forall|i: int| 0 <= i < j ==> text_lt(#[trigger] t[i].key_view(), k),
        j < t.len() ==> !text_lt(t[j].key_view(), k),
    ensures
        insert_pos(t, k) == j,
    decreases t.len(),
{
    if t.len() > 0 && j > 0 {
        assert(text_lt(t[0].key_view(), k));
        assert forall|i: int| 0 <= i < j - 1 implies text_lt(#[trigger] t.drop_first()[i].key_view(), k) by {
            assert(t.drop_first()[i] == t[i + 1]);
        }
        lemma_insert_pos_first(t.drop_first(), k, j - 1);
    }
}

proof fn lemma_insert_sorted<T: Keyed>(t: Seq<T>, x: T)
    requires
        sorted_by_key(t),
    ensures
        sorted_by_key(t.insert(insert_pos(t, x.key_view()) as int, x)),
{
    lemma_insert_pos(t, x.key_view());
    let p = insert_pos(t, x.key_view()) as int;
    let r = t.insert(p, x);
    t.insert_ensures(p, x);
    assert forall|i: int, j: int| 0 <= i < j < r.len() implies !text_lt(#[trigger] r[j].key_view(), #[trigger] r[i].key_view()) by {
        if j < p {
            assert(r[i] == t[i] && r[j] == t[j]);
        } else if j == p {
            assert(r[i] == t[i]);
            assert(text_lt(t[i].key_view(), x.key_view()));
            if text_lt(x.key_view(), t[i].key_view()) {
                lemma_text_lt_transitive(x.key_view(), t[i].key_view(), x.key_view());
                lemma_text_lt_irreflexive(x.key_view());
            }
        } else if i < p {
            assert(r[i] == t[i] && r[j] == t[j - 1]);
        } else if i == p {
            assert(r[j] == t[j - 1]);
            // x <= t[p] <= t[j - 1]
            assert(!text_lt(t[p].key_view(), x.key_view()));
            if p < j - 1 {
                assert(!text_lt(t[j - 1].key_view(), t[p].key_view()));
            }
            if text_lt(t[j - 1].key_view(), x.key_view()) {
                lemma_text_lt_total(x.key_view(), t[p].key_view());
                if text_lt(x.key_view(), t[p].key_view()) {
                    lemma_text_lt_transitive(t[j - 1].key_view(), x.key_view(), t[p].key_view());
                    if p == j - 1 {
                        lemma_text_lt_irreflexive(t[p].key_view());
                    }
                }
            }
        } else {
            assert(r[i] == t[i - 1] && r[j] == t[j - 1]);
        }
    }
}

/// A stably sorted list is sorted by key.
pub proof fn lemma_sort_is_sorted<T: Keyed>(s: Seq<T>)
    ensures
        sorted_by_key(sort_by_key(s)),
    decreases s.len(),
{
    if s.len() > 0 {
        lemma_sort_is_sorted(s.drop_first());
        lemma_insert_sorted(sort_by_key(s.drop_first()), s[0]);
    }
}

/// Sorting keeps every entry, as often as it occurs.
pub proof fn lemma_sort_permutes<T: Keyed>(s: Seq<T>)
    ensures
        sort_by_key(s).to_multiset() == s.to_multiset(),
        sort_by_key(s).len() == s.len(),
    decreases s.len(),
{
    broadcast use vstd::seq_lib::group_to_multiset_ensures;
    broadcast use vstd::multiset::group_multiset_axioms;

    if s.len() > 0 {
        lemma_sort_permutes(s.drop_first());
        let rest = sort_by_key(s.drop_first());
        lemma_insert_pos(rest, s[0].key_view());
        assert(s =~= s.drop_first().insert(0, s[0]));
        assert(sort_by_key(s).to_multiset() =~= s.to_multiset());
    }
}

pub proof fn lemma_sort_keeps_one_per_key<T: Keyed>(s: Seq<T>)
    requires
        one_per_key(s),
    ensures
        one_per_key(sort_by_key(s)),
    decreases s.len(),
{
    broadcast use vstd::seq_lib::group_to_multiset_ensures;

    if s.len() > 0 {
        let d = s.drop_first();
        assert forall|i: int, j: int| 0 <= i < j < d.len() implies #[trigger] d[i].key_view() != #[trigger] d[j].key_view() by {
            assert(d[i] == s[i + 1] && d[j] == s[j + 1]);
        }
        lemma_sort_keeps_one_per_key(d);
        lemma_sort_permutes(d);
        let rest = sort_by_key(d);
        let x = s[0];
        lemma_insert_pos(rest, x.key_view());
        let p = insert_pos(rest, x.key_view()) as int;
        rest.insert_ensures(p, x);
        let r = rest.insert(p, x);
        assert forall|k: int| 0 <= k < rest.len() implies #[trigger] rest[k].key_view() != x.key_view() by {
            assert(rest.to_multiset().count(rest[k]) > 0);
            assert(d.contains(rest[k]));
            let m = choose|m: int| 0 <= m < d.len() && d[m] == rest[k];
            assert(s[m + 1] == d[m]);
        }
        assert forall|i: int, j: int| 0 <= i < j < r.len() implies #[trigger] r[i].key_view() != #[trigger] r[j].key_view() by {
            if j < p {
                assert(r[i] == rest[i] && r[j] == rest[j]);
            } else if j == p {
                assert(r[i] == rest[i]);
            } else if i < p {
                assert(r[i] == rest[i] && r[j] == rest[j - 1]);
            } else if i == p {
                assert(r[j] == rest[j - 1]);
            } else {
                assert(r[i] == rest[i - 1] && r[j] == rest[j - 1]);
            }
        }
    }
}

/// The position at which key `k` goes in a list sorted by key.
fn insert_position<T: Keyed>(out: &Vec<T>, k: &str) -> (p: usize)
    ensures
        p == insert_pos(out@, k@),
{
    let mut j: usize = 0;
    while j < out.len()
        invariant
            j <= out.len(),
            forall|i: int| 0 <= i < j ==> text_lt(#[trigger] out@[i].key_view(), k@),
        decreases out.len() - j,
    {
        if !text_less(out[j].key_str(), k) {
            proof {
                lemma_insert_pos_first(out@, k@, j as int);
            }
            return j;
        }
        j += 1;
    }
    proof {
        lemma_insert_pos_first(out@, k@, j as int);
    }
    j
}

/// `v` sorted by key; entries of equal key keep their order.
pub fn sort_keyed<T: Keyed>(v: Vec<T>) -> (r: Vec<T>)
    ensures
        r@ == sort_by_key(v@),
{
    let ghost s = v@;
    let mut rest = v;
    let mut out: Vec<T> = Vec::new();
    proof {
        assert(s.skip(s.len() as int) =~= Seq::<T>::empty());
        assert(rest@ =~= s.take(rest.len() as int));
    }
    while rest.len() > 0
        invariant
            rest.len() <= s.len(),
            rest@ == s.take(rest.len() as int),
            out@ == sort_by_key(s.skip(rest.len() as int)),
        decreases rest.len(),
    {
        let ghost n = rest.len() as int;
        let x = rest.pop().unwrap();
        proof {
            assert(rest@ =~= s.take(n - 1));
            assert(s.skip(n - 1).drop_first() =~= s.skip(n));
            assert(s.skip(n - 1)[0] == s[n - 1]);
        }
        let p = insert_position(&out, x.key_str());
        let ghost out_before = out@;
        proof {
            lemma_insert_pos(out_before, x.key_view());
        }
        out.insert(p, x);
    }
    proof {
        assert(s.skip(0) =~= s);
    }
    out
}

// ---------------------------------------------------------------------
// Repeated keys
// ---------------------------------------------------------------------

/// Entry `i` repeats the key of an earlier entry, and no entry before it
/// does.
pub open spec fn is_first_repeat<T: Keyed>(s: Seq<T>, i: int) -> bool {
    &&& 0 <= i < s.len()
    &&& exists|j: int| 0 <= j < i && #[trigger] s[j].key_view() == s[i].key_view()
    &&& one_per_key(s.take(i))
}

/// The index of the first entry whose key was seen before, if any.
pub fn first_repeat<T: Keyed>(v: &Vec<T>) -> (r: Option<usize>)
    ensures
        match r {
            Some(i) => is_first_repeat(v@, i as int),
            None => one_per_key(v@),
        },
{
    let mut i: usize = 0;
    proof {
        assert(one_per_key(v@.take(0)));
    }
    while i < v.len()
        invariant
            i <= v.len(),
            one_per_key(v@.take(i as int)),
        decreases v.len() - i,
    {
        let mut j: usize = 0;
        while j < i
            invariant
                j <= i < v.len(),
                one_per_key(v@.take(i as int)),
                forall|k: int| 0 <= k < j ==> #[trigger] v@[k].key_view() != v@[i as int].key_view(),
            decreases i - j,
        {
            if str_eq(v[j].key_str(), v[i].key_str()) {
                assert(v@[j as int].key_view() == v@[i as int].key_view());
                return Some(i);
            }
            j += 1;
        }
        proof {
            let t = v@.take(i as int + 1);
            assert forall|a: int, b: int| 0 <= a < b < t.len() implies #[trigger] t[a].key_view() != #[trigger] t[b].key_view() by {
                if b < i {
                    assert(v@.take(i as int)[a] == t[a] && v@.take(i as int)[b] == t[b]);
                }
            }
        }
        i += 1;
    }
    proof {
        assert(v@.take(v.len() as int) =~= v@);
    }
    None
}

} // verus!
