//! A map keyed by strings and kept sorted by key, as a `BTreeMap<String, V>`
//! keeps it.
use vstd::prelude::*;
use crate::text::{
    lemma_text_lt_irreflexive, lemma_text_lt_total, lemma_text_lt_transitive, str_eq, text_less,
    text_lt,
};

verus! {

broadcast use vstd::seq_lib::seq_to_set_is_finite;

/// Entries sorted by key, each key once.
#[derive(Debug)]
pub struct StrMap<V> {
    entries: Vec<(String, V)>,
}

pub open spec fn keys_of<V>(s: Seq<(String, V)>) -> Seq<Seq<char>> {
    s.map_values(|e: (String, V)| e.0@)
}

/// Keys strictly increasing in the order of `str`.
pub open spec fn strictly_sorted<V>(s: Seq<(String, V)>) -> bool {
    forall|i: int, j: int| 0 <= i < j < s.len() ==> text_lt(#[trigger] s[i].0@, #[trigger] s[j].0@)
}

pub open spec fn index_of_key<V>(s: Seq<(String, V)>, k: Seq<char>) -> int {
    choose|i: int| 0 <= i < s.len() && #[trigger] s[i].0@ == k
}

/// The map that an entry list stands for.
pub open spec fn entries_map<V>(s: Seq<(String, V)>) -> Map<Seq<char>, V> {
    Map::new(|k: Seq<char>| keys_of(s).contains(k), |k: Seq<char>| s[index_of_key(s, k)].1)
}

impl<V> View for StrMap<V> {
    type V = Map<Seq<char>, V>;

    closed spec fn view(&self) -> Map<Seq<char>, V> {
        entries_map(self.entries@)
    }
}

proof fn lemma_key_index_unique<V>(s: Seq<(String, V)>, i: int, j: int)
    requires
        strictly_sorted(s),
        0 <= i < s.len(),
        0 <= j < s.len(),
        s[i].0@ == s[j].0@,
    ensures
        i == j,
{
    if i < j {
        assert(text_lt(s[i].0@, s[j].0@));
        lemma_text_lt_irreflexive(s[i].0@);
    } else if j < i {
        assert(text_lt(s[j].0@, s[i].0@));
        lemma_text_lt_irreflexive(s[i].0@);
    }
}

proof fn lemma_lookup<V>(s: Seq<(String, V)>, i: int)
    requires
        strictly_sorted(s),
        0 <= i < s.len(),
    ensures
        entries_map(s).contains_key(s[i].0@),
        entries_map(s)[s[i].0@] == s[i].1,
{
    assert(keys_of(s)[i] == s[i].0@);
    let j = index_of_key(s, s[i].0@);
    assert(s[j].0@ == s[i].0@);
    lemma_key_index_unique(s, i, j);
}

proof fn lemma_contains_key<V>(s: Seq<(String, V)>, k: Seq<char>)
    requires
        entries_map(s).contains_key(k),
    ensures
        0 <= index_of_key(s, k) < s.len(),
        s[index_of_key(s, k)].0@ == k,
{
    let m = choose|m: int| 0 <= m < keys_of(s).len() && keys_of(s)[m] == k;
    assert(s[m].0@ == k);
}

proof fn lemma_len<V>(s: Seq<(String, V)>)
    requires
        strictly_sorted(s),
    ensures
        entries_map(s).dom().finite(),
        entries_map(s).len() == s.len(),
{
    assert(entries_map(s).dom() =~= keys_of(s).to_set());
    assert forall|i: int, j: int|
        0 <= i < keys_of(s).len() && 0 <= j < keys_of(s).len() && i != j implies keys_of(s)[i]
        != keys_of(s)[j] by {
        if keys_of(s)[i] == keys_of(s)[j] {
            lemma_key_index_unique(s, i, j);
        }
    }
    keys_of(s).unique_seq_to_set();
}

impl<V> StrMap<V> {
    #[verifier::type_invariant]
    closed spec fn inv(self) -> bool {
        strictly_sorted(self.entries@)
    }

    /// An empty map.
    pub fn new() -> (m: Self)
        ensures
            m@ == Map::<Seq<char>, V>::empty(),
    {
        let m = StrMap { entries: Vec::new() };
        assert(m@ =~= Map::<Seq<char>, V>::empty());
        m
    }

    /// The value under `key`, if any.
    pub fn get(&self, key: &str) -> (r: Option<&V>)
        ensures
            match r {
                Some(v) => self@.contains_key(key@) && *v == self@[key@],
                None => !self@.contains_key(key@),
            },
    {
        proof {
            use_type_invariant(self);
        }
        let mut i: usize = 0;
        while i < self.entries.len()
            invariant
                i <= self.entries.len(),
                strictly_sorted(self.entries@),
                forall|j: int| 0 <= j < i ==> #[trigger] self.entries@[j].0@ != key@,
            decreases self.entries.len() - i,
        {
            if str_eq(self.entries[i].0.as_str(), key) {
                proof {
                    lemma_lookup(self.entries@, i as int);
                }
                return Some(&self.entries[i].1);
            }
            i += 1;
        }
        proof {
            if self@.contains_key(key@) {
                lemma_contains_key(self.entries@, key@);
            }
        }
        None
    }

    /// The number of keys.
    pub fn len(&self) -> (n: usize)
        ensures
            n == self@.len(),
            self@.dom().finite(),
    {
        proof {
            use_type_invariant(self);
            lemma_len(self.entries@);
        }
        self.entries.len()
    }

    /// Whether the map has no key.
    pub fn is_empty(&self) -> (r: bool)
        ensures
            r == (self@.len() == 0),
            self@.dom().finite(),
    {
        self.len() == 0
    }

    /// The entries in increasing key order.
    pub fn entries(&self) -> (r: &Vec<(String, V)>)
        ensures
            r.len() == self@.len(),
            strictly_sorted(r@),
            forall|i: int|
                0 <= i < r.len() ==> self@.contains_key(#[trigger] r@[i].0@) && self@[r@[i].0@]
                    == r@[i].1,
            forall|k: Seq<char>|
                #[trigger] self@.contains_key(k) ==> exists|i: int|
                    0 <= i < r.len() && #[trigger] r@[i].0@ == k,
    {
        proof {
            use_type_invariant(self);
            lemma_len(self.entries@);
            assert forall|i: int| 0 <= i < self.entries.len() implies self@.contains_key(
                #[trigger] self.entries@[i].0@,
            ) && self@[self.entries@[i].0@] == self.entries@[i].1 by {
                lemma_lookup(self.entries@, i);
            }
            assert forall|k: Seq<char>| #[trigger] self@.contains_key(k) implies exists|i: int|
                0 <= i < self.entries.len() && #[trigger] self.entries@[i].0@ == k by {
                lemma_contains_key(self.entries@, k);
            }
        }
        &self.entries
    }

    /// Sets `key` to `value`, replacing the value it had.
    pub fn insert(&mut self, key: String, value: V)
        ensures
            final(self)@ == old(self)@.insert(key@, value),
    {
        proof {
            use_type_invariant(&*self);
        }
        let mut e: Vec<(String, V)> = Vec::new();
        std::mem::swap(&mut e, &mut self.entries);
        let ghost s = e@;
        let mut p: usize = 0;
        while p < e.len()
            invariant
                p <= e.len(),
                e@ == s,
                forall|i: int| 0 <= i < p ==> text_lt(#[trigger] s[i].0@, key@),
            ensures
                p <= e.len(),
                e@ == s,
                forall|i: int| 0 <= i < p ==> text_lt(#[trigger] s[i].0@, key@),
                p < e.len() ==> !text_lt(s[p as int].0@, key@),
            decreases e.len() - p,
        {
            if !text_less(e[p].0.as_str(), key.as_str()) {
                break;
            }
            p += 1;
        }
        let ghost kv = key@;
        if p < e.len() && str_eq(e[p].0.as_str(), key.as_str()) {
            let _old = e.remove(p);
            e.insert(p, (key, value));
            proof {
                let t = e@;
                assert(t =~= s.update(p as int, (t[p as int].0, value)));
                assert(strictly_sorted(t)) by {
                    assert forall|i: int, j: int| 0 <= i < j < t.len() implies text_lt(
                        #[trigger] t[i].0@,
                        #[trigger] t[j].0@,
                    ) by {
                        assert(s[i].0@ == t[i].0@ && s[j].0@ == t[j].0@);
                    }
                }
                assert forall|k: Seq<char>| #[trigger]
                    entries_map(t).contains_key(k) <==> entries_map(s).insert(kv, value).contains_key(
                    k,
                ) by {
                    if keys_of(t).contains(k) {
                        let m = choose|m: int| 0 <= m < keys_of(t).len() && keys_of(t)[m] == k;
                        assert(keys_of(s)[m] == k);
                    }
                    if keys_of(s).contains(k) {
                        let m = choose|m: int| 0 <= m < keys_of(s).len() && keys_of(s)[m] == k;
                        assert(keys_of(t)[m] == k);
                    }
                    if k == kv {
                        assert(keys_of(t)[p as int] == k);
                    }
                }
                assert forall|k: Seq<char>| #[trigger]
                    entries_map(t).contains_key(k) implies entries_map(t)[k] == entries_map(
                    s,
                ).insert(kv, value)[k] by {
                    lemma_contains_key(t, k);
                    let m = index_of_key(t, k);
                    lemma_lookup(t, m);
                    if k != kv {
                        lemma_lookup(s, m);
                    } else {
                        lemma_key_index_unique(t, m, p as int);
                    }
                }
                assert(entries_map(t) =~= entries_map(s).insert(kv, value));
            }
        } else {
            let ghost at_p_differs = p < e.len();
            e.insert(p, (key, value));
            proof {
                let t = e@;
                let pi = p as int;
                s.insert_ensures(pi, t[pi]);
                assert(t =~= s.insert(pi, t[pi]));
                // the new key is smaller than every key at or after `p`
                assert forall|j: int| pi <= j < s.len() implies text_lt(kv, #[trigger] s[j].0@) by {
                    lemma_text_lt_total(kv, s[pi].0@);
                    if j > pi {
                        assert(text_lt(s[pi].0@, s[j].0@));
                        if text_lt(kv, s[pi].0@) {
                            lemma_text_lt_transitive(kv, s[pi].0@, s[j].0@);
                        }
                    }
                }
                assert(strictly_sorted(t)) by {
                    assert forall|i: int, j: int| 0 <= i < j < t.len() implies text_lt(
                        #[trigger] t[i].0@,
                        #[trigger] t[j].0@,
                    ) by {
                        if j < pi {
                            assert(t[i] == s[i] && t[j] == s[j]);
                        } else if j == pi {
                            assert(t[i] == s[i]);
                        } else if i < pi {
                            assert(t[i] == s[i] && t[j] == s[j - 1]);
                            assert(text_lt(s[i].0@, kv));
                            assert(text_lt(kv, s[j - 1].0@));
                            lemma_text_lt_transitive(s[i].0@, kv, s[j - 1].0@);
                        } else if i == pi {
                            assert(t[j] == s[j - 1]);
                        } else {
                            assert(t[i] == s[i - 1] && t[j] == s[j - 1]);
                        }
                    }
                }
                assert(!keys_of(s).contains(kv)) by {
                    if keys_of(s).contains(kv) {
                        let m = choose|m: int| 0 <= m < keys_of(s).len() && keys_of(s)[m] == kv;
                        assert(s[m].0@ == kv);
                        if m < pi {
                            assert(text_lt(s[m].0@, kv));
                        } else {
                            assert(text_lt(kv, s[m].0@));
                        }
                        lemma_text_lt_irreflexive(kv);
                    }
                }
                assert forall|k: Seq<char>| #[trigger]
                    entries_map(t).contains_key(k) <==> entries_map(s).insert(kv, value).contains_key(
                    k,
                ) by {
                    if keys_of(t).contains(k) {
                        let m = choose|m: int| 0 <= m < keys_of(t).len() && keys_of(t)[m] == k;
                        if m < pi {
                            assert(keys_of(s)[m] == k);
                        } else if m > pi {
                            assert(keys_of(s)[m - 1] == k);
                        }
                    }
                    if keys_of(s).contains(k) {
                        let m = choose|m: int| 0 <= m < keys_of(s).len() && keys_of(s)[m] == k;
                        if m < pi {
                            assert(keys_of(t)[m] == k);
                        } else {
                            assert(keys_of(t)[m + 1] == k);
                        }
                    }
                    if k == kv {
                        assert(keys_of(t)[pi] == k);
                    }
                }
                assert forall|k: Seq<char>| #[trigger]
                    entries_map(t).contains_key(k) implies entries_map(t)[k] == entries_map(
                    s,
                ).insert(kv, value)[k] by {
                    lemma_contains_key(t, k);
                    let m = index_of_key(t, k);
                    lemma_lookup(t, m);
                    if m < pi {
                        lemma_lookup(s, m);
                    } else if m > pi {
                        lemma_lookup(s, m - 1);
                    }
                }
                assert(entries_map(t) =~= entries_map(s).insert(kv, value));
            }
        }
        self.entries = e;
    }
}

/// A set of strings, kept sorted (the shape of a `BTreeSet<String>`).
#[derive(Debug)]
pub struct StrSet {
    map: StrMap<()>,
}

impl View for StrSet {
    type V = Set<Seq<char>>;

    closed spec fn view(&self) -> Set<Seq<char>> {
        self.map@.dom()
    }
}

impl StrSet {
    /// An empty set.
    pub fn new() -> (r: Self)
        ensures
            r@ == Set::<Seq<char>>::empty(),
    {
        let r = StrSet { map: StrMap::new() };
        assert(r@ =~= Set::<Seq<char>>::empty());
        r
    }

    /// Adds `s`.
    pub fn insert(&mut self, s: String)
        ensures
            final(self)@ == old(self)@.insert(s@),
    {
        self.map.insert(s, ());
    }

    /// Whether `s` is in the set.
    pub fn contains(&self, s: &str) -> (r: bool)
        ensures
            r == self@.contains(s@),
    {
        match self.map.get(s) {
            Some(_) => true,
            None => false,
        }
    }

    /// The number of strings.
    pub fn len(&self) -> (n: usize)
        ensures
            n == self@.len(),
            self@.finite(),
    {
        self.map.len()
    }

    pub fn is_empty(&self) -> (r: bool)
        ensures
            r == (self@.len() == 0),
            self@.finite(),
    {
        self.map.is_empty()
    }

    /// The strings in increasing order.
    pub fn to_vec(&self) -> (r: Vec<String>)
        ensures
            r.len() == self@.len(),
            forall|i: int| 0 <= i < r.len() ==> self@.contains(#[trigger] r@[i]@),
            forall|k: Seq<char>| #[trigger] self@.contains(k) ==> exists|i: int| 0 <= i < r.len() && #[trigger] r@[i]@ == k,
            forall|i: int, j: int| 0 <= i < j < r.len() ==> text_lt(#[trigger] r@[i]@, #[trigger] r@[j]@),
    {
        let e = self.map.entries();
        let mut out: Vec<String> = Vec::new();
        let mut i: usize = 0;
        while i < e.len()
            invariant
                i <= e.len(),
                out.len() == i,
                forall|j: int| 0 <= j < i ==> #[trigger] out@[j]@ == e@[j].0@,
            decreases e.len() - i,
        {
            out.push(e[i].0.clone());
            i += 1;
        }
        proof {
            assert forall|k: Seq<char>| #[trigger] self@.contains(k) implies exists|i: int| 0 <= i < out.len() && #[trigger] out@[i]@ == k by {
                assert(self.map@.contains_key(k));
                let i = choose|i: int| 0 <= i < e.len() && #[trigger] e@[i].0@ == k;
                assert(out@[i]@ == k);
            }
            assert forall|i: int, j: int| 0 <= i < j < out.len() implies text_lt(#[trigger] out@[i]@, #[trigger] out@[j]@) by {
                assert(text_lt(e@[i].0@, e@[j].0@));
            }
        }
        out
    }
}

} // verus!
