//! Finalizer lists: what a patch adding or removing one finalizer would send.
use vstd::prelude::*;
use crate::text::{owned, str_eq, strings_view};

verus! {

/// The finalizer list a patch adding `f` would send, or `None` when `f` is
/// already present.
pub open spec fn list_with(current: Seq<Seq<char>>, f: Seq<char>) -> Option<Seq<Seq<char>>> {
    if current.contains(f) {
        None
    } else {
        Some(current.push(f))
    }
}

/// The predicate keeping every entry other than `f`.
pub open spec fn other_than(f: Seq<char>) -> spec_fn(Seq<char>) -> bool {
    |x: Seq<char>| x != f
}

/// The finalizer list a patch removing every `f` would send, or `None` when
/// `f` is absent.
pub open spec fn list_without(current: Seq<Seq<char>>, f: Seq<char>) -> Option<Seq<Seq<char>>> {
    if current.contains(f) {
        Some(current.filter(other_than(f)))
    } else {
        None
    }
}

pub open spec fn opt_strings_view(o: Option<Vec<String>>) -> Option<Seq<Seq<char>>> {
    match o {
        Some(v) => Some(strings_view(v@)),
        None => None,
    }
}

/// Returns the finalizer list that would be sent in a patch to add
/// `finalizer`, or `None` if it is already present (no patch needed).
pub fn finalizer_list_with(current: &[String], finalizer: &str) -> (r: Option<Vec<String>>)
    ensures
        opt_strings_view(r) == list_with(strings_view(current@), finalizer@),
{
    let mut next: Vec<String> = Vec::new();
    let mut i: usize = 0;
    while i < current.len()
        invariant
            0 <= i <= current.len(),
            strings_view(next@) == strings_view(current@).take(i as int),
            !strings_view(current@).take(i as int).contains(finalizer@),
        decreases current.len() - i,
    {
        if str_eq(current[i].as_str(), finalizer) {
            proof {
                assert(strings_view(current@)[i as int] == finalizer@);
            }
            return None;
        }
        let ghost old_next = next@;
        let item = current[i].clone();
        next.push(item);
        proof {
            assert(next@ == old_next.push(item));
            assert(strings_view(next@) =~= strings_view(old_next).push(item@));
            assert(strings_view(next@) =~= strings_view(current@).take(i as int + 1));
            assert(strings_view(current@).take(i as int + 1) =~= strings_view(current@).take(i as int).push(current@[i as int]@));
        }
        i += 1;
    }
    proof {
        assert(strings_view(current@).take(current.len() as int) =~= strings_view(current@));
    }
    next.push(owned(finalizer));
    proof {
        assert(strings_view(next@) =~= strings_view(current@).push(finalizer@));
    }
    Some(next)
}

/// Returns the finalizer list that would be sent in a patch to remove every
/// occurrence of `finalizer`, or `None` if it is not present.
pub fn finalizer_list_without(current: &[String], finalizer: &str) -> (r: Option<Vec<String>>)
    ensures
        opt_strings_view(r) == list_without(strings_view(current@), finalizer@),
{
    let ghost f = finalizer@;
    let ghost pred = other_than(f);
    let mut next: Vec<String> = Vec::new();
    let mut found = false;
    let mut i: usize = 0;
    while i < current.len()
        invariant
            0 <= i <= current.len(),
            f == finalizer@,
            pred == other_than(f),
            strings_view(next@) == strings_view(current@).take(i as int).filter(pred),
            found == strings_view(current@).take(i as int).contains(f),
        decreases current.len() - i,
    {
        let ghost prefix = strings_view(current@).take(i as int);
        let ghost item = current@[i as int]@;
        proof {
            assert(strings_view(current@).take(i as int + 1) =~= prefix.push(item));
            assert(prefix.push(item).drop_last() =~= prefix);
            reveal(Seq::filter);
        }
        if str_eq(current[i].as_str(), finalizer) {
            found = true;
            proof {
                assert(prefix.push(item).contains(f)) by {
                    assert(prefix.push(item)[i as int] == f);
                }
            }
        } else {
            let ghost old_next = next@;
            let copy = current[i].clone();
            next.push(copy);
            proof {
                assert(next@ == old_next.push(copy));
                assert(strings_view(next@) =~= strings_view(old_next).push(copy@));
                assert(strings_view(next@) =~= prefix.filter(pred).push(item));
                assert(prefix.push(item).contains(f) == prefix.contains(f)) by {
                    if prefix.push(item).contains(f) {
                        let k = choose|k: int| 0 <= k < prefix.push(item).len() && prefix.push(item)[k] == f;
                        assert(k < prefix.len());
                        assert(prefix[k] == f);
                    }
                    if prefix.contains(f) {
                        let k = choose|k: int| 0 <= k < prefix.len() && prefix[k] == f;
                        assert(prefix.push(item)[k] == f);
                    }
                }
            }
        }
        proof {
            if found && !prefix.contains(f) {
                assert(prefix.push(item).contains(f));
            }
        }
        i += 1;
    }
    proof {
        assert(strings_view(current@).take(current.len() as int) =~= strings_view(current@));
    }
    if !found {
        return None;
    }
    Some(next)
}

} // verus!

verus! {

/// Adding a finalizer twice asks for one patch only: once added, a second add
/// finds it present.
pub proof fn lemma_add_is_idempotent(current: Seq<Seq<char>>, f: Seq<char>)
    requires
        list_with(current, f) is Some,
    ensures
        list_with(list_with(current, f)->0, f) is None,
{
    let next = current.push(f);
    assert(next[current.len() as int] == f);
}

/// Removing a finalizer that was just added to a list lacking it gives the
/// original list back.
pub proof fn lemma_remove_undoes_add(current: Seq<Seq<char>>, f: Seq<char>)
    requires
        !current.contains(f),
    ensures
        list_without(current.push(f), f) == Some(current),
{
    let next = current.push(f);
    assert(next[current.len() as int] == f);
    reveal(Seq::filter);
    assert(next.drop_last() =~= current);
    lemma_filter_keeps_all(current, f);
}

proof fn lemma_filter_keeps_all(s: Seq<Seq<char>>, f: Seq<char>)
    requires
        !s.contains(f),
    ensures
        s.filter(other_than(f)) == s,
    decreases s.len(),
{
    reveal(Seq::filter);
    if s.len() > 0 {
        assert(!s.drop_last().contains(f)) by {
            if s.drop_last().contains(f) {
                let k = choose|k: int| 0 <= k < s.drop_last().len() && s.drop_last()[k] == f;
                assert(s[k] == f);
            }
        }
        lemma_filter_keeps_all(s.drop_last(), f);
        assert(s.last() != f) by {
            if s.last() == f {
                assert(s[s.len() - 1] == f);
            }
        }
        assert(s.drop_last().push(s.last()) =~= s);
    }
}

/// After a removal the finalizer is gone.
pub proof fn lemma_removed_is_absent(current: Seq<Seq<char>>, f: Seq<char>)
    requires
        list_without(current, f) is Some,
    ensures
        !(list_without(current, f)->0).contains(f),
{
    let out = current.filter(other_than(f));
    if out.contains(f) {
        let k = choose|k: int| 0 <= k < out.len() && out[k] == f;
        current.filter_lemma(other_than(f));
        assert(other_than(f)(out[k]));
    }
}

} // verus!
