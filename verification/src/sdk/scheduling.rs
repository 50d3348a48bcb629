//! Where image-build workloads may run: a node selector and tolerations,
//! parsed from repeated command-line flags.
//!
//! A malformed flag is rejected rather than dropped: a selector that parsed
//! to "no constraint" would let privileged builds land anywhere, and a
//! toleration with an unknown effect is silently ignored by Kubernetes.
use vstd::prelude::*;
use crate::str_map::StrMap;
use crate::text::{
    chars_of, contains_seq, debug_plain, debug_str, find_first, find_last, is_first_index, join,
    join_strs, lemma_quoted_occurs,
    last_index, first_index, lemma_first_index, lemma_last_index, owned, quoted, str_eq,
    strings_view, strs_view, substring_of,
};

verus! {

/// The taint effects Kubernetes recognises.
pub const NO_SCHEDULE: &'static str = "NoSchedule";

pub const PREFER_NO_SCHEDULE: &'static str = "PreferNoSchedule";

pub const NO_EXECUTE: &'static str = "NoExecute";

/// A pod toleration (`core/v1 Toleration`).
#[derive(Debug)]
pub struct Toleration {
    pub key: Option<String>,
    pub operator: Option<String>,
    pub value: Option<String>,
    pub effect: Option<String>,
    pub toleration_seconds: Option<i64>,
}

impl Toleration {
    /// A field-by-field copy.
    pub fn duplicate(&self) -> (r: Self)
        ensures
            r.model() == self.model(),
    {
        Toleration {
            key: copy_opt(&self.key),
            operator: copy_opt(&self.operator),
            value: copy_opt(&self.value),
            effect: copy_opt(&self.effect),
            toleration_seconds: self.toleration_seconds,
        }
    }
}

fn copy_opt(o: &Option<String>) -> (r: Option<String>)
    ensures
        opt_view(r) == opt_view(*o),
{
    match o {
        Some(s) => Some(s.clone()),
        None => None,
    }
}

/// Copies of every toleration, in order.
pub fn copy_tolerations(ts: &[Toleration]) -> (r: Vec<Toleration>)
    ensures
        toleration_models(r@) == toleration_models(ts@),
{
    let mut out: Vec<Toleration> = Vec::new();
    let mut i: usize = 0;
    while i < ts.len()
        invariant
            i <= ts.len(),
            toleration_models(out@) == toleration_models(ts@).take(i as int),
        decreases ts.len() - i,
    {
        let ghost before = out@;
        let t = ts[i].duplicate();
        out.push(t);
        proof {
            assert(toleration_models(out@) =~= toleration_models(before).push(ts@[i as int].model()));
            assert(toleration_models(ts@).take(i as int + 1) =~= toleration_models(ts@).take(i as int).push(ts@[i as int].model()));
        }
        i += 1;
    }
    proof {
        assert(toleration_models(ts@).take(ts.len() as int) =~= toleration_models(ts@));
    }
    out
}

pub struct TolerationModel {
    pub key: Option<Seq<char>>,
    pub operator: Option<Seq<char>>,
    pub value: Option<Seq<char>>,
    pub effect: Option<Seq<char>>,
    pub toleration_seconds: Option<i64>,
}

pub open spec fn opt_view(o: Option<String>) -> Option<Seq<char>> {
    match o {
        Some(s) => Some(s@),
        None => None,
    }
}

impl Toleration {
    pub open spec fn model(self) -> TolerationModel {
        TolerationModel {
            key: opt_view(self.key),
            operator: opt_view(self.operator),
            value: opt_view(self.value),
            effect: opt_view(self.effect),
            toleration_seconds: self.toleration_seconds,
        }
    }
}

pub open spec fn toleration_models(s: Seq<Toleration>) -> Seq<TolerationModel> {
    s.map_values(|t: Toleration| t.model())
}

/// The values of a string map, as characters.
pub open spec fn string_values(m: Map<Seq<char>, String>) -> Map<Seq<char>, Seq<char>> {
    m.map_values(|v: String| v@)
}

// ---------------------------------------------------------------------
// Node selector
// ---------------------------------------------------------------------

/// `i` is the one `=` of `e`, and not its first character.
pub open spec fn is_sole_separator(e: Seq<char>, i: int) -> bool {
    &&& 0 < i < e.len()
    &&& e[i] == '='
    &&& forall|j: int| 0 <= j < e.len() && j != i ==> #[trigger] e[j] != '='
}

/// The key and value of a `key=value` selector: exactly one `=`, with a
/// non-empty key before it.
pub open spec fn selector_pair(e: Seq<char>) -> Option<(Seq<char>, Seq<char>)> {
    if exists|i: int| is_sole_separator(e, i) {
        let i = choose|i: int| is_sole_separator(e, i);
        Some((e.subrange(0, i), e.subrange(i + 1, e.len() as int)))
    } else {
        None
    }
}

pub open spec fn selector_error(e: Seq<char>) -> Seq<char> {
    "node selector "@ + debug_str(e) + " must be key=value (e.g. banlieue.io/imagebuild=true)"@
}

/// The selector map of `es`, later entries overriding earlier ones, or the
/// error for the first malformed entry.
pub open spec fn selectors_result(es: Seq<Seq<char>>) -> Result<
    Map<Seq<char>, Seq<char>>,
    Seq<char>,
>
    decreases es.len(),
{
    if es.len() == 0 {
        Ok(Map::empty())
    } else {
        match selectors_result(es.drop_last()) {
            Err(m) => Err(m),
            Ok(map) => match selector_pair(es.last()) {
                Some(kv) => Ok(map.insert(kv.0, kv.1)),
                None => Err(selector_error(es.last())),
            },
        }
    }
}

proof fn lemma_selectors_error_sticks(es: Seq<Seq<char>>, i: int)
    requires
        0 <= i <= es.len(),
        selectors_result(es.take(i)) is Err,
    ensures
        selectors_result(es) == selectors_result(es.take(i)),
    decreases es.len(),
{
    if i < es.len() {
        assert(es.drop_last().take(i) =~= es.take(i));
        lemma_selectors_error_sticks(es.drop_last(), i);
    } else {
        assert(es.take(i) =~= es);
    }
}

/// The key and value of a selector entry.
fn split_selector(e: &Vec<char>) -> (r: Option<(String, String)>)
    ensures
        match r {
            Some(kv) => selector_pair(e@) == Some((kv.0@, kv.1@)),
            None => selector_pair(e@) is None,
        },
{
    match find_first(e, '=') {
        None => {
            proof {
                if exists|i: int| is_sole_separator(e@, i) {
                    let i = choose|i: int| is_sole_separator(e@, i);
                    assert(e@[i] == '=');
                }
            }
            None
        },
        Some(f) => {
            if f == 0 {
                proof {
                    if exists|i: int| is_sole_separator(e@, i) {
                        let i = choose|i: int| is_sole_separator(e@, i);
                        assert(e@[0] != '=');
                    }
                }
                return None;
            }
            assert(f < e.len());
            let mut j: usize = f + 1;
            while j < e.len()
                invariant
                    is_first_index(e@, '=', f as int),
                    f < j <= e.len(),
                    forall|k: int| f < k < j ==> #[trigger] e@[k] != '=',
                decreases e.len() - j,
            {
                if e[j] == '=' {
                    proof {
                        if exists|i: int| is_sole_separator(e@, i) {
                            let i = choose|i: int| is_sole_separator(e@, i);
                            if i != f as int {
                                assert(e@[f as int] != '=');
                            } else {
                                assert(e@[j as int] != '=');
                            }
                        }
                    }
                    return None;
                }
                j += 1;
            }
            proof {
                assert(is_sole_separator(e@, f as int));
                let i = choose|i: int| is_sole_separator(e@, i);
                if i != f as int {
                    assert(e@[f as int] != '=');
                }
            }
            Some((substring_of(e, 0, f), substring_of(e, f + 1, e.len())))
        },
    }
}

fn selector_error_message(entry: &str) -> (r: String)
    ensures
        r@ == selector_error(entry@),
        debug_plain(entry@) ==> contains_seq(r@, entry@),
{
    let mut r = owned("node selector ");
    let q = quoted(entry);
    r.append(q.as_str());
    r.append(" must be key=value (e.g. banlieue.io/imagebuild=true)");
    proof {
        if debug_plain(entry@) {
            let pre = "node selector "@;
            let post = " must be key=value (e.g. banlieue.io/imagebuild=true)"@;
            assert(r@ =~= pre + (seq!['"'] + entry@ + seq!['"']) + post);
            lemma_quoted_occurs(pre, entry@, post);
        }
    }
    r
}

/// Parse repeated `key=value` flags into a node selector.
///
/// An entry that is not exactly one `key=value` pair with a non-empty key is
/// an error naming that entry; the first such entry is reported.
pub fn parse_node_selector(entries: &[String]) -> (r: Result<StrMap<String>, String>)
    ensures
        match r {
            Ok(m) => selectors_result(strings_view(entries@)) == Ok::<
                Map<Seq<char>, Seq<char>>,
                Seq<char>,
            >(string_values(m@)),
            Err(msg) => selectors_result(strings_view(entries@)) == Err::<
                Map<Seq<char>, Seq<char>>,
                Seq<char>,
            >(msg@),
        },
        r matches Err(msg) ==> exists|i: int|
            0 <= i < entries.len() && selector_pair(#[trigger] entries@[i]@) is None && (debug_plain(
                entries@[i]@,
            ) ==> contains_seq(msg@, entries@[i]@)),
{
    let ghost es = strings_view(entries@);
    let mut out: StrMap<String> = StrMap::new();
    let mut i: usize = 0;
    proof {
        assert(es.take(0) =~= Seq::<Seq<char>>::empty());
        assert(string_values(out@) =~= Map::<Seq<char>, Seq<char>>::empty());
    }
    while i < entries.len()
        invariant
            i <= entries.len(),
            es == strings_view(entries@),
            selectors_result(es.take(i as int)) == Ok::<Map<Seq<char>, Seq<char>>, Seq<char>>(
                string_values(out@),
            ),
        decreases entries.len() - i,
    {
        let e = chars_of(entries[i].as_str());
        proof {
            assert(es.take(i as int + 1).drop_last() =~= es.take(i as int));
            assert(es.take(i as int + 1).last() == es[i as int]);
        }
        match split_selector(&e) {
            Some(kv) => {
                let ghost before = out@;
                let (k, v) = kv;
                out.insert(k, v);
                proof {
                    assert(string_values(out@) =~= string_values(before).insert(k@, v@));
                }
            },
            None => {
                proof {
                    lemma_selectors_error_sticks(es, i as int + 1);
                }
                let m = selector_error_message(entries[i].as_str());
                proof {
                    assert(selector_pair(entries@[i as int]@) is None);
                }
                return Err(m);
            },
        }
        i += 1;
    }
    proof {
        assert(es.take(entries.len() as int) =~= es);
    }
    Ok(out)
}

// ---------------------------------------------------------------------
// Tolerations
// ---------------------------------------------------------------------

pub open spec fn is_valid_effect(e: Seq<char>) -> bool {
    e == NO_SCHEDULE@ || e == PREFER_NO_SCHEDULE@ || e == NO_EXECUTE@
}

pub open spec fn valid_effects_list() -> Seq<char> {
    join(seq![NO_SCHEDULE@, PREFER_NO_SCHEDULE@, NO_EXECUTE@], ", "@)
}

/// A `key[=value]:Effect` flag as a toleration: the effect follows the last
/// `:`; `key=value` (split at the first `=`) is an `Equal` match and a bare
/// `key` an `Exists` match.
pub open spec fn toleration_of(e: Seq<char>) -> Result<TolerationModel, Seq<char>> {
    if !e.contains(':') {
        Err(
            "toleration "@ + debug_str(e)
                + " must end in an effect, e.g. dedicated=imagebuild:NoSchedule"@,
        )
    } else {
        let c = last_index(e, ':');
        let lhs = e.subrange(0, c);
        let effect = e.subrange(c + 1, e.len() as int);
        if !is_valid_effect(effect) {
            Err(
                "toleration "@ + debug_str(e) + " has unknown effect "@ + debug_str(effect)
                    + "; expected one of "@ + valid_effects_list(),
            )
        } else if lhs.contains('=') {
            let q = first_index(lhs, '=');
            Ok(
                TolerationModel {
                    key: Some(lhs.subrange(0, q)),
                    operator: Some("Equal"@),
                    value: Some(lhs.subrange(q + 1, lhs.len() as int)),
                    effect: Some(effect),
                    toleration_seconds: None,
                },
            )
        } else {
            Ok(
                TolerationModel {
                    key: Some(lhs),
                    operator: Some("Exists"@),
                    value: None,
                    effect: Some(effect),
                    toleration_seconds: None,
                },
            )
        }
    }
}

/// The tolerations of `es`, or the error for the first malformed entry.
pub open spec fn tolerations_result(es: Seq<Seq<char>>) -> Result<Seq<TolerationModel>, Seq<char>>
    decreases es.len(),
{
    if es.len() == 0 {
        Ok(Seq::empty())
    } else {
        match tolerations_result(es.drop_last()) {
            Err(m) => Err(m),
            Ok(ts) => match toleration_of(es.last()) {
                Ok(t) => Ok(ts.push(t)),
                Err(m) => Err(m),
            },
        }
    }
}

proof fn lemma_tolerations_error_sticks(es: Seq<Seq<char>>, i: int)
    requires
        0 <= i <= es.len(),
        tolerations_result(es.take(i)) is Err,
    ensures
        tolerations_result(es) == tolerations_result(es.take(i)),
    decreases es.len(),
{
    if i < es.len() {
        assert(es.drop_last().take(i) =~= es.take(i));
        lemma_tolerations_error_sticks(es.drop_last(), i);
    } else {
        assert(es.take(i) =~= es);
    }
}

fn is_valid_effect_str(e: &str) -> (r: bool)
    ensures
        r == is_valid_effect(e@),
{
    str_eq(e, NO_SCHEDULE) || str_eq(e, PREFER_NO_SCHEDULE) || str_eq(e, NO_EXECUTE)
}

/// One toleration flag parsed.
fn parse_toleration(entry: &str) -> (r: Result<Toleration, String>)
    ensures
        match r {
            Ok(t) => toleration_of(entry@) == Ok::<TolerationModel, Seq<char>>(t.model()),
            Err(msg) => toleration_of(entry@) == Err::<TolerationModel, Seq<char>>(msg@),
        },
        r matches Err(msg) ==> (debug_plain(entry@) ==> contains_seq(msg@, entry@)),
{
    let e = chars_of(entry);
    let c = match find_last(&e, ':') {
        Some(c) => c,
        None => {
            let mut r = owned("toleration ");
            let q = quoted(entry);
            r.append(q.as_str());
            r.append(" must end in an effect, e.g. dedicated=imagebuild:NoSchedule");
            proof {
                if debug_plain(entry@) {
                    let pre = "toleration "@;
                    let post = " must end in an effect, e.g. dedicated=imagebuild:NoSchedule"@;
                    assert(r@ =~= pre + (seq!['"'] + entry@ + seq!['"']) + post);
                    lemma_quoted_occurs(pre, entry@, post);
                }
            }
            return Err(r);
        },
    };
    proof {
        lemma_last_index(e@, ':', c as int);
    }
    assert(c < e.len());
    let lhs = substring_of(&e, 0, c);
    let effect = substring_of(&e, c + 1, e.len());
    if !is_valid_effect_str(effect.as_str()) {
        let mut r = owned("toleration ");
        let q = quoted(entry);
        r.append(q.as_str());
        r.append(" has unknown effect ");
        let qe = quoted(effect.as_str());
        r.append(qe.as_str());
        r.append("; expected one of ");
        let effects: Vec<&str> = vec![NO_SCHEDULE, PREFER_NO_SCHEDULE, NO_EXECUTE];
        let list = join_strs(effects.as_slice(), ", ");
        proof {
            assert(strs_view(effects@) =~= seq![NO_SCHEDULE@, PREFER_NO_SCHEDULE@, NO_EXECUTE@]);
        }
        r.append(list.as_str());
        proof {
            if debug_plain(entry@) {
                let pre = "toleration "@;
                let post = " has unknown effect "@ + qe@ + "; expected one of "@ + list@;
                assert(r@ =~= pre + (seq!['"'] + entry@ + seq!['"']) + post);
                lemma_quoted_occurs(pre, entry@, post);
            }
        }
        return Err(r);
    }
    let l = chars_of(lhs.as_str());
    match find_first(&l, '=') {
        Some(q) => {
            proof {
                lemma_first_index(l@, '=', q as int);
            }
            Ok(
                Toleration {
                    key: Some(substring_of(&l, 0, q)),
                    operator: Some(owned("Equal")),
                    value: Some(substring_of(&l, q + 1, l.len())),
                    effect: Some(effect),
                    toleration_seconds: None,
                },
            )
        },
        None => Ok(
            Toleration {
                key: Some(lhs),
                operator: Some(owned("Exists")),
                value: None,
                effect: Some(effect),
                toleration_seconds: None,
            },
        ),
    }
}

/// Parse repeated `key[=value]:Effect` flags into tolerations.
///
/// A flag without an effect, or with an effect Kubernetes does not know, is
/// an error naming it; the first such flag is reported.
pub fn parse_tolerations(entries: &[String]) -> (r: Result<Vec<Toleration>, String>)
    ensures
        match r {
            Ok(v) => tolerations_result(strings_view(entries@)) == Ok::<
                Seq<TolerationModel>,
                Seq<char>,
            >(toleration_models(v@)),
            Err(msg) => tolerations_result(strings_view(entries@)) == Err::<
                Seq<TolerationModel>,
                Seq<char>,
            >(msg@),
        },
        r matches Err(msg) ==> exists|i: int|
            0 <= i < entries.len() && toleration_of(#[trigger] entries@[i]@) is Err && (
            debug_plain(entries@[i]@) ==> contains_seq(msg@, entries@[i]@)),
{
    let ghost es = strings_view(entries@);
    let mut out: Vec<Toleration> = Vec::new();
    let mut i: usize = 0;
    proof {
        assert(es.take(0) =~= Seq::<Seq<char>>::empty());
        assert(toleration_models(out@) =~= Seq::<TolerationModel>::empty());
    }
    while i < entries.len()
        invariant
            i <= entries.len(),
            es == strings_view(entries@),
            tolerations_result(es.take(i as int)) == Ok::<Seq<TolerationModel>, Seq<char>>(
                toleration_models(out@),
            ),
        decreases entries.len() - i,
    {
        proof {
            assert(es.take(i as int + 1).drop_last() =~= es.take(i as int));
            assert(es.take(i as int + 1).last() == es[i as int]);
        }
        match parse_toleration(entries[i].as_str()) {
            Ok(t) => {
                let ghost before = out@;
                out.push(t);
                proof {
                    assert(toleration_models(out@) =~= toleration_models(before).push(t.model()));
                }
            },
            Err(msg) => {
                proof {
                    lemma_tolerations_error_sticks(es, i as int + 1);
                    assert(toleration_of(entries@[i as int]@) is Err);
                }
                return Err(msg);
            },
        }
        i += 1;
    }
    proof {
        assert(es.take(entries.len() as int) =~= es);
    }
    Ok(out)
}

// ---------------------------------------------------------------------
// Both together
// ---------------------------------------------------------------------

/// Where build and import workloads are allowed to run. Empty means no
/// constraint.
#[derive(Debug)]
pub struct BuildScheduling {
    pub node_selector: StrMap<String>,
    pub tolerations: Vec<Toleration>,
}

impl BuildScheduling {
    /// No constraint at all.
    pub fn unconstrained() -> (r: Self)
        ensures
            r.node_selector@ == Map::<Seq<char>, String>::empty(),
            r.tolerations@.len() == 0,
    {
        BuildScheduling { node_selector: StrMap::new(), tolerations: Vec::new() }
    }

    /// Parse both from repeated flags; the first failure is reported, node
    /// selectors first.
    pub fn from_flags(selectors: &[String], tolerations: &[String]) -> (r: Result<Self, String>)
        ensures
            match selectors_result(strings_view(selectors@)) {
                Err(m) => r matches Err(msg) && msg@ == m,
                Ok(map) => match tolerations_result(strings_view(tolerations@)) {
                    Err(m) => r matches Err(msg) && msg@ == m,
                    Ok(ts) => r matches Ok(b) && string_values(b.node_selector@) == map
                        && toleration_models(b.tolerations@) == ts,
                },
            },
    {
        let node_selector = match parse_node_selector(selectors) {
            Ok(m) => m,
            Err(e) => return Err(e),
        };
        let tolerations = match parse_tolerations(tolerations) {
            Ok(t) => t,
            Err(e) => return Err(e),
        };
        Ok(BuildScheduling { node_selector, tolerations })
    }

    /// True when no constraint is configured.
    pub fn is_unconstrained(&self) -> (r: bool)
        ensures
            r == (self.node_selector@.len() == 0 && self.tolerations@.len() == 0),
    {
        self.node_selector.is_empty() && self.tolerations.len() == 0
    }
}

} // verus!
