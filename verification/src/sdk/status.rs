//! Condition lists on a resource status.
//!
//! A list holds at most one condition of each `type`, is kept sorted by
//! `type`, and a condition's transition time moves only when its `status`
//! changes.
use vstd::prelude::*;
use crate::text::{
    lemma_text_lt_irreflexive, lemma_text_lt_total, lemma_text_lt_transitive, owned, str_eq,
    text_less, text_lt,
};
use crate::sdk::condition_status;

verus! {

/// One condition of a resource status. `last_transition_time` counts
/// microseconds since the Unix epoch.
pub struct Condition {
    pub type_: String,
    pub status: String,
    pub reason: String,
    pub message: String,
    pub observed_generation: Option<i64>,
    pub last_transition_time: i64,
}

/// A condition as plain values.
pub struct ConditionModel {
    pub type_: Seq<char>,
    pub status: Seq<char>,
    pub reason: Seq<char>,
    pub message: Seq<char>,
    pub observed_generation: Option<i64>,
    pub last_transition_time: i64,
}

impl Condition {
    pub open spec fn model(self) -> ConditionModel {
        ConditionModel {
            type_: self.type_@,
            status: self.status@,
            reason: self.reason@,
            message: self.message@,
            observed_generation: self.observed_generation,
            last_transition_time: self.last_transition_time,
        }
    }
}

pub open spec fn models(s: Seq<Condition>) -> Seq<ConditionModel> {
    s.map_values(|c: Condition| c.model())
}

// ---------------------------------------------------------------------
// Stable sort by type
// ---------------------------------------------------------------------

/// Where `x` goes in a list sorted by type: before the first entry whose
/// type is not smaller.
pub open spec fn insert_pos(t: Seq<ConditionModel>, k: Seq<char>) -> nat
    decreases t.len(),
{
    if t.len() == 0 {
        0
    } else if !text_lt(t[0].type_, k) {
        0
    } else {
        1 + insert_pos(t.drop_first(), k)
    }
}

/// The list sorted by type, entries of equal type keeping their order (the
/// result of a stable sort).
pub open spec fn sort_by_type(s: Seq<ConditionModel>) -> Seq<ConditionModel>
    decreases s.len(),
{
    if s.len() == 0 {
        s
    } else {
        let rest = sort_by_type(s.drop_first());
        rest.insert(insert_pos(rest, s[0].type_) as int, s[0])
    }
}

pub open spec fn sorted_by_type(s: Seq<ConditionModel>) -> bool {
    forall|i: int, j: int| 0 <= i < j < s.len() ==> !text_lt(#[trigger] s[j].type_, #[trigger] s[i].type_)
}

pub open spec fn one_per_type(s: Seq<ConditionModel>) -> bool {
    forall|i: int, j: int| 0 <= i < j < s.len() ==> #[trigger] s[i].type_ != #[trigger] s[j].type_
}

proof fn lemma_insert_pos(t: Seq<ConditionModel>, k: Seq<char>)
    ensures
        insert_pos(t, k) <= t.len(),
        forall|i: int| 0 <= i < insert_pos(t, k) ==> text_lt(#[trigger] t[i].type_, k),
        insert_pos(t, k) < t.len() ==> !text_lt(t[insert_pos(t, k) as int].type_, k),
    decreases t.len(),
{
    if t.len() > 0 && text_lt(t[0].type_, k) {
        lemma_insert_pos(t.drop_first(), k);
        assert forall|i: int| 0 <= i < insert_pos(t, k) implies text_lt(#[trigger] t[i].type_, k) by {
            if i > 0 {
                assert(t[i] == t.drop_first()[i - 1]);
            }
        }
    }
}

proof fn lemma_insert_pos_first(t: Seq<ConditionModel>, k: Seq<char>, j: int)
    requires
        0 <= j <= t.len(),
        forall|i: int| 0 <= i < j ==> text_lt(#[trigger] t[i].type_, k),
        j < t.len() ==> !text_lt(t[j].type_, k),
    ensures
        insert_pos(t, k) == j,
    decreases t.len(),
{
    if t.len() > 0 && j > 0 {
        assert(text_lt(t[0].type_, k));
        assert forall|i: int| 0 <= i < j - 1 implies text_lt(#[trigger] t.drop_first()[i].type_, k) by {
            assert(t.drop_first()[i] == t[i + 1]);
        }
        lemma_insert_pos_first(t.drop_first(), k, j - 1);
    }
}

proof fn lemma_insert_sorted(t: Seq<ConditionModel>, x: ConditionModel)
    requires
        sorted_by_type(t),
    ensures
        sorted_by_type(t.insert(insert_pos(t, x.type_) as int, x)),
{
    lemma_insert_pos(t, x.type_);
    let p = insert_pos(t, x.type_) as int;
    let r = t.insert(p, x);
    t.insert_ensures(p, x);
    assert forall|i: int, j: int| 0 <= i < j < r.len() implies !text_lt(#[trigger] r[j].type_, #[trigger] r[i].type_) by {
        if j < p {
            assert(r[i] == t[i] && r[j] == t[j]);
        } else if j == p {
            assert(r[i] == t[i]);
            assert(text_lt(t[i].type_, x.type_));
            if text_lt(x.type_, t[i].type_) {
                lemma_text_lt_transitive(x.type_, t[i].type_, x.type_);
                lemma_text_lt_irreflexive(x.type_);
            }
        } else if i < p {
            assert(r[i] == t[i] && r[j] == t[j - 1]);
        } else if i == p {
            assert(r[j] == t[j - 1]);
            // x <= t[p] <= t[j - 1]
            assert(!text_lt(t[p].type_, x.type_));
            if p < j - 1 {
                assert(!text_lt(t[j - 1].type_, t[p].type_));
            }
            if text_lt(t[j - 1].type_, x.type_) {
                lemma_text_lt_total(x.type_, t[p].type_);
                if text_lt(x.type_, t[p].type_) {
                    lemma_text_lt_transitive(t[j - 1].type_, x.type_, t[p].type_);
                    if p == j - 1 {
                        lemma_text_lt_irreflexive(t[p].type_);
                    }
                }
            }
        } else {
            assert(r[i] == t[i - 1] && r[j] == t[j - 1]);
        }
    }
}

/// A stably sorted list is sorted by type.
pub proof fn lemma_sort_is_sorted(s: Seq<ConditionModel>)
    ensures
        sorted_by_type(sort_by_type(s)),
    decreases s.len(),
{
    if s.len() > 0 {
        lemma_sort_is_sorted(s.drop_first());
        lemma_insert_sorted(sort_by_type(s.drop_first()), s[0]);
    }
}

/// Sorting keeps every entry, as often as it occurs.
pub proof fn lemma_sort_permutes(s: Seq<ConditionModel>)
    ensures
        sort_by_type(s).to_multiset() == s.to_multiset(),
        sort_by_type(s).len() == s.len(),
    decreases s.len(),
{
    broadcast use vstd::seq_lib::group_to_multiset_ensures;
    broadcast use vstd::multiset::group_multiset_axioms;

    if s.len() > 0 {
        lemma_sort_permutes(s.drop_first());
        let rest = sort_by_type(s.drop_first());
        lemma_insert_pos(rest, s[0].type_);
        assert(s =~= s.drop_first().insert(0, s[0]));
        assert(sort_by_type(s).to_multiset() =~= s.to_multiset());
    }
}

proof fn lemma_sort_keeps_one_per_type(s: Seq<ConditionModel>)
    requires
        one_per_type(s),
    ensures
        one_per_type(sort_by_type(s)),
    decreases s.len(),
{
    broadcast use vstd::seq_lib::group_to_multiset_ensures;

    if s.len() > 0 {
        let d = s.drop_first();
        assert forall|i: int, j: int| 0 <= i < j < d.len() implies #[trigger] d[i].type_ != #[trigger] d[j].type_ by {
            assert(d[i] == s[i + 1] && d[j] == s[j + 1]);
        }
        lemma_sort_keeps_one_per_type(d);
        lemma_sort_permutes(d);
        let rest = sort_by_type(d);
        let x = s[0];
        lemma_insert_pos(rest, x.type_);
        let p = insert_pos(rest, x.type_) as int;
        rest.insert_ensures(p, x);
        let r = rest.insert(p, x);
        assert forall|k: int| 0 <= k < rest.len() implies #[trigger] rest[k].type_ != x.type_ by {
            assert(rest.to_multiset().count(rest[k]) > 0);
            assert(d.contains(rest[k]));
            let m = choose|m: int| 0 <= m < d.len() && d[m] == rest[k];
            assert(s[m + 1] == d[m]);
        }
        assert forall|i: int, j: int| 0 <= i < j < r.len() implies #[trigger] r[i].type_ != #[trigger] r[j].type_ by {
            if j < p {
                assert(r[i] == rest[i] && r[j] == rest[j]);
            } else if j == p {
                assert(r[i] == rest[i]);
            } else if i < p {
                assert(r[i] == rest[i] && r[j] == rest[j - 1]);
            } else if i == p {
                assert(r[j] == rest[j - 1]);
            } else {
                assert(r[i] == rest[i - 1] && r[j] == rest[j - 1]);
            }
        }
    }
}

/// The position at which `type_` goes in a list sorted by type.
fn insert_position(out: &Vec<Condition>, type_: &str) -> (p: usize)
    ensures
        p == insert_pos(models(out@), type_@),
{
    let ghost t = models(out@);
    let mut j: usize = 0;
    while j < out.len()
        invariant
            j <= out.len(),
            t == models(out@),
            forall|i: int| 0 <= i < j ==> text_lt(#[trigger] t[i].type_, type_@),
        decreases out.len() - j,
    {
        if !text_less(out[j].type_.as_str(), type_) {
            proof {
                lemma_insert_pos_first(t, type_@, j as int);
            }
            return j;
        }
        j += 1;
    }
    proof {
        lemma_insert_pos_first(t, type_@, j as int);
    }
    j
}

/// `v` sorted by type; entries of equal type keep their order.
pub fn sort_conditions(v: Vec<Condition>) -> (r: Vec<Condition>)
    ensures
        models(r@) == sort_by_type(models(v@)),
{
    let ghost s = models(v@);
    let mut rest = v;
    let mut out: Vec<Condition> = Vec::new();
    proof {
        assert(s.skip(s.len() as int) =~= Seq::<ConditionModel>::empty());
        assert(models(rest@) =~= s.take(rest.len() as int));
    }
    while rest.len() > 0
        invariant
            rest.len() <= s.len(),
            models(rest@) == s.take(rest.len() as int),
            models(out@) == sort_by_type(s.skip(rest.len() as int)),
        decreases rest.len(),
    {
        let ghost n = rest.len() as int;
        let ghost before = rest@;
        let x = rest.pop().unwrap();
        proof {
            assert(rest@ == before.drop_last());
            assert(x == before.last());
            assert(models(before)[n - 1] == x.model());
            assert(s.take(n)[n - 1] == x.model());
            assert(models(rest@) =~= s.take(n - 1));
            assert(s.skip(n - 1).drop_first() =~= s.skip(n));
            assert(s.skip(n - 1)[0] == s[n - 1]);
        }
        let p = insert_position(&out, x.type_.as_str());
        let ghost out_before = out@;
        proof {
            lemma_insert_pos(models(out_before), x.type_@);
        }
        out.insert(p, x);
        proof {
            assert(out@ == out_before.insert(p as int, x));
            assert(models(out@) =~= models(out_before).insert(p as int, x.model()));
        }
    }
    proof {
        assert(s.skip(0) =~= s);
    }
    out
}

// ---------------------------------------------------------------------
// Setting a condition
// ---------------------------------------------------------------------

pub open spec fn has_type(s: Seq<ConditionModel>, t: Seq<char>) -> bool {
    exists|i: int| 0 <= i < s.len() && #[trigger] s[i].type_ == t
}

pub open spec fn is_first_of_type(s: Seq<ConditionModel>, t: Seq<char>, i: int) -> bool {
    &&& 0 <= i < s.len()
    &&& s[i].type_ == t
    &&& forall|j: int| 0 <= j < i ==> #[trigger] s[j].type_ != t
}

/// The index of the first condition of type `t`.
pub open spec fn first_of_type(s: Seq<ConditionModel>, t: Seq<char>) -> int {
    choose|i: int| is_first_of_type(s, t, i)
}

/// `c` after setting status, reason, message and generation; its transition
/// time moves to `now` only when the status changes.
pub open spec fn refreshed(
    c: ConditionModel,
    status: Seq<char>,
    reason: Seq<char>,
    message: Seq<char>,
    generation: i64,
    now: i64,
) -> ConditionModel {
    ConditionModel {
        type_: c.type_,
        status,
        reason,
        message,
        observed_generation: Some(generation),
        last_transition_time: if c.status == status {
            c.last_transition_time
        } else {
            now
        },
    }
}

pub open spec fn fresh(
    t: Seq<char>,
    status: Seq<char>,
    reason: Seq<char>,
    message: Seq<char>,
    generation: i64,
    now: i64,
) -> ConditionModel {
    ConditionModel {
        type_: t,
        status,
        reason,
        message,
        observed_generation: Some(generation),
        last_transition_time: now,
    }
}

/// The list with the first condition of type `t` refreshed in place, or a
/// fresh condition appended when there is none.
pub open spec fn upsert(
    s: Seq<ConditionModel>,
    t: Seq<char>,
    status: Seq<char>,
    reason: Seq<char>,
    message: Seq<char>,
    generation: i64,
    now: i64,
) -> Seq<ConditionModel> {
    if has_type(s, t) {
        let i = first_of_type(s, t);
        s.update(i, refreshed(s[i], status, reason, message, generation, now))
    } else {
        s.push(fresh(t, status, reason, message, generation, now))
    }
}

/// Every condition of a type other than `t` is in `after` exactly when it
/// is in `before`: none is changed, dropped or added.
pub open spec fn keeps_other_types(before: Seq<ConditionModel>, after: Seq<ConditionModel>, t: Seq<char>) -> bool {
    forall|c: ConditionModel| c.type_ != t ==> (before.contains(c) <==> #[trigger] after.contains(c))
}

/// The list after setting a condition of type `t` at time `now`.
pub open spec fn after_set(
    s: Seq<ConditionModel>,
    t: Seq<char>,
    status: Seq<char>,
    reason: Seq<char>,
    message: Seq<char>,
    generation: i64,
    now: i64,
) -> Seq<ConditionModel> {
    sort_by_type(upsert(s, t, status, reason, message, generation, now))
}

proof fn lemma_first_of_type(s: Seq<ConditionModel>, t: Seq<char>, i: int)
    requires
        is_first_of_type(s, t, i),
    ensures
        first_of_type(s, t) == i,
        has_type(s, t),
{
    let j = first_of_type(s, t);
    assert(is_first_of_type(s, t, j));
    if j < i {
        assert(s[j].type_ != t);
    } else if i < j {
        assert(s[i].type_ != t);
    }
}

proof fn lemma_has_first(s: Seq<ConditionModel>, t: Seq<char>)
    requires
        has_type(s, t),
    ensures
        is_first_of_type(s, t, first_of_type(s, t)),
    decreases s.len(),
{
    if s[0].type_ == t {
        assert(is_first_of_type(s, t, 0));
    } else {
        let k = choose|k: int| 0 <= k < s.len() && #[trigger] s[k].type_ == t;
        let d = s.drop_first();
        assert(d[k - 1] == s[k]);
        lemma_has_first(d, t);
        let j = first_of_type(d, t);
        assert forall|m: int| 0 <= m < j + 1 implies #[trigger] s[m].type_ != t by {
            if m > 0 {
                assert(s[m] == d[m - 1]);
            }
        }
        assert(is_first_of_type(s, t, j + 1));
    }
}

/// The index of the first condition of type `type_`, if any.
fn position_of_type(conditions: &[Condition], type_: &str) -> (r: Option<usize>)
    ensures
        match r {
            Some(i) => is_first_of_type(models(conditions@), type_@, i as int),
            None => !has_type(models(conditions@), type_@),
        },
{
    let ghost m = models(conditions@);
    let mut i: usize = 0;
    while i < conditions.len()
        invariant
            i <= conditions.len(),
            m == models(conditions@),
            forall|j: int| 0 <= j < i ==> #[trigger] m[j].type_ != type_@,
        decreases conditions.len() - i,
    {
        if str_eq(conditions[i].type_.as_str(), type_) {
            return Some(i);
        }
        i += 1;
    }
    None
}

/// Upsert a condition into `conditions` at time `now` (microseconds since
/// the Unix epoch), then sort the list by type.
///
/// An existing condition of the same type keeps its place and transition
/// time when its status is unchanged, and takes `now` when the status flips;
/// otherwise a new condition stamped `now` is appended.
pub fn set_condition_at(
    conditions: &mut Vec<Condition>,
    type_: &str,
    status: &str,
    reason: &str,
    message: &str,
    observed_generation: i64,
    now: i64,
)
    ensures
        models(final(conditions)@) == after_set(
            models(old(conditions)@),
            type_@,
            status@,
            reason@,
            message@,
            observed_generation,
            now,
        ),
        keeps_other_types(models(old(conditions)@), models(final(conditions)@), type_@),
        final(conditions)@.len() == old(conditions)@.len() + if has_type(
            models(old(conditions)@),
            type_@,
        ) {
            0int
        } else {
            1int
        },
{
    let ghost s = models(conditions@);
    proof {
        lemma_set_condition(s, type_@, status@, reason@, message@, observed_generation, now);
    }
    match position_of_type(conditions.as_slice(), type_) {
        Some(i) => {
            proof {
                lemma_first_of_type(s, type_@, i as int);
            }
            let ghost before = conditions@;
            let mut c = conditions.remove(i);
            if !str_eq(c.status.as_str(), status) {
                c.status = owned(status);
                c.last_transition_time = now;
            }
            c.reason = owned(reason);
            c.message = owned(message);
            c.observed_generation = Some(observed_generation);
            let ghost removed = conditions@;
            conditions.insert(i, c);
            proof {
                assert(removed == before.remove(i as int));
                assert(conditions@ =~= before.update(i as int, c));
                assert(models(conditions@) =~= s.update(
                    i as int,
                    refreshed(s[i as int], status@, reason@, message@, observed_generation, now),
                ));
            }
        },
        None => {
            conditions.push(
                Condition {
                    type_: owned(type_),
                    status: owned(status),
                    reason: owned(reason),
                    message: owned(message),
                    observed_generation: Some(observed_generation),
                    last_transition_time: now,
                },
            );
            proof {
                assert(models(conditions@) =~= s.push(
                    fresh(type_@, status@, reason@, message@, observed_generation, now),
                ));
            }
        },
    }
    let mut v: Vec<Condition> = Vec::new();
    std::mem::swap(conditions, &mut v);
    *conditions = sort_conditions(v);
}

#[verifier::external_type_specification]
#[verifier::external_body]
pub struct ExSystemTime(std::time::SystemTime);

/// `std::time::SystemTime::now()`: the system clock's reading. It depends
/// on the clock, so nothing is claimed of it.
#[verifier::external_body]
fn system_now() -> (t: std::time::SystemTime) {
    std::time::SystemTime::now()
}

/// `SystemTime::duration_since(UNIX_EPOCH)`, its error (a clock before the
/// epoch, which it reports rather than panics on) as `None`. Nothing is
/// claimed of the duration.
#[verifier::external_body]
fn since_epoch(t: &std::time::SystemTime) -> (d: Option<std::time::Duration>) {
    t.duration_since(std::time::UNIX_EPOCH).ok()
}

/// `Duration::as_micros`: the whole microseconds of `d`. A `Duration` is
/// opaque here, so nothing is claimed of the number.
#[verifier::external_body]
fn duration_micros(d: &std::time::Duration) -> (m: u128) {
    d.as_micros()
}

/// The current time in microseconds since the epoch: 0 for a clock set
/// before the epoch, `i64::MAX` past the range of an `i64`.
fn now_micros() -> (t: i64) {
    let now = system_now();
    match since_epoch(&now) {
        None => 0,
        Some(d) => {
            let m = duration_micros(&d);
            if m <= i64::MAX as u128 {
                m as i64
            } else {
                i64::MAX
            }
        },
    }
}

/// Upsert a condition into `conditions`, stamped with the current time, and
/// keep the list sorted by type (see [`set_condition_at`]).
pub fn set_condition(
    conditions: &mut Vec<Condition>,
    type_: &str,
    status: &str,
    reason: &str,
    message: &str,
    observed_generation: i64,
)
    ensures
        exists|now: i64|
            models(final(conditions)@) == #[trigger] after_set(
                models(old(conditions)@),
                type_@,
                status@,
                reason@,
                message@,
                observed_generation,
                now,
            ),
        keeps_other_types(models(old(conditions)@), models(final(conditions)@), type_@),
        final(conditions)@.len() == old(conditions)@.len() + if has_type(
            models(old(conditions)@),
            type_@,
        ) {
            0int
        } else {
            1int
        },
{
    let now = now_micros();
    set_condition_at(conditions, type_, status, reason, message, observed_generation, now);
}

/// Whether some condition of type `type_` has status `"True"`.
pub fn is_condition_true(conditions: &[Condition], type_: &str) -> (r: bool)
    ensures
        r == exists|i: int|
            0 <= i < conditions.len() && #[trigger] conditions@[i].type_@ == type_@
                && conditions@[i].status@ == condition_status::TRUE@,
{
    let mut i: usize = 0;
    while i < conditions.len()
        invariant
            i <= conditions.len(),
            forall|j: int|
                0 <= j < i ==> !(#[trigger] conditions@[j].type_@ == type_@
                    && conditions@[j].status@ == condition_status::TRUE@),
        decreases conditions.len() - i,
    {
        if str_eq(conditions[i].type_.as_str(), type_) && str_eq(
            conditions[i].status.as_str(),
            condition_status::TRUE,
        ) {
            assert(conditions@[i as int].type_@ == type_@);
            return true;
        }
        i += 1;
    }
    false
}

/// The first condition of type `type_`, if any.
pub fn find_condition<'a>(conditions: &'a [Condition], type_: &str) -> (r: Option<&'a Condition>)
    ensures
        r is Some <==> has_type(models(conditions@), type_@),
        r matches Some(c) ==> *c == conditions@[first_of_type(models(conditions@), type_@)],
{
    match position_of_type(conditions, type_) {
        Some(i) => {
            proof {
                lemma_first_of_type(models(conditions@), type_@, i as int);
            }
            Some(&conditions[i])
        },
        None => None,
    }
}

// ---------------------------------------------------------------------
// Laws
// ---------------------------------------------------------------------

/// Setting a condition of type `t`:
/// - leaves the list sorted by type;
/// - keeps a list that held one condition per type holding one per type;
/// - leaves a condition of type `t` with the given status, reason, message
///   and generation, whose transition time is the old one when the status
///   did not change and `now` otherwise;
/// - keeps every condition of another type, and adds none;
/// - grows the list by one exactly when no condition of type `t` was there.
pub proof fn lemma_set_condition(
    s: Seq<ConditionModel>,
    t: Seq<char>,
    status: Seq<char>,
    reason: Seq<char>,
    message: Seq<char>,
    generation: i64,
    now: i64,
)
    ensures
        sorted_by_type(after_set(s, t, status, reason, message, generation, now)),
        one_per_type(s) ==> one_per_type(after_set(s, t, status, reason, message, generation, now)),
        exists|i: int|
            0 <= i < after_set(s, t, status, reason, message, generation, now).len() && {
                let c = #[trigger] after_set(s, t, status, reason, message, generation, now)[i];
                &&& c.type_ == t
                &&& c.status == status
                &&& c.reason == reason
                &&& c.message == message
                &&& c.observed_generation == Some(generation)
                &&& c.last_transition_time == if has_type(s, t) && s[first_of_type(
                    s,
                    t,
                )].status == status {
                    s[first_of_type(s, t)].last_transition_time
                } else {
                    now
                }
            },
        forall|c: ConditionModel|
            c.type_ != t ==> (s.contains(c) <==> after_set(
                s,
                t,
                status,
                reason,
                message,
                generation,
                now,
            ).contains(c)),
        after_set(s, t, status, reason, message, generation, now).len() == if has_type(s, t) {
            s.len()
        } else {
            s.len() + 1
        },
{
    broadcast use vstd::seq_lib::group_to_multiset_ensures;

    let u = upsert(s, t, status, reason, message, generation, now);
    let r = after_set(s, t, status, reason, message, generation, now);
    lemma_sort_is_sorted(u);
    lemma_sort_permutes(u);
    // the condition of type `t` in `u`
    let k = if has_type(s, t) {
        first_of_type(s, t)
    } else {
        s.len() as int
    };
    if has_type(s, t) {
        lemma_has_first(s, t);
    }
    assert(u[k].type_ == t && u[k].status == status);
    assert(u.contains(u[k]));
    assert(u.to_multiset().count(u[k]) > 0);
    assert(r.to_multiset().count(u[k]) > 0);
    assert(r.contains(u[k]));
    let i = choose|i: int| 0 <= i < r.len() && r[i] == u[k];
    assert(r[i] == u[k]);
    // conditions of other types
    assert forall|c: ConditionModel| c.type_ != t implies (s.contains(c) <==> r.contains(c)) by {
        if s.contains(c) {
            let m = choose|m: int| 0 <= m < s.len() && s[m] == c;
            assert(u[m] == c);
            assert(u.contains(c));
            assert(u.to_multiset().count(c) > 0);
            assert(r.to_multiset().count(c) > 0);
        }
        if r.contains(c) {
            assert(r.to_multiset().count(c) > 0);
            assert(u.to_multiset().count(c) > 0);
            assert(u.contains(c));
            let m = choose|m: int| 0 <= m < u.len() && u[m] == c;
            assert(m != k);
            assert(s[m] == c);
        }
    }
    // one condition per type
    if one_per_type(s) {
        assert forall|a: int, b: int| 0 <= a < b < u.len() implies #[trigger] u[a].type_ != #[trigger] u[b].type_ by {
            if has_type(s, t) {
                if a != k && b != k {
                    assert(u[a] == s[a] && u[b] == s[b]);
                } else if a == k {
                    assert(u[b] == s[b]);
                } else {
                    assert(u[a] == s[a]);
                }
            } else if b == k {
                assert(u[a] == s[a]);
            } else {
                assert(u[a] == s[a] && u[b] == s[b]);
            }
        }
        lemma_sort_keeps_one_per_type(u);
    }
}

/// Types strictly increase along `s`.
pub open spec fn strictly_sorted_by_type(s: Seq<ConditionModel>) -> bool {
    forall|i: int, j: int| 0 <= i < j < s.len() ==> text_lt(#[trigger] s[i].type_, #[trigger] s[j].type_)
}

/// The conditions of `s` whose type is not `t`, in order.
pub open spec fn others_of(s: Seq<ConditionModel>, t: Seq<char>) -> Seq<ConditionModel> {
    s.filter(|c: ConditionModel| c.type_ != t)
}

proof fn lemma_strictly_sorted(s: Seq<ConditionModel>)
    requires
        sorted_by_type(s),
        one_per_type(s),
    ensures
        strictly_sorted_by_type(s),
{
    assert forall|i: int, j: int| 0 <= i < j < s.len() implies text_lt(
        #[trigger] s[i].type_,
        #[trigger] s[j].type_,
    ) by {
        lemma_text_lt_total(s[i].type_, s[j].type_);
    }
}

proof fn lemma_filter_strictly_sorted(s: Seq<ConditionModel>, p: spec_fn(ConditionModel) -> bool)
    requires
        strictly_sorted_by_type(s),
    ensures
        strictly_sorted_by_type(s.filter(p)),
    decreases s.len(),
{
    reveal(Seq::filter);
    if s.len() > 0 {
        let s1 = s.drop_last();
        assert(strictly_sorted_by_type(s1)) by {
            assert forall|i: int, j: int| 0 <= i < j < s1.len() implies text_lt(
                #[trigger] s1[i].type_,
                #[trigger] s1[j].type_,
            ) by {
                assert(s1[i] == s[i] && s1[j] == s[j]);
            }
        }
        lemma_filter_strictly_sorted(s1, p);
        let sub = s1.filter(p);
        if p(s.last()) {
            let r = sub.push(s.last());
            assert forall|i: int, j: int| 0 <= i < j < r.len() implies text_lt(
                #[trigger] r[i].type_,
                #[trigger] r[j].type_,
            ) by {
                if j < sub.len() {
                    assert(r[i] == sub[i] && r[j] == sub[j]);
                } else {
                    assert(r[i] == sub[i]);
                    assert(sub.contains(sub[i]));
                    s1.lemma_filter_contains_rev(p, sub[i]);
                    let k = choose|k: int| 0 <= k < s1.len() && s1[k] == sub[i];
                    assert(s[k] == s1[k]);
                    assert(text_lt(s[k].type_, s[s.len() - 1].type_));
                }
            }
        }
    }
}

/// Two lists with types strictly increasing and the same entries are the
/// same list.
proof fn lemma_strictly_sorted_same_entries(a: Seq<ConditionModel>, b: Seq<ConditionModel>)
    requires
        strictly_sorted_by_type(a),
        strictly_sorted_by_type(b),
        forall|c: ConditionModel| a.contains(c) <==> b.contains(c),
    ensures
        a == b,
    decreases a.len(),
{
    if a.len() == 0 {
        if b.len() > 0 {
            assert(b.contains(b[0]));
        }
        assert(a =~= b);
    } else {
        assert(a.contains(a[0]));
        let m = choose|m: int| 0 <= m < b.len() && b[m] == a[0];
        assert(b.contains(b[0]));
        let k = choose|k: int| 0 <= k < a.len() && a[k] == b[0];
        if k > 0 && m > 0 {
            assert(text_lt(a[0].type_, a[k].type_));
            assert(text_lt(b[0].type_, b[m].type_));
            lemma_text_lt_transitive(a[0].type_, b[0].type_, a[0].type_);
            lemma_text_lt_irreflexive(a[0].type_);
        }
        assert(a[0] == b[0]);
        let a1 = a.drop_first();
        let b1 = b.drop_first();
        assert forall|c: ConditionModel| a1.contains(c) <==> b1.contains(c) by {
            if a1.contains(c) {
                let i = choose|i: int| 0 <= i < a1.len() && a1[i] == c;
                assert(a[i + 1] == c);
                assert(text_lt(a[0].type_, c.type_));
                lemma_text_lt_irreflexive(c.type_);
                assert(b.contains(c));
                let j = choose|j: int| 0 <= j < b.len() && b[j] == c;
                assert(j != 0);
                assert(b1[j - 1] == c);
            }
            if b1.contains(c) {
                let i = choose|i: int| 0 <= i < b1.len() && b1[i] == c;
                assert(b[i + 1] == c);
                assert(text_lt(b[0].type_, c.type_));
                lemma_text_lt_irreflexive(c.type_);
                assert(a.contains(c));
                let j = choose|j: int| 0 <= j < a.len() && a[j] == c;
                assert(j != 0);
                assert(a1[j - 1] == c);
            }
        }
        assert(strictly_sorted_by_type(a1)) by {
            assert forall|i: int, j: int| 0 <= i < j < a1.len() implies text_lt(
                #[trigger] a1[i].type_,
                #[trigger] a1[j].type_,
            ) by {
                assert(a1[i] == a[i + 1] && a1[j] == a[j + 1]);
            }
        }
        assert(strictly_sorted_by_type(b1)) by {
            assert forall|i: int, j: int| 0 <= i < j < b1.len() implies text_lt(
                #[trigger] b1[i].type_,
                #[trigger] b1[j].type_,
            ) by {
                assert(b1[i] == b[i + 1] && b1[j] == b[j + 1]);
            }
        }
        lemma_strictly_sorted_same_entries(a1, b1);
        assert(a =~= b) by {
            assert forall|i: int| 0 <= i < a.len() implies a[i] == b[i] by {
                if i > 0 {
                    assert(a[i] == a1[i - 1] && b[i] == b1[i - 1]);
                }
            }
        }
    }
}

/// On a list sorted by type with one condition per type, setting a
/// condition of type `t` leaves the conditions of every other type exactly
/// as they were, in the same order.
pub proof fn lemma_set_condition_keeps_others_in_order(
    s: Seq<ConditionModel>,
    t: Seq<char>,
    status: Seq<char>,
    reason: Seq<char>,
    message: Seq<char>,
    generation: i64,
    now: i64,
)
    requires
        sorted_by_type(s),
        one_per_type(s),
    ensures
        others_of(after_set(s, t, status, reason, message, generation, now), t) == others_of(s, t),
{
    broadcast use vstd::seq_lib::group_filter_ensures;

    let r = after_set(s, t, status, reason, message, generation, now);
    let p = |c: ConditionModel| c.type_ != t;
    lemma_set_condition(s, t, status, reason, message, generation, now);
    lemma_strictly_sorted(s);
    lemma_strictly_sorted(r);
    lemma_filter_strictly_sorted(s, p);
    lemma_filter_strictly_sorted(r, p);
    assert forall|c: ConditionModel| r.filter(p).contains(c) <==> s.filter(p).contains(c) by {
        if r.filter(p).contains(c) {
            r.lemma_filter_contains_rev(p, c);
            let i = choose|i: int| 0 <= i < r.filter(p).len() && r.filter(p)[i] == c;
            assert(p(r.filter(p)[i]));
            assert(s.contains(c));
            let k = choose|k: int| 0 <= k < s.len() && s[k] == c;
            s.lemma_filter_contains(p, k);
        }
        if s.filter(p).contains(c) {
            s.lemma_filter_contains_rev(p, c);
            let i = choose|i: int| 0 <= i < s.filter(p).len() && s.filter(p)[i] == c;
            assert(p(s.filter(p)[i]));
            assert(r.contains(c));
            let k = choose|k: int| 0 <= k < r.len() && r[k] == c;
            r.lemma_filter_contains(p, k);
        }
    }
    lemma_strictly_sorted_same_entries(r.filter(p), s.filter(p));
}

} // verus!
