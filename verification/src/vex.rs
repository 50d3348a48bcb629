//! Reachability-based VEX statements: a CVE reported by a scanner is
//! declared not affecting the binary when none of the functions it is
//! documented to enter through are imported by that binary.
use vstd::prelude::*;
use crate::keyed::{
    lemma_sort_is_sorted, lemma_sort_keeps_one_per_key, lemma_sort_permutes, one_per_key,
    sort_keyed, sorted_by_key, Keyed,
};
use crate::seq_util::{first_where, lemma_first_where, lemma_first_where_none};
use crate::str_map::{StrMap, StrSet};
use crate::text::{
    chars_of, find_first, first_index, join, join_strings, lemma_first_index,
    owned, split_char, split_on, str_eq, strings_view, substring_of, trim, trimmed,
    words, words_of,
};

verus! {

// ---------------------------------------------------------------------
// Imported symbols
// ---------------------------------------------------------------------

pub open spec fn is_ascii_alpha(c: char) -> bool {
    ('a' <= c && c <= 'z') || ('A' <= c && c <= 'Z')
}

/// A one-character, ASCII-alphabetic token: the symbol-type column of an
/// `nm` line.
pub open spec fn is_type_column(w: Seq<char>) -> bool {
    w.len() == 1 && is_ascii_alpha(w[0])
}

/// A symbol name without its `@VERSION` suffix; `None` when nothing is
/// left.
pub open spec fn bare_symbol(name: Seq<char>) -> Option<Seq<char>> {
    let bare = if name.contains('@') {
        name.subrange(0, first_index(name, '@'))
    } else {
        name
    };
    if bare.len() == 0 {
        None
    } else {
        Some(bare)
    }
}

/// The undefined symbol named by the tokens of an `nm` line: the token
/// after the type column, when that column is `U`.
pub open spec fn symbol_of_words(ws: Seq<Seq<char>>) -> Option<Seq<char>> {
    match first_where(ws, |w: Seq<char>| is_type_column(w)) {
        None => None,
        Some(k) => if ws[k] != "U"@ || k + 1 >= ws.len() {
            None
        } else {
            bare_symbol(ws[k + 1])
        },
    }
}

/// The undefined symbol an `nm` output line names, if any: blank and `#`
/// lines name none.
#[verifier::opaque]
pub open spec fn symbol_of_line(line: Seq<char>) -> Option<Seq<char>> {
    let t = trimmed(line);
    if t.len() == 0 || t[0] == '#' {
        None
    } else {
        symbol_of_words(words(t))
    }
}

/// The symbols named by a list of lines.
pub open spec fn symbols_of_lines(lines: Seq<Seq<char>>) -> Set<Seq<char>>
    decreases lines.len(),
{
    if lines.len() == 0 {
        Set::empty()
    } else {
        let rest = symbols_of_lines(lines.drop_last());
        match symbol_of_line(lines.last()) {
            Some(x) => rest.insert(x),
            None => rest,
        }
    }
}

/// The symbols named by the lines of `input` (lines split at `\n`; a
/// trailing `\r` is whitespace and trimmed away).
pub open spec fn nm_symbols(input: Seq<char>) -> Set<Seq<char>> {
    symbols_of_lines(split_on(input, '\n'))
}

fn bare_symbol_exec(name: &str) -> (r: Option<String>)
    ensures
        match r {
            Some(s) => bare_symbol(name@) == Some(s@),
            None => bare_symbol(name@) is None,
        },
{
    let v = chars_of(name);
    let bare = match find_first(&v, '@') {
        Some(q) => {
            proof {
                lemma_first_index(v@, '@', q as int);
            }
            substring_of(&v, 0, q)
        },
        None => {
            proof {
                assert(v@.subrange(0, v@.len() as int) =~= v@);
            }
            substring_of(&v, 0, v.len())
        },
    };
    if bare.as_str().is_empty() {
        return None;
    }
    Some(bare)
}

fn symbol_of_words_exec(ws: &Vec<String>) -> (r: Option<String>)
    ensures
        match r {
            Some(s) => symbol_of_words(strings_view(ws@)) == Some(s@),
            None => symbol_of_words(strings_view(ws@)) is None,
        },
{
    let ghost wv = strings_view(ws@);
    let ghost p = |w: Seq<char>| is_type_column(w);
    let mut k: usize = 0;
    while k < ws.len()
        invariant
            k <= ws.len(),
            wv == strings_view(ws@),
            p == (|w: Seq<char>| is_type_column(w)),
            forall|j: int| 0 <= j < k ==> !p(#[trigger] wv[j]),
        decreases ws.len() - k,
    {
        let w = chars_of(ws[k].as_str());
        let hit = w.len() == 1 && (('a' <= w[0] && w[0] <= 'z') || ('A' <= w[0] && w[0] <= 'Z'));
        assert(wv[k as int] == w@);
        if hit {
            proof {
                lemma_first_where(wv, p, k as int);
            }
            if !str_eq(ws[k].as_str(), "U") || k + 1 >= ws.len() {
                return None;
            }
            assert(wv[k + 1] == ws@[k + 1]@);
            return bare_symbol_exec(ws[k + 1].as_str());
        }
        k += 1;
    }
    proof {
        lemma_first_where_none(wv, p);
    }
    None
}

fn symbol_of_line_exec(line: &str) -> (r: Option<String>)
    ensures
        match r {
            Some(s) => symbol_of_line(line@) == Some(s@),
            None => symbol_of_line(line@) is None,
        },
{
    proof {
        reveal(symbol_of_line);
    }
    let t = trim(line);
    let tc = chars_of(t.as_str());
    if tc.len() == 0 || tc[0] == '#' {
        return None;
    }
    let ws = words_of(t.as_str());
    symbol_of_words_exec(&ws)
}

/// The undefined symbols of `nm -D --undefined-only` output.
pub fn parse_nm_output(input: &str) -> (r: StrSet)
    ensures
        r@ == nm_symbols(input@),
{
    let lines = split_char(input, '\n');
    let ghost lv = strings_view(lines@);
    let mut out = StrSet::new();
    let mut i: usize = 0;
    proof {
        assert(lv.take(0) =~= Seq::<Seq<char>>::empty());
    }
    while i < lines.len()
        invariant
            i <= lines.len(),
            lv == strings_view(lines@),
            lv == split_on(input@, '\n'),
            out@ == symbols_of_lines(lv.take(i as int)),
        decreases lines.len() - i,
    {
        proof {
            assert(lv.take(i as int + 1).drop_last() =~= lv.take(i as int));
            assert(lv.take(i as int + 1).last() == lines@[i as int]@);
        }
        match symbol_of_line_exec(lines[i].as_str()) {
            Some(sym) => {
                out.insert(sym);
            },
            None => {},
        }
        i += 1;
    }
    proof {
        assert(lv.take(lines.len() as int) =~= lv);
    }
    out
}

// ---------------------------------------------------------------------
// Scanner report and statements
// ---------------------------------------------------------------------

pub struct GrypeVuln {
    pub id: String,
}

pub struct GrypeArtifact {
    pub purl: Option<String>,
}

pub struct GrypeMatch {
    pub vulnerability: GrypeVuln,
    pub artifact: GrypeArtifact,
}

/// The parts of a Grype JSON report that are read.
pub struct GrypeReport {
    pub matches: Vec<GrypeMatch>,
}

#[derive(Debug, Clone, PartialEq, Eq)]
pub struct Vuln {
    pub name: String,
}

#[derive(Debug, Clone, PartialEq, Eq)]
pub struct Product {
    pub id: String,
}

/// One OpenVEX statement.
#[derive(Debug, Clone, PartialEq, Eq)]
pub struct Statement {
    pub vulnerability: Vuln,
    pub products: Vec<Product>,
    pub status: String,
    pub justification: Option<String>,
    pub impact_statement: Option<String>,
    pub timestamp: String,
}

impl Keyed for Statement {
    open spec fn key_view(&self) -> Seq<char> {
        self.vulnerability.name@
    }

    fn key_str(&self) -> (r: &str) {
        self.vulnerability.name.as_str()
    }
}

pub const AUTO_IMPACT_PREFIX: &'static str = "Auto-derived by auto-vex-reachability: the banlieue binary's dynamic symbol-import table contains none of the documented entry points for this CVE";

pub const IMPACT_SUFFIX: &'static str = "). The dynamic symbol-import table was inspected via `nm -D --undefined-only` against the release artifact; none of the listed entry points were found.";

pub const STATUS_NOT_AFFECTED: &'static str = "not_affected";

pub const JUSTIFICATION_NOT_IN_PATH: &'static str = "vulnerable_code_not_in_execute_path";

/// The impact statement naming the entry points that were checked.
pub open spec fn impact_text(fns: Seq<Seq<char>>) -> Seq<char> {
    AUTO_IMPACT_PREFIX@ + " ("@ + join(fns, ", "@) + IMPACT_SUFFIX@
}

/// A CVE is declared not affecting when it is not triaged already, the
/// mapping lists at least one entry point for it, and none of those is
/// imported.
pub open spec fn emits(
    cve: Seq<char>,
    imported: Set<Seq<char>>,
    affected: Map<Seq<char>, Vec<String>>,
    triaged: Set<Seq<char>>,
) -> bool {
    &&& !triaged.contains(cve)
    &&& affected.contains_key(cve)
    &&& affected[cve].len() > 0
    &&& forall|k: int| 0 <= k < affected[cve].len() ==> !imported.contains(#[trigger] affected[cve]@[k]@)
}

/// The CVEs declared, in report order, each once.
pub open spec fn emitted_cves(
    ms: Seq<GrypeMatch>,
    imported: Set<Seq<char>>,
    affected: Map<Seq<char>, Vec<String>>,
    triaged: Set<Seq<char>>,
) -> Seq<Seq<char>>
    decreases ms.len(),
{
    if ms.len() == 0 {
        Seq::empty()
    } else {
        let rest = emitted_cves(ms.drop_last(), imported, affected, triaged);
        let c = ms.last().vulnerability.id@;
        if emits(c, imported, affected, triaged) && !rest.contains(c) {
            rest.push(c)
        } else {
            rest
        }
    }
}

/// A CVE is declared exactly when the report lists it and it qualifies.
proof fn lemma_emitted_member(
    ms: Seq<GrypeMatch>,
    imported: Set<Seq<char>>,
    affected: Map<Seq<char>, Vec<String>>,
    triaged: Set<Seq<char>>,
    c: Seq<char>,
)
    ensures
        emitted_cves(ms, imported, affected, triaged).contains(c) <==> (emits(
            c,
            imported,
            affected,
            triaged,
        ) && exists|i: int| 0 <= i < ms.len() && (#[trigger] ms[i]).vulnerability.id@ == c),
    decreases ms.len(),
{
    if ms.len() > 0 {
        let m1 = ms.drop_last();
        lemma_emitted_member(m1, imported, affected, triaged, c);
        let rest = emitted_cves(m1, imported, affected, triaged);
        let last = ms.last().vulnerability.id@;
        if exists|i: int| 0 <= i < m1.len() && (#[trigger] m1[i]).vulnerability.id@ == c {
            let i = choose|i: int| 0 <= i < m1.len() && (#[trigger] m1[i]).vulnerability.id@ == c;
            assert(ms[i] == m1[i]);
        }
        if exists|i: int| 0 <= i < ms.len() && (#[trigger] ms[i]).vulnerability.id@ == c {
            let i = choose|i: int| 0 <= i < ms.len() && (#[trigger] ms[i]).vulnerability.id@ == c;
            if i < m1.len() {
                assert(m1[i] == ms[i]);
            } else {
                assert(last == c);
            }
        }
        if emits(last, imported, affected, triaged) && !rest.contains(last) {
            assert(rest.push(last).contains(c) <==> (rest.contains(c) || c == last)) by {
                if rest.push(last).contains(c) {
                    let k = choose|k: int| 0 <= k < rest.push(last).len() && rest.push(last)[k] == c;
                    if k < rest.len() {
                        assert(rest[k] == c);
                    }
                }
                if rest.contains(c) {
                    let k = choose|k: int| 0 <= k < rest.len() && rest[k] == c;
                    assert(rest.push(last)[k] == c);
                }
                if c == last {
                    assert(rest.push(last)[rest.len() as int] == c);
                }
            }
            assert(ms[ms.len() - 1] == ms.last());
        } else {
            assert(ms[ms.len() - 1] == ms.last());
        }
    }
}

/// Importing more functions, or having triaged more CVEs, never adds a
/// declared CVE: every CVE declared with the larger sets is declared with
/// the smaller ones.
pub proof fn lemma_fewer_statements_with_more_known(
    ms: Seq<GrypeMatch>,
    imported: Set<Seq<char>>,
    imported2: Set<Seq<char>>,
    affected: Map<Seq<char>, Vec<String>>,
    triaged: Set<Seq<char>>,
    triaged2: Set<Seq<char>>,
)
    requires
        imported.subset_of(imported2),
        triaged.subset_of(triaged2),
    ensures
        forall|c: Seq<char>|
            #[trigger] emitted_cves(ms, imported2, affected, triaged2).contains(c)
                ==> emitted_cves(ms, imported, affected, triaged).contains(c),
{
    assert forall|c: Seq<char>|
        #[trigger] emitted_cves(ms, imported2, affected, triaged2).contains(c) implies emitted_cves(
        ms,
        imported,
        affected,
        triaged,
    ).contains(c) by {
        lemma_emitted_member(ms, imported2, affected, triaged2, c);
        lemma_emitted_member(ms, imported, affected, triaged, c);
        assert forall|k: int| 0 <= k < affected[c].len() implies !imported.contains(
            #[trigger] affected[c]@[k]@,
        ) by {
            assert(!imported2.contains(affected[c]@[k]@));
        }
    }
}

/// `st` is the statement declaring `cve` not affecting `purl`.
pub open spec fn is_statement_for(
    st: Statement,
    cve: Seq<char>,
    fns: Seq<Seq<char>>,
    purl: Seq<char>,
    timestamp: Seq<char>,
) -> bool {
    &&& st.vulnerability.name@ == cve
    &&& st.products.len() == 1
    &&& st.products@[0].id@ == purl
    &&& st.status@ == STATUS_NOT_AFFECTED@
    &&& (st.justification matches Some(j) && j@ == JUSTIFICATION_NOT_IN_PATH@)
    &&& (st.impact_statement matches Some(m) && m@ == impact_text(fns))
    &&& st.timestamp@ == timestamp
}

fn statement_for(cve: &str, fns: &Vec<String>, purl: &str, timestamp: &str) -> (r: Statement)
    ensures
        is_statement_for(r, cve@, strings_view(fns@), purl@, timestamp@),
{
    let mut impact = owned(AUTO_IMPACT_PREFIX);
    impact.append(" (");
    let j = join_strings(fns, ", ");
    impact.append(j.as_str());
    impact.append(IMPACT_SUFFIX);
    let mut products: Vec<Product> = Vec::new();
    products.push(Product { id: owned(purl) });
    Statement {
        vulnerability: Vuln { name: owned(cve) },
        products,
        status: owned(STATUS_NOT_AFFECTED),
        justification: Some(owned(JUSTIFICATION_NOT_IN_PATH)),
        impact_statement: Some(impact),
        timestamp: owned(timestamp),
    }
}

fn any_imported(fns: &Vec<String>, imported: &StrSet) -> (r: bool)
    ensures
        r == exists|k: int| 0 <= k < fns.len() && imported@.contains(#[trigger] fns@[k]@),
{
    let mut k: usize = 0;
    while k < fns.len()
        invariant
            k <= fns.len(),
            forall|j: int| 0 <= j < k ==> !imported@.contains(#[trigger] fns@[j]@),
        decreases fns.len() - k,
    {
        if imported.contains(fns[k].as_str()) {
            return true;
        }
        k += 1;
    }
    false
}

/// The not-affected statements for a scan: one per CVE of the report that
/// is not triaged already, has documented entry points, and imports none
/// of them; each CVE once, sorted by CVE id.
pub fn compute_reachability_vex(
    grype: &GrypeReport,
    imported_symbols: &StrSet,
    affected_functions: &StrMap<Vec<String>>,
    already_triaged: &StrSet,
    product_purl: &str,
    statement_timestamp: &str,
) -> (r: Vec<Statement>)
    ensures
        ({
            let e = emitted_cves(
                grype.matches@,
                imported_symbols@,
                affected_functions@,
                already_triaged@,
            );
            &&& r.len() == e.len()
            &&& sorted_by_key(r@)
            &&& one_per_key(r@)
            &&& forall|i: int|
                0 <= i < r.len() ==> e.contains(#[trigger] r@[i].vulnerability.name@)
                    && is_statement_for(
                    r@[i],
                    r@[i].vulnerability.name@,
                    strings_view(affected_functions@[r@[i].vulnerability.name@]@),
                    product_purl@,
                    statement_timestamp@,
                )
            &&& forall|c: Seq<char>|
                e.contains(c) ==> exists|i: int| 0 <= i < r.len() && #[trigger] r@[i].vulnerability.name@ == c
        }),
{
    let ghost ms = grype.matches@;
    let ghost imp = imported_symbols@;
    let ghost aff = affected_functions@;
    let ghost tri = already_triaged@;
    let mut emitted = StrSet::new();
    let mut built: Vec<Statement> = Vec::new();
    let mut i: usize = 0;
    proof {
        assert(ms.take(0) =~= Seq::<GrypeMatch>::empty());
    }
    while i < grype.matches.len()
        invariant
            i <= grype.matches.len(),
            ms == grype.matches@,
            imp == imported_symbols@,
            aff == affected_functions@,
            tri == already_triaged@,
            emitted@ == emitted_cves(ms.take(i as int), imp, aff, tri).to_set(),
            built.len() == emitted_cves(ms.take(i as int), imp, aff, tri).len(),
            forall|j: int|
                0 <= j < built.len() ==> (#[trigger] built@[j]).vulnerability.name@ == emitted_cves(
                    ms.take(i as int),
                    imp,
                    aff,
                    tri,
                )[j] && is_statement_for(
                    built@[j],
                    built@[j].vulnerability.name@,
                    strings_view(aff[built@[j].vulnerability.name@]@),
                    product_purl@,
                    statement_timestamp@,
                ),
            emitted_cves(ms.take(i as int), imp, aff, tri).no_duplicates(),
            forall|j: int|
                0 <= j < emitted_cves(ms.take(i as int), imp, aff, tri).len() ==> emits(
                    #[trigger] emitted_cves(ms.take(i as int), imp, aff, tri)[j],
                    imp,
                    aff,
                    tri,
                ),
        decreases grype.matches.len() - i,
    {
        let ghost prev = emitted_cves(ms.take(i as int), imp, aff, tri);
        proof {
            assert(ms.take(i as int + 1).drop_last() =~= ms.take(i as int));
            assert(ms.take(i as int + 1).last() == ms[i as int]);
        }
        let cve = grype.matches[i].vulnerability.id.as_str();
        let ghost emitted_before = emitted@;
        let fresh = !already_triaged.contains(cve) && !emitted.contains(cve);
        let mut emit = false;
        if fresh {
            match affected_functions.get(cve) {
                Some(fns) => {
                    if fns.len() > 0 && !any_imported(fns, imported_symbols) {
                        let st = statement_for(cve, fns, product_purl, statement_timestamp);
                        emitted.insert(owned(cve));
                        built.push(st);
                        emit = true;
                    }
                },
                None => {},
            }
        }
        proof {
            let next = emitted_cves(ms.take(i as int + 1), imp, aff, tri);
            assert(prev.to_set().contains(cve@) == prev.contains(cve@));
            if emit {
                assert(next == prev.push(cve@));
                assert(emitted@ == emitted_before.insert(cve@));
                assert forall|x: Seq<char>| next.contains(x) == (prev.contains(x) || x == cve@) by {
                    if next.contains(x) {
                        let k = choose|k: int| 0 <= k < next.len() && next[k] == x;
                        if k < prev.len() {
                            assert(prev[k] == x);
                        }
                    }
                    if prev.contains(x) {
                        let k = choose|k: int| 0 <= k < prev.len() && prev[k] == x;
                        assert(next[k] == x);
                    }
                    if x == cve@ {
                        assert(next[prev.len() as int] == x);
                    }
                }
                assert(emitted@ =~= next.to_set());
                assert forall|a: int, b: int| 0 <= a < next.len() && 0 <= b < next.len() && a != b implies next[a] != next[b] by {
                    if b == prev.len() as int {
                        assert(prev[a] == next[a]);
                        assert(prev.contains(prev[a]));
                    } else if a == prev.len() as int {
                        assert(prev.contains(prev[b]));
                    }
                }
            } else {
                assert(next == prev);
            }
        }
        i += 1;
    }
    proof {
        assert(ms.take(grype.matches.len() as int) =~= ms);
    }
    let ghost e = emitted_cves(ms, imp, aff, tri);
    let ghost b = built@;
    proof {
        assert(one_per_key(b)) by {
            assert forall|x: int, y: int| 0 <= x < y < b.len() implies #[trigger] b[x].key_view() != #[trigger] b[y].key_view() by {
                assert(b[x].key_view() == e[x]);
                assert(b[y].key_view() == e[y]);
            }
        }
        lemma_sort_is_sorted(b);
        lemma_sort_permutes(b);
        lemma_sort_keeps_one_per_key(b);
    }
    let r = sort_keyed(built);
    proof {
        broadcast use vstd::seq_lib::group_to_multiset_ensures;

        assert forall|x: int| 0 <= x < r.len() implies e.contains(#[trigger] r@[x].vulnerability.name@)
            && is_statement_for(
            r@[x],
            r@[x].vulnerability.name@,
            strings_view(aff[r@[x].vulnerability.name@]@),
            product_purl@,
            statement_timestamp@,
        ) by {
            assert(r@.to_multiset().count(r@[x]) > 0);
            assert(b.to_multiset().count(r@[x]) > 0);
            assert(b.contains(r@[x]));
            let y = choose|y: int| 0 <= y < b.len() && b[y] == r@[x];
            assert(b[y].vulnerability.name@ == e[y]);
        }
        assert forall|c: Seq<char>| e.contains(c) implies exists|x: int| 0 <= x < r.len() && #[trigger] r@[x].vulnerability.name@ == c by {
            let y = choose|y: int| 0 <= y < e.len() && e[y] == c;
            assert(b[y].vulnerability.name@ == c);
            assert(b.to_multiset().count(b[y]) > 0);
            assert(r@.to_multiset().count(b[y]) > 0);
            assert(r@.contains(b[y]));
        }
    }
    r
}


// ---------------------------------------------------------------------
// The CVE → affected functions mapping
// ---------------------------------------------------------------------

/// A value of the mapping file's top-level object, as far as the mapping
/// reads it: an array, each item a string or something else, or anything
/// that is not an array.
pub enum AffectedValue {
    Array(Vec<Option<String>>),
    Other,
}

/// An array's items as plain values: `None` for an item that is not a
/// string.
pub open spec fn items_model(items: Seq<Option<String>>) -> Seq<Option<Seq<char>>> {
    Seq::new(
        items.len(),
        |i: int|
            match items[i] {
                Some(s) => Some(s@),
                None => None,
            },
    )
}

/// An entry of the top-level object as plain values: its key, and its
/// value's items when the value is an array.
pub open spec fn entry_model(e: (String, AffectedValue)) -> (Seq<char>, Option<Seq<Option<Seq<char>>>>) {
    (
        e.0@,
        match e.1 {
            AffectedValue::Array(items) => Some(items_model(items@)),
            AffectedValue::Other => None,
        },
    )
}

pub open spec fn entries_model(es: Seq<(String, AffectedValue)>) -> Seq<
    (Seq<char>, Option<Seq<Option<Seq<char>>>>),
> {
    Seq::new(es.len(), |i: int| entry_model(es[i]))
}

/// What reading a mapping file's bytes as JSON gives: the parser's message
/// when they are not JSON, `None` when the top level is not an object, else
/// the object's entries.
pub uninterp spec fn json_object_entries(bytes: Seq<u8>) -> Result<
    Option<Seq<(Seq<char>, Option<Seq<Option<Seq<char>>>>)>>,
    Seq<char>,
>;

pub open spec fn parsed_model(r: Result<Option<Vec<(String, AffectedValue)>>, String>) -> Result<
    Option<Seq<(Seq<char>, Option<Seq<Option<Seq<char>>>>)>>,
    Seq<char>,
> {
    match r {
        Ok(Some(es)) => Ok(Some(entries_model(es@))),
        Ok(None) => Ok(None),
        Err(m) => Err(m@),
    }
}

/// `serde_json::from_slice` into a `serde_json::Value`, then
/// `Value::as_object`, `Value::as_array` and `Value::as_str`, only
/// converting: the parser's error as its text, a top level that is not an
/// object as `None`, else each key with its value's array items (each a
/// string or not) or `Other`. The contract claims that the result is a
/// function of the bytes alone, which it names; what the parser accepts
/// and what its messages say is left to it.
#[verifier::external_body]
fn parse_json_object(bytes: &[u8]) -> (r: Result<Option<Vec<(String, AffectedValue)>>, String>)
    ensures
        parsed_model(r) == json_object_entries(bytes@),
{
    match serde_json::from_slice::<serde_json::Value>(bytes) {
        Err(e) => Err(e.to_string()),
        Ok(v) => Ok(v.as_object().map(|o| o.iter().map(|(k, v)| (k.clone(), match v.as_array() {
            Some(a) => AffectedValue::Array(a.iter().map(|i| i.as_str().map(str::to_string)).collect()),
            None => AffectedValue::Other,
        })).collect())),
    }
}

/// A key the mapping treats as metadata (`_comment`, `_meta`, ...).
pub open spec fn is_metadata_key(k: Seq<char>) -> bool {
    k.len() > 0 && k[0] == '_'
}

pub open spec fn all_strings(items: Seq<Option<Seq<char>>>) -> bool {
    forall|i: int| 0 <= i < items.len() ==> (#[trigger] items[i]) is Some
}

pub open spec fn the_strings(items: Seq<Option<Seq<char>>>) -> Seq<Seq<char>> {
    Seq::new(items.len(), |i: int| items[i]->0)
}

/// The mapping of the object's entries taken in order: each entry whose
/// key is not metadata and whose value is an array of strings maps its key
/// to those strings, a later entry replacing an earlier one of the same
/// key; every other entry is skipped.
pub open spec fn affected_map_of(entries: Seq<(Seq<char>, Option<Seq<Option<Seq<char>>>>)>) -> Map<
    Seq<char>,
    Seq<Seq<char>>,
>
    decreases entries.len(),
{
    if entries.len() == 0 {
        Map::empty()
    } else {
        let prev = affected_map_of(entries.drop_last());
        let (k, v) = entries.last();
        match v {
            Some(items) => if !is_metadata_key(k) && all_strings(items) {
                prev.insert(k, the_strings(items))
            } else {
                prev
            },
            None => prev,
        }
    }
}

/// A mapping with each list of names taken as plain values.
pub open spec fn names_view(m: Map<Seq<char>, Vec<String>>) -> Map<Seq<char>, Seq<Seq<char>>> {
    m.map_values(|v: Vec<String>| strings_view(v@))
}

/// The items as strings, or `None` when one of them is not a string.
fn string_items(items: Vec<Option<String>>) -> (r: Option<Vec<String>>)
    ensures
        r is Some <==> all_strings(items_model(items@)),
        r matches Some(ns) ==> strings_view(ns@) == the_strings(items_model(items@)),
{
    let ghost all = items_model(items@);
    let n = items.len();
    let mut rest = items;
    let mut out: Vec<String> = Vec::new();
    let mut taken: usize = 0;
    while rest.len() > 0
        invariant
            taken + rest.len() == n,
            all.len() == n,
            all == items_model(items@),
            items_model(rest@) == all.subrange(taken as int, n as int),
            forall|i: int| 0 <= i < taken ==> (#[trigger] all[i]) is Some,
            strings_view(out@) == the_strings(all.take(taken as int)),
        decreases rest.len(),
    {
        let ghost before = rest@;
        let o = rest.remove(0);
        proof {
            assert(items_model(before)[0] == all[taken as int]);
            assert(items_model(rest@) =~= all.subrange(taken as int + 1, n as int)) by {
                assert forall|i: int| 0 <= i < rest@.len() implies items_model(rest@)[i]
                    == all.subrange(taken as int + 1, n as int)[i] by {
                    assert(rest@[i] == before[i + 1]);
                    assert(items_model(before)[i + 1] == all.subrange(taken as int, n as int)[i + 1]);
                }
            }
        }
        match o {
            Some(s) => {
                let ghost prev = strings_view(out@);
                proof {
                    assert(all[taken as int] == Some(s@));
                }
                out.push(s);
                proof {
                    assert(strings_view(out@) =~= prev.push(s@));
                    assert(the_strings(all.take(taken as int + 1)) =~= the_strings(
                        all.take(taken as int),
                    ).push(s@));
                }
            },
            None => {
                proof {
                    assert(!(all[taken as int] is Some));
                }
                return None;
            },
        }
        taken += 1;
    }
    proof {
        assert(all.take(n as int) =~= all);
    }
    Some(out)
}

/// The CVE → function-names mapping of a mapping file's top-level object.
pub fn affected_functions_from_entries(entries: Vec<(String, AffectedValue)>) -> (r: StrMap<Vec<String>>)
    ensures
        names_view(r@) == affected_map_of(entries_model(entries@)),
{
    let ghost all = entries_model(entries@);
    let n = entries.len();
    let mut out: StrMap<Vec<String>> = StrMap::new();
    let mut rest = entries;
    let mut taken: usize = 0;
    proof {
        assert(names_view(out@) =~= Map::<Seq<char>, Seq<Seq<char>>>::empty());
        assert(all.take(0) =~= Seq::<(Seq<char>, Option<Seq<Option<Seq<char>>>>)>::empty());
    }
    while rest.len() > 0
        invariant
            taken + rest.len() == n,
            all.len() == n,
            entries_model(rest@) == all.subrange(taken as int, n as int),
            names_view(out@) == affected_map_of(all.take(taken as int)),
        decreases rest.len(),
    {
        let ghost before = rest@;
        let (k, v) = rest.remove(0);
        proof {
            assert(entries_model(before)[0] == all[taken as int]);
            assert(entries_model(rest@) =~= all.subrange(taken as int + 1, n as int)) by {
                assert forall|i: int| 0 <= i < rest@.len() implies entries_model(rest@)[i]
                    == all.subrange(taken as int + 1, n as int)[i] by {
                    assert(rest@[i] == before[i + 1]);
                    assert(entries_model(before)[i + 1] == all.subrange(taken as int, n as int)[i + 1]);
                }
            }
            assert(all.take(taken as int + 1).drop_last() =~= all.take(taken as int));
            assert(all.take(taken as int + 1).last() == all[taken as int]);
        }
        let cs = chars_of(k.as_str());
        let metadata = cs.len() > 0 && cs[0] == '_';
        let ghost old_out = out@;
        match v {
            AffectedValue::Array(items) => {
                if !metadata {
                    match string_items(items) {
                        Some(names) => {
                            let ghost nv = strings_view(names@);
                            out.insert(k, names);
                            proof {
                                assert(names_view(out@) =~= names_view(old_out).insert(
                                    all[taken as int].0,
                                    nv,
                                ));
                            }
                        },
                        None => {},
                    }
                }
            },
            AffectedValue::Other => {},
        }
        taken += 1;
    }
    proof {
        assert(all.take(n as int) =~= all);
    }
    out
}

/// The message for a mapping file whose top level is not an object.
pub const NOT_AN_OBJECT: &'static str = "top level must be a JSON object";

/// The CVE → function-names mapping of a mapping file's bytes: the JSON
/// parser's message when they are not JSON, [`NOT_AN_OBJECT`] when the top
/// level is not an object.
pub fn affected_functions_from_json(bytes: &[u8]) -> (r: Result<StrMap<Vec<String>>, String>)
    ensures
        match json_object_entries(bytes@) {
            Err(m) => r matches Err(e) && e@ == m,
            Ok(None) => r matches Err(e) && e@ == NOT_AN_OBJECT@,
            Ok(Some(es)) => r matches Ok(m) && names_view(m@) == affected_map_of(es),
        },
{
    match parse_json_object(bytes) {
        Err(m) => Err(m),
        Ok(None) => Err(owned(NOT_AN_OBJECT)),
        Ok(Some(entries)) => Ok(affected_functions_from_entries(entries)),
    }
}

} // verus!
