use banlieue::str_map::{StrMap, StrSet};
use banlieue::vex::{
    affected_functions_from_entries, affected_functions_from_json, AffectedValue, NOT_AN_OBJECT, compute_reachability_vex, parse_nm_output, GrypeArtifact, GrypeMatch, GrypeReport, GrypeVuln,
};

// ---------------------------------------------------------------------
// parse_nm_output
// ---------------------------------------------------------------------

#[test]
fn parse_nm_empty_input_yields_empty_set() {
    let symbols = parse_nm_output("");
    assert!(symbols.is_empty());
}

#[test]
fn parse_nm_single_undefined_symbol() {
    let symbols = parse_nm_output("                 U malloc\n");
    assert!(symbols.contains("malloc"));
    assert_eq!(symbols.len(), 1);
}

#[test]
fn parse_nm_strips_glibc_version_suffix() {
    let raw = "                 U __libc_start_main@GLIBC_2.34\n\
                                    U scanf@GLIBC_2.7\n";
    let symbols = parse_nm_output(raw);
    assert!(symbols.contains("__libc_start_main"));
    assert!(symbols.contains("scanf"));
    assert!(!symbols.to_vec().iter().any(|s| s.contains('@')));
}

#[test]
fn parse_nm_handles_blank_and_comment_lines() {
    let raw = "\n\
               # comment line\n\
               \n\
                                U malloc\n\
               \n";
    let symbols = parse_nm_output(raw);
    assert_eq!(symbols.len(), 1);
    assert!(symbols.contains("malloc"));
}

#[test]
fn parse_nm_handles_mixed_whitespace() {
    let raw = "\t\tU\tabort\n  U  free\n                 U calloc\n";
    let symbols = parse_nm_output(raw);
    assert!(symbols.contains("abort"));
    assert!(symbols.contains("free"));
    assert!(symbols.contains("calloc"));
    assert_eq!(symbols.len(), 3);
}

#[test]
fn parse_nm_skips_non_undefined_lines() {
    let raw = "0000000000001234 T some_local_function\n\
               0000000000005678 D some_data\n\
                                U malloc\n";
    let symbols = parse_nm_output(raw);
    assert_eq!(symbols.len(), 1);
    assert!(symbols.contains("malloc"));
}

#[test]
fn parse_nm_takes_the_word_after_the_type_column() {
    let symbols = parse_nm_output("U malloc extra\nU free\nx T local\n1234 U@ bad\n");
    assert_eq!(symbols.len(), 2);
    assert!(symbols.contains("malloc"));
    assert!(symbols.contains("free"));
}

#[test]
fn parse_nm_lists_symbols_in_order() {
    let symbols = parse_nm_output("U zeta\nU alpha\nU zeta\n");
    assert_eq!(symbols.to_vec(), vec!["alpha".to_string(), "zeta".to_string()]);
}

// ---------------------------------------------------------------------
// compute_reachability_vex
// ---------------------------------------------------------------------

fn aff(pairs: &[(&str, &[&str])]) -> StrMap<Vec<String>> {
    let mut m = StrMap::new();
    for (k, v) in pairs {
        m.insert((*k).to_string(), v.iter().map(|s| (*s).to_string()).collect());
    }
    m
}

fn syms(s: &[&str]) -> StrSet {
    let mut out = StrSet::new();
    for x in s {
        out.insert((*x).to_string());
    }
    out
}

fn grype_with(matches: &[&str]) -> GrypeReport {
    GrypeReport {
        matches: matches
            .iter()
            .map(|cve| GrypeMatch {
                vulnerability: GrypeVuln {
                    id: (*cve).to_string(),
                },
                artifact: GrypeArtifact { purl: None },
            })
            .collect(),
    }
}

#[test]
fn empty_grype_yields_empty_statements() {
    let m = aff(&[("CVE-2026-00001", &["foo"])]);
    let s = syms(&["bar"]);
    let out = compute_reachability_vex(
        &grype_with(&[]),
        &s,
        &m,
        &StrSet::new(),
        "pkg:oci/banlieue",
        "2026-05-02T00:00:00Z",
    );
    assert!(out.is_empty());
}

#[test]
fn cve_not_in_mapping_is_skipped() {
    let m = aff(&[]);
    let s = syms(&[]);
    let out = compute_reachability_vex(
        &grype_with(&["CVE-2026-99998"]),
        &s,
        &m,
        &StrSet::new(),
        "pkg:oci/banlieue",
        "2026-05-02T00:00:00Z",
    );
    assert!(out.is_empty());
}

#[test]
fn cve_with_all_affected_fns_absent_is_emitted() {
    let m = aff(&[("CVE-2026-00010", &["glob", "fnmatch"])]);
    let s = syms(&["malloc", "free"]);
    let out = compute_reachability_vex(
        &grype_with(&["CVE-2026-00010"]),
        &s,
        &m,
        &StrSet::new(),
        "pkg:oci/banlieue",
        "2026-05-02T00:00:00Z",
    );
    assert_eq!(out.len(), 1);
    assert_eq!(out[0].vulnerability.name, "CVE-2026-00010");
    assert_eq!(out[0].status, "not_affected");
    assert_eq!(
        out[0].justification.as_deref(),
        Some("vulnerable_code_not_in_execute_path")
    );
    assert_eq!(out[0].products[0].id, "pkg:oci/banlieue");
    assert_eq!(out[0].timestamp, "2026-05-02T00:00:00Z");
    let impact = out[0].impact_statement.as_deref().unwrap_or_default();
    assert!(impact.contains("glob"));
    assert!(impact.contains("fnmatch"));
}

#[test]
fn cve_with_any_affected_fn_imported_is_not_emitted() {
    let m = aff(&[("CVE-2026-00011", &["glob", "fnmatch"])]);
    let s = syms(&["fnmatch", "malloc"]);
    let out = compute_reachability_vex(
        &grype_with(&["CVE-2026-00011"]),
        &s,
        &m,
        &StrSet::new(),
        "pkg:oci/banlieue",
        "2026-05-02T00:00:00Z",
    );
    assert!(out.is_empty());
}

#[test]
fn cve_already_triaged_is_skipped() {
    let m = aff(&[("CVE-2026-00012", &["nis_local_principal"])]);
    let s = syms(&[]);
    let mut triaged = StrSet::new();
    triaged.insert("CVE-2026-00012".to_string());
    let out = compute_reachability_vex(
        &grype_with(&["CVE-2026-00012"]),
        &s,
        &m,
        &triaged,
        "pkg:oci/banlieue",
        "2026-05-02T00:00:00Z",
    );
    assert!(out.is_empty());
}

#[test]
fn duplicate_cve_emits_only_once() {
    let m = aff(&[("CVE-2026-00013", &["scanf"])]);
    let s = syms(&[]);
    let out = compute_reachability_vex(
        &grype_with(&["CVE-2026-00013", "CVE-2026-00013"]),
        &s,
        &m,
        &StrSet::new(),
        "pkg:oci/banlieue",
        "2026-05-02T00:00:00Z",
    );
    assert_eq!(out.len(), 1);
}

#[test]
fn output_is_sorted_by_cve_id() {
    let m = aff(&[
        ("CVE-2026-00021", &["fn_a"]),
        ("CVE-2026-00019", &["fn_b"]),
        ("CVE-2026-00020", &["fn_c"]),
    ]);
    let s = syms(&[]);
    let out = compute_reachability_vex(
        &grype_with(&["CVE-2026-00021", "CVE-2026-00019", "CVE-2026-00020"]),
        &s,
        &m,
        &StrSet::new(),
        "pkg:oci/banlieue",
        "2026-05-02T00:00:00Z",
    );
    let names: Vec<&str> = out.iter().map(|s| s.vulnerability.name.as_str()).collect();
    assert_eq!(names, vec!["CVE-2026-00019", "CVE-2026-00020", "CVE-2026-00021"]);
}

#[test]
fn empty_affected_functions_array_is_treated_as_no_evidence() {
    let m = aff(&[("CVE-2026-00022", &[])]);
    let s = syms(&[]);
    let out = compute_reachability_vex(
        &grype_with(&["CVE-2026-00022"]),
        &s,
        &m,
        &StrSet::new(),
        "pkg:oci/banlieue",
        "2026-05-02T00:00:00Z",
    );
    assert!(out.is_empty());
}

// ---------------------------------------------------------------------
// The CVE → affected functions mapping
// ---------------------------------------------------------------------

#[test]
fn load_affected_functions_valid_file() {
    let m = affected_functions_from_json(
        br#"{"CVE-2026-00001": ["foo", "bar"], "CVE-2026-00002": ["baz"]}"#,
    )
    .unwrap();
    assert_eq!(m.len(), 2);
    assert_eq!(m.get("CVE-2026-00001").unwrap(), &vec!["foo", "bar"]);
    assert_eq!(m.get("CVE-2026-00002").unwrap(), &vec!["baz"]);
}

#[test]
fn load_affected_functions_empty_object_is_valid() {
    let m = affected_functions_from_json(b"{}").unwrap();
    assert!(m.is_empty());
}

#[test]
fn load_affected_functions_ignores_non_array_values() {
    let m = affected_functions_from_json(
        br#"{"_comment": ["this file is curated by hand"], "_meta": "version 1", "CVE-2026-00003": ["fn1"]}"#,
    )
    .unwrap();
    assert_eq!(m.len(), 1);
    assert!(m.get("CVE-2026-00003").is_some());
}

#[test]
fn load_affected_functions_ignores_array_with_non_string_entries() {
    let m = affected_functions_from_json(
        br#"{"CVE-2026-00004": ["valid"], "_meta_versions": [1, 2, 3], "CVE-2026-00005": ["a", 1]}"#,
    )
    .unwrap();
    assert_eq!(m.len(), 1);
    assert!(m.get("CVE-2026-00004").is_some());
}

#[test]
fn a_later_entry_of_the_same_key_replaces_an_earlier_one() {
    let m = affected_functions_from_entries(vec![
        ("CVE-1".to_string(), AffectedValue::Array(vec![Some("old".to_string())])),
        ("CVE-1".to_string(), AffectedValue::Array(vec![Some("new".to_string())])),
    ]);
    assert_eq!(m.get("CVE-1").unwrap(), &vec!["new"]);
}

#[test]
fn an_array_with_a_non_string_item_is_skipped() {
    let m = affected_functions_from_entries(vec![
        ("CVE-1".to_string(), AffectedValue::Array(vec![Some("f".to_string()), None])),
        ("CVE-2".to_string(), AffectedValue::Other),
        ("CVE-3".to_string(), AffectedValue::Array(vec![])),
    ]);
    assert_eq!(m.len(), 1);
    assert!(m.get("CVE-3").unwrap().is_empty());
}

#[test]
fn load_affected_functions_rejects_malformed_json() {
    let err = affected_functions_from_json(b"{not json").unwrap_err();
    assert!(!err.is_empty());
    assert_ne!(err, NOT_AN_OBJECT);
}

#[test]
fn load_affected_functions_rejects_a_top_level_array() {
    let err = affected_functions_from_json(br#"["CVE-2026-00001"]"#).unwrap_err();
    assert_eq!(err, NOT_AN_OBJECT);
}

#[test]
fn more_imports_or_triage_never_add_statements() {
    let m = aff(&[
        ("CVE-1", &["a"]),
        ("CVE-2", &["b"]),
        ("CVE-3", &["c"]),
    ]);
    let report = grype_with(&["CVE-1", "CVE-2", "CVE-3"]);
    let names = |imported: &[&str], triaged: &[&str]| -> Vec<String> {
        compute_reachability_vex(&report, &syms(imported), &m, &syms(triaged), "p", "t")
            .into_iter()
            .map(|s| s.vulnerability.name)
            .collect()
    };
    let small = names(&[], &[]);
    let larger = names(&["b"], &["CVE-3"]);
    assert_eq!(small, vec!["CVE-1", "CVE-2", "CVE-3"]);
    assert_eq!(larger, vec!["CVE-1"]);
    assert!(larger.iter().all(|c| small.contains(c)));
}
