use base64::Engine as _;
use banlieue::sdk::bootstrap::{health_http_response, join_directives};
use banlieue::sdk::ca_bundle::{pem_from_secret_value, plan, CABundlePlan, CABundleSource, KeySelector};
use banlieue::sdk::condition_status;
use banlieue::sdk::finalizer::{finalizer_list_with, finalizer_list_without};
use banlieue::sdk::guestdata::{fqdn, render_placeholders, GuestDataContext, StaticIpamConfig};
use banlieue::sdk::leader::{decide_action, LeaderConfig, LeaseAction, LeaseSpecState, LeaseState, Period};
use banlieue::sdk::osartifact::{owner_references, OSARTIFACT_API_VERSION, OSARTIFACT_KIND};
use banlieue::sdk::pem::der_to_pem;
use banlieue::sdk::reconciler::{
    no_requeue, requeue_default, requeue_long, requeue_on_error, Requeue, REQUEUE_DEFAULT_SECS,
    REQUEUE_LONG_SECS, REQUEUE_ON_ERROR_SECS,
};
use banlieue::sdk::scheduling::{parse_node_selector, parse_tolerations, BuildScheduling};
use banlieue::sdk::status::{find_condition, is_condition_true, set_condition, set_condition_at, Condition};

// ---------- bootstrap ------------------------------------------------------

#[test]
fn join_directives_level_only() {
    assert_eq!(join_directives("debug", &[]), "debug");
}

#[test]
fn join_directives_appends_each_extra_in_order() {
    assert_eq!(
        join_directives("info", &["kube=warn", "vim_rs=warn"]),
        "info,kube=warn,vim_rs=warn",
    );
}

#[test]
fn health_response_is_200_with_matching_content_length() {
    let body = "ok";
    let response = health_http_response(body);

    assert!(response.starts_with("HTTP/1.1 200 OK\r\n"));
    assert!(response.contains("Content-Type: text/plain\r\n"));
    assert!(response.contains(&format!("Content-Length: {}\r\n", body.len())));
    assert!(response.ends_with(&format!("\r\n\r\n{body}")));
}

#[test]
fn health_response_counts_bytes_not_characters() {
    let body = "héllo";
    let response = health_http_response(body);
    assert!(response.contains("Content-Length: 6\r\n"), "{response}");
}

// ---------- CA bundle ------------------------------------------------------

fn selector(name: &str) -> KeySelector {
    KeySelector { name: name.to_string(), key: None }
}

#[test]
fn no_source_means_no_bundle() {
    assert_eq!(plan(&None).expect("None is valid"), CABundlePlan::NoBundle);
}

#[test]
fn inline_pem_is_returned_verbatim() {
    let src = Some(CABundleSource {
        inline: Some("-----BEGIN CERTIFICATE-----".to_string()),
        ..Default::default()
    });
    assert_eq!(
        plan(&src).expect("inline is valid"),
        CABundlePlan::Inline("-----BEGIN CERTIFICATE-----")
    );
}

#[test]
fn a_config_map_reference_is_classified_without_reading_it() {
    let sel = selector("corp-trust");
    let src = Some(CABundleSource { config_map_ref: Some(sel.clone()), ..Default::default() });
    assert_eq!(plan(&src).expect("configMapRef is valid"), CABundlePlan::ConfigMap(&sel));
}

#[test]
fn a_secret_reference_carries_its_explicit_key_through() {
    let sel = KeySelector { name: "private-ca".to_string(), key: Some("bundle.pem".to_string()) };
    let src = Some(CABundleSource { secret_ref: Some(sel.clone()), ..Default::default() });
    assert_eq!(plan(&src).expect("secretRef is valid"), CABundlePlan::Secret(&sel));
}

#[test]
fn more_than_one_source_is_rejected() {
    let src = Some(CABundleSource {
        inline: Some("pem".to_string()),
        config_map_ref: Some(selector("ca")),
        ..Default::default()
    });
    let err = plan(&src).unwrap_err().message();
    assert!(err.contains("more than one"), "got: {err}");
    assert!(err.contains("caBundle"), "got: {err}");
}

#[test]
fn an_empty_source_is_rejected() {
    let src = Some(CABundleSource::default());
    let err = plan(&src).unwrap_err().message();
    assert!(err.contains("caBundle"), "got: {err}");
}

#[test]
fn plan_none_when_unset() {
    assert_eq!(plan(&None).unwrap(), CABundlePlan::NoBundle);
}

#[test]
fn plan_inline_returns_pem() {
    let src = Some(CABundleSource { inline: Some("PEMDATA".to_string()), ..Default::default() });
    assert_eq!(plan(&src).unwrap(), CABundlePlan::Inline("PEMDATA"));
}

#[test]
fn plan_config_map_ref() {
    let sel = KeySelector { name: "corp-trust".to_string(), key: None };
    let src = Some(CABundleSource { config_map_ref: Some(sel.clone()), ..Default::default() });
    assert_eq!(plan(&src).unwrap(), CABundlePlan::ConfigMap(&sel));
}

#[test]
fn plan_secret_ref() {
    let sel = KeySelector { name: "private-ca".to_string(), key: Some("bundle.pem".to_string()) };
    let src = Some(CABundleSource { secret_ref: Some(sel.clone()), ..Default::default() });
    assert_eq!(plan(&src).unwrap(), CABundlePlan::Secret(&sel));
}

#[test]
fn plan_rejects_zero_sources() {
    let src = Some(CABundleSource::default());
    let err = plan(&src).unwrap_err().message();
    assert!(err.contains("caBundle"), "got: {err}");
}

#[test]
fn plan_rejects_multiple_sources() {
    let src = Some(CABundleSource {
        inline: Some("PEM".to_string()),
        secret_ref: Some(KeySelector { name: "s".to_string(), key: None }),
        ..Default::default()
    });
    let err = plan(&src).unwrap_err().message();
    assert!(err.contains("more than one"), "got: {err}");
}

#[test]
fn a_pem_secret_value_passes_through_unchanged() {
    let pem = b"-----BEGIN CERTIFICATE-----\nMIIB\n".to_vec();
    assert_eq!(pem_from_secret_value(pem.clone()).expect("valid PEM"), pem);
}

#[test]
fn a_binary_der_secret_value_is_rejected_by_name() {
    let der = vec![0x30, 0x82, 0x01, 0xff, 0x80];
    let err = pem_from_secret_value(der).unwrap_err().message();
    assert!(err.contains("not UTF-8"), "got: {err}");
    assert!(err.contains("secretRef"), "got: {err}");
}

// ---------- finalizers -----------------------------------------------------

const F: &str = "banlieue.io/virtualmachine";

#[test]
fn add_returns_none_when_finalizer_already_present() {
    let current = vec![F.to_string()];
    assert_eq!(finalizer_list_with(&current, F), None);
}

#[test]
fn add_returns_appended_list_when_absent() {
    let current: Vec<String> = vec!["other.example.com/x".into()];
    let next = finalizer_list_with(&current, F).expect("Some");
    assert_eq!(next, vec!["other.example.com/x".to_string(), F.to_string()]);
}

#[test]
fn add_preserves_existing_finalizers() {
    let current: Vec<String> = vec!["a/1".into(), "b/2".into()];
    let next = finalizer_list_with(&current, F).expect("Some");
    assert_eq!(next.len(), 3);
    assert!(next.contains(&"a/1".to_string()));
    assert!(next.contains(&"b/2".to_string()));
    assert!(next.contains(&F.to_string()));
}

#[test]
fn remove_returns_none_when_finalizer_absent() {
    let current: Vec<String> = vec!["other.example.com/x".into()];
    assert_eq!(finalizer_list_without(&current, F), None);
}

#[test]
fn remove_returns_filtered_list_when_present() {
    let current: Vec<String> = vec!["a/1".into(), F.into(), "b/2".into()];
    let next = finalizer_list_without(&current, F).expect("Some");
    assert_eq!(next, vec!["a/1".to_string(), "b/2".to_string()]);
}

#[test]
fn remove_handles_duplicate_entries() {
    let current: Vec<String> = vec![F.into(), F.into(), "other/x".into()];
    let next = finalizer_list_without(&current, F).expect("Some");
    assert_eq!(next, vec!["other/x".to_string()]);
}

#[test]
fn removing_what_was_added_restores_the_list() {
    let current: Vec<String> = vec!["a/1".into(), "b/2".into()];
    let added = finalizer_list_with(&current, F).expect("absent, so added");
    assert_eq!(finalizer_list_without(&added, F), Some(current));
}

// ---------- guest data -----------------------------------------------------

fn static_cfg() -> StaticIpamConfig {
    StaticIpamConfig {
        address: "10.0.0.90".to_string(),
        prefix: 24,
        gateway: Some("10.0.0.1".to_string()),
        nameservers: vec!["10.0.1.53".to_string(), "10.0.1.54".to_string()],
        domain: Some("k8s.example.internal".to_string()),
    }
}

#[test]
fn substitutes_vm_name() {
    let ctx = GuestDataContext::from_static("bar01", None);
    assert_eq!(render_placeholders("hostname: ${VM_NAME}", &ctx), "hostname: bar01");
}

#[test]
fn substitutes_vm_name_multiple_times() {
    let ctx = GuestDataContext::from_static("bar01", None);
    assert_eq!(render_placeholders("${VM_NAME}-${VM_NAME}", &ctx), "bar01-bar01");
}

#[test]
fn substitutes_fqdn_with_domain() {
    let cfg = static_cfg();
    let ctx = GuestDataContext::from_static("bar01", Some(&cfg));
    assert_eq!(render_placeholders("fqdn: ${FQDN}", &ctx), "fqdn: bar01.k8s.example.internal");
}

#[test]
fn fqdn_falls_back_to_trailing_dot_with_no_domain() {
    let ctx = GuestDataContext::from_static("bar01", None);
    assert_eq!(render_placeholders("${FQDN}", &ctx), "bar01.");
}

#[test]
fn fqdn_does_not_double_append_domain_when_vm_name_is_already_fully_qualified() {
    let cfg = static_cfg();
    let ctx = GuestDataContext::from_static("bar01.k8s.example.internal", Some(&cfg));
    assert_eq!(render_placeholders("${FQDN}", &ctx), "bar01.k8s.example.internal");
}

#[test]
fn fqdn_domain_suffix_match_is_case_insensitive() {
    let cfg = static_cfg();
    let ctx = GuestDataContext::from_static("bar01.K8S.EXAMPLE.INTERNAL", Some(&cfg));
    assert_eq!(render_placeholders("${FQDN}", &ctx), "bar01.K8S.EXAMPLE.INTERNAL");
}

#[test]
fn fqdn_still_appends_when_vm_name_only_partially_overlaps_domain() {
    let cfg = static_cfg();
    let ctx = GuestDataContext::from_static("bar01.example.internal", Some(&cfg));
    assert_eq!(
        render_placeholders("${FQDN}", &ctx),
        "bar01.example.internal.k8s.example.internal"
    );
}

#[test]
fn substitutes_all_static_network_placeholders() {
    let cfg = static_cfg();
    let ctx = GuestDataContext::from_static("bar01", Some(&cfg));
    let raw = "${IP}/${PREFIX} via ${GATEWAY} dns ${DNS} domain ${DOMAIN}";
    assert_eq!(
        render_placeholders(raw, &ctx),
        "10.0.0.90/24 via 10.0.0.1 dns 10.0.1.53,10.0.1.54 domain k8s.example.internal"
    );
}

#[test]
fn network_placeholders_are_empty_when_no_static_override() {
    let ctx = GuestDataContext::from_static("bar01", None);
    let raw = "${IP}|${PREFIX}|${GATEWAY}|${DNS}|${DOMAIN}";
    assert_eq!(render_placeholders(raw, &ctx), "||||");
}

#[test]
fn gateway_is_empty_when_static_config_omits_it() {
    let cfg = StaticIpamConfig {
        address: "10.0.0.90".to_string(),
        prefix: 24,
        gateway: None,
        nameservers: Vec::new(),
        domain: None,
    };
    let ctx = GuestDataContext::from_static("bar01", Some(&cfg));
    assert_eq!(render_placeholders("${GATEWAY}", &ctx), "");
    assert_eq!(render_placeholders("${DNS}", &ctx), "");
}

#[test]
fn unknown_placeholder_is_left_untouched() {
    let ctx = GuestDataContext::from_static("bar01", None);
    assert_eq!(render_placeholders("${NOT_A_REAL_PLACEHOLDER}", &ctx), "${NOT_A_REAL_PLACEHOLDER}");
}

#[test]
fn raw_without_any_placeholder_is_unchanged() {
    let ctx = GuestDataContext::from_static("bar01", None);
    let raw = "#cloud-config\ninstall:\n  auto: true\n";
    assert_eq!(render_placeholders(raw, &ctx), raw);
}

#[test]
fn fqdn_is_idempotent_once_qualified() {
    let once = fqdn("bar01", "k8s.example.internal");
    assert_eq!(once, "bar01.k8s.example.internal");
    assert_eq!(fqdn(&once, "k8s.example.internal"), once);
}

// ---------- leader election ------------------------------------------------

const OUR_IDENTITY: &str = "controller-pod-a";
const OTHER_IDENTITY: &str = "controller-pod-b";
const LEASE_DURATION_SECS: u64 = 15;
const NOW_EPOCH_SECS: i64 = 1_700_000_000;

fn config() -> LeaderConfig {
    LeaderConfig {
        namespace: "kube-system".to_string(),
        lease_name: "banlieue-controller".to_string(),
        identity: OUR_IDENTITY.to_string(),
        lease_duration: Period::from_secs(LEASE_DURATION_SECS),
        renew_period: Period::from_secs(5),
        retry_period: Period::from_secs(2),
    }
}

fn lease_with(holder: Option<&str>, renew_secs: Option<i64>) -> LeaseState {
    LeaseState {
        spec: Some(LeaseSpecState {
            holder_identity: holder.map(String::from),
            renew_time_secs: renew_secs,
            lease_transitions: None,
        }),
    }
}

#[test]
fn no_lease_yet_means_acquire_new() {
    assert_eq!(decide_action(NOW_EPOCH_SECS, None, &config()), LeaseAction::AcquireNew);
}

#[test]
fn lease_with_no_holder_means_acquire_new() {
    let lease = lease_with(None, Some(NOW_EPOCH_SECS));
    assert_eq!(decide_action(NOW_EPOCH_SECS, Some(&lease), &config()), LeaseAction::AcquireNew);
}

#[test]
fn lease_held_by_us_means_renew() {
    let lease = lease_with(Some(OUR_IDENTITY), Some(NOW_EPOCH_SECS - 1));
    assert_eq!(decide_action(NOW_EPOCH_SECS, Some(&lease), &config()), LeaseAction::Renew);
}

#[test]
fn lease_held_by_us_but_stale_still_renew() {
    let stale = NOW_EPOCH_SECS - (LEASE_DURATION_SECS as i64) - 60;
    let lease = lease_with(Some(OUR_IDENTITY), Some(stale));
    assert_eq!(decide_action(NOW_EPOCH_SECS, Some(&lease), &config()), LeaseAction::Renew);
}

#[test]
fn lease_held_by_another_within_duration_means_wait() {
    let lease = lease_with(Some(OTHER_IDENTITY), Some(NOW_EPOCH_SECS - 1));
    assert_eq!(decide_action(NOW_EPOCH_SECS, Some(&lease), &config()), LeaseAction::Wait);
}

#[test]
fn lease_held_by_another_just_at_boundary_means_wait() {
    let lease = lease_with(Some(OTHER_IDENTITY), Some(NOW_EPOCH_SECS - (LEASE_DURATION_SECS as i64)));
    assert_eq!(decide_action(NOW_EPOCH_SECS, Some(&lease), &config()), LeaseAction::Wait);
}

#[test]
fn lease_held_by_another_past_duration_means_take_over() {
    let lease = lease_with(Some(OTHER_IDENTITY), Some(NOW_EPOCH_SECS - (LEASE_DURATION_SECS as i64) - 1));
    assert_eq!(decide_action(NOW_EPOCH_SECS, Some(&lease), &config()), LeaseAction::TakeOver);
}

#[test]
fn lease_held_by_another_with_no_renew_time_means_take_over() {
    let lease = lease_with(Some(OTHER_IDENTITY), None);
    assert_eq!(decide_action(NOW_EPOCH_SECS, Some(&lease), &config()), LeaseAction::TakeOver);
}

#[test]
fn lease_with_no_spec_means_acquire_new() {
    let lease = LeaseState { spec: None };
    assert_eq!(decide_action(NOW_EPOCH_SECS, Some(&lease), &config()), LeaseAction::AcquireNew);
}

#[test]
fn config_rejects_zero_durations() {
    let mut cfg = config();
    cfg.lease_duration = Period::zero();
    assert!(cfg.validate().is_err(), "zero lease_duration must be invalid");

    let mut cfg = config();
    cfg.renew_period = Period::zero();
    assert!(cfg.validate().is_err(), "zero renew_period must be invalid");

    let mut cfg = config();
    cfg.retry_period = Period::zero();
    assert!(cfg.validate().is_err(), "zero retry_period must be invalid");
}

#[test]
fn config_rejects_renew_not_less_than_lease() {
    let mut cfg = config();
    cfg.renew_period = cfg.lease_duration;
    assert!(cfg.validate().is_err(), "renew_period must be strictly less than lease_duration");
}

#[test]
fn config_rejects_empty_identity() {
    let mut cfg = config();
    cfg.identity = String::new();
    assert!(cfg.validate().is_err(), "empty identity must be invalid");
}

#[test]
fn default_config_is_valid() {
    let cfg = LeaderConfig::new("kube-system", "banlieue-controller", "pod-a".to_string());
    assert!(cfg.validate().is_ok());
    assert_eq!(cfg.lease_duration, Period::from_secs(15));
}

// ---------- owner references -----------------------------------------------

#[test]
fn owner_references_none_when_uid_unknown() {
    assert!(owner_references("kairos-rhel98-build", None).is_none());
}

#[test]
fn owner_references_builds_single_entry_when_uid_known() {
    let refs = owner_references("kairos-rhel98-build", Some("11111111-2222-3333-4444-555555555555"))
        .expect("uid was Some");
    assert_eq!(refs.len(), 1);
    assert_eq!(refs[0].api_version, OSARTIFACT_API_VERSION);
    assert_eq!(refs[0].kind, OSARTIFACT_KIND);
    assert_eq!(refs[0].name, "kairos-rhel98-build");
    assert_eq!(refs[0].uid, "11111111-2222-3333-4444-555555555555");
}

// ---------- PEM -----------------------------------------------------------

#[test]
fn der_becomes_well_formed_pem() {
    let der: Vec<u8> = (0..200u32).map(|i| (i % 251) as u8).collect();
    let pem = der_to_pem(&der);

    assert!(pem.starts_with("-----BEGIN CERTIFICATE-----\n"), "{pem}");
    assert!(pem.ends_with("-----END CERTIFICATE-----\n"), "{pem}");

    let body: Vec<&str> = pem.lines().filter(|l| !l.starts_with("-----")).collect();
    assert!(body.len() > 1, "a 200-byte certificate must wrap");
    for line in &body[..body.len() - 1] {
        assert_eq!(line.len(), 64, "every full line is 64 chars: {line:?}");
    }

    let decoded = base64::engine::general_purpose::STANDARD
        .decode(body.concat())
        .expect("body is valid base64");
    assert_eq!(decoded, der, "must round-trip to the bytes we were given");
}

#[test]
fn an_exact_multiple_of_the_line_width_does_not_emit_a_blank_line() {
    let der = vec![7u8; 48];
    let pem = der_to_pem(&der);
    assert!(!pem.contains("\n\n"), "{pem}");
    let body: Vec<&str> = pem.lines().filter(|l| !l.starts_with("-----")).collect();
    assert_eq!(body.len(), 1, "{pem}");
    assert_eq!(body[0].len(), 64);
}

#[test]
fn pem_of_three_bytes_is_one_short_line() {
    assert_eq!(
        der_to_pem(&[0x01, 0x02, 0x03]),
        "-----BEGIN CERTIFICATE-----\nAQID\n-----END CERTIFICATE-----\n"
    );
}

// ---------- requeue --------------------------------------------------------

#[test]
fn helpers_are_callable_and_distinct_debug() {
    let default = format!("{:?}", requeue_default());
    let error = format!("{:?}", requeue_on_error());
    let long = format!("{:?}", requeue_long());
    let none = format!("{:?}", no_requeue());

    assert_ne!(default, error);
    assert_ne!(default, long);
    assert_ne!(default, none);
    assert_ne!(error, none);
}

#[test]
fn requeue_intervals_are_monotonic() {
    const _: () = assert!(REQUEUE_ON_ERROR_SECS < REQUEUE_DEFAULT_SECS);
    const _: () = assert!(REQUEUE_DEFAULT_SECS < REQUEUE_LONG_SECS);
}

#[test]
fn requeue_values_are_the_documented_intervals() {
    assert_eq!(requeue_default(), Requeue::After(30));
    assert_eq!(requeue_on_error(), Requeue::After(5));
    assert_eq!(requeue_long(), Requeue::After(300));
    assert_eq!(no_requeue(), Requeue::AwaitChange);
}

// ---------- scheduling -----------------------------------------------------

#[test]
fn a_selector_parses_into_a_label_match() {
    let m = parse_node_selector(&["banlieue.io/imagebuild=true".to_string()]).expect("valid selector");
    assert_eq!(m.get("banlieue.io/imagebuild").map(String::as_str), Some("true"));
}

#[test]
fn several_selectors_accumulate() {
    let m = parse_node_selector(&["a=1".to_string(), "kubernetes.io/arch=amd64".to_string()]).expect("valid");
    assert_eq!(m.len(), 2);
}

#[test]
fn a_selector_without_a_value_is_rejected() {
    let err = parse_node_selector(&["justakey".to_string()]).unwrap_err();
    assert!(err.contains("key=value"), "{err}");
    assert!(err.contains("justakey"), "{err}");
}

#[test]
fn a_selector_value_may_contain_no_equals_of_its_own() {
    let err = parse_node_selector(&["a=b=c".to_string()]).unwrap_err();
    assert!(err.contains("a=b=c"), "{err}");
}

#[test]
fn no_selectors_means_no_constraint() {
    assert!(parse_node_selector(&[]).expect("empty is valid").is_empty());
}

#[test]
fn a_later_selector_for_the_same_key_wins() {
    let m = parse_node_selector(&["a=1".to_string(), "a=2".to_string()]).expect("valid");
    assert_eq!(m.len(), 1);
    assert_eq!(m.get("a").map(String::as_str), Some("2"));
}

#[test]
fn an_empty_selector_key_is_rejected() {
    let err = parse_node_selector(&["=v".to_string()]).unwrap_err();
    assert_eq!(
        err,
        "node selector \"=v\" must be key=value (e.g. banlieue.io/imagebuild=true)"
    );
}

#[test]
fn a_toleration_parses_key_value_and_effect() {
    let t = parse_tolerations(&["dedicated=imagebuild:NoSchedule".to_string()]).expect("valid toleration");
    assert_eq!(t[0].key.as_deref(), Some("dedicated"));
    assert_eq!(t[0].value.as_deref(), Some("imagebuild"));
    assert_eq!(t[0].effect.as_deref(), Some("NoSchedule"));
    assert_eq!(t[0].operator.as_deref(), Some("Equal"), "a key with a value is an Equal match");
}

#[test]
fn a_valueless_toleration_uses_exists() {
    let t = parse_tolerations(&["dedicated:NoSchedule".to_string()]).expect("valid");
    assert_eq!(t[0].key.as_deref(), Some("dedicated"));
    assert_eq!(t[0].operator.as_deref(), Some("Exists"));
    assert!(t[0].value.is_none());
}

#[test]
fn every_taint_effect_is_accepted() {
    for effect in ["NoSchedule", "PreferNoSchedule", "NoExecute"] {
        let t = parse_tolerations(&[format!("k=v:{effect}")]).expect("valid");
        assert_eq!(t[0].effect.as_deref(), Some(effect));
    }
}

#[test]
fn an_unknown_effect_is_rejected() {
    let err = parse_tolerations(&["k=v:Nope".to_string()]).unwrap_err();
    assert!(err.contains("Nope"), "{err}");
    assert!(err.contains("NoSchedule"), "{err} should list valid effects");
    assert_eq!(
        err,
        "toleration \"k=v:Nope\" has unknown effect \"Nope\"; expected one of NoSchedule, PreferNoSchedule, NoExecute"
    );
}

#[test]
fn a_toleration_without_an_effect_is_rejected() {
    let err = parse_tolerations(&["dedicated=imagebuild".to_string()]).unwrap_err();
    assert!(err.contains("effect"), "{err}");
}

#[test]
fn no_tolerations_means_none() {
    assert!(parse_tolerations(&[]).expect("empty is valid").is_empty());
}

#[test]
fn the_effect_follows_the_last_colon() {
    let t = parse_tolerations(&["example.com/a:b=c:NoExecute".to_string()]).expect("valid");
    assert_eq!(t[0].key.as_deref(), Some("example.com/a:b"));
    assert_eq!(t[0].value.as_deref(), Some("c"));
    assert_eq!(t[0].effect.as_deref(), Some("NoExecute"));
}

#[test]
fn from_flags_reports_the_selector_error_first() {
    let err = BuildScheduling::from_flags(&["bad".to_string()], &["k:Nope".to_string()]).unwrap_err();
    assert!(err.starts_with("node selector"), "{err}");
}

#[test]
fn from_flags_with_nothing_is_unconstrained() {
    let b = BuildScheduling::from_flags(&[], &[]).expect("valid");
    assert!(b.is_unconstrained());
    let b = BuildScheduling::from_flags(&["a=1".to_string()], &[]).expect("valid");
    assert!(!b.is_unconstrained());
}

// ---------- conditions -----------------------------------------------------

fn cond(type_: &str, status: &str, at: i64) -> Condition {
    Condition {
        type_: type_.to_string(),
        status: status.to_string(),
        reason: "Initial".to_string(),
        message: "initial".to_string(),
        observed_generation: Some(1),
        last_transition_time: at,
    }
}

#[test]
fn set_condition_inserts_when_absent() {
    let mut conditions = Vec::new();
    set_condition(&mut conditions, "Ready", "True", "Reconciled", "ok", 7);
    assert_eq!(conditions.len(), 1);
    assert_eq!(conditions[0].type_, "Ready");
    assert_eq!(conditions[0].status, "True");
    assert_eq!(conditions[0].reason, "Reconciled");
    assert_eq!(conditions[0].observed_generation, Some(7));
}

#[test]
fn set_condition_preserves_transition_time_when_status_unchanged() {
    let mut conditions = vec![cond("Ready", "True", 100)];
    set_condition_at(&mut conditions, "Ready", "True", "StillReady", "still ok", 9, 200);
    assert_eq!(conditions.len(), 1);
    assert_eq!(conditions[0].last_transition_time, 100);
    assert_eq!(conditions[0].reason, "StillReady");
    assert_eq!(conditions[0].observed_generation, Some(9));
}

#[test]
fn set_condition_updates_transition_time_when_status_flips() {
    let mut conditions = vec![cond("Ready", "True", 100)];
    set_condition_at(&mut conditions, "Ready", "False", "Reason", "msg", 9, 200);
    assert_eq!(conditions[0].status, "False");
    assert_eq!(conditions[0].last_transition_time, 200);
}

#[test]
fn set_condition_stamps_the_clock_when_status_flips() {
    let mut conditions = vec![cond("Ready", "True", 0)];
    set_condition(&mut conditions, "Ready", "False", "Reason", "msg", 9);
    assert!(conditions[0].last_transition_time > 0);
}

#[test]
fn set_condition_keeps_sorted_by_type() {
    let mut conditions = Vec::new();
    set_condition(&mut conditions, "Scheduled", "True", "r", "m", 1);
    set_condition(&mut conditions, "InfrastructureReady", "False", "r", "m", 1);
    set_condition(&mut conditions, "Ready", "False", "r", "m", 1);
    let types: Vec<_> = conditions.iter().map(|c| c.type_.as_str()).collect();
    assert_eq!(types, vec!["InfrastructureReady", "Ready", "Scheduled"]);
}

#[test]
fn set_condition_sorts_an_unsorted_list_stably() {
    let mut conditions = vec![cond("b", "True", 1), cond("a", "True", 2), cond("b", "False", 3)];
    set_condition_at(&mut conditions, "c", "True", "r", "m", 1, 4);
    let seen: Vec<_> = conditions.iter().map(|c| (c.type_.as_str(), c.last_transition_time)).collect();
    assert_eq!(seen, vec![("a", 2), ("b", 1), ("b", 3), ("c", 4)]);
}

#[test]
fn is_condition_true_matches_only_true_status() {
    let conditions = vec![cond("Ready", "True", 1), cond("Migrating", "False", 1)];
    assert!(is_condition_true(&conditions, "Ready"));
    assert!(!is_condition_true(&conditions, "Migrating"));
    assert!(!is_condition_true(&conditions, "Absent"));
    assert_eq!(condition_status::TRUE, "True");
}

#[test]
fn find_condition_returns_reference() {
    let conditions = vec![cond("Ready", "True", 1)];
    let found = find_condition(&conditions, "Ready").expect("present");
    assert_eq!(found.status, "True");
    assert!(find_condition(&conditions, "Missing").is_none());
}

#[test]
fn pem_body_is_standard_padded_base64() {
    assert_eq!(der_to_pem(b"M"), "-----BEGIN CERTIFICATE-----\nTQ==\n-----END CERTIFICATE-----\n");
    assert_eq!(der_to_pem(b"Ma"), "-----BEGIN CERTIFICATE-----\nTWE=\n-----END CERTIFICATE-----\n");
    assert_eq!(der_to_pem(&[0xfb, 0xff, 0x3e]), "-----BEGIN CERTIFICATE-----\n+/8+\n-----END CERTIFICATE-----\n");
}

#[test]
fn config_default_identity_is_pod_name_or_hostname() {
    assert_eq!(LeaderConfig::default_identity(Some("banlieue-0"), Some("node-a")), "banlieue-0");
    assert_eq!(LeaderConfig::default_identity(None, Some("node-a")), "node-a");
    let id = LeaderConfig::default_identity(None, None);
    assert_eq!(id, "unknown");
    assert!(!id.is_empty(), "default identity must never be empty");
    assert_eq!(LeaderConfig::default_identity(Some(""), Some("node-a")), "node-a");
    assert_eq!(LeaderConfig::default_identity(Some(""), Some("")), "unknown");
    assert_eq!(LeaderConfig::default_identity(None, Some("")), "unknown");
}
