use banlieue::str_map::StrMap;
use banlieue::vsphere::api::{
    ClassMapping, FailureDomain, FailureDomainAttributes, NicAdapter, PowerState, Provider,
    ProviderCapabilities, ProviderSpec, ProviderStatus, ScopedTarget, VMImageTemplateNic,
};
use banlieue::vsphere::client::{Credentials, Datacenter, Datastore, Network};
use banlieue::vsphere::guest::{
    classify, probe_outcome, should_poll_soon, sticky_guest_installed, GuestProbe,
};
use banlieue::vsphere::import::{
    effective_folder, guest_id_for, resolve_concrete_datastore, resolve_nic_networks,
    resolve_zone, upload_progress_milestones, ResolvedNic, ZonePlan,
};
use banlieue::vsphere::import::{
    datastore_file_url, placement_step, template_settings, upload_step, Placement, ProbeResult, UploadEvent,
    UploadStep,
};
use banlieue::vsphere::api::{Firmware, InstallMode};
use banlieue::vsphere::k8s_name::{collision_safe_name, slugify, MAX_NAME_LEN};
use banlieue::vsphere::nic_flag::{parse_nic_flag, serialize_nic_flag};
use banlieue::vsphere::provider::{
    compute_failure_domain_attributes, failure_domain_name, FailureDomainIdentity,
};
use banlieue::vsphere::vim::{
    find_cdrom_key, find_disk_key, find_first_nic_key, install_poll_max_attempts,
    server_address, DeviceInfo, DeviceKind, DEFAULT_INSTALL_TIMEOUT_SECS,
};
use banlieue::vsphere::vmimage::{import_job_name, ImportJobIdentity};

// ---------------------------------------------------------------------
// k8s_name
// ---------------------------------------------------------------------

#[test]
fn joins_and_slugifies_short_parts() {
    assert_eq!(
        collision_safe_name(&["prod-vsphere", "DC East", "Cluster A"]),
        "prod-vsphere-dc-east-cluster-a"
    );
}

#[test]
fn strips_special_characters() {
    assert_eq!(
        collision_safe_name(&["p", "dc/east", "c.l.u_s_ter:1"]),
        "p-dc-east-c-l-u-s-ter-1"
    );
}

#[test]
fn collapses_consecutive_separators() {
    assert_eq!(
        collision_safe_name(&["p", "DC  East", "Cluster--A"]),
        "p-dc-east-cluster-a"
    );
}

#[test]
fn truncates_to_the_dns_label_limit() {
    let huge = "x".repeat(200);
    let name = collision_safe_name(&["p", &huge, &huge]);
    assert!(
        name.len() <= MAX_NAME_LEN,
        "name too long: {} chars",
        name.len()
    );
}

#[test]
fn stays_unique_when_truncated_and_parts_share_a_long_prefix() {
    let dc = "dc-example";
    let base = "compute-cluster-dedicated-nonreplicated-availability-domain";
    let n1 = collision_safe_name(&["vcenter-example", dc, &format!("{base}-01")]);
    let n2 = collision_safe_name(&["vcenter-example", dc, &format!("{base}-02")]);
    let n3 = collision_safe_name(&["vcenter-example", dc, &format!("{base}-03")]);
    assert!(n1.len() <= MAX_NAME_LEN && n2.len() <= MAX_NAME_LEN && n3.len() <= MAX_NAME_LEN);
    assert_ne!(n1, n2);
    assert_ne!(n2, n3);
    assert_ne!(n1, n3);
}

#[test]
fn is_deterministic() {
    let huge = "y".repeat(120);
    assert_eq!(
        collision_safe_name(&["p", &huge, "cluster-01"]),
        collision_safe_name(&["p", &huge, "cluster-01"]),
    );
}

#[test]
fn four_parts_stay_unique_when_truncated() {
    let base = "compute-cluster-dedicated-nonreplicated-availability-domain";
    let n1 = collision_safe_name(&["import", "img", "vcenter-example", &format!("{base}-01")]);
    let n2 = collision_safe_name(&["import", "img", "vcenter-example", &format!("{base}-02")]);
    assert!(n1.len() <= MAX_NAME_LEN && n2.len() <= MAX_NAME_LEN);
    assert_ne!(n1, n2);
}

#[test]
fn truncated_names_keep_a_dns_label_shape() {
    let huge = "Q".repeat(300);
    let name = collision_safe_name(&["p", &huge, "--x--"]);
    assert!(name.len() <= MAX_NAME_LEN);
    assert!(name.chars().all(|c| c.is_ascii_lowercase() || c.is_ascii_digit() || c == '-'));
    assert!(!name.starts_with('-'));
    assert!(!name.ends_with('-'));
}

// ---------------------------------------------------------------------
// provider: failure-domain names
// ---------------------------------------------------------------------

fn fd_name(provider: &str, dc: &str, cluster: &str) -> String {
    failure_domain_name(&FailureDomainIdentity {
        provider,
        dc,
        cluster,
    })
}

#[test]
fn failure_domain_name_is_slug_of_provider_dc_cluster() {
    assert_eq!(
        fd_name("prod-vsphere", "DC East", "Cluster A"),
        "prod-vsphere-dc-east-cluster-a"
    );
}

#[test]
fn failure_domain_name_strips_special_characters() {
    assert_eq!(
        fd_name("p", "dc/east", "c.l.u_s_ter:1"),
        "p-dc-east-c-l-u-s-ter-1"
    );
}

#[test]
fn failure_domain_name_collapses_consecutive_separators() {
    assert_eq!(fd_name("p", "DC  East", "Cluster--A"), "p-dc-east-cluster-a");
}

#[test]
fn failure_domain_name_truncates_to_dns_label_limit() {
    let huge = "x".repeat(200);
    let name = fd_name("p", &huge, &huge);
    assert!(name.len() <= 63, "name too long: {} chars", name.len());
}

#[test]
fn failure_domain_name_stays_unique_when_truncated() {
    let dc = "dc-example";
    let base = "compute-cluster-dedicated-nonreplicated-availability-domain";
    let n1 = fd_name("vcenter-example", dc, &format!("{base}-01"));
    let n2 = fd_name("vcenter-example", dc, &format!("{base}-02"));
    let n3 = fd_name("vcenter-example", dc, &format!("{base}-03"));
    assert!(n1.len() <= 63 && n2.len() <= 63 && n3.len() <= 63);
    assert_ne!(n1, n2);
    assert_ne!(n2, n3);
    assert_ne!(n1, n3);
}

#[test]
fn failure_domain_name_is_deterministic() {
    let huge = "y".repeat(120);
    assert_eq!(fd_name("p", &huge, "cluster-01"), fd_name("p", &huge, "cluster-01"));
}

#[test]
fn datacenter_clone_and_equality_work() {
    let dc1 = Datacenter {
        name: "a".into(),
        moref: "datacenter-a".into(),
    };
    let dc2 = dc1.clone();
    assert_eq!(dc1, dc2);
}

fn target(pairs: &[(&str, &str)]) -> StrMap<String> {
    let mut m = StrMap::new();
    for (k, v) in pairs {
        m.insert(k.to_string(), v.to_string());
    }
    m
}

fn class(name: &str, pairs: &[(&str, &str)]) -> ClassMapping {
    ClassMapping {
        name: name.to_string(),
        target: Some(target(pairs)),
        per_zone: Vec::new(),
    }
}

fn strings(v: &[String]) -> Vec<&str> {
    v.iter().map(|s| s.as_str()).collect()
}

#[test]
fn compute_attributes_matches_targets_by_kind() {
    let caps = ProviderCapabilities {
        storage_classes: vec![
            class("gold", &[("datastoreCluster", "DSC-A")]),
            class("by-name", &[("datastore", "ds-01")]),
            class("absent", &[("datastoreCluster", "DSC-Z")]),
            class("tagged", &[("tagCategory", "tier"), ("tag", "gold")]),
        ],
        network_classes: vec![
            class("dvs", &[("distributedPortGroup", "pg-dvs")]),
            class("std", &[("portGroup", "pg-std")]),
            class("wrong-kind", &[("portGroup", "pg-dvs")]),
        ],
        features: vec!["hotAddCPU".into(), "efiSecureBoot".into()],
    };
    let datastores = vec![
        Datastore {
            name: "ds-01".into(),
            moref: "datastore-1".into(),
            datastore_cluster: None,
            free_space_bytes: None,
        },
        Datastore {
            name: "ds-99".into(),
            moref: "datastore-2".into(),
            datastore_cluster: Some("DSC-A".into()),
            free_space_bytes: None,
        },
    ];
    let networks = vec![
        Network {
            name: "pg-dvs".into(),
            moref: "n1".into(),
            distributed: true,
        },
        Network {
            name: "pg-std".into(),
            moref: "n2".into(),
            distributed: false,
        },
    ];
    let a = compute_failure_domain_attributes(&caps, &datastores, &networks, "dc", "cl");
    assert_eq!(strings(&a.available_storage_classes), vec!["gold", "by-name"]);
    assert_eq!(strings(&a.available_network_classes), vec!["dvs", "std"]);
    assert_eq!(strings(&a.features), vec!["hotAddCPU", "efiSecureBoot"]);
    assert_eq!(a.raw.get("datacenter").map(String::as_str), Some("dc"));
    assert_eq!(a.raw.get("cluster").map(String::as_str), Some("cl"));
}

// ---------------------------------------------------------------------
// client
// ---------------------------------------------------------------------

#[test]
fn credentials_debug_redacts_the_password() {
    let creds = Credentials {
        username: "administrator@vsphere.local".to_string(),
        password: "s3cret-hunter2".to_string(),
    };
    let rendered = creds.debug_string();
    assert!(rendered.contains("administrator@vsphere.local"), "{rendered}");
    assert!(rendered.contains("<redacted>"), "{rendered}");
    assert!(!rendered.contains("s3cret-hunter2"), "{rendered}");
}

#[test]
fn credentials_debug_is_the_same_for_any_password() {
    let a = Credentials { username: "ops".to_string(), password: "one".to_string() };
    let b = Credentials { username: "ops".to_string(), password: "two".to_string() };
    assert_eq!(a.debug_string(), b.debug_string());
    assert_eq!(a.debug_string(), "Credentials { username: \"ops\", password: \"<redacted>\" }");
}

// ---------------------------------------------------------------------
// vim
// ---------------------------------------------------------------------

#[test]
fn server_address_strips_scheme_and_sdk_path() {
    assert_eq!(
        server_address("https://vcenter.example.com/sdk"),
        "vcenter.example.com"
    );
}

#[test]
fn server_address_keeps_explicit_port() {
    assert_eq!(
        server_address("https://vcenter.example.com:8443/sdk"),
        "vcenter.example.com:8443"
    );
}

#[test]
fn server_address_passes_through_bare_host() {
    assert_eq!(server_address("vcenter.example.com"), "vcenter.example.com");
}

#[test]
fn server_address_handles_scheme_only_and_trailing_slash() {
    assert_eq!(
        server_address("https://vcenter.example.com"),
        "vcenter.example.com"
    );
    assert_eq!(
        server_address("https://vcenter.example.com/"),
        "vcenter.example.com"
    );
}

#[test]
fn server_address_keeps_ipv6_literal() {
    assert_eq!(server_address("https://[2001:db8::1]/sdk"), "[2001:db8::1]");
}

#[test]
fn install_poll_max_attempts_uses_the_given_timeout() {
    assert_eq!(install_poll_max_attempts(1800), 360);
}

#[test]
fn install_poll_max_attempts_rounds_up_a_non_multiple() {
    assert_eq!(install_poll_max_attempts(12), 3);
}

#[test]
fn install_poll_max_attempts_falls_back_when_unset() {
    assert_eq!(
        install_poll_max_attempts(0),
        install_poll_max_attempts(i32::try_from(DEFAULT_INSTALL_TIMEOUT_SECS).unwrap())
    );
}

#[test]
fn install_poll_max_attempts_falls_back_when_negative() {
    assert_eq!(
        install_poll_max_attempts(-1),
        install_poll_max_attempts(i32::try_from(DEFAULT_INSTALL_TIMEOUT_SECS).unwrap())
    );
}

fn device(kind: DeviceKind, key: i32, pci_slot: Option<i32>) -> DeviceInfo {
    DeviceInfo {
        kind,
        key,
        controller_key: None,
        unit_number: None,
        pci_slot,
    }
}

#[test]
fn find_cdrom_key_locates_the_cdrom_among_other_devices() {
    let devices = vec![
        device(DeviceKind::Disk, 2000, None),
        device(DeviceKind::Cdrom, 3000, None),
    ];
    assert_eq!(find_cdrom_key(&devices), Some(3000));
}

#[test]
fn find_cdrom_key_none_when_no_cdrom_present() {
    let devices = vec![device(DeviceKind::Disk, 2000, None)];
    assert_eq!(find_cdrom_key(&devices), None);
}

#[test]
fn find_cdrom_key_empty_device_list_is_none() {
    let devices: Vec<DeviceInfo> = vec![];
    assert_eq!(find_cdrom_key(&devices), None);
}

#[test]
fn find_disk_key_locates_the_disk_among_other_devices() {
    let devices = vec![
        device(DeviceKind::Cdrom, 3000, None),
        device(DeviceKind::Disk, 2000, None),
    ];
    assert_eq!(find_disk_key(&devices), Some(2000));
}

#[test]
fn find_disk_key_none_when_no_disk_present() {
    let devices = vec![device(DeviceKind::Cdrom, 3000, None)];
    assert_eq!(find_disk_key(&devices), None);
}

#[test]
fn find_first_nic_key_matches_any_adapter_type() {
    let devices = vec![
        device(DeviceKind::Disk, 2000, None),
        device(DeviceKind::Vmxnet3, 4000, None),
    ];
    assert_eq!(
        find_first_nic_key(&devices),
        Some((4000, DeviceKind::Vmxnet3, None))
    );
}

#[test]
fn find_first_nic_key_none_when_no_nic_present() {
    let devices = vec![device(DeviceKind::Disk, 2000, None)];
    assert_eq!(find_first_nic_key(&devices), None);
}

#[test]
fn find_first_nic_key_also_reports_the_devices_pinned_pci_slot() {
    let devices = vec![device(DeviceKind::Vmxnet3, 4000, Some(192))];
    assert_eq!(
        find_first_nic_key(&devices),
        Some((4000, DeviceKind::Vmxnet3, Some(192)))
    );
}

// ---------------------------------------------------------------------
// guest
// ---------------------------------------------------------------------

#[test]
fn sticky_guest_installed_starts_at_whatever_was_observed() {
    assert_eq!(sticky_guest_installed(None, false), Some(false));
    assert_eq!(sticky_guest_installed(None, true), Some(true));
}

#[test]
fn sticky_guest_installed_never_reverts_once_true() {
    assert_eq!(sticky_guest_installed(Some(true), false), Some(true));
    assert_eq!(sticky_guest_installed(Some(true), true), Some(true));
}

#[test]
fn sticky_guest_installed_tracks_the_latest_observation_until_true() {
    assert_eq!(sticky_guest_installed(Some(false), true), Some(true));
    assert_eq!(sticky_guest_installed(Some(false), false), Some(false));
}

#[test]
fn should_poll_soon_only_while_a_running_guest_has_not_announced() {
    assert!(should_poll_soon(GuestProbe::NotAnnounced));
    assert!(!should_poll_soon(GuestProbe::Installed));
    assert!(!should_poll_soon(GuestProbe::NotEvaluated));
}

#[test]
fn is_installed_is_true_only_for_the_installed_variant() {
    assert!(GuestProbe::Installed.is_installed());
    assert!(!GuestProbe::NotAnnounced.is_installed());
    assert!(!GuestProbe::NotEvaluated.is_installed());
}

#[test]
fn probe_is_not_evaluated_when_the_vm_is_powered_off() {
    assert_eq!(
        probe_outcome(PowerState::PoweredOff, Some("installed")),
        GuestProbe::NotEvaluated
    );
}

#[test]
fn probe_reads_the_phase_of_a_running_vm() {
    assert_eq!(probe_outcome(PowerState::PoweredOn, None), GuestProbe::NotAnnounced);
    assert_eq!(
        probe_outcome(PowerState::PoweredOn, Some("installing")),
        GuestProbe::NotAnnounced
    );
    assert_eq!(
        probe_outcome(PowerState::PoweredOn, Some("installed")),
        GuestProbe::Installed
    );
}

#[test]
fn classify_trims_surrounding_whitespace() {
    assert_eq!(classify(Some("  installed\n")), GuestProbe::Installed);
    assert_eq!(classify(Some("Installed")), GuestProbe::NotAnnounced);
}

// ---------------------------------------------------------------------
// import
// ---------------------------------------------------------------------

fn provider_with_zone() -> Provider {
    let mut raw = StrMap::new();
    raw.insert("datacenter".to_string(), "dc-east".to_string());
    raw.insert("cluster".to_string(), "cluster-a".to_string());
    Provider {
        name: "vc".to_string(),
        namespace: "banlieue-system".to_string(),
        spec: ProviderSpec {
            capabilities: ProviderCapabilities {
                storage_classes: vec![class("gold", &[("datastore", "ds-fast-01")])],
                network_classes: vec![class("prod", &[("distributedPortGroup", "pg-prod")])],
                features: Vec::new(),
            },
        },
        status: Some(ProviderStatus {
            failure_domains: vec![FailureDomain {
                name: "vc-dc-east-cluster-a".to_string(),
                labels: StrMap::new(),
                attributes: FailureDomainAttributes {
                    raw,
                    available_storage_classes: vec!["gold".to_string()],
                    available_network_classes: vec!["prod".to_string()],
                    features: Vec::new(),
                },
            }],
        }),
    }
}

fn nic(network: Option<&str>, adapter: Option<NicAdapter>, pci_slot: Option<i32>) -> VMImageTemplateNic {
    VMImageTemplateNic {
        network: network.map(str::to_string),
        adapter,
        pci_slot,
    }
}

#[test]
fn resolve_zone_maps_fd_to_concrete_placement() {
    let p = provider_with_zone();
    let plan = resolve_zone(&p, "vc-dc-east-cluster-a", None).expect("zone resolves");
    assert_eq!(
        plan,
        ZonePlan {
            datacenter: "dc-east".to_string(),
            cluster: "cluster-a".to_string(),
            datastore: "ds-fast-01".to_string(),
        }
    );
}

#[test]
fn resolve_zone_errors_on_unknown_failure_domain() {
    let p = provider_with_zone();
    assert!(resolve_zone(&p, "nope", None).is_err());
}

#[test]
fn resolve_zone_errors_when_no_storage_class_reachable() {
    let mut p = provider_with_zone();
    p.status.as_mut().unwrap().failure_domains[0]
        .attributes
        .available_storage_classes
        .clear();
    assert!(resolve_zone(&p, "vc-dc-east-cluster-a", None).is_err());
}

#[test]
fn resolve_zone_override_bypasses_capability_introspection() {
    let mut p = provider_with_zone();
    p.status.as_mut().unwrap().failure_domains[0]
        .attributes
        .available_storage_classes
        .clear();
    let plan = resolve_zone(&p, "vc-dc-east-cluster-a", Some("DS001"))
        .expect("override resolves without capability introspection");
    assert_eq!(
        plan,
        ZonePlan {
            datacenter: "dc-east".to_string(),
            cluster: "cluster-a".to_string(),
            datastore: "DS001".to_string(),
        }
    );
}

#[test]
fn resolve_zone_uses_the_per_zone_override_datastore_for_this_cluster() {
    let mut p = provider_with_zone();
    p.spec.capabilities.storage_classes[0].per_zone = vec![ScopedTarget {
        datacenter: "dc-east".to_string(),
        cluster: "cluster-a".to_string(),
        target: target(&[("datastore", "ds-cluster-a-specific")]),
    }];
    let plan = resolve_zone(&p, "vc-dc-east-cluster-a", None).expect("zone resolves");
    assert_eq!(plan.datastore, "ds-cluster-a-specific");
}

#[test]
fn resolve_zone_falls_back_to_the_default_target_for_an_uncovered_zone() {
    let mut p = provider_with_zone();
    p.spec.capabilities.storage_classes[0].per_zone = vec![ScopedTarget {
        datacenter: "dc-east".to_string(),
        cluster: "cluster-b".to_string(),
        target: target(&[("datastore", "ds-cluster-b-specific")]),
    }];
    let plan = resolve_zone(&p, "vc-dc-east-cluster-a", None).expect("zone resolves");
    assert_eq!(plan.datastore, "ds-fast-01");
}

#[test]
fn resolve_nic_networks_uses_the_per_zone_override_network_for_this_cluster() {
    let mut p = provider_with_zone();
    p.spec.capabilities.network_classes[0].per_zone = vec![ScopedTarget {
        datacenter: "dc-east".to_string(),
        cluster: "cluster-a".to_string(),
        target: target(&[("distributedPortGroup", "pg-cluster-a-specific")]),
    }];
    let nics = resolve_nic_networks(&p, "vc-dc-east-cluster-a", &[]).unwrap();
    assert_eq!(nics[0].network, "pg-cluster-a-specific");
}

#[test]
fn resolve_nic_networks_empty_input_synthesizes_one_default_nic() {
    let p = provider_with_zone();
    let nics = resolve_nic_networks(&p, "vc-dc-east-cluster-a", &[]).unwrap();
    assert_eq!(
        nics,
        vec![ResolvedNic {
            network: "pg-prod".to_string(),
            adapter: NicAdapter::Vmxnet3,
            pci_slot: 192,
        }]
    );
}

#[test]
fn resolve_nic_networks_applies_defaults_per_entry() {
    let p = provider_with_zone();
    let nics = resolve_nic_networks(
        &p,
        "vc-dc-east-cluster-a",
        &[
            VMImageTemplateNic::unset(),
            nic(Some("vmnet-mgmt"), Some(NicAdapter::E1000), Some(300)),
            VMImageTemplateNic::unset(),
        ],
    )
    .unwrap();
    assert_eq!(
        nics,
        vec![
            ResolvedNic {
                network: "pg-prod".to_string(),
                adapter: NicAdapter::Vmxnet3,
                pci_slot: 192,
            },
            ResolvedNic {
                network: "vmnet-mgmt".to_string(),
                adapter: NicAdapter::E1000,
                pci_slot: 300,
            },
            ResolvedNic {
                network: "pg-prod".to_string(),
                adapter: NicAdapter::Vmxnet3,
                pci_slot: 194,
            },
        ]
    );
}

#[test]
fn resolve_nic_networks_errors_when_no_network_class_reachable_and_no_override() {
    let mut p = provider_with_zone();
    p.status.as_mut().unwrap().failure_domains[0]
        .attributes
        .available_network_classes
        .clear();
    assert!(resolve_nic_networks(&p, "vc-dc-east-cluster-a", &[]).is_err());
}

#[test]
fn resolve_nic_networks_override_bypasses_capability_introspection() {
    let mut p = provider_with_zone();
    p.status.as_mut().unwrap().failure_domains[0]
        .attributes
        .available_network_classes
        .clear();
    let nics = resolve_nic_networks(
        &p,
        "vc-dc-east-cluster-a",
        &[nic(Some("VM Network"), None, None)],
    )
    .unwrap();
    assert_eq!(nics[0].network, "VM Network");
}

fn ds(name: &str, cluster: Option<&str>, free_space_bytes: Option<i64>) -> Datastore {
    Datastore {
        name: name.to_string(),
        moref: format!("datastore-{name}"),
        datastore_cluster: cluster.map(str::to_string),
        free_space_bytes,
    }
}

#[test]
fn resolve_concrete_datastore_exact_name_wins() {
    let dss = vec![
        ds("DS001", Some("DSC-01"), None),
        ds("DS002", Some("DSC-01"), None),
        ds("local-1", None, None),
    ];
    assert_eq!(resolve_concrete_datastore(&dss, "DS002").unwrap(), "DS002");
    assert_eq!(resolve_concrete_datastore(&dss, "local-1").unwrap(), "local-1");
}

#[test]
fn resolve_concrete_datastore_maps_cluster_to_emptiest_member() {
    const GB: i64 = 1024 * 1024 * 1024;
    let dss = vec![
        ds("DS001", Some("DSC-01"), Some(10 * GB)),
        ds("DS002", Some("DSC-01"), Some(90 * GB)),
        ds("DS003", Some("DSC-01"), Some(50 * GB)),
        ds("other", Some("DSC-99"), Some(1000 * GB)),
    ];
    assert_eq!(resolve_concrete_datastore(&dss, "DSC-01").unwrap(), "DS002");
}

#[test]
fn resolve_concrete_datastore_ties_break_lexicographically() {
    let dss = vec![
        ds("DS002", Some("DSC-01"), None),
        ds("DS001", Some("DSC-01"), None),
    ];
    assert_eq!(resolve_concrete_datastore(&dss, "DSC-01").unwrap(), "DS001");
}

#[test]
fn resolve_concrete_datastore_errors_when_unknown() {
    let dss = vec![ds("DS001", Some("DSC-01"), None)];
    assert!(resolve_concrete_datastore(&dss, "nope").is_err());
}

#[test]
fn guest_id_for_maps_common_distributions() {
    assert_eq!(guest_id_for("linux", "rhel"), "rhel9_64Guest");
    assert_eq!(guest_id_for("linux", "ubuntu"), "ubuntu64Guest");
    assert_eq!(guest_id_for("linux", "debian"), "debian11_64Guest");
    assert_eq!(guest_id_for("linux", "fedora-coreos"), "fedora64Guest");
    assert_eq!(guest_id_for("linux", "alpine"), "otherLinux64Guest");
    assert_eq!(guest_id_for("windows", "server"), "windows2019srv_64Guest");
    assert_eq!(guest_id_for("bsd", "freebsd"), "otherGuest64");
}

#[test]
fn upload_progress_no_milestones_when_total_size_unknown() {
    assert!(upload_progress_milestones(0, 10, 0).is_empty());
}

#[test]
fn upload_progress_crosses_one_milestone_per_normal_chunk() {
    assert_eq!(upload_progress_milestones(0, 10, 100), vec![10]);
    assert_eq!(upload_progress_milestones(50, 10, 100), vec![60]);
}

#[test]
fn upload_progress_no_milestone_within_the_same_decile() {
    assert!(upload_progress_milestones(1, 1, 100).is_empty());
}

#[test]
fn upload_progress_one_big_chunk_crosses_every_milestone() {
    assert_eq!(
        upload_progress_milestones(0, 100, 100),
        vec![10, 20, 30, 40, 50, 60, 70, 80, 90, 100]
    );
}

#[test]
fn upload_progress_reaches_100_percent_at_the_last_byte() {
    assert_eq!(upload_progress_milestones(90, 10, 100), vec![100]);
}

#[test]
fn upload_progress_caps_at_100_percent_even_if_bytes_overshoot_total() {
    assert_eq!(upload_progress_milestones(90, 50, 100), vec![100]);
}

#[test]
fn upload_progress_zero_length_chunk_crosses_nothing() {
    assert!(upload_progress_milestones(50, 0, 100).is_empty());
}

#[test]
fn effective_folder_nests_the_zone_under_the_configured_root() {
    assert_eq!(
        effective_folder(Some("templates/hadron"), "cluster-01"),
        "templates/hadron/cluster-01"
    );
}

#[test]
fn effective_folder_strips_a_trailing_slash_on_the_root() {
    assert_eq!(
        effective_folder(Some("templates/hadron/"), "cluster-01"),
        "templates/hadron/cluster-01"
    );
}

#[test]
fn effective_folder_is_just_the_zone_when_no_root_is_configured() {
    assert_eq!(effective_folder(None, "cluster-01"), "cluster-01");
}

#[test]
fn effective_folder_is_just_the_zone_when_the_root_is_empty() {
    assert_eq!(effective_folder(Some(""), "cluster-01"), "cluster-01");
}

// ---------------------------------------------------------------------
// nic_flag
// ---------------------------------------------------------------------

#[test]
fn parse_all_fields() {
    let n = parse_nic_flag("network=vmnet-prod,adapter=vmxnet3,pciSlot=192").unwrap();
    assert_eq!(n, nic(Some("vmnet-prod"), Some(NicAdapter::Vmxnet3), Some(192)));
}

#[test]
fn parse_empty_string_is_all_defaults() {
    assert_eq!(parse_nic_flag("").unwrap(), VMImageTemplateNic::unset());
}

#[test]
fn parse_partial_fields_leaves_the_rest_unset() {
    let n = parse_nic_flag("network=vmnet-mgmt").unwrap();
    assert_eq!(n.network.as_deref(), Some("vmnet-mgmt"));
    assert!(n.adapter.is_none());
    assert!(n.pci_slot.is_none());
}

#[test]
fn parse_fields_in_any_order() {
    let n = parse_nic_flag("pciSlot=193,network=vmnet-mgmt,adapter=e1000").unwrap();
    assert_eq!(n, nic(Some("vmnet-mgmt"), Some(NicAdapter::E1000), Some(193)));
}

#[test]
fn parse_rejects_unknown_key() {
    let err = parse_nic_flag("bogus=x").unwrap_err();
    assert!(err.contains("bogus"), "{err}");
}

#[test]
fn parse_rejects_invalid_adapter() {
    let err = parse_nic_flag("adapter=not-a-real-adapter").unwrap_err();
    assert!(err.contains("adapter"), "{err}");
}

#[test]
fn parse_rejects_invalid_pci_slot() {
    let err = parse_nic_flag("pciSlot=not-a-number").unwrap_err();
    assert!(err.contains("pciSlot"), "{err}");
}

#[test]
fn parse_rejects_a_malformed_pair_with_no_equals_sign() {
    let err = parse_nic_flag("network").unwrap_err();
    assert!(err.contains("network"), "{err}");
}

#[test]
fn serialize_all_fields_set() {
    let n = nic(Some("vmnet-prod"), Some(NicAdapter::Vmxnet3), Some(192));
    assert_eq!(
        serialize_nic_flag(&n),
        "network=vmnet-prod,adapter=vmxnet3,pciSlot=192"
    );
}

#[test]
fn serialize_omits_unset_fields() {
    let n = nic(Some("vmnet-prod"), None, None);
    assert_eq!(serialize_nic_flag(&n), "network=vmnet-prod");
}

#[test]
fn serialize_all_unset_is_empty_string() {
    assert_eq!(serialize_nic_flag(&VMImageTemplateNic::unset()), "");
}

#[test]
fn round_trips_through_parse() {
    let n = nic(Some("vmnet-mgmt"), Some(NicAdapter::E1000e), Some(224));
    let flag = serialize_nic_flag(&n);
    assert_eq!(parse_nic_flag(&flag).unwrap(), n);
}

#[test]
fn network_name_with_comma_round_trips() {
    let n = nic(Some("a,b"), Some(NicAdapter::Vmxnet3), None);
    let flag = serialize_nic_flag(&n);
    assert_eq!(flag, "network=a\\,b,adapter=vmxnet3");
    assert_eq!(parse_nic_flag(&flag).unwrap(), n);
}

#[test]
fn network_name_with_backslash_round_trips() {
    let n = nic(Some("x\\y,"), None, Some(7));
    let flag = serialize_nic_flag(&n);
    assert_eq!(flag, "network=x\\\\y\\,,pciSlot=7");
    assert_eq!(parse_nic_flag(&flag).unwrap(), n);
}

#[test]
fn escaped_comma_is_part_of_the_value() {
    let n = parse_nic_flag("network=dv\\,pg").unwrap();
    assert_eq!(n.network.as_deref(), Some("dv,pg"));
    assert_eq!(n.adapter, None);
}

// ---------------------------------------------------------------------
// vmimage: import Job names
// ---------------------------------------------------------------------

fn job_name(image: &str, provider: &str, failure_domain: &str) -> String {
    import_job_name(&ImportJobIdentity {
        image,
        provider,
        failure_domain,
    })
}

#[test]
fn import_job_name_is_deterministic_and_dns_safe() {
    let n = job_name("kairos-rhel98", "vcenter-ssc", "vcenter-ssc-dc-east-cluster-a");
    assert_eq!(n, "import-kairos-rhel98-vcenter-ssc-vcenter-ssc-dc-east-cluster-a");
    let long = job_name(&"x".repeat(40), &"y".repeat(40), &"z".repeat(40));
    assert!(long.len() <= 63);
    assert!(long.chars().all(|c| c.is_ascii_alphanumeric() || c == '-'));
}

#[test]
fn import_job_name_does_not_collide_across_long_failure_domains_sharing_a_prefix() {
    let image = "example-kairos-0.1.0";
    let provider = "vcenter-example";
    let a = job_name(
        image,
        provider,
        "vcenter-example-dc-alpha-cluster-nonreplicated-storage-pool-aaaa1111",
    );
    let b = job_name(
        image,
        provider,
        "vcenter-example-dc-alpha-cluster-nonreplicated-storage-pool-bbbb2222",
    );
    let c = job_name(
        image,
        provider,
        "vcenter-example-dc-alpha-cluster-nonreplicated-storage-pool-cccc3333",
    );
    assert_ne!(a, b);
    assert_ne!(b, c);
    assert_ne!(a, c);
    for n in [&a, &b, &c] {
        assert!(n.len() <= 63, "{n} exceeds 63 chars");
        assert!(n.chars().all(|c| c.is_ascii_alphanumeric() || c == '-'));
        assert!(!n.starts_with('-'));
        assert!(!n.ends_with('-'));
    }
}

#[test]
fn import_job_name_is_stable_for_the_same_inputs() {
    let a = job_name("img", "prov", &"z".repeat(80));
    let b = job_name("img", "prov", &"z".repeat(80));
    assert_eq!(a, b);
}

// ---------- ISO upload ------------------------------------------------------

#[test]
fn datastore_file_url_encodes_the_query() {
    assert_eq!(
        datastore_file_url("vc.example.com", "banlieue-images/img.iso", "DC 1", "ds&1").unwrap(),
        "https://vc.example.com/folder/banlieue-images/img.iso?dcPath=DC+1&dsName=ds%261"
    );
}

#[test]
fn datastore_file_url_rejects_an_unparseable_host() {
    assert_eq!(
        datastore_file_url("bad host", "x.iso", "dc", "ds").unwrap_err(),
        "building datastore URL from https://bad host/folder/x.iso"
    );
}

#[test]
fn a_forced_upload_deletes_first_and_tolerates_a_missing_file() {
    let url = "https://vc/folder/x.iso";
    assert_eq!(upload_step(true, url, &UploadEvent::Started), UploadStep::DeleteExisting);
    assert_eq!(upload_step(true, url, &UploadEvent::DeleteAnswered(204, "204 No Content".into())), UploadStep::Put);
    assert_eq!(upload_step(true, url, &UploadEvent::DeleteAnswered(404, "404 Not Found".into())), UploadStep::Put);
    assert_eq!(
        upload_step(true, url, &UploadEvent::DeleteAnswered(403, "403 Forbidden".into())),
        UploadStep::Failed("deleting existing ISO at https://vc/folder/x.iso returned 403 Forbidden".into())
    );
    assert_eq!(
        upload_step(true, url, &UploadEvent::DeleteFailed),
        UploadStep::Failed("deleting existing ISO before re-upload".into())
    );
}

#[test]
fn an_unforced_upload_reuses_a_present_iso() {
    let url = "https://vc/folder/x.iso";
    assert_eq!(upload_step(false, url, &UploadEvent::Started), UploadStep::ProbeExisting);
    assert_eq!(upload_step(false, url, &UploadEvent::ProbeAnswered(200)), UploadStep::Reused);
    assert_eq!(upload_step(false, url, &UploadEvent::ProbeAnswered(404)), UploadStep::Put);
    assert_eq!(upload_step(false, url, &UploadEvent::ProbeFailed), UploadStep::Put);
}

#[test]
fn the_put_succeeds_only_on_a_2xx_answer() {
    let url = "https://vc/folder/x.iso";
    assert_eq!(
        upload_step(false, url, &UploadEvent::PutAnswered(201, "201 Created".into(), String::new())),
        UploadStep::Uploaded
    );
    assert_eq!(
        upload_step(false, url, &UploadEvent::PutAnswered(500, "500 Internal Server Error".into(), "boom".into())),
        UploadStep::Failed("datastore upload to https://vc/folder/x.iso returned 500 Internal Server Error: boom".into())
    );
    assert_eq!(
        upload_step(false, url, &UploadEvent::PutFailed),
        UploadStep::Failed("datastore upload request failed".into())
    );
}

// ---------------------------------------------------------------------
// Laws on concrete values
// ---------------------------------------------------------------------

#[test]
fn slugify_is_idempotent_and_well_shaped() {
    for s in ["Hello, World!", "--a__b--", "ÄÖ x 9", "", "already-a-slug", "A--B"] {
        let once = slugify(s);
        assert_eq!(slugify(&once), once);
        assert!(once.chars().all(|c| c.is_ascii_lowercase() || c.is_ascii_digit() || c == '-'));
        assert!(!once.starts_with('-') && !once.ends_with('-') && !once.contains("--"));
        let alnum: String = s.chars().filter(|c| c.is_ascii_alphanumeric()).map(|c| c.to_ascii_lowercase()).collect();
        assert_eq!(once.replace('-', ""), alnum);
    }
    assert_eq!(slugify("Hello, World!"), "hello-world");
}

#[test]
fn server_address_is_idempotent_and_a_prefix() {
    for e in ["https://vc.example.com:443/sdk", "vc.example.com", "https://h?x=1#f", "a://b://c/d"] {
        let once = server_address(e);
        assert_eq!(server_address(&once), once);
        assert!(!once.contains('/') && !once.contains('?') && !once.contains('#'));
        let rest = e.split_once("://").map_or(e, |(_, r)| r);
        assert!(rest.starts_with(once.as_str()));
    }
    assert_eq!(server_address("https://vc.example.com:443/sdk"), "vc.example.com:443");
}

#[test]
fn guest_id_ignores_case() {
    for (f, d) in [("linux", "Ubuntu 24.04"), ("Windows", "2019"), ("bsd", "freebsd"), ("LINUX", "rhel 9")] {
        assert_eq!(guest_id_for(f, d), guest_id_for(&f.to_ascii_uppercase(), &d.to_ascii_uppercase()));
    }
    assert_eq!(guest_id_for("WiNdOwS", "anything"), "windows2019srv_64Guest");
    assert_eq!(guest_id_for("plan9", "x"), "otherGuest64");
}

#[test]
fn template_settings_fill_the_defaults() {
    let d = template_settings(None, None, None, None, None);
    assert_eq!(d.cpus, 2);
    assert_eq!(d.memory_mib, 4096);
    assert_eq!(d.firmware, Firmware::Efi);
    assert_eq!(d.install_timeout_seconds, DEFAULT_INSTALL_TIMEOUT_SECS as i32);
    assert_eq!(d.install_mode, InstallMode::Immediate);
    let g = template_settings(Some(8), Some(16384), Some(Firmware::Bios), Some(60), Some(InstallMode::Manual));
    assert_eq!((g.cpus, g.memory_mib, g.firmware, g.install_timeout_seconds, g.install_mode), (8, 16384, Firmware::Bios, 60, InstallMode::Manual));
}

#[test]
fn placement_reuses_the_first_member_holding_the_iso() {
    let c = vec![ds("a", Some("pod"), Some(10)), ds("b", Some("pod"), Some(500)), ds("c", Some("pod"), Some(90))];
    assert_eq!(placement_step(&c, false, 0, None), Placement::Probe(0));
    assert_eq!(placement_step(&c, false, 1, Some(ProbeResult::Answered(404))), Placement::Probe(1));
    assert_eq!(placement_step(&c, false, 2, Some(ProbeResult::NoAnswer)), Placement::Probe(2));
    assert_eq!(placement_step(&c, false, 3, Some(ProbeResult::Answered(200))), Placement::Use(2));
    assert_eq!(placement_step(&c, false, 2, Some(ProbeResult::Answered(204))), Placement::Use(1));
}

#[test]
fn placement_falls_back_to_the_emptiest_member() {
    let c = vec![ds("a", Some("pod"), Some(10)), ds("b", Some("pod"), Some(500)), ds("c", Some("pod"), Some(90))];
    assert_eq!(placement_step(&c, false, 3, Some(ProbeResult::Answered(404))), Placement::Use(1));
    assert_eq!(placement_step(&c, true, 0, None), Placement::Use(1));
}
