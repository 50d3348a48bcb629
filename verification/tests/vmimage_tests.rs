use banlieue::str_map::StrMap;
use banlieue::vsphere::api::{
    DiskController, DiskProvisioning, FailureDomain, FailureDomainAttributes, Firmware,
    InstallMode, NicAdapter, Provider, ProviderCapabilities, ProviderSpec, ProviderStatus,
    VMImageTemplateNic,
};
use banlieue::vsphere::client::Datacenter;
use banlieue::vsphere::vmimage::{
    build_import_job, find_vsphere_source, force_reimport_requested, gate_on_build_artifact,
    select_live_datacenters, status_datacenters, template_status, url_source_precheck,
    zone_from_job, zone_template_datacenter, BuildArtifactKind, BuildArtifactPhase,
    BuildArtifactStatus, ImageSource, ImageSourceKind, ImportForce, ImportJobInputs, JobCounts,
    TemplateLookup, VMImageTemplate, VMImageTemplateDisk, ZoneImageStatus,
    REASON_BUILD_FAILED, REASON_BUILD_PENDING, REASON_IMPORTING, REASON_IMPORT_FAILED,
    REASON_LOOKUP_FAILED, REASON_RECONCILED, REASON_TEMPLATE_NOT_FOUND,
    REASON_WRONG_ARTIFACT_KIND,
};

fn vsphere_image_source(template_name: &str) -> ImageSource {
    ImageSource {
        provider_class: "vsphere".to_string(),
        kind: ImageSourceKind::Template,
        reference: template_name.to_string(),
    }
}

// ---------------------------------------------------------------------
// find_vsphere_source
// ---------------------------------------------------------------------

#[test]
fn find_vsphere_source_picks_first_vsphere_template() {
    let sources = vec![
        ImageSource {
            provider_class: "proxmox".to_string(),
            kind: ImageSourceKind::Template,
            reference: "9000".to_string(),
        },
        vsphere_image_source("ubuntu-22.04"),
    ];
    let picked = find_vsphere_source(&sources).unwrap();
    assert_eq!(picked.reference, "ubuntu-22.04");
}

#[test]
fn find_vsphere_source_also_picks_url_sources() {
    let sources = vec![ImageSource {
        provider_class: "vsphere".to_string(),
        kind: ImageSourceKind::Url,
        reference: String::new(),
    }];
    let picked = find_vsphere_source(&sources).unwrap();
    assert_eq!(picked.kind, ImageSourceKind::Url);
}

#[test]
fn find_vsphere_source_returns_none_for_backing_file_only() {
    let sources = vec![ImageSource {
        provider_class: "vsphere".to_string(),
        kind: ImageSourceKind::BackingFile,
        reference: "/var/lib/libvirt/ubuntu.qcow2".to_string(),
    }];
    assert!(find_vsphere_source(&sources).is_none());
}

#[test]
fn find_vsphere_source_returns_none_for_other_provider_classes() {
    let sources = vec![ImageSource {
        provider_class: "libvirt".to_string(),
        kind: ImageSourceKind::Template,
        reference: "/var/lib/libvirt/ubuntu.qcow2".to_string(),
    }];
    assert!(find_vsphere_source(&sources).is_none());
}

// ---------------------------------------------------------------------
// gate_on_build_artifact
// ---------------------------------------------------------------------

fn iso_artifact(phase: BuildArtifactPhase) -> BuildArtifactStatus {
    BuildArtifactStatus {
        kind: BuildArtifactKind::Iso,
        phase,
        os_artifact_ref: "img-build".to_string(),
        os_artifact_uid: None,
        pvc_name: Some("img-build-artifacts".to_string()),
        file: Some("img-build.iso".to_string()),
        message: None,
        checksum: None,
    }
}

#[test]
fn gate_no_build_artifact_yet_is_build_pending() {
    let (reason, _msg) = gate_on_build_artifact(None).unwrap_err();
    assert_eq!(reason, REASON_BUILD_PENDING);
}

#[test]
fn gate_pending_or_building_is_build_pending() {
    for phase in [BuildArtifactPhase::Pending, BuildArtifactPhase::Building] {
        let a = iso_artifact(phase);
        let (reason, _) = gate_on_build_artifact(Some(&a)).unwrap_err();
        assert_eq!(reason, REASON_BUILD_PENDING);
    }
}

#[test]
fn gate_failed_surfaces_build_failed_with_message() {
    let mut a = iso_artifact(BuildArtifactPhase::Failed);
    a.message = Some("pull failed: manifest unknown".to_string());
    let (reason, msg) = gate_on_build_artifact(Some(&a)).unwrap_err();
    assert_eq!(reason, REASON_BUILD_FAILED);
    assert_eq!(msg, "pull failed: manifest unknown");
}

#[test]
fn gate_ready_iso_is_ok() {
    let a = iso_artifact(BuildArtifactPhase::Ready);
    let got = gate_on_build_artifact(Some(&a)).expect("a ready iso is accepted");
    assert_eq!(got.file.as_deref(), Some("img-build.iso"));
}

#[test]
fn gate_ready_but_cloud_image_is_wrong_kind() {
    let mut a = iso_artifact(BuildArtifactPhase::Ready);
    a.kind = BuildArtifactKind::CloudImage;
    let (reason, _) = gate_on_build_artifact(Some(&a)).unwrap_err();
    assert_eq!(reason, REASON_WRONG_ARTIFACT_KIND);
}

// ---------------------------------------------------------------------
// build_import_job
// ---------------------------------------------------------------------

fn inputs<'a>(artifact: &'a BuildArtifactStatus, nics: &'a [VMImageTemplateNic]) -> ImportJobInputs<'a> {
    ImportJobInputs {
        job_name: "import-x",
        namespace: "banlieue-imagebuild",
        image: "img",
        service_account: None,
        vmimage: "kairos-rhel98",
        provider_name: "vc",
        provider_namespace: "banlieue-system",
        failure_domain: "vc-dc-east-cluster-a",
        artifact,
        tolerations: &[],
        force_upload: false,
        force_create: false,
        nics,
        disk: None,
        cpus: None,
        memory_mib: None,
        firmware: None,
        guest_id: None,
        root_folder: None,
        install_timeout_seconds: None,
        install_mode: None,
    }
}

#[test]
fn build_import_job_runs_the_image_import_subcommand_with_pvc_mounted() {
    let artifact = iso_artifact(BuildArtifactPhase::Ready);
    let mut i = inputs(&artifact, &[]);
    i.image = "ghcr.io/firestoned/banlieue:local-dev";
    i.service_account = Some("banlieue-import");
    let job = build_import_job(&i);
    assert_eq!(job.namespace, "banlieue-imagebuild");
    let args: Vec<&str> = job.args.iter().map(|a| a.as_str()).collect();
    assert!(args.starts_with(&["provider", "vsphere", "image-import"]));
    assert!(args.contains(&"--failure-domain"));
    assert!(args.contains(&"vc-dc-east-cluster-a"));
    assert!(args.contains(&"/artifacts/img-build.iso"));
    assert_eq!(job.pvc_claim, "img-build-artifacts");
    assert_eq!(job.service_account.as_deref(), Some("banlieue-import"));
    assert_eq!(job.container_image, "ghcr.io/firestoned/banlieue:local-dev");
    assert_eq!(job.backoff_limit, 1);
}

#[test]
fn build_import_job_has_no_owner_reference_when_os_artifact_uid_unknown() {
    let artifact = iso_artifact(BuildArtifactPhase::Ready);
    assert!(artifact.os_artifact_uid.is_none());
    let job = build_import_job(&inputs(&artifact, &[]));
    assert!(job.owner_references.is_none());
}

#[test]
fn build_import_job_is_owned_by_the_os_artifact_when_uid_known() {
    let mut artifact = iso_artifact(BuildArtifactPhase::Ready);
    artifact.os_artifact_uid = Some("11111111-2222-3333-4444-555555555555".to_string());
    let job = build_import_job(&inputs(&artifact, &[]));
    let owners = job.owner_references.expect("owned");
    let owner = &owners[0];
    assert_eq!(owner.api_version, "build.kairos.io/v1alpha2");
    assert_eq!(owner.kind, "OSArtifact");
    assert_eq!(owner.name, "img-build");
    assert_eq!(owner.uid, "11111111-2222-3333-4444-555555555555");
}

#[test]
fn build_import_job_threads_the_checksum_when_present() {
    let mut artifact = iso_artifact(BuildArtifactPhase::Ready);
    artifact.checksum = Some("sha256:abc".to_string());
    let job = build_import_job(&inputs(&artifact, &[]));
    assert!(job.args.iter().any(|a| a == "--checksum"));
    assert!(job.args.iter().any(|a| a == "sha256:abc"));
}

#[test]
fn build_import_job_emits_force_flags_independently() {
    let artifact = iso_artifact(BuildArtifactPhase::Ready);
    let args_of = |upload: bool, create: bool| -> Vec<String> {
        let mut i = inputs(&artifact, &[]);
        i.force_upload = upload;
        i.force_create = create;
        build_import_job(&i).args
    };
    let has = |a: &[String], f: &str| a.iter().any(|x| x == f);

    let none = args_of(false, false);
    assert!(!has(&none, "--force-upload") && !has(&none, "--force-create"));
    let up = args_of(true, false);
    assert!(has(&up, "--force-upload") && !has(&up, "--force-create"));
    let cr = args_of(false, true);
    assert!(!has(&cr, "--force-upload") && has(&cr, "--force-create"));
    let both = args_of(true, true);
    assert!(has(&both, "--force-upload") && has(&both, "--force-create"));
}

fn nic(network: Option<&str>, adapter: Option<NicAdapter>, pci_slot: Option<i32>) -> VMImageTemplateNic {
    VMImageTemplateNic {
        network: network.map(str::to_string),
        adapter,
        pci_slot,
    }
}

#[test]
fn import_force_reads_the_full_template_off_the_image() {
    let template = VMImageTemplate {
        root_folder: Some("templates/kairos".to_string()),
        network: vec![nic(Some("vmnet-prod"), Some(NicAdapter::E1000), Some(224))],
        disk: Some(VMImageTemplateDisk {
            size: Some(120),
            provisioning: DiskProvisioning::Thick,
            controller: DiskController::Pvscsi,
        }),
        cpus: Some(4),
        memory_mib: Some(8192),
        firmware: Some(Firmware::EfiSecure),
        guest_id: Some("rhel9_64Guest".to_string()),
        force_upload: true,
        force_create: false,
        install_timeout_seconds: Some(900),
        install_mode: InstallMode::Deferred,
        retain_on_delete: false,
    };
    let force = ImportForce::from_image(None, Some(&template));
    assert!(force.upload && !force.create);
    assert_eq!(force.nics.len(), 1);
    assert_eq!(force.nics[0].network.as_deref(), Some("vmnet-prod"));
    assert_eq!(force.nics[0].adapter, Some(NicAdapter::E1000));
    assert_eq!(force.nics[0].pci_slot, Some(224));
    assert_eq!(force.cpus, Some(4));
    assert_eq!(force.memory_mib, Some(8192));
    assert_eq!(force.firmware, Some(Firmware::EfiSecure));
    assert_eq!(force.guest_id.as_deref(), Some("rhel9_64Guest"));
    assert_eq!(force.root_folder.as_deref(), Some("templates/kairos"));
    assert_eq!(force.disk.as_ref().and_then(|d| d.size), Some(120));
    assert_eq!(force.install_timeout_seconds, Some(900));
    assert_eq!(force.install_mode, Some(InstallMode::Deferred));

    let empty = ImportForce::from_image(None, None);
    assert!(!empty.upload && !empty.create);
    assert!(empty.nics.is_empty() && empty.disk.is_none() && empty.firmware.is_none());
    assert!(empty.install_timeout_seconds.is_none());
    assert!(empty.install_mode.is_none());
}

#[test]
fn build_import_job_threads_all_template_hardware_knobs() {
    let artifact = iso_artifact(BuildArtifactPhase::Ready);
    let nics = vec![nic(Some("vmnet-prod"), Some(NicAdapter::E1000e), Some(256))];
    let mut i = inputs(&artifact, &nics);
    i.disk = Some(VMImageTemplateDisk {
        size: Some(80),
        provisioning: DiskProvisioning::EagerZeroed,
        controller: DiskController::LsiLogicSas,
    });
    i.cpus = Some(8);
    i.memory_mib = Some(16384);
    i.firmware = Some(Firmware::EfiSecure);
    i.guest_id = Some("rhel9_64Guest");
    i.root_folder = Some("templates/kairos");
    i.install_timeout_seconds = Some(900);
    i.install_mode = Some(InstallMode::Deferred);
    let args = build_import_job(&i).args;
    let pair = |flag: &str, value: &str| args.windows(2).any(|w| w[0] == flag && w[1] == value);
    assert!(pair("--nic", "network=vmnet-prod,adapter=e1000e,pciSlot=256"), "{args:?}");
    assert!(pair("--disk-gb", "80"), "{args:?}");
    assert!(pair("--disk-type", "eagerZeroed"), "{args:?}");
    assert!(pair("--disk-controller", "lsiLogicSas"), "{args:?}");
    assert!(pair("--cpus", "8"), "{args:?}");
    assert!(pair("--memory-mib", "16384"), "{args:?}");
    assert!(pair("--firmware", "efi-secure"), "{args:?}");
    assert!(pair("--guest-id", "rhel9_64Guest"), "{args:?}");
    assert!(pair("--root-folder", "templates/kairos"), "{args:?}");
    assert!(pair("--install-timeout-seconds", "900"), "{args:?}");
    assert!(pair("--install-mode", "Deferred"), "{args:?}");
}

#[test]
fn build_import_job_emits_one_nic_flag_per_declared_nic() {
    let artifact = iso_artifact(BuildArtifactPhase::Ready);
    let nics = vec![
        nic(Some("vmnet-prod"), Some(NicAdapter::Vmxnet3), Some(192)),
        nic(Some("vmnet-mgmt"), None, None),
    ];
    let args = build_import_job(&inputs(&artifact, &nics)).args;
    let nic_values: Vec<&str> = args
        .windows(2)
        .filter(|w| w[0] == "--nic")
        .map(|w| w[1].as_str())
        .collect();
    assert_eq!(
        nic_values,
        vec!["network=vmnet-prod,adapter=vmxnet3,pciSlot=192", "network=vmnet-mgmt"]
    );
}

#[test]
fn build_import_job_omits_install_timeout_flag_when_unset() {
    let artifact = iso_artifact(BuildArtifactPhase::Ready);
    let args = build_import_job(&inputs(&artifact, &[])).args;
    assert!(!args.iter().any(|a| a == "--install-timeout-seconds"));
    assert!(!args.iter().any(|a| a == "--install-mode"));
}

#[test]
fn build_import_job_labels_the_job_with_its_image_and_zone() {
    let artifact = iso_artifact(BuildArtifactPhase::Ready);
    let job = build_import_job(&inputs(&artifact, &[]));
    assert_eq!(job.labels.get("banlieue.io/vmimage").map(String::as_str), Some("kairos-rhel98"));
    assert_eq!(
        job.labels.get("banlieue.io/failure-domain").map(String::as_str),
        Some("vc-dc-east-cluster-a")
    );
    assert_eq!(job.ttl_seconds_after_finished, 86400);
}

#[test]
fn force_reimport_requested_reads_the_annotation() {
    assert!(!force_reimport_requested(None));
    let mut annotations = StrMap::new();
    annotations.insert("banlieue.io/force-reimport".to_string(), "true".to_string());
    assert!(force_reimport_requested(Some(&annotations)));
    let mut annotations = StrMap::new();
    annotations.insert("banlieue.io/force-reimport".to_string(), "false".to_string());
    assert!(!force_reimport_requested(Some(&annotations)));
    let mut annotations = StrMap::new();
    annotations.insert("banlieue.io/force-reimport".to_string(), "TRUE".to_string());
    assert!(force_reimport_requested(Some(&annotations)));
}

#[test]
fn zone_from_job_translates_success_running_and_failure() {
    let z = zone_from_job(
        "fd-1",
        "kairos-hadron",
        "templates/fd-1",
        "import-x",
        Some(JobCounts {
            succeeded: Some(1),
            failed: None,
        }),
    );
    assert!(z.ready);
    assert_eq!(z.reason.as_deref(), Some(REASON_RECONCILED));
    assert_eq!(z.resolved_ref.as_deref(), Some("kairos-hadron"));
    assert_eq!(z.template_folder.as_deref(), Some("templates/fd-1"));

    let z = zone_from_job(
        "fd-1",
        "kairos-hadron",
        "templates/fd-1",
        "import-x",
        Some(JobCounts {
            succeeded: None,
            failed: Some(1),
        }),
    );
    assert!(!z.ready);
    assert_eq!(z.reason.as_deref(), Some(REASON_IMPORT_FAILED));
    assert_eq!(z.message.as_deref(), Some("import Job import-x failed"));

    let z = zone_from_job(
        "fd-1",
        "kairos-hadron",
        "templates/fd-1",
        "import-x",
        Some(JobCounts {
            succeeded: None,
            failed: None,
        }),
    );
    assert!(!z.ready);
    assert_eq!(z.reason.as_deref(), Some(REASON_IMPORTING));
}

// ---------------------------------------------------------------------
// Template status and the Provider's datacenters
// ---------------------------------------------------------------------

#[test]
fn compute_template_status_returns_ready_when_template_present() {
    let lookups = vec![("dc-east".to_string(), TemplateLookup::Found)];
    let row = template_status("prov-east", "banlieue", "ubuntu-22.04", &lookups);
    assert!(row.ready);
    assert_eq!(row.reason.as_deref(), Some(REASON_RECONCILED));
    assert_eq!(row.provider_name, "prov-east");
    assert_eq!(row.provider_namespace, "banlieue");
    assert_eq!(row.resolved_ref.as_deref(), Some("[dc-east] ubuntu-22.04"));
}

#[test]
fn compute_template_status_returns_not_found_when_template_absent() {
    let lookups = vec![("dc-east".to_string(), TemplateLookup::Absent)];
    let row = template_status("p", "ns", "ubuntu-22.04", &lookups);
    assert!(!row.ready);
    assert_eq!(row.reason.as_deref(), Some(REASON_TEMPLATE_NOT_FOUND));
    assert!(row.message.as_deref().unwrap().contains("ubuntu-22.04"));
}

#[test]
fn compute_template_status_returns_not_found_with_no_datacenters() {
    let row = template_status("p", "ns", "ubuntu-22.04", &Vec::new());
    assert!(!row.ready);
    assert_eq!(row.reason.as_deref(), Some(REASON_TEMPLATE_NOT_FOUND));
    assert!(row.message.as_deref().unwrap().contains("no datacenters"));
}

#[test]
fn a_failed_lookup_reports_lookup_failed() {
    let lookups = vec![
        ("dc-a".to_string(), TemplateLookup::Found),
        ("dc-b".to_string(), TemplateLookup::Failed("timeout".to_string())),
    ];
    let row = template_status("p", "ns", "t", &lookups);
    assert!(!row.ready);
    assert_eq!(row.reason.as_deref(), Some(REASON_LOOKUP_FAILED));
    assert_eq!(row.message.as_deref(), Some("timeout"));
}

fn fd(name: &str, dc: Option<&str>) -> FailureDomain {
    let mut raw = StrMap::new();
    if let Some(d) = dc {
        raw.insert("datacenter".to_string(), d.to_string());
    }
    FailureDomain {
        name: name.to_string(),
        labels: StrMap::new(),
        attributes: FailureDomainAttributes {
            available_storage_classes: Vec::new(),
            available_network_classes: Vec::new(),
            features: Vec::new(),
            raw,
        },
    }
}

fn provider_with(fds: Vec<FailureDomain>) -> Provider {
    Provider {
        name: "vc".to_string(),
        namespace: "ns".to_string(),
        spec: ProviderSpec {
            capabilities: ProviderCapabilities {
                storage_classes: Vec::new(),
                network_classes: Vec::new(),
                features: Vec::new(),
            },
        },
        status: Some(ProviderStatus {
            failure_domains: fds,
        }),
    }
}

fn dc(name: &str) -> Datacenter {
    Datacenter {
        name: name.to_string(),
        moref: format!("datacenter-{name}"),
    }
}

#[test]
fn recorded_datacenters_are_listed_once_in_first_seen_order() {
    let p = provider_with(vec![
        fd("a", Some("dc-2")),
        fd("b", None),
        fd("c", Some("dc-1")),
        fd("d", Some("dc-2")),
    ]);
    assert_eq!(status_datacenters(&p), vec!["dc-2".to_string(), "dc-1".to_string()]);
}

#[test]
fn live_datacenters_are_cross_checked_against_the_status() {
    let live = vec![dc("dc-1"), dc("dc-2"), dc("dc-3")];
    let picked = select_live_datacenters(&vec!["dc-3".to_string(), "gone".to_string(), "dc-1".to_string()], live);
    let names: Vec<&str> = picked.iter().map(|d| d.name.as_str()).collect();
    assert_eq!(names, vec!["dc-1", "dc-3"]);
    let all = select_live_datacenters(&Vec::new(), vec![dc("dc-1")]);
    assert_eq!(all.len(), 1);
}

fn zone(name: &str, resolved: Option<&str>) -> ZoneImageStatus {
    ZoneImageStatus {
        name: name.to_string(),
        ready: true,
        resolved_ref: resolved.map(str::to_string),
        template_folder: Some(format!("templates/{name}")),
        reason: None,
        message: None,
    }
}

#[test]
fn a_zone_template_is_destroyed_in_its_failure_domains_datacenter() {
    let fds = vec![fd("z1", Some("dc-2")), fd("z2", None), fd("z3", Some("gone"))];
    let dcs = vec![dc("dc-1"), dc("dc-2")];
    assert_eq!(zone_template_datacenter(&zone("z1", Some("img")), &fds, &dcs), Some(1));
    assert_eq!(zone_template_datacenter(&zone("z1", None), &fds, &dcs), None);
    assert_eq!(zone_template_datacenter(&zone("z2", Some("img")), &fds, &dcs), None);
    assert_eq!(zone_template_datacenter(&zone("z3", Some("img")), &fds, &dcs), None);
    assert_eq!(zone_template_datacenter(&zone("z9", Some("img")), &fds, &dcs), None);
}

#[test]
fn url_sources_need_the_datastore_path_and_published_zones() {
    assert_eq!(url_source_precheck(false, 2), None);
    assert_eq!(url_source_precheck(true, 2).map(|v| v.0), Some("ContentLibraryNotImplemented"));
    assert_eq!(url_source_precheck(false, 0).map(|v| v.0), Some("NoFailureDomains"));
}

#[test]
fn build_import_job_mounts_the_artifacts_read_only_and_never_restarts() {
    let artifact = iso_artifact(BuildArtifactPhase::Ready);
    let job = build_import_job(&inputs(&artifact, &[]));
    assert_eq!(job.restart_policy, "Never");
    assert_eq!(job.container_name, "import");
    assert_eq!(job.volume_name, "artifacts");
    assert_eq!(job.mount_path, "/artifacts");
    assert!(job.read_only);
    assert_eq!(job.ttl_seconds_after_finished, 86400);
}
