use banlieue::str_map::StrMap;
use banlieue::vsphere::api::{
    DiskController, DiskProvisioning, Firmware, InstallMode, NicAdapter, PowerState,
};
use banlieue::vsphere::cli::{
    build_leader_config, provider_watch_config, vmimage_ref_from_job, Cli, DEFAULT_HEALTH_PORT,
    DEFAULT_IMPORT_IMAGE, DEFAULT_LEADER_ELECTION_ID, DEFAULT_METRICS_PORT,
    DEFAULT_VSPHERE_TASK_TIMEOUT_SECS,
};
use banlieue::vsphere::client::{credentials_from_secret, CloneVmRequest, Network};
use banlieue::vsphere::error::Error;
use banlieue::vsphere::import::{requested_nics, ResolvedNic};
use banlieue::vsphere::vcenter_steps::{
    boot_order_plan, check_created_nics, check_powered_on, clone_extra_config,
    existing_template_step, folder_segments, install_wait_timeout, resolved_template_ref,
    task_poll, task_timeout, template_nic, template_pci_slot_number, BootDevice,
    ExistingTemplate, TaskPoll, TaskState,
};
use banlieue::vsphere::client::{IsoImportRequest, RequestedNic};
use banlieue::vsphere::vim::{template_config_plan, DeviceInfo, DeviceKind, KEY_NIC};

fn device(kind: DeviceKind, key: i32) -> DeviceInfo {
    DeviceInfo {
        kind,
        key,
        controller_key: Some(200),
        unit_number: Some(0),
        pci_slot: None,
    }
}

fn vsphere_message(e: Error) -> String {
    match e {
        Error::Vsphere(m) => m,
        other => panic!("unexpected error {other:?}"),
    }
}

// ---------------------------------------------------------------------
// A template build
// ---------------------------------------------------------------------

#[test]
fn an_existing_template_is_kept_unless_a_rebuild_is_forced() {
    assert_eq!(existing_template_step(None, false), ExistingTemplate::Create);
    assert_eq!(existing_template_step(None, true), ExistingTemplate::Create);
    assert_eq!(existing_template_step(Some("vm-1".to_string()), false), ExistingTemplate::Keep);
    assert_eq!(
        existing_template_step(Some("vm-1".to_string()), true),
        ExistingTemplate::Replace("vm-1".to_string())
    );
}

#[test]
fn a_template_reference_names_its_datastore() {
    assert_eq!(resolved_template_ref("ds-1", "kairos"), "[ds-1] kairos");
}

#[test]
fn a_created_vm_must_have_every_requested_nic() {
    let devices = vec![
        device(DeviceKind::Disk, 2000),
        device(DeviceKind::Vmxnet3, 4000),
        device(DeviceKind::E1000, 4001),
    ];
    assert!(check_created_nics("vm-9", &devices, 2).is_ok());
    assert_eq!(
        vsphere_message(check_created_nics("vm-9", &devices, 3).unwrap_err()),
        "vm-9: expected 3 NIC device(s) after CreateVM_Task, found 2"
    );
}

#[test]
fn the_boot_order_is_cdrom_disk_then_the_first_nic() {
    let devices = vec![
        device(DeviceKind::Vmxnet3, 4000),
        device(DeviceKind::Disk, 2000),
        device(DeviceKind::Cdrom, 3000),
        device(DeviceKind::E1000, 4001),
    ];
    let plan = boot_order_plan("vm-9", &devices, "[ds] banlieue-images/x.iso").unwrap();
    assert_eq!(plan.cdrom.key, 3000);
    assert_eq!(plan.cdrom.controller_key, Some(200));
    assert_eq!(plan.iso_datastore_path, "[ds] banlieue-images/x.iso");
    assert_eq!(
        plan.order,
        vec![BootDevice::Cdrom, BootDevice::Disk(2000), BootDevice::Ethernet(4000)]
    );
}

#[test]
fn the_boot_order_needs_a_cdrom_a_disk_and_a_nic() {
    let no_cdrom = vec![device(DeviceKind::Disk, 2000)];
    assert_eq!(
        vsphere_message(boot_order_plan("vm-9", &no_cdrom, "iso").err().unwrap()),
        "vm-9: no CD-ROM device after CreateVM_Task"
    );
    let no_disk = vec![device(DeviceKind::Cdrom, 3000)];
    assert_eq!(
        vsphere_message(boot_order_plan("vm-9", &no_disk, "iso").err().unwrap()),
        "vm-9: no disk device after CreateVM_Task"
    );
    let no_nic = vec![device(DeviceKind::Cdrom, 3000), device(DeviceKind::Disk, 2000)];
    assert_eq!(
        vsphere_message(boot_order_plan("vm-9", &no_nic, "iso").err().unwrap()),
        "vm-9: no NIC device after CreateVM_Task"
    );
}

#[test]
fn a_vm_must_be_running_after_power_on() {
    assert!(check_powered_on("vm-9", Some(PowerState::PoweredOn)).is_ok());
    assert_eq!(
        vsphere_message(check_powered_on("vm-9", Some(PowerState::Suspended)).unwrap_err()),
        "vm-9 did not report poweredOn after PowerOnVM_Task (state: Suspended)"
    );
    assert_eq!(
        vsphere_message(check_powered_on("vm-9", None).unwrap_err()),
        "vm-9 did not report poweredOn after PowerOnVM_Task (state: Other)"
    );
}

#[test]
fn an_install_wait_names_how_long_it_waited() {
    let m = vsphere_message(install_wait_timeout("vm-9", 360));
    assert!(m.starts_with("vm-9 did not power itself off within 1800s"), "{m}");
    assert!(m.contains("install.poweroff: true"), "{m}");
}

#[test]
fn a_task_poll_ends_on_success_or_error() {
    assert!(matches!(task_poll(TaskState::Success, None, "create VM"), TaskPoll::Done));
    assert!(matches!(task_poll(TaskState::Running, None, "create VM"), TaskPoll::Pending));
    assert!(matches!(task_poll(TaskState::Queued, None, "create VM"), TaskPoll::Pending));
    match task_poll(TaskState::Error, Some("InvalidPowerState".to_string()), "power on") {
        TaskPoll::Failed(e) => assert_eq!(vsphere_message(e), "power on task failed: InvalidPowerState"),
        _ => panic!("expected a failure"),
    }
    match task_poll(TaskState::Error, None, "power on") {
        TaskPoll::Failed(e) => assert_eq!(vsphere_message(e), "power on task failed: no fault detail"),
        _ => panic!("expected a failure"),
    }
    assert_eq!(
        vsphere_message(task_timeout("clone VM", "task-7")),
        "clone VM task task-7 did not complete within 600s"
    );
}

// ---------------------------------------------------------------------
// A clone
// ---------------------------------------------------------------------

#[test]
fn a_clone_repoints_the_templates_first_nic() {
    let devices = vec![
        device(DeviceKind::Disk, 2000),
        DeviceInfo {
            kind: DeviceKind::Vmxnet3,
            key: 4000,
            controller_key: None,
            unit_number: None,
            pci_slot: Some(192),
        },
    ];
    assert_eq!(
        template_nic("vm-tpl", &devices).unwrap(),
        (4000, DeviceKind::Vmxnet3, Some(192))
    );
    assert_eq!(
        vsphere_message(template_nic("vm-tpl", &[device(DeviceKind::Disk, 2000)]).unwrap_err()),
        "vm-tpl: template has no NIC to reconfigure"
    );
}

fn request(extra: Vec<(String, String)>) -> CloneVmRequest {
    CloneVmRequest {
        datacenter_moref: "dc".to_string(),
        cluster_moref: "c".to_string(),
        template_moref: "t".to_string(),
        datastore_moref: "ds".to_string(),
        network: "n".to_string(),
        network_moref: "nm".to_string(),
        network_distributed: false,
        num_cpus: 2,
        memory_mib: 2048,
        folder: None,
        vm_name: "vm".to_string(),
        extra_config: extra,
    }
}

#[test]
fn a_clone_carries_the_templates_pci_slot_entry() {
    let extra = vec![
        ("other".to_string(), Some("x".to_string())),
        ("ethernet0.pciSlotNumber".to_string(), Some("192".to_string())),
        ("ethernet0.pciSlotNumber".to_string(), Some("256".to_string())),
    ];
    let slot = template_pci_slot_number(&extra);
    assert_eq!(slot.as_deref(), Some("192"));
    let typed = vec![("ethernet0.pciSlotNumber".to_string(), None)];
    assert_eq!(template_pci_slot_number(&typed), None);

    let req = request(vec![("guestinfo.a".to_string(), "1".to_string())]);
    assert_eq!(
        clone_extra_config(&req, slot),
        vec![
            ("guestinfo.a".to_string(), "1".to_string()),
            ("ethernet0.pciSlotNumber".to_string(), "192".to_string()),
        ]
    );
    assert_eq!(
        clone_extra_config(&req, None),
        vec![("guestinfo.a".to_string(), "1".to_string())]
    );
}

#[test]
fn folder_paths_skip_empty_segments() {
    assert_eq!(folder_segments("templates//kairos/"), vec!["templates", "kairos"]);
    assert_eq!(folder_segments("/a"), vec!["a"]);
    assert!(folder_segments("").is_empty());
}

// ---------------------------------------------------------------------
// Credentials, NICs, enum names
// ---------------------------------------------------------------------

#[test]
fn credentials_come_from_the_secret_keys() {
    let c = credentials_from_secret(Some(b"admin".as_slice()), Some(b"pw".as_slice())).unwrap();
    assert_eq!(c.username, "admin");
    assert_eq!(c.password, "pw");
    let missing = |u: Option<&[u8]>, p: Option<&[u8]>| match credentials_from_secret(u, p) {
        Err(Error::Missing(m)) => m,
        _ => panic!("expected a missing key"),
    };
    let admin: &[u8] = b"admin";
    let pw: &[u8] = b"pw";
    let bad: &[u8] = &[0xff];
    let cut: &[u8] = &[0xc3];
    assert_eq!(missing(None, Some(pw)), "secret.data.username");
    assert_eq!(missing(Some(admin), None), "secret.data.password");
    assert_eq!(missing(Some(bad), Some(pw)), "secret.data.username (not utf-8)");
    assert_eq!(missing(Some(admin), Some(cut)), "secret.data.password (not utf-8)");
}

fn net(name: &str, distributed: bool) -> Network {
    Network {
        name: name.to_string(),
        moref: format!("network-{name}"),
        distributed,
    }
}

#[test]
fn each_nic_lands_on_its_reachable_port_group() {
    let nics = vec![
        ResolvedNic {
            network: "pg-prod".to_string(),
            adapter: NicAdapter::Vmxnet3,
            pci_slot: 192,
        },
        ResolvedNic {
            network: "VM Network".to_string(),
            adapter: NicAdapter::E1000,
            pci_slot: 193,
        },
    ];
    let networks = vec![net("VM Network", false), net("pg-prod", true)];
    let out = requested_nics(&nics, &networks, "cluster-a").unwrap();
    assert_eq!(out.len(), 2);
    assert_eq!(out[0].network_moref, "network-pg-prod");
    assert!(out[0].network_distributed);
    assert_eq!(out[1].network_moref, "network-VM Network");
    assert_eq!(out[1].pci_slot, 193);
    let err = requested_nics(&nics, &[net("pg-prod", true)], "cluster-a").unwrap_err();
    assert_eq!(err, "network \"VM Network\" not reachable from cluster \"cluster-a\"");
}

#[test]
fn wire_names_read_back() {
    for d in [DiskProvisioning::Thin, DiskProvisioning::Thick, DiskProvisioning::EagerZeroed] {
        assert_eq!(DiskProvisioning::from_name(d.as_str()), Some(d));
    }
    for c in [
        DiskController::Pvscsi,
        DiskController::LsiLogic,
        DiskController::LsiLogicSas,
        DiskController::BusLogic,
    ] {
        assert_eq!(DiskController::from_name(c.as_str()), Some(c));
    }
    for f in [Firmware::Bios, Firmware::Efi, Firmware::EfiSecure] {
        assert_eq!(Firmware::from_name(f.as_str()), Some(f));
    }
    for m in [InstallMode::Immediate, InstallMode::Deferred, InstallMode::Manual] {
        assert_eq!(InstallMode::from_name(m.as_str()), Some(m));
    }
    assert_eq!(Firmware::from_name("EFI"), None);
    assert_eq!(DiskProvisioning::from_name("thin "), None);
}

// ---------------------------------------------------------------------
// The command line
// ---------------------------------------------------------------------

#[test]
fn defaults_are_applied() {
    let cli = Cli::defaults();
    assert_eq!(cli.health_port, DEFAULT_HEALTH_PORT);
    assert_eq!(cli.metrics_port, DEFAULT_METRICS_PORT);
    assert_eq!(cli.log_format, "text");
    assert!(!cli.no_leader_elect);
    assert_eq!(cli.leader_election_id, DEFAULT_LEADER_ELECTION_ID);
    assert_eq!(cli.vsphere_task_timeout_secs, DEFAULT_VSPHERE_TASK_TIMEOUT_SECS);
    assert_eq!(cli.import_image, DEFAULT_IMPORT_IMAGE);
}

#[test]
fn provider_name_defaults_to_unset() {
    assert_eq!(Cli::defaults().provider_name, None);
}

#[test]
fn build_leader_config_maps_cli_values() {
    let mut cli = Cli::defaults();
    cli.leader_election_namespace = "other-ns".to_string();
    cli.leader_election_id = "custom-lock".to_string();
    cli.leader_election_identity = Some("pod-1".to_string());
    let cfg = build_leader_config(&cli, "host-a");
    assert_eq!(cfg.namespace, "other-ns");
    assert_eq!(cfg.lease_name, "custom-lock");
    assert_eq!(cfg.identity, "pod-1");
    cli.leader_election_identity = None;
    assert_eq!(build_leader_config(&cli, "host-a").identity, "host-a");
}

#[test]
fn provider_name_produces_a_field_selector_for_that_object() {
    assert_eq!(provider_watch_config(Some("prod-vc")).as_deref(), Some("metadata.name=prod-vc"));
}

#[test]
fn no_provider_name_leaves_the_watch_unscoped() {
    assert!(provider_watch_config(None).is_none());
}

#[test]
fn vmimage_ref_from_job_maps_to_the_labeled_image() {
    let mut labels = StrMap::new();
    labels.insert("banlieue.io/vmimage".to_string(), "hadron-kairos-v0.1.0".to_string());
    assert_eq!(vmimage_ref_from_job(Some(&labels)).as_deref(), Some("hadron-kairos-v0.1.0"));
}

#[test]
fn vmimage_ref_from_job_is_empty_when_the_label_is_missing() {
    let labels = StrMap::new();
    assert!(vmimage_ref_from_job(Some(&labels)).is_none());
    assert!(vmimage_ref_from_job(None).is_none());
}

// ---------- template configuration ----------------------------------------

fn minimal_iso_import_request(firmware: Firmware) -> IsoImportRequest {
    IsoImportRequest {
        datacenter: "dc1".to_string(),
        datacenter_moref: "datacenter-1".to_string(),
        cluster: "c1".to_string(),
        cluster_moref: "domain-c1".to_string(),
        datastore: "ds1".to_string(),
        nics: vec![RequestedNic {
            network: "vmnet-prod".to_string(),
            network_moref: "network-7".to_string(),
            network_distributed: false,
            adapter: NicAdapter::Vmxnet3,
            pci_slot: 160,
        }],
        disk_gib: 100,
        disk_provisioning: DiskProvisioning::Thin,
        disk_controller: DiskController::Pvscsi,
        cpus: 2,
        memory_mib: 4096,
        firmware,
        folder: None,
        iso_datastore_path: "[ds1] banlieue-images/img.iso".to_string(),
        template_name: "img".to_string(),
        guest_id: "otherLinux64Guest".to_string(),
        force_create: false,
        install_timeout_seconds: 1800,
        install_mode: InstallMode::Immediate,
    }
}

#[test]
fn build_template_config_spec_omits_boot_options_for_plain_efi() {
    let plan = template_config_plan(&minimal_iso_import_request(Firmware::Efi));
    assert_eq!(plan.firmware, "efi");
    assert!(!plan.secure_boot);
}

#[test]
fn build_template_config_spec_omits_boot_options_for_bios() {
    let plan = template_config_plan(&minimal_iso_import_request(Firmware::Bios));
    assert_eq!(plan.firmware, "bios");
    assert!(!plan.secure_boot);
}

#[test]
fn build_template_config_spec_sets_secure_boot_for_efi_secure() {
    let plan = template_config_plan(&minimal_iso_import_request(Firmware::EfiSecure));
    assert_eq!(plan.firmware, "efi");
    assert!(plan.secure_boot);
}

#[test]
fn template_config_plan_sizes_and_places_the_hardware() {
    let mut req = minimal_iso_import_request(Firmware::Efi);
    req.disk_gib = 0;
    req.disk_provisioning = DiskProvisioning::EagerZeroed;
    let plan = template_config_plan(&req);
    assert_eq!(plan.capacity_in_kb, 1_048_576);
    assert_eq!(plan.thin_provisioned, Some(false));
    assert_eq!(plan.eagerly_scrub, Some(true));
    assert_eq!(plan.vm_path_name, "[ds1]");
    assert_eq!(plan.iso_path, "[ds1] banlieue-images/img.iso");
    assert_eq!(plan.nics.len(), 1);
    assert_eq!(plan.nics[0].key, KEY_NIC);
    assert_eq!(plan.nics[0].network, "vmnet-prod");
    assert_eq!(plan.scsi_controller, DiskController::Pvscsi);
}
