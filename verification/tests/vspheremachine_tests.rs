use banlieue::sdk::status::Condition;
use banlieue::vsphere::api::PowerState;
use banlieue::vsphere::error::Error;
use banlieue::vsphere::fake::{FakeClient, FakeClientFactory, Inventory};
use banlieue::vsphere::guest::GuestProbe;
use banlieue::vsphere::client::{Credentials, Datacenter};
use banlieue::vsphere::vspheremachine::{
    build_guestinfo, credentials_failure_reason, ensure_vm_step, is_backend_missing_error,
    is_provisioned, local_hostname, status_after_power_read, status_after_provision,
    status_reporting_failure, status_with_observed_state, EnsureAction, EnsureEvent, EnsureState,
    InitializationStatus, IpamSpec, ProvisionOutcome, StaticIpamConfig, VSphereMachineSpec,
    VSphereMachineStatus, VSphereNicSpec,
};

fn dhcp_nic(name: &str) -> VSphereNicSpec {
    VSphereNicSpec {
        name: name.to_string(),
        port_group: "vmnet-prod".to_string(),
        mac_address: None,
        ipam: IpamSpec { static_: None },
    }
}

fn static_config(address: &str) -> StaticIpamConfig {
    StaticIpamConfig {
        address: address.to_string(),
        prefix: 24,
        gateway: Some("10.0.0.1".to_string()),
        nameservers: vec!["10.0.1.53".to_string(), "10.0.1.54".to_string()],
        domain: Some("k8s.example.internal".to_string()),
    }
}

fn static_nic(name: &str) -> VSphereNicSpec {
    VSphereNicSpec {
        name: name.to_string(),
        port_group: "vmnet-prod".to_string(),
        mac_address: None,
        ipam: IpamSpec {
            static_: Some(static_config("10.0.0.90")),
        },
    }
}

fn find<'a>(pairs: &'a [(String, String)], key: &str) -> Option<&'a str> {
    pairs.iter().find(|(k, _)| k == key).map(|(_, v)| v.as_str())
}

fn decode(encoded: &str) -> Vec<u8> {
    base64::Engine::decode(&base64::engine::general_purpose::STANDARD, encoded).unwrap()
}

// ---------------------------------------------------------------------
// build_guestinfo
// ---------------------------------------------------------------------

#[test]
fn dhcp_only_and_no_userdata_produces_hostname_and_metadata_only() {
    let pairs = build_guestinfo("db-01", &[dhcp_nic("eth0")], None);
    assert_eq!(pairs.len(), 2);
    assert_eq!(find(&pairs, "guestinfo.network.hostname"), Some("db-01"));
    assert!(find(&pairs, "guestinfo.metadata").is_some());
}

#[test]
fn hostname_is_set_for_both_dhcp_and_static_interfaces() {
    let dhcp = build_guestinfo("db-01", &[dhcp_nic("eth0")], None);
    assert_eq!(find(&dhcp, "guestinfo.network.hostname"), Some("db-01"));
    let static_ = build_guestinfo("db-02", &[static_nic("eth0")], None);
    assert_eq!(find(&static_, "guestinfo.network.hostname"), Some("db-02"));
}

#[test]
fn static_nic_sets_every_guestinfo_network_key() {
    let pairs = build_guestinfo("db-01", &[static_nic("eth0")], None);
    assert_eq!(find(&pairs, "guestinfo.network.ip"), Some("10.0.0.90"));
    assert_eq!(find(&pairs, "guestinfo.network.prefix"), Some("24"));
    assert_eq!(find(&pairs, "guestinfo.network.gateway"), Some("10.0.0.1"));
    assert_eq!(find(&pairs, "guestinfo.network.dns"), Some("10.0.1.53,10.0.1.54"));
    assert_eq!(find(&pairs, "guestinfo.network.domain"), Some("k8s.example.internal"));
}

#[test]
fn dhcp_nic_omits_guestinfo_network_keys_entirely() {
    let pairs = build_guestinfo("db-01", &[dhcp_nic("eth0")], None);
    assert_eq!(find(&pairs, "guestinfo.network.ip"), None);
    assert_eq!(find(&pairs, "guestinfo.network.prefix"), None);
}

#[test]
fn static_nic_with_no_gateway_or_dns_omits_only_those_keys() {
    let nic = VSphereNicSpec {
        name: "eth0".to_string(),
        port_group: "vmnet-prod".to_string(),
        mac_address: None,
        ipam: IpamSpec {
            static_: Some(StaticIpamConfig {
                address: "10.0.0.90".to_string(),
                prefix: 24,
                gateway: None,
                nameservers: Vec::new(),
                domain: None,
            }),
        },
    };
    let pairs = build_guestinfo("db-01", &[nic], None);
    assert_eq!(find(&pairs, "guestinfo.network.ip"), Some("10.0.0.90"));
    assert_eq!(find(&pairs, "guestinfo.network.gateway"), None);
    assert_eq!(find(&pairs, "guestinfo.network.dns"), None);
    assert_eq!(find(&pairs, "guestinfo.network.domain"), None);
}

#[test]
fn first_static_nic_wins_when_multiple_are_declared() {
    let other = VSphereNicSpec {
        name: "eth1".to_string(),
        port_group: "vmnet-mgmt".to_string(),
        mac_address: None,
        ipam: IpamSpec {
            static_: Some(StaticIpamConfig {
                address: "10.0.0.99".to_string(),
                prefix: 24,
                gateway: None,
                nameservers: Vec::new(),
                domain: None,
            }),
        },
    };
    let pairs = build_guestinfo("db-01", &[static_nic("eth0"), other], None);
    assert_eq!(find(&pairs, "guestinfo.network.ip"), Some("10.0.0.90"));
}

#[test]
fn dhcp_first_static_second_still_uses_the_static_one() {
    let pairs = build_guestinfo("db-01", &[dhcp_nic("eth0"), static_nic("eth1")], None);
    assert_eq!(find(&pairs, "guestinfo.network.ip"), Some("10.0.0.90"));
}

#[test]
fn userdata_is_base64_encoded_with_encoding_marker() {
    let pairs = build_guestinfo(
        "db-01",
        &[dhcp_nic("eth0")],
        Some("#cloud-config\nhostname: bar01\n"),
    );
    let encoded = find(&pairs, "guestinfo.userdata").expect("userdata key present");
    assert_eq!(decode(encoded), b"#cloud-config\nhostname: bar01\n");
    assert_eq!(find(&pairs, "guestinfo.userdata.encoding"), Some("base64"));
}

#[test]
fn no_userdata_omits_both_userdata_keys() {
    let pairs = build_guestinfo("db-01", &[dhcp_nic("eth0")], None);
    assert_eq!(find(&pairs, "guestinfo.userdata"), None);
    assert_eq!(find(&pairs, "guestinfo.userdata.encoding"), None);
}

#[test]
fn static_network_and_userdata_together() {
    let pairs = build_guestinfo("db-01", &[static_nic("eth0")], Some("#cloud-config\n"));
    assert_eq!(find(&pairs, "guestinfo.network.ip"), Some("10.0.0.90"));
    assert!(find(&pairs, "guestinfo.userdata").is_some());
}

fn decoded_metadata(pairs: &[(String, String)]) -> String {
    let encoded = find(pairs, "guestinfo.metadata").expect("guestinfo.metadata present");
    String::from_utf8(decode(encoded)).unwrap()
}

#[test]
fn metadata_uses_short_hostname_when_no_domain_is_known() {
    let pairs = build_guestinfo("db-01", &[dhcp_nic("eth0")], None);
    let metadata = decoded_metadata(&pairs);
    assert!(metadata.contains("instance-id: db-01"), "{metadata}");
    assert!(metadata.contains("local-hostname: db-01"), "{metadata}");
    assert!(!metadata.contains("db-01."), "{metadata}");
}

#[test]
fn metadata_uses_fqdn_as_local_hostname_when_domain_is_known() {
    let pairs = build_guestinfo("db-01", &[static_nic("eth0")], None);
    let metadata = decoded_metadata(&pairs);
    assert!(metadata.contains("instance-id: db-01"), "{metadata}");
    assert!(
        metadata.contains("local-hostname: db-01.k8s.example.internal"),
        "{metadata}"
    );
}

#[test]
fn metadata_does_not_double_append_domain_when_vm_name_is_already_fully_qualified() {
    let pairs = build_guestinfo("db-01.k8s.example.internal", &[static_nic("eth0")], None);
    let metadata = decoded_metadata(&pairs);
    assert!(
        metadata.contains("local-hostname: db-01.k8s.example.internal"),
        "{metadata}"
    );
    assert!(
        !metadata.contains("k8s.example.internal.k8s.example.internal"),
        "{metadata}"
    );
}

#[test]
fn metadata_is_set_regardless_of_userdata() {
    let with_userdata = build_guestinfo(
        "db-01",
        &[dhcp_nic("eth0")],
        Some("#cloud-config\nhostname: overridden\n"),
    );
    assert!(find(&with_userdata, "guestinfo.metadata").is_some());
    let without_userdata = build_guestinfo("db-01", &[dhcp_nic("eth0")], None);
    assert!(find(&without_userdata, "guestinfo.metadata").is_some());
}

#[test]
fn metadata_never_touches_or_parses_userdata() {
    let pairs = build_guestinfo(
        "db-01",
        &[dhcp_nic("eth0")],
        Some("#cloud-config\nhostname: user-supplied\n"),
    );
    let encoded = find(&pairs, "guestinfo.userdata").expect("userdata key present");
    assert_eq!(decode(encoded), b"#cloud-config\nhostname: user-supplied\n");
}

#[test]
fn metadata_document_is_exact() {
    let pairs = build_guestinfo("db-01", &[static_nic("eth0")], None);
    assert_eq!(
        decoded_metadata(&pairs),
        "instance-id: db-01\nlocal-hostname: db-01.k8s.example.internal\n"
    );
    assert_eq!(
        find(&pairs, "guestinfo.metadata"),
        Some("aW5zdGFuY2UtaWQ6IGRiLTAxCmxvY2FsLWhvc3RuYW1lOiBkYi0wMS5rOHMuZXhhbXBsZS5pbnRlcm5hbAo=")
    );
}

#[test]
fn guestinfo_keys_come_in_a_fixed_order() {
    let pairs = build_guestinfo("db-01", &[static_nic("eth0")], Some("x"));
    let keys: Vec<&str> = pairs.iter().map(|(k, _)| k.as_str()).collect();
    assert_eq!(
        keys,
        vec![
            "guestinfo.network.hostname",
            "guestinfo.network.ip",
            "guestinfo.network.prefix",
            "guestinfo.network.gateway",
            "guestinfo.network.dns",
            "guestinfo.network.domain",
            "guestinfo.userdata",
            "guestinfo.userdata.encoding",
            "guestinfo.metadata",
        ]
    );
    assert_eq!(find(&pairs, "guestinfo.userdata"), Some("eA=="));
}

#[test]
fn local_hostname_suffix_match_ignores_case() {
    assert_eq!(local_hostname("DB-01.Example.COM", Some("example.com")), "DB-01.Example.COM");
    assert_eq!(local_hostname("db-01", Some("example.com")), "db-01.example.com");
    assert_eq!(local_hostname("db-01", None), "db-01");
    assert_eq!(local_hostname("db-01example.com", Some("example.com")), "db-01example.com.example.com");
}

// ---------------------------------------------------------------------
// Status
// ---------------------------------------------------------------------

fn condition(type_: &str, status: &str, reason: &str, message: &str, at: i64) -> Condition {
    Condition {
        type_: type_.to_string(),
        status: status.to_string(),
        reason: reason.to_string(),
        message: message.to_string(),
        observed_generation: Some(1),
        last_transition_time: at,
    }
}

fn find_condition<'a>(s: &'a VSphereMachineStatus, type_: &str) -> Option<&'a Condition> {
    s.conditions.iter().find(|c| c.type_ == type_)
}

fn provisioned_status() -> VSphereMachineStatus {
    let mut s = VSphereMachineStatus::empty();
    s.initialization = InitializationStatus {
        provisioned: Some(true),
    };
    s.vm_ref = Some("vm-1234".to_string());
    s
}

#[test]
fn status_with_observed_state_preserves_every_other_field() {
    let mut current = provisioned_status();
    current.conditions = vec![condition("Ready", "True", "Reconciled", "VSphereMachine provisioned", 42)];
    current.observed_power_state = Some(PowerState::PoweredOff);
    current.observed_generation = Some(1);

    let next = status_with_observed_state(
        current,
        PowerState::PoweredOn,
        None,
        GuestProbe::NotEvaluated,
        Vec::new(),
        false,
        2,
    );

    assert_eq!(next.vm_ref.as_deref(), Some("vm-1234"));
    assert_eq!(next.initialization.provisioned, Some(true));
    assert_eq!(next.conditions.len(), 1);
    assert_eq!(next.conditions[0].status, "True");
    assert_eq!(next.conditions[0].reason, "Reconciled");
    assert_eq!(next.conditions[0].last_transition_time, 42);
    assert_eq!(next.conditions[0].observed_generation, Some(2));
    assert_eq!(next.observed_power_state, Some(PowerState::PoweredOn));
    assert_eq!(next.observed_generation, Some(2));
}

#[test]
fn status_with_observed_state_restores_ready_after_a_backend_problem_clears() {
    let mut current = provisioned_status();
    current.conditions = vec![condition(
        "Ready",
        "False",
        "BackendMissing",
        "backend VM \"vm-1234\" no longer exists in vCenter",
        42,
    )];
    let next = status_with_observed_state(
        current,
        PowerState::PoweredOn,
        None,
        GuestProbe::NotEvaluated,
        Vec::new(),
        false,
        2,
    );
    let ready = find_condition(&next, "Ready").expect("Ready present");
    assert_eq!(ready.status, "True");
    assert_eq!(ready.reason, "Reconciled");
}

#[test]
fn is_backend_missing_error_matches_managed_object_not_found_case_insensitively() {
    assert!(is_backend_missing_error(&Error::Vsphere(
        "ServerFaultCode: ManagedObjectNotFound".to_string()
    )));
    assert!(is_backend_missing_error(&Error::Vsphere(
        "managedobjectnotfound".to_string()
    )));
    assert!(!is_backend_missing_error(&Error::Vsphere(
        "connection refused".to_string()
    )));
}

#[test]
fn reporting_a_backend_problem_preserves_every_other_field() {
    let mut current = provisioned_status();
    current.observed_power_state = Some(PowerState::PoweredOn);
    let next = status_reporting_failure(
        current,
        "BackendMissing",
        "backend VM \"vm-1234\" no longer exists in vCenter".to_string(),
        2,
    );
    assert_eq!(next.vm_ref.as_deref(), Some("vm-1234"));
    assert_eq!(next.initialization.provisioned, Some(true));
    assert_eq!(next.observed_power_state, Some(PowerState::PoweredOn));
    let ready = find_condition(&next, "Ready").expect("Ready present");
    assert_eq!(ready.status, "False");
    assert_eq!(ready.reason, "BackendMissing");
    assert_eq!(next.observed_generation, Some(2));
}

#[test]
fn guest_ready_stays_absent_while_the_vm_is_stopped() {
    let next = status_with_observed_state(
        VSphereMachineStatus::empty(),
        PowerState::PoweredOff,
        None,
        GuestProbe::NotEvaluated,
        Vec::new(),
        false,
        1,
    );
    assert!(next.conditions.iter().all(|c| c.type_ != "GuestReady"));
    assert_eq!(next.guest_installed, None);
}

#[test]
fn guest_ready_reports_false_while_running_and_not_yet_announced() {
    let next = status_with_observed_state(
        VSphereMachineStatus::empty(),
        PowerState::PoweredOn,
        Some(false),
        GuestProbe::NotAnnounced,
        Vec::new(),
        false,
        1,
    );
    let guest_ready = find_condition(&next, "GuestReady").expect("GuestReady present");
    assert_eq!(guest_ready.status, "False");
    assert_eq!(guest_ready.reason, "GuestNotAnnounced");
    assert_eq!(next.guest_installed, Some(false));
}

#[test]
fn guest_ready_reports_true_once_installed() {
    let next = status_with_observed_state(
        VSphereMachineStatus::empty(),
        PowerState::PoweredOn,
        Some(true),
        GuestProbe::Installed,
        Vec::new(),
        false,
        1,
    );
    let guest_ready = find_condition(&next, "GuestReady").expect("GuestReady present");
    assert_eq!(guest_ready.status, "True");
    assert_eq!(guest_ready.reason, "GuestAnnounced");
    assert_eq!(next.guest_installed, Some(true));
}

#[test]
fn guest_ready_never_touches_the_ready_condition() {
    let next = status_with_observed_state(
        VSphereMachineStatus::empty(),
        PowerState::PoweredOn,
        Some(false),
        GuestProbe::NotAnnounced,
        Vec::new(),
        false,
        1,
    );
    let ready = find_condition(&next, "Ready").expect("Ready present");
    assert_eq!(ready.status, "True");
    assert_eq!(ready.reason, "Reconciled");
}

#[test]
fn reporting_a_failure_preserves_every_other_field() {
    let mut current = provisioned_status();
    current.instance_uuid = Some("uuid-1234".to_string());
    current.failure_domain = Some("dc1".to_string());
    current.observed_power_state = Some(PowerState::PoweredOn);
    current.tpm_attached = Some(true);
    current.tpm_endorsement_certificates =
        vec!["-----BEGIN CERTIFICATE-----\nstub\n-----END CERTIFICATE-----".to_string()];

    let next = status_reporting_failure(
        current,
        "ProvisionFailed",
        "vCenter connection refused".to_string(),
        3,
    );

    assert_eq!(next.vm_ref.as_deref(), Some("vm-1234"));
    assert_eq!(next.instance_uuid.as_deref(), Some("uuid-1234"));
    assert_eq!(next.failure_domain.as_deref(), Some("dc1"));
    assert_eq!(next.initialization.provisioned, Some(true));
    assert_eq!(next.observed_power_state, Some(PowerState::PoweredOn));
    assert_eq!(next.tpm_attached, Some(true));
    assert_eq!(
        next.tpm_endorsement_certificates,
        vec!["-----BEGIN CERTIFICATE-----\nstub\n-----END CERTIFICATE-----".to_string()]
    );
    let ready = find_condition(&next, "Ready").expect("Ready present");
    assert_eq!(ready.status, "False");
    assert_eq!(ready.reason, "ProvisionFailed");
    assert_eq!(next.observed_generation, Some(3));
}

#[test]
fn guest_ready_waits_for_the_endorsement_certificate_on_a_tpm_machine() {
    let mut current = VSphereMachineStatus::empty();
    current.guest_installed = Some(true);
    let next = status_with_observed_state(
        current,
        PowerState::PoweredOn,
        Some(true),
        GuestProbe::Installed,
        Vec::new(),
        true,
        1,
    );
    let gr = find_condition(&next, "GuestReady").expect("GuestReady published");
    assert_eq!(gr.status, "False");
    assert_eq!(gr.reason, "TpmEndorsementPending");
}

#[test]
fn guest_ready_is_true_once_the_endorsement_certificate_is_published() {
    let mut current = VSphereMachineStatus::empty();
    current.guest_installed = Some(true);
    let next = status_with_observed_state(
        current,
        PowerState::PoweredOn,
        Some(true),
        GuestProbe::Installed,
        vec!["-----BEGIN CERTIFICATE-----\nstub\n-----END CERTIFICATE-----".to_string()],
        true,
        1,
    );
    let gr = find_condition(&next, "GuestReady").expect("GuestReady published");
    assert_eq!(gr.status, "True");
    assert_eq!(gr.reason, "GuestAnnounced");
}

#[test]
fn guest_ready_ignores_the_certificate_when_there_is_no_vtpm() {
    let mut current = VSphereMachineStatus::empty();
    current.guest_installed = Some(true);
    let next = status_with_observed_state(
        current,
        PowerState::PoweredOn,
        Some(true),
        GuestProbe::Installed,
        Vec::new(),
        false,
        1,
    );
    let gr = find_condition(&next, "GuestReady").expect("GuestReady published");
    assert_eq!(gr.status, "True");
}

#[test]
fn a_power_read_that_changes_nothing_writes_nothing() {
    let mut current = provisioned_status();
    current.observed_power_state = Some(PowerState::PoweredOn);
    current.conditions = vec![condition("Ready", "True", "Reconciled", "VSphereMachine provisioned", 7)];
    let r = status_after_power_read(current, "vm-1234", Ok(PowerState::PoweredOn), 2).unwrap();
    assert!(r.is_none());
}

#[test]
fn a_power_read_that_finds_a_new_state_records_it() {
    let mut current = provisioned_status();
    current.observed_power_state = Some(PowerState::PoweredOn);
    current.conditions = vec![condition("Ready", "True", "Reconciled", "VSphereMachine provisioned", 7)];
    let next = status_after_power_read(current, "vm-1234", Ok(PowerState::Suspended), 2)
        .unwrap()
        .expect("a change is written");
    assert_eq!(next.observed_power_state, Some(PowerState::Suspended));
    assert_eq!(next.conditions[0].last_transition_time, 7);
}

#[test]
fn a_missing_backend_is_reported_and_other_failures_are_raised() {
    let next = status_after_power_read(
        provisioned_status(),
        "vm-1234",
        Err(Error::Vsphere("ManagedObjectNotFound".to_string())),
        2,
    )
    .unwrap()
    .expect("a report is written");
    let ready = find_condition(&next, "Ready").unwrap();
    assert_eq!(ready.reason, "BackendMissing");
    assert_eq!(
        ready.message,
        "backend VM \"vm-1234\" no longer exists in vCenter: vsphere: ManagedObjectNotFound"
    );
    let raised = status_after_power_read(
        provisioned_status(),
        "vm-1234",
        Err(Error::Vsphere("timeout".to_string())),
        2,
    );
    assert!(matches!(raised, Err(Error::Vsphere(m)) if m == "timeout"));
}

#[test]
fn a_successful_provision_is_recorded() {
    let s = status_after_provision(Vec::new(), "vm-9".to_string(), Some(PowerState::PoweredOn), 4);
    assert_eq!(s.initialization.provisioned, Some(true));
    assert_eq!(s.vm_ref.as_deref(), Some("vm-9"));
    assert_eq!(s.observed_power_state, Some(PowerState::PoweredOn));
    assert_eq!(s.observed_generation, Some(4));
    assert_eq!(find_condition(&s, "Ready").unwrap().status, "True");
    assert!(is_provisioned(&Some(s)));
    assert!(!is_provisioned(&None));
    assert!(!is_provisioned(&Some(VSphereMachineStatus::empty())));
}

#[test]
fn credential_failures_map_to_their_reasons() {
    assert_eq!(
        credentials_failure_reason(&Error::Missing("Secret creds".to_string())),
        "SecretMissing"
    );
    assert_eq!(
        credentials_failure_reason(&Error::InvalidSpec("bad".to_string())),
        "SecretInvalid"
    );
}

// ---------------------------------------------------------------------
// The create path, run against the in-memory vCenter
// ---------------------------------------------------------------------

fn spec(datastore: &str, network: &str) -> VSphereMachineSpec {
    let mut nic = dhcp_nic("eth0");
    nic.port_group = network.to_string();
    VSphereMachineSpec {
        provider_ref: "vc1".to_string(),
        template: "ubuntu-22.04-cloudinit".to_string(),
        template_folder: None,
        datacenter: "dc1".to_string(),
        cluster: "cluster-a".to_string(),
        datastore: datastore.to_string(),
        folder: None,
        num_cpus: 4,
        memory_mi_b: 8192,
        network: vec![nic],
        user_data: None,
        desired_power_state: PowerState::PoweredOn,
    }
}

fn seeded_inventory() -> Inventory {
    Inventory::builder()
        .with_dc("dc1")
        .with_cluster("dc1", "cluster-a")
        .with_template("dc1", "ubuntu-22.04-cloudinit")
        .with_datastore("dc1", "cluster-a", "ds-fast-01", None)
        .with_network("dc1", "cluster-a", "vmnet-prod", false)
        .build()
}

/// Runs the create path against the in-memory vCenter: performs each
/// action the library asks for and hands back the answer.
fn ensure_vm(
    client: &mut FakeClient,
    spec: &VSphereMachineSpec,
    vm_name: &str,
    existing_vm_ref: Option<&str>,
    rendered_userdata: Option<&str>,
) -> Result<ProvisionOutcome, Error> {
    let mut state = EnsureState::Start;
    let mut event = EnsureEvent::Begin;
    loop {
        let (next, action) = ensure_vm_step(spec, vm_name, existing_vm_ref, rendered_userdata, state, event);
        state = next;
        event = match action {
            EnsureAction::ListDatacenters => EnsureEvent::Datacenters(client.list_datacenters()?),
            EnsureAction::ListClusters(dc) => EnsureEvent::Clusters(client.list_clusters(&dc)?),
            EnsureAction::FindTemplate(dc) => EnsureEvent::TemplateFound(client.find_template(
                &dc,
                spec.template_folder.as_deref(),
                &spec.template,
            )?),
            EnsureAction::ListDatastores(cluster) => EnsureEvent::Datastores(client.list_datastores(&cluster)?),
            EnsureAction::ListNetworks(cluster) => EnsureEvent::Networks(client.list_networks(&cluster)?),
            EnsureAction::Clone(req) => EnsureEvent::Cloned(client.clone_vm(&req)?),
            EnsureAction::SetPower(vm_ref, state) => {
                client.set_power_state(&vm_ref, state)?;
                EnsureEvent::Powered
            }
            EnsureAction::Done(outcome) => return Ok(outcome),
            EnsureAction::Fail(e) => return Err(e),
        };
    }
}

#[test]
fn already_provisioned_skips_clone_and_returns_the_existing_ref() {
    let mut client = FakeClient::new(seeded_inventory());
    let outcome = ensure_vm(
        &mut client,
        &spec("ds-fast-01", "vmnet-prod"),
        "db-01",
        Some("vm-existing-123"),
        None,
    )
    .unwrap();
    assert!(outcome.already_provisioned);
    assert_eq!(outcome.vm_ref, "vm-existing-123");
    assert!(client.cloned_vms().is_empty());
    assert_eq!(outcome.power_state, None);
}

#[test]
fn first_reconcile_clones_and_powers_on() {
    let mut client = FakeClient::new(seeded_inventory());
    let outcome = ensure_vm(&mut client, &spec("ds-fast-01", "vmnet-prod"), "db-01", None, None).unwrap();
    assert!(!outcome.already_provisioned);
    let clones = client.cloned_vms();
    assert_eq!(clones.len(), 1);
    assert_eq!(clones[0].moref, outcome.vm_ref);
    assert_eq!(clones[0].request.vm_name, "db-01");
    assert_eq!(clones[0].request.datastore_moref, "datastore-cluster-a-ds-fast-01");
    assert_eq!(client.power_state_of(&outcome.vm_ref), Some(PowerState::PoweredOn));
    assert_eq!(outcome.power_state, Some(PowerState::PoweredOn));
}

#[test]
fn drives_the_desired_power_state_from_spec() {
    let mut client = FakeClient::new(seeded_inventory());
    let mut s = spec("ds-fast-01", "vmnet-prod");
    s.desired_power_state = PowerState::PoweredOff;
    let outcome = ensure_vm(&mut client, &s, "db-01", None, None).unwrap();
    assert_eq!(client.power_state_of(&outcome.vm_ref), Some(PowerState::PoweredOff));
    assert_eq!(outcome.power_state, Some(PowerState::PoweredOff));
}

#[test]
fn desired_power_off_skips_the_redundant_power_state_call() {
    let mut client = FakeClient::new(seeded_inventory());
    let mut s = spec("ds-fast-01", "vmnet-prod");
    s.desired_power_state = PowerState::PoweredOff;
    let outcome = ensure_vm(&mut client, &s, "db-01", None, None).unwrap();
    assert_eq!(client.power_state_call_count(&outcome.vm_ref), 0);
    assert_eq!(client.power_state_of(&outcome.vm_ref), Some(PowerState::PoweredOff));
    assert_eq!(outcome.power_state, Some(PowerState::PoweredOff));
}

#[test]
fn resolves_a_datastore_cluster_to_a_concrete_member() {
    let inv = Inventory::builder()
        .with_dc("dc1")
        .with_cluster("dc1", "cluster-a")
        .with_template("dc1", "ubuntu-22.04-cloudinit")
        .with_datastore("dc1", "cluster-a", "ds-01", Some("DSC-01"))
        .with_datastore("dc1", "cluster-a", "ds-02", Some("DSC-01"))
        .with_network("dc1", "cluster-a", "vmnet-prod", false)
        .build();
    let mut client = FakeClient::new(inv);
    let outcome = ensure_vm(&mut client, &spec("DSC-01", "vmnet-prod"), "db-01", None, None).unwrap();
    assert!(!outcome.already_provisioned);
    let clones = client.cloned_vms();
    assert!(["datastore-cluster-a-ds-01", "datastore-cluster-a-ds-02"]
        .contains(&clones[0].request.datastore_moref.as_str()));
    // Equal (unknown) free space: the smallest name wins.
    assert_eq!(clones[0].request.datastore_moref, "datastore-cluster-a-ds-01");
}

#[test]
fn passes_static_guestinfo_and_rendered_userdata_into_the_clone_request() {
    let mut client = FakeClient::new(seeded_inventory());
    let mut s = spec("ds-fast-01", "vmnet-prod");
    s.network[0].ipam = IpamSpec {
        static_: Some(StaticIpamConfig {
            address: "10.0.0.90".to_string(),
            prefix: 24,
            gateway: Some("10.0.0.1".to_string()),
            nameservers: vec!["10.0.1.53".to_string()],
            domain: Some("k8s.example.internal".to_string()),
        }),
    };
    let outcome = ensure_vm(&mut client, &s, "db-01", None, Some("#cloud-config\nhostname: db-01\n")).unwrap();
    let clones = client.cloned_vms();
    let extra: std::collections::HashMap<_, _> =
        clones[0].request.extra_config.iter().cloned().collect();
    assert_eq!(extra.get("guestinfo.network.ip"), Some(&"10.0.0.90".to_string()));
    assert!(extra.contains_key("guestinfo.userdata"));
    assert!(!outcome.already_provisioned);
}

#[test]
fn errors_when_datacenter_not_found() {
    let mut client = FakeClient::new(seeded_inventory());
    let mut s = spec("ds-fast-01", "vmnet-prod");
    s.datacenter = "does-not-exist".to_string();
    let err = ensure_vm(&mut client, &s, "db-01", None, None).unwrap_err();
    assert_eq!(err.message(), "vsphere: datacenter \"does-not-exist\" not found");
}

#[test]
fn errors_when_cluster_not_found() {
    let mut client = FakeClient::new(seeded_inventory());
    let mut s = spec("ds-fast-01", "vmnet-prod");
    s.cluster = "does-not-exist".to_string();
    let err = ensure_vm(&mut client, &s, "db-01", None, None).unwrap_err();
    assert_eq!(
        err.message(),
        "vsphere: cluster \"does-not-exist\" not found in datacenter \"dc1\""
    );
}

#[test]
fn errors_when_template_not_found() {
    let mut client = FakeClient::new(seeded_inventory());
    let mut s = spec("ds-fast-01", "vmnet-prod");
    s.template = "does-not-exist".to_string();
    assert!(ensure_vm(&mut client, &s, "db-01", None, None).is_err());
}

#[test]
fn errors_when_network_not_found() {
    let mut client = FakeClient::new(seeded_inventory());
    let s = spec("ds-fast-01", "does-not-exist");
    let err = ensure_vm(&mut client, &s, "db-01", None, None).unwrap_err();
    assert_eq!(
        err.message(),
        "vsphere: network \"does-not-exist\" not reachable from cluster \"cluster-a\""
    );
    assert!(client.cloned_vms().is_empty());
}

#[test]
fn errors_when_the_spec_has_no_nic() {
    let mut client = FakeClient::new(seeded_inventory());
    let mut s = spec("ds-fast-01", "vmnet-prod");
    s.network.clear();
    let err = ensure_vm(&mut client, &s, "db-01", None, None).unwrap_err();
    assert_eq!(err.message(), "missing required field: VSphereMachineSpec.network[0]");
}

#[test]
fn finds_the_template_in_its_own_zone_folder() {
    let inv = Inventory::builder()
        .with_dc("dc1")
        .with_cluster("dc1", "cluster-a")
        .with_template_in_folder("dc1", "templates/cluster-a", "hadron-kairos-v0.1.0")
        .with_datastore("dc1", "cluster-a", "ds-fast-01", None)
        .with_network("dc1", "cluster-a", "vmnet-prod", false)
        .build();
    let mut client = FakeClient::new(inv);
    let mut s = spec("ds-fast-01", "vmnet-prod");
    s.template = "hadron-kairos-v0.1.0".to_string();
    s.template_folder = Some("templates/cluster-a".to_string());
    let outcome = ensure_vm(&mut client, &s, "db-01", None, None).unwrap();
    assert!(!outcome.already_provisioned);
}

#[test]
fn does_not_find_an_identically_named_template_in_a_different_zone_folder() {
    let inv = Inventory::builder()
        .with_dc("dc1")
        .with_cluster("dc1", "cluster-a")
        .with_template_in_folder("dc1", "templates/cluster-b", "hadron-kairos-v0.1.0")
        .with_datastore("dc1", "cluster-a", "ds-fast-01", None)
        .with_network("dc1", "cluster-a", "vmnet-prod", false)
        .build();
    let mut client = FakeClient::new(inv);
    let mut s = spec("ds-fast-01", "vmnet-prod");
    s.template = "hadron-kairos-v0.1.0".to_string();
    s.template_folder = Some("templates/cluster-a".to_string());
    let err = ensure_vm(&mut client, &s, "db-01", None, None).unwrap_err();
    assert!(err.message().contains("not found"));
    assert_eq!(
        err.message(),
        "vsphere: template \"hadron-kairos-v0.1.0\" not found in datacenter \"dc1\" folder \"templates/cluster-a\""
    );
}

#[test]
fn no_template_folder_falls_back_to_the_datacenter_wide_lookup() {
    let mut client = FakeClient::new(seeded_inventory());
    let mut s = spec("ds-fast-01", "vmnet-prod");
    s.template_folder = None;
    let outcome = ensure_vm(&mut client, &s, "db-01", None, None).unwrap();
    assert!(!outcome.already_provisioned);
}

// ---------------------------------------------------------------------
// Deletion
// ---------------------------------------------------------------------

fn finalize_vm(client: &mut FakeClient, vm_ref: Option<&str>) -> Result<(), Error> {
    match vm_ref {
        Some(r) => client.destroy_vm(r),
        None => Ok(()),
    }
}

#[test]
fn destroys_the_backend_vm_when_one_exists() {
    let mut client = FakeClient::new(Inventory::empty());
    finalize_vm(&mut client, Some("vm-existing-123")).unwrap();
    assert_eq!(client.destroyed_vms(), vec!["vm-existing-123".to_string()]);
}

#[test]
fn is_a_noop_when_no_vm_was_ever_created() {
    let mut client = FakeClient::new(Inventory::empty());
    finalize_vm(&mut client, None).unwrap();
    assert!(client.destroyed_vms().is_empty());
}

#[test]
fn a_destroyed_vm_has_no_power_state() {
    let mut client = FakeClient::new(seeded_inventory());
    let outcome = ensure_vm(&mut client, &spec("ds-fast-01", "vmnet-prod"), "db-01", None, None).unwrap();
    client.destroy_vm(&outcome.vm_ref).unwrap();
    assert_eq!(client.power_state_of(&outcome.vm_ref), None);
    let err = client.power_state(&outcome.vm_ref).unwrap_err();
    assert_eq!(err.message(), "vsphere: vm-clone-db-01: no fake power state recorded");
}

#[test]
fn the_factory_hands_out_clients_over_the_same_inventory() {
    let factory = FakeClientFactory::new(seeded_inventory());
    let creds = Credentials {
        username: "u".to_string(),
        password: "p".to_string(),
    };
    let client = factory.build("https://vc/sdk", &creds, None).unwrap();
    let dcs = client.list_datacenters().unwrap();
    assert_eq!(dcs.len(), 1);
    assert_eq!(dcs[0].moref, "datacenter-dc1");
    let clusters = client.list_clusters(&dcs[0]).unwrap();
    assert_eq!(clusters[0].moref, "domain-c-dc1-cluster-a");
    let nets = client.list_networks(&clusters[0]).unwrap();
    assert_eq!(nets[0].moref, "network-cluster-a-vmnet-prod");
    assert!(!nets[0].distributed);
}

#[test]
fn ensure_step_with_a_recorded_vm_calls_nothing() {
    let s = spec("ds-fast-01", "vmnet-prod");
    let (state, action) = ensure_vm_step(&s, "db-01", Some("vm-1"), None, EnsureState::Start, EnsureEvent::Begin);
    assert!(matches!(state, EnsureState::Finished));
    match action {
        EnsureAction::Done(o) => {
            assert_eq!(o.vm_ref, "vm-1");
            assert!(o.already_provisioned);
            assert_eq!(o.power_state, None);
        }
        _ => panic!("expected the path to end"),
    }
    let (state, action) = ensure_vm_step(&s, "db-01", None, None, EnsureState::Start, EnsureEvent::Begin);
    assert!(matches!(state, EnsureState::AwaitDatacenters));
    assert!(matches!(action, EnsureAction::ListDatacenters));
}

#[test]
fn ensure_step_fails_on_an_unknown_datacenter() {
    let s = spec("ds-fast-01", "vmnet-prod");
    let (state, action) = ensure_vm_step(
        &s,
        "db-01",
        None,
        None,
        EnsureState::AwaitDatacenters,
        EnsureEvent::Datacenters(vec![Datacenter { name: "other".to_string(), moref: "dc-9".to_string() }]),
    );
    assert!(matches!(state, EnsureState::Finished));
    match action {
        EnsureAction::Fail(Error::Vsphere(m)) => assert_eq!(m, format!("datacenter {:?} not found", s.datacenter)),
        _ => panic!("expected a failure"),
    }
}

#[test]
fn ensure_step_after_clone_powers_on_only_when_asked() {
    let mut s = spec("ds-fast-01", "vmnet-prod");
    s.desired_power_state = PowerState::PoweredOn;
    let (state, action) =
        ensure_vm_step(&s, "db-01", None, None, EnsureState::AwaitClone, EnsureEvent::Cloned("vm-7".to_string()));
    assert!(matches!(state, EnsureState::AwaitPower { ref vm_ref } if vm_ref == "vm-7"));
    assert!(matches!(action, EnsureAction::SetPower(ref v, PowerState::PoweredOn) if v == "vm-7"));
    s.desired_power_state = PowerState::PoweredOff;
    let (state, action) =
        ensure_vm_step(&s, "db-01", None, None, EnsureState::AwaitClone, EnsureEvent::Cloned("vm-7".to_string()));
    assert!(matches!(state, EnsureState::Finished));
    assert!(matches!(action, EnsureAction::Done(ref o) if o.vm_ref == "vm-7" && !o.already_provisioned));
}
