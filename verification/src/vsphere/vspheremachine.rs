//! `VSphereMachine`: the guestinfo a clone boots with, the choices of the
//! create path (which datacenter, cluster, template, datastore and network
//! a clone uses), and the status written after each pass.
//!
//! Every status written starts from the whole current status, so no pass
//! ever drops a field another pass set.
use vstd::prelude::*;
use vstd::utf8::encode_utf8;
use crate::sdk::condition_status;
use crate::sdk::pem::{base64_standard, encode_base64};
use crate::sdk::status::{
    after_set, is_condition_true, models, set_condition, Condition, ConditionModel,
};
use crate::text::{
    ascii_seq, contains, contains_seq, debug_str, dec, quoted, ends_with, has_suffix, join, join_strings, lower_seq, lowercase,
    owned, str_eq, strings_view, to_lower, u64_to_string, unicode_lowercase,
};
use crate::seq_util::{first_where, lemma_first_where, lemma_first_where_none};
use crate::vsphere::api::PowerState;
use crate::vsphere::client::{
    CloneVmRequest, Cluster, Datacenter, Datastore, Duplicate, Network, Template,
};
use crate::vsphere::import::{
    candidates_spec, datastore_named, emptiest_index, is_emptiest, lemma_candidate_is_reachable,
    resolve_concrete_datastore, unknown_datastore_error,
};
use crate::vsphere::error::{vsphere_error_text, Error};
use crate::vsphere::guest::GuestProbe;

verus! {

/// Finalizer set on every `VSphereMachine` this provider reconciles.
pub const VSPHERE_MACHINE_FINALIZER: &'static str = "banlieue.io/vspheremachine";

pub const CONDITION_READY: &'static str = "Ready";

/// Whether the guest OS has announced a finished install.
pub const CONDITION_GUEST_READY: &'static str = "GuestReady";

pub const REASON_RECONCILED: &'static str = "Reconciled";

pub const REASON_PROVIDER_NOT_FOUND: &'static str = "ProviderNotFound";

pub const REASON_SECRET_MISSING: &'static str = "SecretMissing";

pub const REASON_SECRET_INVALID: &'static str = "SecretInvalid";

pub const REASON_CONNECT_FAILED: &'static str = "ConnectFailed";

pub const REASON_PROVISION_FAILED: &'static str = "ProvisionFailed";

/// `provisioned` is set but the VM reference is not: reported, never
/// repaired.
pub const REASON_BACKEND_REF_MISSING: &'static str = "BackendRefMissing";

/// The VM reference names a VM vCenter no longer has: reported, never
/// recreated.
pub const REASON_BACKEND_MISSING: &'static str = "BackendMissing";

pub const REASON_GUEST_ANNOUNCED: &'static str = "GuestAnnounced";

pub const REASON_GUEST_NOT_ANNOUNCED: &'static str = "GuestNotAnnounced";

/// A vTPM machine whose guest is up but whose endorsement certificate has
/// not been published yet: it cannot be attested.
pub const REASON_TPM_ENDORSEMENT_PENDING: &'static str = "TpmEndorsementPending";

pub const MESSAGE_PROVISIONED: &'static str = "VSphereMachine provisioned";

pub const MESSAGE_GUEST_ANNOUNCED: &'static str = "guest announced a finished install";

pub const MESSAGE_GUEST_NOT_ANNOUNCED: &'static str = "guest has not announced a finished install yet";

pub const MESSAGE_TPM_ENDORSEMENT_PENDING: &'static str = "waiting for the vTPM endorsement certificate";

pub const MESSAGE_BACKEND_REF_MISSING: &'static str = "status.initialization.provisioned is true but status.vmRef is unset; this cannot be auto-repaired — recreate this VirtualMachine if the backend VM is actually gone";

pub const GUESTINFO_NETWORK_HOSTNAME: &'static str = "guestinfo.network.hostname";

pub const GUESTINFO_NETWORK_IP: &'static str = "guestinfo.network.ip";

pub const GUESTINFO_NETWORK_PREFIX: &'static str = "guestinfo.network.prefix";

pub const GUESTINFO_NETWORK_GATEWAY: &'static str = "guestinfo.network.gateway";

pub const GUESTINFO_NETWORK_DNS: &'static str = "guestinfo.network.dns";

pub const GUESTINFO_NETWORK_DOMAIN: &'static str = "guestinfo.network.domain";

pub const GUESTINFO_USERDATA: &'static str = "guestinfo.userdata";

pub const GUESTINFO_USERDATA_ENCODING: &'static str = "guestinfo.userdata.encoding";

pub const GUESTINFO_METADATA: &'static str = "guestinfo.metadata";

// ---------------------------------------------------------------------
// The resource
// ---------------------------------------------------------------------

/// A static IP configuration of one NIC.
pub struct StaticIpamConfig {
    pub address: String,
    pub prefix: u8,
    pub gateway: Option<String>,
    pub nameservers: Vec<String>,
    pub domain: Option<String>,
}

/// How a NIC gets its address: static when `static_` is set, else DHCP.
pub struct IpamSpec {
    pub static_: Option<StaticIpamConfig>,
}

/// One NIC of a `VSphereMachine`.
pub struct VSphereNicSpec {
    pub name: String,
    pub port_group: String,
    pub mac_address: Option<String>,
    pub ipam: IpamSpec,
}

// ---------------------------------------------------------------------
// guestinfo
// ---------------------------------------------------------------------

/// The pairs as plain values.
pub open spec fn pairs_view(v: Seq<(String, String)>) -> Seq<(Seq<char>, Seq<char>)> {
    v.map_values(|p: (String, String)| (p.0@, p.1@))
}

/// The static configuration of the first NIC that has one.
pub open spec fn first_static(nics: Seq<VSphereNicSpec>) -> Option<StaticIpamConfig>
    decreases nics.len(),
{
    if nics.len() == 0 {
        None
    } else if nics[0].ipam.static_ is Some {
        nics[0].ipam.static_
    } else {
        first_static(nics.drop_first())
    }
}

/// The `guestinfo.network.*` pairs of a static configuration: address and
/// prefix always, then gateway, nameservers (comma-joined, when any) and
/// domain when present.
pub open spec fn static_network_pairs(c: StaticIpamConfig) -> Seq<(Seq<char>, Seq<char>)> {
    let base = seq![
        (GUESTINFO_NETWORK_IP@, c.address@),
        (GUESTINFO_NETWORK_PREFIX@, dec(c.prefix as nat)),
    ];
    let with_gateway = match c.gateway {
        Some(g) => base.push((GUESTINFO_NETWORK_GATEWAY@, g@)),
        None => base,
    };
    let with_dns = if c.nameservers.len() > 0 {
        with_gateway.push((GUESTINFO_NETWORK_DNS@, join(strings_view(c.nameservers@), ","@)))
    } else {
        with_gateway
    };
    match c.domain {
        Some(d) => with_dns.push((GUESTINFO_NETWORK_DOMAIN@, d@)),
        None => with_dns,
    }
}

/// The hostname cloud-init sets: the VM name with `.domain` appended,
/// unless the name already ends with it (compared ASCII case-insensitively).
pub open spec fn local_hostname_spec(vm_name: Seq<char>, domain: Option<Seq<char>>) -> Seq<char> {
    match domain {
        None => vm_name,
        Some(d) => if ends_with(lower_seq(vm_name), "."@ + lower_seq(d)) {
            vm_name
        } else {
            vm_name + "."@ + d
        },
    }
}

/// The `guestinfo.metadata` document before encoding.
pub open spec fn metadata_yaml(vm_name: Seq<char>, domain: Option<Seq<char>>) -> Seq<char> {
    "instance-id: "@ + vm_name + "\nlocal-hostname: "@ + local_hostname_spec(vm_name, domain)
        + "\n"@
}

/// The domain of a static configuration, if any.
pub open spec fn static_domain(c: Option<StaticIpamConfig>) -> Option<Seq<char>> {
    match c {
        Some(s) => match s.domain {
            Some(d) => Some(d@),
            None => None,
        },
        None => None,
    }
}

/// Whether base64 of `bytes` has a length that fits in `usize`.
pub open spec fn base64_fits(bytes: Seq<u8>) -> bool {
    4 * ((bytes.len() + 2) / 3) <= usize::MAX
}

/// The `guestinfo.*` pairs of a clone, in order: the hostname; the network
/// pairs of the first static NIC, if any; the base64 userdata and its
/// encoding marker, when userdata is given; and the base64 metadata.
pub open spec fn guestinfo_spec(
    vm_name: Seq<char>,
    nics: Seq<VSphereNicSpec>,
    userdata: Option<Seq<char>>,
) -> Seq<(Seq<char>, Seq<char>)> {
    let network = match first_static(nics) {
        Some(c) => static_network_pairs(c),
        None => Seq::empty(),
    };
    let user = match userdata {
        Some(u) => seq![
            (GUESTINFO_USERDATA@, base64_standard(encode_utf8(u))),
            (GUESTINFO_USERDATA_ENCODING@, "base64"@),
        ],
        None => Seq::empty(),
    };
    seq![(GUESTINFO_NETWORK_HOSTNAME@, vm_name)] + network + user + seq![
        (
            GUESTINFO_METADATA@,
            base64_standard(encode_utf8(metadata_yaml(vm_name, static_domain(first_static(nics))))),
        ),
    ]
}

/// The `local-hostname` value for `vm_name` in `domain`.
pub fn local_hostname(vm_name: &str, domain: Option<&str>) -> (r: String)
    ensures
        r@ == local_hostname_spec(
            vm_name@,
            match domain {
                Some(d) => Some(d@),
                None => None,
            },
        ),
{
    match domain {
        None => owned(vm_name),
        Some(d) => {
            let mut suffix = owned(".");
            let ld = to_lower(d);
            suffix.append(ld.as_str());
            let lv = to_lower(vm_name);
            proof {
                assert(suffix@ == "."@ + lower_seq(d@));
            }
            if has_suffix(lv.as_str(), suffix.as_str()) {
                owned(vm_name)
            } else {
                let mut r = owned(vm_name);
                r.append(".");
                r.append(d);
                r
            }
        },
    }
}

/// The base64 `guestinfo.metadata` value: cloud-init's own datasource
/// document naming the instance and its hostname.
pub fn build_guestinfo_metadata(vm_name: &str, domain: Option<&str>) -> (r: String)
    requires
        base64_fits(
            encode_utf8(
                metadata_yaml(
                    vm_name@,
                    match domain {
                        Some(d) => Some(d@),
                        None => None,
                    },
                ),
            ),
        ),
    ensures
        r@ == base64_standard(
            encode_utf8(
                metadata_yaml(
                    vm_name@,
                    match domain {
                        Some(d) => Some(d@),
                        None => None,
                    },
                ),
            ),
        ),
{
    let host = local_hostname(vm_name, domain);
    let mut yaml = owned("instance-id: ");
    yaml.append(vm_name);
    yaml.append("\nlocal-hostname: ");
    yaml.append(host.as_str());
    yaml.append("\n");
    encode_base64(yaml.as_str().as_bytes())
}


/// The static configuration of the first NIC that has one.
fn first_static_config(nics: &[VSphereNicSpec]) -> (r: Option<&StaticIpamConfig>)
    ensures
        match r {
            Some(c) => first_static(nics@) == Some(*c),
            None => first_static(nics@) is None,
        },
{
    let mut i: usize = 0;
    proof {
        assert(nics@.skip(0) =~= nics@);
    }
    while i < nics.len()
        invariant
            i <= nics.len(),
            first_static(nics@) == first_static(nics@.skip(i as int)),
        decreases nics.len() - i,
    {
        let ghost rest = nics@.skip(i as int);
        assert(rest[0] == nics@[i as int]);
        match &nics[i].ipam.static_ {
            Some(c) => {
                return Some(c);
            },
            None => {
                assert(rest.drop_first() =~= nics@.skip(i + 1));
            },
        }
        i += 1;
    }
    None
}

fn push_pair(out: &mut Vec<(String, String)>, key: &str, value: String)
    ensures
        pairs_view(final(out)@) == pairs_view(old(out)@).push((key@, value@)),
{
    out.push((owned(key), value));
    proof {
        assert(pairs_view(out@) =~= pairs_view(old(out)@).push((key@, value@)));
    }
}

fn push_static_pairs(out: &mut Vec<(String, String)>, c: &StaticIpamConfig)
    ensures
        pairs_view(final(out)@) == pairs_view(old(out)@) + static_network_pairs(*c),
{
    let ghost start = pairs_view(out@);
    push_pair(out, GUESTINFO_NETWORK_IP, c.address.clone());
    push_pair(out, GUESTINFO_NETWORK_PREFIX, u64_to_string(c.prefix as u64));
    let ghost base = pairs_view(out@);
    assert(base =~= start + seq![
        (GUESTINFO_NETWORK_IP@, c.address@),
        (GUESTINFO_NETWORK_PREFIX@, dec(c.prefix as nat)),
    ]);
    match &c.gateway {
        Some(g) => push_pair(out, GUESTINFO_NETWORK_GATEWAY, g.clone()),
        None => {},
    }
    if c.nameservers.len() > 0 {
        let dns = join_strings(&c.nameservers, ",");
        push_pair(out, GUESTINFO_NETWORK_DNS, dns);
    }
    match &c.domain {
        Some(d) => push_pair(out, GUESTINFO_NETWORK_DOMAIN, d.clone()),
        None => {},
    }
    proof {
        assert(pairs_view(out@) =~= start + static_network_pairs(*c));
    }
}

/// The `guestinfo.*` pairs a clone boots with (see [`guestinfo_spec`]):
/// the hostname always; the network of the first static NIC; the rendered
/// userdata, base64-encoded with its encoding marker; and cloud-init's
/// metadata document, base64-encoded.
pub fn build_guestinfo(
    vm_name: &str,
    nics: &[VSphereNicSpec],
    rendered_userdata: Option<&str>,
) -> (r: Vec<(String, String)>)
    requires
        rendered_userdata matches Some(u) ==> base64_fits(encode_utf8(u@)),
        base64_fits(encode_utf8(metadata_yaml(vm_name@, static_domain(first_static(nics@))))),
    ensures
        pairs_view(r@) == guestinfo_spec(
            vm_name@,
            nics@,
            match rendered_userdata {
                Some(u) => Some(u@),
                None => None,
            },
        ),
{
    let mut out: Vec<(String, String)> = Vec::new();
    push_pair(&mut out, GUESTINFO_NETWORK_HOSTNAME, owned(vm_name));
    let ghost head = pairs_view(out@);
    let cfg = first_static_config(nics);
    let domain: Option<&str> = match cfg {
        Some(c) => {
            push_static_pairs(&mut out, c);
            match &c.domain {
                Some(d) => Some(d.as_str()),
                None => None,
            }
        },
        None => None,
    };
    let ghost with_network = pairs_view(out@);
    match rendered_userdata {
        Some(u) => {
            let encoded = encode_base64(u.as_bytes());
            push_pair(&mut out, GUESTINFO_USERDATA, encoded);
            push_pair(&mut out, GUESTINFO_USERDATA_ENCODING, owned("base64"));
        },
        None => {},
    }
    let ghost with_user = pairs_view(out@);
    assert(match domain {
        Some(d) => Some(d@),
        None => None,
    } == static_domain(first_static(nics@)));
    let metadata = build_guestinfo_metadata(vm_name, domain);
    push_pair(&mut out, GUESTINFO_METADATA, metadata);
    proof {
        assert(pairs_view(out@) =~= guestinfo_spec(
            vm_name@,
            nics@,
            match rendered_userdata {
                Some(u) => Some(u@),
                None => None,
            },
        ));
    }
    out
}


// ---------------------------------------------------------------------
// Status
// ---------------------------------------------------------------------

/// `status.initialization`.
pub struct InitializationStatus {
    pub provisioned: Option<bool>,
}

/// `VSphereMachine.status`.
pub struct VSphereMachineStatus {
    pub initialization: InitializationStatus,
    pub failure_domain: Option<String>,
    pub vm_ref: Option<String>,
    pub instance_uuid: Option<String>,
    pub observed_power_state: Option<PowerState>,
    /// Once the guest has announced a finished install, it stays `true`.
    pub guest_installed: Option<bool>,
    pub tpm_attached: Option<bool>,
    /// PEM endorsement certificates of the VM's vTPM.
    pub tpm_endorsement_certificates: Vec<String>,
    pub conditions: Vec<Condition>,
    pub observed_generation: Option<i64>,
}

impl VSphereMachineStatus {
    /// A status with nothing set.
    pub fn empty() -> (r: Self)
        ensures
            r.initialization.provisioned is None,
            r.failure_domain is None,
            r.vm_ref is None,
            r.instance_uuid is None,
            r.observed_power_state is None,
            r.guest_installed is None,
            r.tpm_attached is None,
            r.tpm_endorsement_certificates@.len() == 0,
            r.conditions@.len() == 0,
            r.observed_generation is None,
    {
        VSphereMachineStatus {
            initialization: InitializationStatus { provisioned: None },
            failure_domain: None,
            vm_ref: None,
            instance_uuid: None,
            observed_power_state: None,
            guest_installed: None,
            tpm_attached: None,
            tpm_endorsement_certificates: Vec::new(),
            conditions: Vec::new(),
            observed_generation: None,
        }
    }
}

/// `a` and `b` agree on everything a failure report leaves alone.
pub open spec fn same_but_conditions(a: VSphereMachineStatus, b: VSphereMachineStatus) -> bool {
    &&& a.initialization == b.initialization
    &&& a.failure_domain == b.failure_domain
    &&& a.vm_ref == b.vm_ref
    &&& a.instance_uuid == b.instance_uuid
    &&& a.observed_power_state == b.observed_power_state
    &&& a.guest_installed == b.guest_installed
    &&& a.tpm_attached == b.tpm_attached
    &&& a.tpm_endorsement_certificates == b.tpm_endorsement_certificates
}

/// The status after reporting a failure on `Ready`: `Ready` set to `False`
/// with `reason` and `message` at some time, the generation recorded, and
/// every other field as it was.
pub fn status_reporting_failure(
    current: VSphereMachineStatus,
    reason: &str,
    message: String,
    generation: i64,
) -> (r: VSphereMachineStatus)
    ensures
        same_but_conditions(r, current),
        r.observed_generation == Some(generation),
        exists|t: i64|
            models(r.conditions@) == #[trigger] after_set(
                models(current.conditions@),
                CONDITION_READY@,
                condition_status::FALSE@,
                reason@,
                message@,
                generation,
                t,
            ),
{
    let mut next = current;
    set_condition(
        &mut next.conditions,
        CONDITION_READY,
        condition_status::FALSE,
        reason,
        message.as_str(),
        generation,
    );
    next.observed_generation = Some(generation);
    next
}

/// What `GuestReady` is set to after a guest probe, as (status, reason,
/// message); `None` leaves it alone (an unevaluated guest says nothing).
/// A vTPM machine is ready only once an endorsement certificate exists.
pub open spec fn guest_ready_verdict(guest: GuestProbe, has_certificate: bool, tpm_attached: bool) -> Option<
    (Seq<char>, Seq<char>, Seq<char>),
> {
    match guest {
        GuestProbe::NotEvaluated => None,
        GuestProbe::NotAnnounced => Some(
            (condition_status::FALSE@, REASON_GUEST_NOT_ANNOUNCED@, MESSAGE_GUEST_NOT_ANNOUNCED@),
        ),
        GuestProbe::Installed => if tpm_attached && !has_certificate {
            Some(
                (
                    condition_status::FALSE@,
                    REASON_TPM_ENDORSEMENT_PENDING@,
                    MESSAGE_TPM_ENDORSEMENT_PENDING@,
                ),
            )
        } else {
            Some((condition_status::TRUE@, REASON_GUEST_ANNOUNCED@, MESSAGE_GUEST_ANNOUNCED@))
        },
    }
}

/// Conditions after applying a `GuestReady` verdict at time `now`.
pub open spec fn with_guest_ready(
    s: Seq<ConditionModel>,
    verdict: Option<(Seq<char>, Seq<char>, Seq<char>)>,
    generation: i64,
    now: i64,
) -> Seq<ConditionModel> {
    match verdict {
        None => s,
        Some(v) => after_set(s, CONDITION_GUEST_READY@, v.0, v.1, v.2, generation, now),
    }
}

/// Conditions after a successful look: `Ready` set to `True` at `t1`, then
/// the `GuestReady` verdict applied at `t2`.
pub open spec fn observed_conditions(
    s: Seq<ConditionModel>,
    verdict: Option<(Seq<char>, Seq<char>, Seq<char>)>,
    generation: i64,
    t1: i64,
    t2: i64,
) -> Seq<ConditionModel> {
    with_guest_ready(
        after_set(
            s,
            CONDITION_READY@,
            condition_status::TRUE@,
            REASON_RECONCILED@,
            MESSAGE_PROVISIONED@,
            generation,
            t1,
        ),
        verdict,
        generation,
        t2,
    )
}

pub open spec fn has_certificate(certificates: Seq<String>) -> bool {
    certificates.len() > 0
}

fn guest_ready_of(guest: GuestProbe, has_certificate: bool, tpm_attached: bool) -> (r: Option<
    (&'static str, &'static str, &'static str),
>)
    ensures
        match r {
            Some(v) => guest_ready_verdict(guest, has_certificate, tpm_attached) == Some(
                (v.0@, v.1@, v.2@),
            ),
            None => guest_ready_verdict(guest, has_certificate, tpm_attached) is None,
        },
{
    match guest {
        GuestProbe::NotEvaluated => None,
        GuestProbe::NotAnnounced => Some(
            (condition_status::FALSE, REASON_GUEST_NOT_ANNOUNCED, MESSAGE_GUEST_NOT_ANNOUNCED),
        ),
        GuestProbe::Installed => {
            if tpm_attached && !has_certificate {
                Some(
                    (
                        condition_status::FALSE,
                        REASON_TPM_ENDORSEMENT_PENDING,
                        MESSAGE_TPM_ENDORSEMENT_PENDING,
                    ),
                )
            } else {
                Some((condition_status::TRUE, REASON_GUEST_ANNOUNCED, MESSAGE_GUEST_ANNOUNCED))
            }
        },
    }
}

/// The status after a successful look at the VM: the observed power state,
/// guest flag and endorsement certificates recorded; `Ready` set to
/// `True`/`Reconciled` (a VM that answered exists, so an earlier backend
/// problem is cleared); `GuestReady` set from the guest probe; the
/// generation recorded; every other field as it was.
pub fn status_with_observed_state(
    current: VSphereMachineStatus,
    observed: PowerState,
    guest_installed: Option<bool>,
    guest: GuestProbe,
    tpm_endorsement_certificates: Vec<String>,
    tpm_attached: bool,
    generation: i64,
) -> (r: VSphereMachineStatus)
    ensures
        r.initialization == current.initialization,
        r.failure_domain == current.failure_domain,
        r.vm_ref == current.vm_ref,
        r.instance_uuid == current.instance_uuid,
        r.tpm_attached == current.tpm_attached,
        r.observed_power_state == Some(observed),
        r.guest_installed == guest_installed,
        r.tpm_endorsement_certificates == tpm_endorsement_certificates,
        r.observed_generation == Some(generation),
        exists|t1: i64, t2: i64|
            models(r.conditions@) == #[trigger] observed_conditions(
                models(current.conditions@),
                guest_ready_verdict(guest, has_certificate(tpm_endorsement_certificates@), tpm_attached),
                generation,
                t1,
                t2,
            ),
{
    let has_cert = tpm_endorsement_certificates.len() > 0;
    let mut next = current;
    next.observed_power_state = Some(observed);
    next.observed_generation = Some(generation);
    next.guest_installed = guest_installed;
    next.tpm_endorsement_certificates = tpm_endorsement_certificates;
    let ghost before = models(next.conditions@);
    set_condition(
        &mut next.conditions,
        CONDITION_READY,
        condition_status::TRUE,
        REASON_RECONCILED,
        MESSAGE_PROVISIONED,
        generation,
    );
    let ghost t1 = choose|t: i64|
        models(next.conditions@) == #[trigger] after_set(
            before,
            CONDITION_READY@,
            condition_status::TRUE@,
            REASON_RECONCILED@,
            MESSAGE_PROVISIONED@,
            generation,
            t,
        );
    let ghost mid = models(next.conditions@);
    match guest_ready_of(guest, has_cert, tpm_attached) {
        Some(v) => {
            set_condition(&mut next.conditions, CONDITION_GUEST_READY, v.0, v.1, v.2, generation);
            let ghost t2 = choose|t: i64|
                models(next.conditions@) == #[trigger] after_set(
                    mid,
                    CONDITION_GUEST_READY@,
                    v.0@,
                    v.1@,
                    v.2@,
                    generation,
                    t,
                );
            assert(models(next.conditions@) == observed_conditions(
                before,
                guest_ready_verdict(guest, has_cert, tpm_attached),
                generation,
                t1,
                t2,
            ));
        },
        None => {
            assert(models(next.conditions@) == observed_conditions(
                before,
                guest_ready_verdict(guest, has_cert, tpm_attached),
                generation,
                t1,
                0,
            ));
        },
    }
    next
}

/// Whether `e` is vCenter's `ManagedObjectNotFound` fault: its message,
/// lowercased, names it.
pub fn is_backend_missing_error(e: &Error) -> (r: bool)
    ensures
        r == contains_seq(
            unicode_lowercase(vsphere_error_text(*e)),
            "managedobjectnotfound"@,
        ),
        ascii_seq(vsphere_error_text(*e)) ==> r == contains_seq(
            lower_seq(vsphere_error_text(*e)),
            "managedobjectnotfound"@,
        ),
{
    let m = e.message();
    let l = lowercase(m.as_str());
    contains(l.as_str(), "managedobjectnotfound")
}


/// What a failed power read means for the status: `Ok(Some(status))` to
/// write, `Ok(None)` when nothing changed, or the error to raise.
///
/// A read that succeeds records the power state and clears any earlier
/// backend problem, written only when the power state changed or `Ready` was
/// not already `True`; the guest fields are left as they were. A read that
/// fails because vCenter no longer has the VM reports `BackendMissing`; any
/// other failure is raised.
pub fn status_after_power_read(
    current: VSphereMachineStatus,
    vm_ref: &str,
    read: Result<PowerState, Error>,
    generation: i64,
) -> (r: Result<Option<VSphereMachineStatus>, Error>)
    ensures
        match read {
            Ok(observed) => {
                let healthy = exists|i: int|
                    0 <= i < current.conditions@.len()
                        && #[trigger] current.conditions@[i].type_@ == CONDITION_READY@
                        && current.conditions@[i].status@ == condition_status::TRUE@;
                if current.observed_power_state == Some(observed) && healthy {
                    r == Ok::<Option<VSphereMachineStatus>, Error>(None)
                } else {
                    r matches Ok(Some(n)) && n.initialization == current.initialization
                        && n.failure_domain == current.failure_domain && n.vm_ref
                        == current.vm_ref && n.instance_uuid == current.instance_uuid
                        && n.tpm_attached == current.tpm_attached && n.observed_power_state
                        == Some(observed) && n.guest_installed == current.guest_installed
                        && n.tpm_endorsement_certificates@ == current.tpm_endorsement_certificates@
                        && n.observed_generation == Some(generation) && exists|t1: i64, t2: i64|
                        models(n.conditions@) == #[trigger] observed_conditions(
                            models(current.conditions@),
                            None,
                            generation,
                            t1,
                            t2,
                        )
                }
            },
            Err(e) => if contains_seq(
                unicode_lowercase(vsphere_error_text(e)),
                "managedobjectnotfound"@,
            ) {
                r matches Ok(Some(n)) && same_but_conditions(n, current) && n.observed_generation
                    == Some(generation) && exists|t: i64|
                    models(n.conditions@) == #[trigger] after_set(
                        models(current.conditions@),
                        CONDITION_READY@,
                        condition_status::FALSE@,
                        REASON_BACKEND_MISSING@,
                        backend_missing_message(vm_ref@, vsphere_error_text(e)),
                        generation,
                        t,
                    )
            } else {
                r == Err::<Option<VSphereMachineStatus>, Error>(e)
            },
        },
{
    match read {
        Ok(observed) => {
            let unchanged = match current.observed_power_state {
                Some(p) => p == observed,
                None => false,
            };
            let healthy = is_condition_true(current.conditions.as_slice(), CONDITION_READY);
            if unchanged && healthy {
                return Ok(None);
            }
            let guest_installed = current.guest_installed;
            let tpm_attached = match current.tpm_attached {
                Some(t) => t,
                None => false,
            };
            let certs = clone_strings(&current.tpm_endorsement_certificates);
            let ghost before = models(current.conditions@);
            let ghost cv = certs@;
            let n = status_with_observed_state(
                current,
                observed,
                guest_installed,
                GuestProbe::NotEvaluated,
                certs,
                tpm_attached,
                generation,
            );
            proof {
                let (t1, t2) = choose|t1: i64, t2: i64|
                    models(n.conditions@) == #[trigger] observed_conditions(
                        before,
                        guest_ready_verdict(GuestProbe::NotEvaluated, has_certificate(cv), tpm_attached),
                        generation,
                        t1,
                        t2,
                    );
                assert(models(n.conditions@) == observed_conditions(before, None, generation, t1, t2));
            }
            Ok(Some(n))
        },
        Err(e) => {
            if is_backend_missing_error(&e) {
                let mut message = owned("backend VM ");
                let q = quoted(vm_ref);
                message.append(q.as_str());
                message.append(" no longer exists in vCenter: ");
                let m = e.message();
                message.append(m.as_str());
                assert(message@ =~= backend_missing_message(vm_ref@, vsphere_error_text(e)));
                Ok(Some(status_reporting_failure(current, REASON_BACKEND_MISSING, message, generation)))
            } else {
                Err(e)
            }
        },
    }
}

/// The `BackendMissing` message for `vm_ref` and the read's error text.
pub open spec fn backend_missing_message(vm_ref: Seq<char>, error: Seq<char>) -> Seq<char> {
    "backend VM "@ + debug_str(vm_ref) + " no longer exists in vCenter: "@ + error
}

/// A copy of each string, in order.
fn clone_strings(v: &Vec<String>) -> (r: Vec<String>)
    ensures
        r@ == v@,
{
    let mut out: Vec<String> = Vec::new();
    let mut i: usize = 0;
    while i < v.len()
        invariant
            i <= v.len(),
            out@ == v@.take(i as int),
        decreases v.len() - i,
    {
        out.push(v[i].clone());
        i += 1;
        assert(out@ =~= v@.take(i as int));
    }
    assert(v@.take(v.len() as int) =~= v@);
    out
}


// ---------------------------------------------------------------------
// The create path
// ---------------------------------------------------------------------

/// The parts of `VSphereMachine.spec` the create path reads.
pub struct VSphereMachineSpec {
    pub provider_ref: String,
    pub template: String,
    /// The folder the per-zone template sits in; `None` looks datacenter-wide.
    pub template_folder: Option<String>,
    pub datacenter: String,
    pub cluster: String,
    /// A datastore or a datastore cluster.
    pub datastore: String,
    pub folder: Option<String>,
    pub num_cpus: i32,
    pub memory_mi_b: i32,
    pub network: Vec<VSphereNicSpec>,
    pub user_data: Option<String>,
    pub desired_power_state: PowerState,
}

/// What the create path reports back for the status.
#[derive(Debug)]
pub struct ProvisionOutcome {
    /// The VM's reference: the new clone's, or the one already recorded.
    pub vm_ref: String,
    /// The VM existed before this pass and nothing was done.
    pub already_provisioned: bool,
    /// The power state set on a fresh clone; `None` when nothing was done.
    pub power_state: Option<PowerState>,
}

impl ProvisionOutcome {
    /// The outcome when a VM is already recorded: nothing to do.
    pub fn existing(vm_ref: &str) -> (r: Self)
        ensures
            r.vm_ref@ == vm_ref@,
            r.already_provisioned,
            r.power_state is None,
    {
        ProvisionOutcome { vm_ref: owned(vm_ref), already_provisioned: true, power_state: None }
    }

    /// The outcome for a fresh clone `vm_ref` driven to `desired`.
    pub fn cloned(vm_ref: String, desired: PowerState) -> (r: Self)
        ensures
            r.vm_ref == vm_ref,
            !r.already_provisioned,
            r.power_state == Some(desired),
    {
        ProvisionOutcome { vm_ref, already_provisioned: false, power_state: Some(desired) }
    }
}

pub open spec fn dc_named(name: Seq<char>) -> spec_fn(Datacenter) -> bool {
    |d: Datacenter| d.name@ == name
}

pub open spec fn cluster_named(name: Seq<char>) -> spec_fn(Cluster) -> bool {
    |c: Cluster| c.name@ == name
}

pub open spec fn network_named(name: Seq<char>) -> spec_fn(Network) -> bool {
    |n: Network| n.name@ == name
}

pub open spec fn datacenter_not_found(name: Seq<char>) -> Seq<char> {
    "datacenter "@ + debug_str(name) + " not found"@
}

pub open spec fn cluster_not_found(cluster: Seq<char>, dc: Seq<char>) -> Seq<char> {
    "cluster "@ + debug_str(cluster) + " not found in datacenter "@ + debug_str(dc)
}

pub open spec fn template_not_found(template: Seq<char>, dc: Seq<char>, folder: Option<Seq<char>>) -> Seq<
    char,
> {
    "template "@ + debug_str(template) + " not found in datacenter "@ + debug_str(dc) + match folder {
        Some(f) => " folder "@ + debug_str(f),
        None => Seq::empty(),
    }
}

pub open spec fn network_not_reachable(port_group: Seq<char>, cluster: Seq<char>) -> Seq<char> {
    "network "@ + debug_str(port_group) + " not reachable from cluster "@ + debug_str(cluster)
}

pub const PRIMARY_NIC_FIELD: &'static str = "VSphereMachineSpec.network[0]";

/// The datacenter the spec names: the first one listed with that name.
pub fn resolve_datacenter(dcs: Vec<Datacenter>, spec: &VSphereMachineSpec) -> (r: Result<
    Datacenter,
    Error,
>)
    ensures
        match first_where(dcs@, dc_named(spec.datacenter@)) {
            Some(i) => r == Ok::<Datacenter, Error>(dcs@[i]),
            None => r matches Err(Error::Vsphere(m)) && m@ == datacenter_not_found(spec.datacenter@),
        },
{
    let ghost p = dc_named(spec.datacenter@);
    let mut i: usize = 0;
    while i < dcs.len() && !str_eq(dcs[i].name.as_str(), spec.datacenter.as_str())
        invariant
            i <= dcs.len(),
            p == dc_named(spec.datacenter@),
            forall|j: int| 0 <= j < i ==> !p(#[trigger] dcs@[j]),
        decreases dcs.len() - i,
    {
        i += 1;
    }
    if i < dcs.len() {
        proof {
            lemma_first_where(dcs@, p, i as int);
        }
        let mut rest = dcs;
        let found = rest.swap_remove(i);
        return Ok(found);
    }
    proof {
        lemma_first_where_none(dcs@, p);
    }
    let mut m = owned("datacenter ");
    let q = quoted(spec.datacenter.as_str());
    m.append(q.as_str());
    m.append(" not found");
    Err(Error::Vsphere(m))
}

/// The cluster the spec names in its datacenter: the first one listed with
/// that name.
pub fn resolve_cluster(clusters: Vec<Cluster>, spec: &VSphereMachineSpec) -> (r: Result<
    Cluster,
    Error,
>)
    ensures
        match first_where(clusters@, cluster_named(spec.cluster@)) {
            Some(i) => r == Ok::<Cluster, Error>(clusters@[i]),
            None => r matches Err(Error::Vsphere(m)) && m@ == cluster_not_found(
                spec.cluster@,
                spec.datacenter@,
            ),
        },
{
    let ghost p = cluster_named(spec.cluster@);
    let mut i: usize = 0;
    while i < clusters.len() && !str_eq(clusters[i].name.as_str(), spec.cluster.as_str())
        invariant
            i <= clusters.len(),
            p == cluster_named(spec.cluster@),
            forall|j: int| 0 <= j < i ==> !p(#[trigger] clusters@[j]),
        decreases clusters.len() - i,
    {
        i += 1;
    }
    if i < clusters.len() {
        proof {
            lemma_first_where(clusters@, p, i as int);
        }
        let mut rest = clusters;
        let found = rest.swap_remove(i);
        return Ok(found);
    }
    proof {
        lemma_first_where_none(clusters@, p);
    }
    let mut m = owned("cluster ");
    let q = quoted(spec.cluster.as_str());
    m.append(q.as_str());
    m.append(" not found in datacenter ");
    let q2 = quoted(spec.datacenter.as_str());
    m.append(q2.as_str());
    Err(Error::Vsphere(m))
}

/// The template the lookup found, or the error naming what was looked for.
pub fn resolve_template(found: Option<Template>, spec: &VSphereMachineSpec) -> (r: Result<
    Template,
    Error,
>)
    ensures
        match found {
            Some(t) => r == Ok::<Template, Error>(t),
            None => r matches Err(Error::Vsphere(m)) && m@ == template_not_found(
                spec.template@,
                spec.datacenter@,
                match spec.template_folder {
                    Some(f) => Some(f@),
                    None => None,
                },
            ),
        },
{
    match found {
        Some(t) => Ok(t),
        None => {
            let mut m = owned("template ");
            let q = quoted(spec.template.as_str());
            m.append(q.as_str());
            m.append(" not found in datacenter ");
            let q2 = quoted(spec.datacenter.as_str());
            m.append(q2.as_str());
            match &spec.template_folder {
                Some(f) => {
                    m.append(" folder ");
                    let q3 = quoted(f.as_str());
                    m.append(q3.as_str());
                },
                None => {},
            }
            Err(Error::Vsphere(m))
        },
    }
}

/// The datastore a spec's `datastore` resolves to among those reachable
/// from the cluster: an exact name, or the emptiest member of a datastore
/// cluster.
pub open spec fn chosen_datastore(ds: Seq<Datastore>, target: Seq<char>) -> Datastore {
    candidates_spec(ds, target)[emptiest_index(candidates_spec(ds, target))]
}

/// The reference of the datastore a clone goes to: the chosen datastore's
/// name resolved back to the first reachable datastore with that name.
pub fn resolve_datastore_moref(datastores: &[Datastore], spec: &VSphereMachineSpec) -> (r: Result<
    String,
    Error,
>)
    ensures
        candidates_spec(datastores@, spec.datastore@).len() > 0 ==> {
            let i = first_where(
                datastores@,
                datastore_named(chosen_datastore(datastores@, spec.datastore@).name@),
            );
            i is Some && (r matches Ok(m) && m@ == datastores@[i->0].moref@)
        },
        candidates_spec(datastores@, spec.datastore@).len() == 0 ==> (r matches Err(Error::Vsphere(m))
            && m@ == unknown_datastore_error(datastores@, spec.datastore@)),
{
    match resolve_concrete_datastore(datastores, spec.datastore.as_str()) {
        Err(e) => Err(Error::Vsphere(e)),
        Ok(name) => {
            let ghost p = datastore_named(name@);
            proof {
                lemma_chosen_is_reachable(datastores@, spec.datastore@);
            }
            let ghost x = chosen_datastore(datastores@, spec.datastore@);
            assert(name@ == x.name@);
            let ghost k = choose|k: int| 0 <= k < datastores@.len() && datastores@[k] == x;
            assert(p(datastores@[k]));
            let mut i: usize = 0;
            while i < datastores.len() && !str_eq(datastores[i].name.as_str(), name.as_str())
                invariant
                    i <= datastores.len(),
                    p == datastore_named(name@),
                    0 <= k < datastores@.len(),
                    p(datastores@[k]),
                    forall|j: int| 0 <= j < i ==> !p(#[trigger] datastores@[j]),
                decreases datastores.len() - i,
            {
                i += 1;
            }
            if i >= datastores.len() {
                assert(!p(datastores@[k]));
                return Err(Error::Vsphere(owned("resolved datastore missing its own moref")));
            }
            proof {
                lemma_first_where(datastores@, p, i as int);
            }
            Ok(datastores[i].moref.clone())
        },
    }
}

/// The chosen datastore is one of the reachable datastores.
proof fn lemma_chosen_is_reachable(ds: Seq<Datastore>, target: Seq<char>)
    requires
        candidates_spec(ds, target).len() > 0,
        is_emptiest(candidates_spec(ds, target), emptiest_index(candidates_spec(ds, target))),
    ensures
        ds.contains(chosen_datastore(ds, target)),
{
    lemma_candidate_is_reachable(ds, target, emptiest_index(candidates_spec(ds, target)));
}

/// The spec's first NIC: the one the clone's network comes from.
pub fn primary_nic(spec: &VSphereMachineSpec) -> (r: Result<&VSphereNicSpec, Error>)
    ensures
        spec.network.len() > 0 ==> r == Ok::<&VSphereNicSpec, Error>(&spec.network@[0]),
        spec.network.len() == 0 ==> (r matches Err(Error::Missing(f)) && f@ == PRIMARY_NIC_FIELD@),
{
    if spec.network.len() == 0 {
        Err(Error::Missing(owned(PRIMARY_NIC_FIELD)))
    } else {
        Ok(&spec.network[0])
    }
}

/// The network of `nic`'s port group among those reachable from the
/// cluster: the first one listed with that name.
pub fn resolve_network(networks: Vec<Network>, nic: &VSphereNicSpec, spec: &VSphereMachineSpec) -> (r:
    Result<Network, Error>)
    ensures
        match first_where(networks@, network_named(nic.port_group@)) {
            Some(i) => r == Ok::<Network, Error>(networks@[i]),
            None => r matches Err(Error::Vsphere(m)) && m@ == network_not_reachable(
                nic.port_group@,
                spec.cluster@,
            ),
        },
{
    let ghost p = network_named(nic.port_group@);
    let mut i: usize = 0;
    while i < networks.len() && !str_eq(networks[i].name.as_str(), nic.port_group.as_str())
        invariant
            i <= networks.len(),
            p == network_named(nic.port_group@),
            forall|j: int| 0 <= j < i ==> !p(#[trigger] networks@[j]),
        decreases networks.len() - i,
    {
        i += 1;
    }
    if i < networks.len() {
        proof {
            lemma_first_where(networks@, p, i as int);
        }
        let mut rest = networks;
        let found = rest.swap_remove(i);
        return Ok(found);
    }
    proof {
        lemma_first_where_none(networks@, p);
    }
    let mut m = owned("network ");
    let q = quoted(nic.port_group.as_str());
    m.append(q.as_str());
    m.append(" not reachable from cluster ");
    let q2 = quoted(spec.cluster.as_str());
    m.append(q2.as_str());
    Err(Error::Vsphere(m))
}

/// Whether a fresh clone needs a power-state call: a clone starts powered
/// off, so only a different desired state does.
pub fn needs_power_call(desired: PowerState) -> (r: bool)
    ensures
        r == (desired != PowerState::PoweredOff),
{
    match desired {
        PowerState::PoweredOff => false,
        _ => true,
    }
}


/// The clone request for `vm_name`: the resolved datacenter, cluster,
/// template, datastore and network, the spec's size and folder, and the
/// guestinfo built from the spec's NICs and the rendered userdata.
pub fn clone_request(
    dc: Datacenter,
    cluster: Cluster,
    template: Template,
    datastore_moref: String,
    network: Network,
    spec: &VSphereMachineSpec,
    vm_name: &str,
    rendered_userdata: Option<&str>,
) -> (r: CloneVmRequest)
    requires
        rendered_userdata matches Some(u) ==> base64_fits(encode_utf8(u@)),
        base64_fits(
            encode_utf8(metadata_yaml(vm_name@, static_domain(first_static(spec.network@)))),
        ),
    ensures
        r.datacenter_moref == dc.moref,
        r.cluster_moref == cluster.moref,
        r.template_moref == template.moref,
        r.datastore_moref == datastore_moref,
        r.network == network.name,
        r.network_moref == network.moref,
        r.network_distributed == network.distributed,
        r.num_cpus == spec.num_cpus,
        r.memory_mib == spec.memory_mi_b as i64,
        r.folder == spec.folder,
        r.vm_name@ == vm_name@,
        pairs_view(r.extra_config@) == guestinfo_spec(
            vm_name@,
            spec.network@,
            match rendered_userdata {
                Some(u) => Some(u@),
                None => None,
            },
        ),
{
    let extra_config = build_guestinfo(vm_name, spec.network.as_slice(), rendered_userdata);
    let folder = match &spec.folder {
        Some(f) => Some(f.clone()),
        None => None,
    };
    CloneVmRequest {
        datacenter_moref: dc.moref,
        cluster_moref: cluster.moref,
        template_moref: template.moref,
        datastore_moref,
        network: network.name,
        network_moref: network.moref,
        network_distributed: network.distributed,
        num_cpus: spec.num_cpus,
        memory_mib: spec.memory_mi_b as i64,
        folder,
        vm_name: owned(vm_name),
        extra_config,
    }
}

// ---------------------------------------------------------------------
// The create path, one vCenter call at a time
// ---------------------------------------------------------------------

/// Where the create path stands between two vCenter calls.
pub enum EnsureState {
    /// Nothing done yet.
    Start,
    /// Waiting for the datacenters.
    AwaitDatacenters,
    /// The datacenter resolved; waiting for its clusters.
    AwaitClusters { dc: Datacenter },
    /// The cluster resolved; waiting for the template lookup.
    AwaitTemplate { dc: Datacenter, cluster: Cluster },
    /// The template resolved; waiting for the datastores the cluster reaches.
    AwaitDatastores { dc: Datacenter, cluster: Cluster, template: Template },
    /// The datastore resolved; waiting for the networks the cluster reaches.
    AwaitNetworks { dc: Datacenter, cluster: Cluster, template: Template, datastore_moref: String },
    /// Waiting for the clone.
    AwaitClone,
    /// Waiting for the power-state call on the fresh clone.
    AwaitPower { vm_ref: String },
    /// The path ended, with an outcome or an error.
    Finished,
}

/// What vCenter answered to the last action.
pub enum EnsureEvent {
    /// The path starts.
    Begin,
    Datacenters(Vec<Datacenter>),
    Clusters(Vec<Cluster>),
    TemplateFound(Option<Template>),
    Datastores(Vec<Datastore>),
    Networks(Vec<Network>),
    /// The clone's reference.
    Cloned(String),
    Powered,
}

/// What to do next.
pub enum EnsureAction {
    ListDatacenters,
    ListClusters(Datacenter),
    /// Look the spec's template up in the datacenter (in the spec's template
    /// folder, when it names one).
    FindTemplate(Datacenter),
    ListDatastores(Cluster),
    ListNetworks(Cluster),
    Clone(CloneVmRequest),
    SetPower(String, PowerState),
    Done(ProvisionOutcome),
    Fail(Error),
}

/// `event` is an answer to the action that led to `state`.
pub open spec fn answers(state: EnsureState, event: EnsureEvent) -> bool {
    ||| state is Start && event is Begin
    ||| state is AwaitDatacenters && event is Datacenters
    ||| state is AwaitClusters && event is Clusters
    ||| state is AwaitTemplate && event is TemplateFound
    ||| state is AwaitDatastores && event is Datastores
    ||| state is AwaitNetworks && event is Networks
    ||| state is AwaitClone && event is Cloned
    ||| state is AwaitPower && event is Powered
}

/// `r` is the clone request [`clone_request`] builds from these parts.
pub open spec fn is_clone_request(
    r: CloneVmRequest,
    dc: Datacenter,
    cluster: Cluster,
    template: Template,
    datastore_moref: String,
    network: Network,
    spec: VSphereMachineSpec,
    vm_name: Seq<char>,
    rendered_userdata: Option<Seq<char>>,
) -> bool {
    &&& r.datacenter_moref == dc.moref
    &&& r.cluster_moref == cluster.moref
    &&& r.template_moref == template.moref
    &&& r.datastore_moref == datastore_moref
    &&& r.network == network.name
    &&& r.network_moref == network.moref
    &&& r.network_distributed == network.distributed
    &&& r.num_cpus == spec.num_cpus
    &&& r.memory_mib == spec.memory_mi_b as i64
    &&& r.folder == spec.folder
    &&& r.vm_name@ == vm_name
    &&& pairs_view(r.extra_config@) == guestinfo_spec(vm_name, spec.network@, rendered_userdata)
}

/// The path ends with the outcome of a fresh clone `vm_ref` driven to
/// `desired`.
pub open spec fn ends_cloned(r: (EnsureState, EnsureAction), vm_ref: String, desired: PowerState) -> bool {
    r.0 is Finished && (r.1 matches EnsureAction::Done(o) && o.vm_ref == vm_ref
        && !o.already_provisioned && o.power_state == Some(desired))
}

/// The path ends with `e`.
pub open spec fn ends_failed(r: (EnsureState, EnsureAction), e: Error) -> bool {
    r.0 is Finished && r.1 == EnsureAction::Fail(e)
}

pub open spec fn opt_string_view(o: Option<String>) -> Option<Seq<char>> {
    match o {
        Some(s) => Some(s@),
        None => None,
    }
}

pub open spec fn opt_view(o: Option<&str>) -> Option<Seq<char>> {
    match o {
        Some(u) => Some(u@),
        None => None,
    }
}

/// One step of the create path: `existing_vm_ref` is the reference the
/// status already records; with one, the path ends at once with it and
/// calls nothing. Otherwise it resolves the datacenter, the cluster, the
/// template, the datastore and the network, in that order, each from the
/// answer to the call before; then clones; then sets the desired power
/// state unless it is powered off, which a clone already is.
pub fn ensure_vm_step(
    spec: &VSphereMachineSpec,
    vm_name: &str,
    existing_vm_ref: Option<&str>,
    rendered_userdata: Option<&str>,
    state: EnsureState,
    event: EnsureEvent,
) -> (r: (EnsureState, EnsureAction))
    requires
        answers(state, event),
        state is AwaitNetworks ==> (rendered_userdata matches Some(u) ==> base64_fits(
            encode_utf8(u@),
        )),
        state is AwaitNetworks ==> base64_fits(
            encode_utf8(metadata_yaml(vm_name@, static_domain(first_static(spec.network@)))),
        ),
    ensures
        match state {
            EnsureState::Start => match existing_vm_ref {
                Some(v) => r.0 is Finished && (r.1 matches EnsureAction::Done(o) && o.vm_ref@ == v@
                    && o.already_provisioned && o.power_state is None),
                None => r.0 is AwaitDatacenters && r.1 is ListDatacenters,
            },
            EnsureState::AwaitDatacenters => match event {
                EnsureEvent::Datacenters(dcs) => match first_where(dcs@, dc_named(spec.datacenter@)) {
                    Some(i) => r.0 == (EnsureState::AwaitClusters { dc: dcs@[i] })
                        && r.1 == EnsureAction::ListClusters(dcs@[i]),
                    None => r.0 is Finished && (r.1 matches EnsureAction::Fail(Error::Vsphere(m))
                        && m@ == datacenter_not_found(spec.datacenter@)),
                },
                _ => false,
            },
            EnsureState::AwaitClusters { dc } => match event {
                EnsureEvent::Clusters(cs) => match first_where(cs@, cluster_named(spec.cluster@)) {
                    Some(i) => r.0 == (EnsureState::AwaitTemplate { dc, cluster: cs@[i] })
                        && r.1 == EnsureAction::FindTemplate(dc),
                    None => r.0 is Finished && (r.1 matches EnsureAction::Fail(Error::Vsphere(m))
                        && m@ == cluster_not_found(spec.cluster@, spec.datacenter@)),
                },
                _ => false,
            },
            EnsureState::AwaitTemplate { dc, cluster } => match event {
                EnsureEvent::TemplateFound(found) => match found {
                    Some(t) => r.0 == (EnsureState::AwaitDatastores { dc, cluster, template: t })
                        && r.1 == EnsureAction::ListDatastores(cluster),
                    None => r.0 is Finished && (r.1 matches EnsureAction::Fail(Error::Vsphere(m))
                        && m@ == template_not_found(
                        spec.template@,
                        spec.datacenter@,
                        opt_string_view(spec.template_folder),
                    )),
                },
                _ => false,
            },
            EnsureState::AwaitDatastores { dc, cluster, template } => match event {
                EnsureEvent::Datastores(ds) => if candidates_spec(ds@, spec.datastore@).len() == 0 {
                    r.0 is Finished && (r.1 matches EnsureAction::Fail(Error::Vsphere(m))
                        && m@ == unknown_datastore_error(ds@, spec.datastore@))
                } else if spec.network.len() == 0 {
                    r.0 is Finished && (r.1 matches EnsureAction::Fail(Error::Missing(f))
                        && f@ == PRIMARY_NIC_FIELD@)
                } else {
                    let i = first_where(
                        ds@,
                        datastore_named(chosen_datastore(ds@, spec.datastore@).name@),
                    );
                    &&& i is Some
                    &&& r.0 matches EnsureState::AwaitNetworks {
                        dc: d,
                        cluster: c,
                        template: t,
                        datastore_moref: m,
                    } && d == dc && c == cluster && t == template && m@ == ds@[i->0].moref@
                    &&& r.1 == EnsureAction::ListNetworks(cluster)
                },
                _ => false,
            },
            EnsureState::AwaitNetworks { dc, cluster, template, datastore_moref } => match event {
                EnsureEvent::Networks(nets) => if spec.network.len() == 0 {
                    r.0 is Finished && (r.1 matches EnsureAction::Fail(Error::Missing(f))
                        && f@ == PRIMARY_NIC_FIELD@)
                } else {
                    match first_where(nets@, network_named(spec.network@[0].port_group@)) {
                        Some(i) => r.0 is AwaitClone && (r.1 matches EnsureAction::Clone(req)
                            && is_clone_request(
                            req,
                            dc,
                            cluster,
                            template,
                            datastore_moref,
                            nets@[i],
                            *spec,
                            vm_name@,
                            opt_view(rendered_userdata),
                        )),
                        None => r.0 is Finished && (r.1 matches EnsureAction::Fail(Error::Vsphere(m))
                            && m@ == network_not_reachable(spec.network@[0].port_group@, spec.cluster@)),
                    }
                },
                _ => false,
            },
            EnsureState::AwaitClone => match event {
                EnsureEvent::Cloned(vm_ref) => if spec.desired_power_state != PowerState::PoweredOff {
                    r.0 == (EnsureState::AwaitPower { vm_ref })
                        && r.1 == EnsureAction::SetPower(vm_ref, spec.desired_power_state)
                } else {
                    ends_cloned(r, vm_ref, spec.desired_power_state)
                },
                _ => false,
            },
            EnsureState::AwaitPower { vm_ref } => ends_cloned(r, vm_ref, spec.desired_power_state),
            EnsureState::Finished => false,
        },
{
    match state {
        EnsureState::Start => match existing_vm_ref {
            Some(v) => (EnsureState::Finished, EnsureAction::Done(ProvisionOutcome::existing(v))),
            None => (EnsureState::AwaitDatacenters, EnsureAction::ListDatacenters),
        },
        EnsureState::AwaitDatacenters => {
            let dcs = match event {
                EnsureEvent::Datacenters(dcs) => dcs,
                _ => {
                    proof {
                        assert(false);
                    }
                    Vec::new()
                },
            };
            match resolve_datacenter(dcs, spec) {
                Ok(dc) => {
                    let d = dc.duplicate();
                    (EnsureState::AwaitClusters { dc }, EnsureAction::ListClusters(d))
                },
                Err(e) => (EnsureState::Finished, EnsureAction::Fail(e)),
            }
        },
        EnsureState::AwaitClusters { dc } => {
            let cs = match event {
                EnsureEvent::Clusters(cs) => cs,
                _ => {
                    proof {
                        assert(false);
                    }
                    Vec::new()
                },
            };
            match resolve_cluster(cs, spec) {
                Ok(cluster) => {
                    let d = dc.duplicate();
                    (EnsureState::AwaitTemplate { dc, cluster }, EnsureAction::FindTemplate(d))
                },
                Err(e) => (EnsureState::Finished, EnsureAction::Fail(e)),
            }
        },
        EnsureState::AwaitTemplate { dc, cluster } => {
            let found = match event {
                EnsureEvent::TemplateFound(found) => found,
                _ => {
                    proof {
                        assert(false);
                    }
                    None
                },
            };
            match resolve_template(found, spec) {
                Ok(template) => {
                    let c = cluster.duplicate();
                    (
                        EnsureState::AwaitDatastores { dc, cluster, template },
                        EnsureAction::ListDatastores(c),
                    )
                },
                Err(e) => (EnsureState::Finished, EnsureAction::Fail(e)),
            }
        },
        EnsureState::AwaitDatastores { dc, cluster, template } => {
            let ds = match event {
                EnsureEvent::Datastores(ds) => ds,
                _ => {
                    proof {
                        assert(false);
                    }
                    Vec::new()
                },
            };
            let datastore_moref = match resolve_datastore_moref(ds.as_slice(), spec) {
                Ok(m) => m,
                Err(e) => {
                    return (EnsureState::Finished, EnsureAction::Fail(e));
                },
            };
            match primary_nic(spec) {
                Ok(_) => {
                    let c = cluster.duplicate();
                    (
                        EnsureState::AwaitNetworks { dc, cluster, template, datastore_moref },
                        EnsureAction::ListNetworks(c),
                    )
                },
                Err(e) => (EnsureState::Finished, EnsureAction::Fail(e)),
            }
        },
        EnsureState::AwaitNetworks { dc, cluster, template, datastore_moref } => {
            let nets = match event {
                EnsureEvent::Networks(nets) => nets,
                _ => {
                    proof {
                        assert(false);
                    }
                    Vec::new()
                },
            };
            let nic = match primary_nic(spec) {
                Ok(nic) => nic,
                Err(e) => {
                    return (EnsureState::Finished, EnsureAction::Fail(e));
                },
            };
            match resolve_network(nets, nic, spec) {
                Ok(network) => {
                    let req = clone_request(
                        dc,
                        cluster,
                        template,
                        datastore_moref,
                        network,
                        spec,
                        vm_name,
                        rendered_userdata,
                    );
                    (EnsureState::AwaitClone, EnsureAction::Clone(req))
                },
                Err(e) => (EnsureState::Finished, EnsureAction::Fail(e)),
            }
        },
        EnsureState::AwaitClone => {
            let vm_ref = match event {
                EnsureEvent::Cloned(vm_ref) => vm_ref,
                _ => {
                    proof {
                        assert(false);
                    }
                    String::new()
                },
            };
            if needs_power_call(spec.desired_power_state) {
                let v = vm_ref.clone();
                (EnsureState::AwaitPower { vm_ref }, EnsureAction::SetPower(v, spec.desired_power_state))
            } else {
                (
                    EnsureState::Finished,
                    EnsureAction::Done(ProvisionOutcome::cloned(vm_ref, spec.desired_power_state)),
                )
            }
        },
        EnsureState::AwaitPower { vm_ref } => (
            EnsureState::Finished,
            EnsureAction::Done(ProvisionOutcome::cloned(vm_ref, spec.desired_power_state)),
        ),
        EnsureState::Finished => {
            proof {
                assert(false);
            }
            (EnsureState::Finished, EnsureAction::ListDatacenters)
        },
    }
}

/// The status written after a successful provision: provisioned, the VM
/// reference and power state recorded, the existing conditions with `Ready`
/// set to `True`/`Reconciled`, and the generation recorded.
pub fn status_after_provision(
    existing_conditions: Vec<Condition>,
    vm_ref: String,
    power_state: Option<PowerState>,
    generation: i64,
) -> (r: VSphereMachineStatus)
    ensures
        r.initialization.provisioned == Some(true),
        r.vm_ref == Some(vm_ref),
        r.observed_power_state == power_state,
        r.observed_generation == Some(generation),
        r.failure_domain is None,
        r.instance_uuid is None,
        exists|t: i64|
            models(r.conditions@) == #[trigger] after_set(
                models(existing_conditions@),
                CONDITION_READY@,
                condition_status::TRUE@,
                REASON_RECONCILED@,
                MESSAGE_PROVISIONED@,
                generation,
                t,
            ),
{
    let mut conditions = existing_conditions;
    set_condition(
        &mut conditions,
        CONDITION_READY,
        condition_status::TRUE,
        REASON_RECONCILED,
        MESSAGE_PROVISIONED,
        generation,
    );
    VSphereMachineStatus {
        initialization: InitializationStatus { provisioned: Some(true) },
        failure_domain: None,
        vm_ref: Some(vm_ref),
        instance_uuid: None,
        observed_power_state: power_state,
        guest_installed: None,
        tpm_attached: None,
        tpm_endorsement_certificates: Vec::new(),
        conditions,
        observed_generation: Some(generation),
    }
}

/// Whether the status says the VM was provisioned.
pub fn is_provisioned(status: &Option<VSphereMachineStatus>) -> (r: bool)
    ensures
        r == (status matches Some(s) && s.initialization.provisioned == Some(true)),
{
    match status {
        Some(s) => match s.initialization.provisioned {
            Some(p) => p,
            None => false,
        },
        None => false,
    }
}

/// The `Ready` reason for a failure to read the vCenter credentials: a
/// missing Secret or key, or else an unusable one.
pub fn credentials_failure_reason(e: &Error) -> (r: &'static str)
    ensures
        r@ == if e is Missing {
            REASON_SECRET_MISSING@
        } else {
            REASON_SECRET_INVALID@
        },
{
    match e {
        Error::Missing(_) => REASON_SECRET_MISSING,
        _ => REASON_SECRET_INVALID,
    }
}

} // verus!
