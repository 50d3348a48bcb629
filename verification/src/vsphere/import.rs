//! The per-zone image import: where in vCenter a zone's template goes,
//! which datastore receives the ISO, which port groups its NICs attach to,
//! the guest type, upload progress, and the checksum gate.
use vstd::prelude::*;
use crate::seq_util::{first_where, lemma_first_where, lemma_first_where_found, lemma_first_where_none};
use crate::text::{
    lemma_text_lt_irreflexive, lemma_text_lt_total, lemma_text_lt_transitive, text_less, text_lt,
    chars_of, contains, contains_seq, debug_str, eq_ignore_case, join, join_strings, lower, lower_seq,
    owned, quoted, str_eq, strings_view, substring_of, to_lower,
};
use crate::vsphere::api::{
    target_for_spec, ClassMapping, FailureDomain, Firmware, InstallMode, NicAdapter, Provider,
    VMImageTemplateNic,
};
use crate::vsphere::vim::DEFAULT_INSTALL_TIMEOUT_SECS;
use crate::vsphere::client::{Datastore, Duplicate, Network, RequestedNic};
use crate::vsphere::nic_flag::{nic_model, NicModel};
use crate::vsphere::provider::{
    in_datastore_cluster, ATTR_CLUSTER, ATTR_DATACENTER, TARGET_DATASTORE,
    TARGET_DATASTORE_CLUSTER, TARGET_DISTRIBUTED_PORT_GROUP, TARGET_PORT_GROUP,
};

verus! {

/// Datastore folder the ISO is uploaded into.
pub const DATASTORE_UPLOAD_DIR: &'static str = "banlieue-images";

/// The guest type of a Linux image of an unknown distribution.
pub const DEFAULT_LINUX_GUEST_ID: &'static str = "otherLinux64Guest";

/// The guest type of any other image.
pub const DEFAULT_GUEST_ID: &'static str = "otherGuest64";

/// The PCI slot of the first NIC; NIC `i` defaults to this plus `i`.
pub const FIRST_NIC_PCI_SLOT: i32 = 192;

// ---------------------------------------------------------------------
// Guest type
// ---------------------------------------------------------------------

/// The vCenter `guestId` of an image: by distribution for Linux, a Windows
/// server type for Windows, generic otherwise; case does not matter.
pub open spec fn guest_id_spec(os_family: Seq<char>, os_distribution: Seq<char>) -> Seq<char> {
    let family = lower_seq(os_family);
    let distro = lower_seq(os_distribution);
    if family == "linux"@ {
        if contains_seq(distro, "rhel"@) || contains_seq(distro, "red hat"@) || contains_seq(
            distro,
            "redhat"@,
        ) {
            "rhel9_64Guest"@
        } else if contains_seq(distro, "ubuntu"@) {
            "ubuntu64Guest"@
        } else if contains_seq(distro, "debian"@) {
            "debian11_64Guest"@
        } else if contains_seq(distro, "fedora"@) || contains_seq(distro, "coreos"@) {
            "fedora64Guest"@
        } else {
            DEFAULT_LINUX_GUEST_ID@
        }
    } else if family == "windows"@ {
        "windows2019srv_64Guest"@
    } else {
        DEFAULT_GUEST_ID@
    }
}

/// vCPUs of a template whose image names none.
pub const DEFAULT_TEMPLATE_CPUS: i32 = 2;

/// Memory of a template whose image names none, in MiB.
pub const DEFAULT_TEMPLATE_MEMORY_MIB: i64 = 4096;

/// The size, firmware and install settings of a template build.
#[derive(Debug, Clone, Copy, PartialEq, Eq)]
pub struct TemplateSettings {
    pub cpus: i32,
    pub memory_mib: i64,
    pub firmware: Firmware,
    pub install_timeout_seconds: i32,
    pub install_mode: InstallMode,
}

/// The settings of a template build: what the import command was given,
/// with 2 vCPUs, 4096 MiB, EFI firmware, the default install timeout and an
/// immediate install for what it was not.
pub fn template_settings(
    cpus: Option<i32>,
    memory_mib: Option<i64>,
    firmware: Option<Firmware>,
    install_timeout_seconds: Option<i32>,
    install_mode: Option<InstallMode>,
) -> (r: TemplateSettings)
    ensures
        r.cpus == (match cpus {
            Some(c) => c,
            None => DEFAULT_TEMPLATE_CPUS,
        }),
        r.memory_mib == (match memory_mib {
            Some(m) => m,
            None => DEFAULT_TEMPLATE_MEMORY_MIB,
        }),
        r.firmware == (match firmware {
            Some(f) => f,
            None => Firmware::Efi,
        }),
        r.install_timeout_seconds == (match install_timeout_seconds {
            Some(t) => t as int,
            None => DEFAULT_INSTALL_TIMEOUT_SECS as int,
        }),
        r.install_mode == (match install_mode {
            Some(m) => m,
            None => InstallMode::Immediate,
        }),
{
    TemplateSettings {
        cpus: match cpus {
            Some(c) => c,
            None => DEFAULT_TEMPLATE_CPUS,
        },
        memory_mib: match memory_mib {
            Some(m) => m,
            None => DEFAULT_TEMPLATE_MEMORY_MIB,
        },
        firmware: match firmware {
            Some(f) => f,
            None => Firmware::Efi,
        },
        install_timeout_seconds: match install_timeout_seconds {
            Some(t) => t,
            None => DEFAULT_INSTALL_TIMEOUT_SECS as i32,
        },
        install_mode: match install_mode {
            Some(m) => m,
            None => InstallMode::Immediate,
        },
    }
}

/// ASCII uppercase of one character; every other character is unchanged.
pub open spec fn upper(c: char) -> char {
    if 'a' <= c && c <= 'z' {
        ((c as u32) - 32) as char
    } else {
        c
    }
}

pub open spec fn upper_seq(s: Seq<char>) -> Seq<char> {
    Seq::new(s.len(), |i: int| upper(s[i]))
}

/// The guest id does not depend on ASCII case: inputs that lowercase alike
/// map alike, upper-casing both inputs changes nothing, a `windows` family
/// maps to the Windows Server guest, and any family but `linux` and
/// `windows` to the generic one.
pub proof fn lemma_guest_id_ignores_case(f: Seq<char>, d: Seq<char>, f2: Seq<char>, d2: Seq<char>)
    ensures
        lower_seq(f) == lower_seq(f2) && lower_seq(d) == lower_seq(d2) ==> guest_id_spec(f, d)
            == guest_id_spec(f2, d2),
        guest_id_spec(upper_seq(f), upper_seq(d)) == guest_id_spec(f, d),
        lower_seq(f) == "windows"@ ==> guest_id_spec(f, d) == "windows2019srv_64Guest"@,
        lower_seq(f) != "linux"@ && lower_seq(f) != "windows"@ ==> guest_id_spec(f, d)
            == DEFAULT_GUEST_ID@,
{
    assert forall|c: char| lower(#[trigger] upper(c)) == lower(c) by {
        if 'a' <= c && c <= 'z' {
            assert(((c as u32) - 32) as char as u32 == (c as u32) - 32);
        }
    }
    assert(lower_seq(upper_seq(f)) =~= lower_seq(f));
    assert(lower_seq(upper_seq(d)) =~= lower_seq(d));
    reveal_strlit("windows");
    reveal_strlit("linux");
    assert("windows"@[0] != "linux"@[0]);
}

/// An image's guest id for a `linux` family (any case), by its distribution
/// text (any case): one naming `rhel`, `red hat` or `redhat` is Red Hat 9;
/// else one naming `ubuntu` is Ubuntu; else one naming `debian` is Debian
/// 11; else one naming `fedora` or `coreos` is Fedora; anything else is the
/// generic Linux guest.
pub proof fn lemma_linux_guest_ids(f: Seq<char>, d: Seq<char>)
    requires
        lower_seq(f) == "linux"@,
    ensures
        contains_seq(lower_seq(d), "rhel"@) ==> guest_id_spec(f, d) == "rhel9_64Guest"@,
        contains_seq(lower_seq(d), "red hat"@) ==> guest_id_spec(f, d) == "rhel9_64Guest"@,
        contains_seq(lower_seq(d), "redhat"@) ==> guest_id_spec(f, d) == "rhel9_64Guest"@,
        !contains_seq(lower_seq(d), "rhel"@) && !contains_seq(lower_seq(d), "red hat"@)
            && !contains_seq(lower_seq(d), "redhat"@) ==> {
            &&& contains_seq(lower_seq(d), "ubuntu"@) ==> guest_id_spec(f, d) == "ubuntu64Guest"@
            &&& !contains_seq(lower_seq(d), "ubuntu"@) && contains_seq(lower_seq(d), "debian"@)
                ==> guest_id_spec(f, d) == "debian11_64Guest"@
            &&& !contains_seq(lower_seq(d), "ubuntu"@) && !contains_seq(lower_seq(d), "debian"@)
                && (contains_seq(lower_seq(d), "fedora"@) || contains_seq(lower_seq(d), "coreos"@))
                ==> guest_id_spec(f, d) == "fedora64Guest"@
            &&& !contains_seq(lower_seq(d), "ubuntu"@) && !contains_seq(lower_seq(d), "debian"@)
                && !contains_seq(lower_seq(d), "fedora"@) && !contains_seq(lower_seq(d), "coreos"@)
                ==> guest_id_spec(f, d) == "otherLinux64Guest"@
        },
{
    reveal_strlit("otherLinux64Guest");
    assert(DEFAULT_LINUX_GUEST_ID@ == "otherLinux64Guest"@);
}

/// Map an image's OS to a vCenter `guestId`.
pub fn guest_id_for(os_family: &str, os_distribution: &str) -> (r: String)
    ensures
        r@ == guest_id_spec(os_family@, os_distribution@),
{
    let distro = to_lower(os_distribution);
    let family = to_lower(os_family);
    let d = distro.as_str();
    if str_eq(family.as_str(), "linux") {
        if contains(d, "rhel") || contains(d, "red hat") || contains(d, "redhat") {
            owned("rhel9_64Guest")
        } else if contains(d, "ubuntu") {
            owned("ubuntu64Guest")
        } else if contains(d, "debian") {
            owned("debian11_64Guest")
        } else if contains(d, "fedora") || contains(d, "coreos") {
            owned("fedora64Guest")
        } else {
            owned(DEFAULT_LINUX_GUEST_ID)
        }
    } else if str_eq(family.as_str(), "windows") {
        owned("windows2019srv_64Guest")
    } else {
        owned(DEFAULT_GUEST_ID)
    }
}

// ---------------------------------------------------------------------
// The zone
// ---------------------------------------------------------------------

/// Where in vCenter one zone's template goes.
#[derive(Debug, Clone, PartialEq, Eq)]
pub struct ZonePlan {
    pub datacenter: String,
    pub cluster: String,
    pub datastore: String,
}

pub open spec fn fd_named(name: Seq<char>) -> spec_fn(FailureDomain) -> bool {
    |f: FailureDomain| f.name@ == name
}

pub open spec fn class_named(name: Seq<char>) -> spec_fn(ClassMapping) -> bool {
    |c: ClassMapping| c.name@ == name
}

pub open spec fn no_status_error() -> Seq<char> {
    "Provider has no status yet"@
}

pub open spec fn fd_not_found_error(fd: Seq<char>) -> Seq<char> {
    "failure domain "@ + debug_str(fd) + " not found in Provider.status.failureDomains[]"@
}

pub open spec fn no_datacenter_error(fd: Seq<char>) -> Seq<char> {
    "failure domain "@ + debug_str(fd) + " has no datacenter attribute"@
}

pub open spec fn no_cluster_error(fd: Seq<char>) -> Seq<char> {
    "failure domain "@ + debug_str(fd) + " has no cluster attribute"@
}

pub open spec fn no_storage_class_error(fd: Seq<char>) -> Seq<char> {
    "failure domain "@ + debug_str(fd)
        + " has no available storage class; pass --datastore to import into a specific datastore"@
}

pub open spec fn no_storage_target_error(class: Seq<char>) -> Seq<char> {
    "storage class "@ + debug_str(class) + " has no datastore/datastoreCluster target"@
}

pub open spec fn no_network_class_error(fd: Seq<char>) -> Seq<char> {
    "failure domain "@ + debug_str(fd)
        + " has no available network class; pass a NIC network to import onto a specific port group"@
}

pub open spec fn no_network_target_error(class: Seq<char>) -> Seq<char> {
    "network class "@ + debug_str(class) + " has no portGroup/distributedPortGroup target"@
}

/// The failure domain named `fd` of a Provider.
pub open spec fn find_zone(p: Provider, fd: Seq<char>) -> Result<FailureDomain, Seq<char>> {
    match p.status {
        None => Err(no_status_error()),
        Some(st) => match first_where(st.failure_domains@, fd_named(fd)) {
            None => Err(fd_not_found_error(fd)),
            Some(i) => Ok(st.failure_domains@[i]),
        },
    }
}

/// The datacenter and cluster a failure domain's attributes record.
pub open spec fn zone_location(f: FailureDomain, fd: Seq<char>) -> Result<
    (Seq<char>, Seq<char>),
    Seq<char>,
> {
    let raw = f.attributes.raw@;
    if !raw.contains_key(ATTR_DATACENTER@) {
        Err(no_datacenter_error(fd))
    } else if !raw.contains_key(ATTR_CLUSTER@) {
        Err(no_cluster_error(fd))
    } else {
        Ok((raw[ATTR_DATACENTER@]@, raw[ATTR_CLUSTER@]@))
    }
}

/// The value under `k1`, else under `k2`, of the target that class `class`
/// has in zone (`dc`, `cluster`).
pub open spec fn class_target(
    classes: Seq<ClassMapping>,
    class: Seq<char>,
    dc: Seq<char>,
    cluster: Seq<char>,
    k1: Seq<char>,
    k2: Seq<char>,
) -> Option<Seq<char>> {
    match first_where(classes, class_named(class)) {
        None => None,
        Some(i) => match target_for_spec(classes[i], dc, cluster) {
            None => None,
            Some(t) => if t@.contains_key(k1) {
                Some(t@[k1]@)
            } else if t@.contains_key(k2) {
                Some(t@[k2]@)
            } else {
                None
            },
        },
    }
}

/// The datastore of a zone's first available storage class.
pub open spec fn default_datastore(
    p: Provider,
    f: FailureDomain,
    fd: Seq<char>,
    dc: Seq<char>,
    cluster: Seq<char>,
) -> Result<Seq<char>, Seq<char>> {
    let avail = f.attributes.available_storage_classes@;
    if avail.len() == 0 {
        Err(no_storage_class_error(fd))
    } else {
        match class_target(
            p.spec.capabilities.storage_classes@,
            avail[0]@,
            dc,
            cluster,
            TARGET_DATASTORE@,
            TARGET_DATASTORE_CLUSTER@,
        ) {
            Some(t) => Ok(t),
            None => Err(no_storage_target_error(avail[0]@)),
        }
    }
}

/// Datacenter, cluster and datastore of a zone: the first two from the
/// failure domain's attributes, the datastore from the override when given,
/// else from the zone's first available storage class.
pub open spec fn resolve_zone_spec(p: Provider, fd: Seq<char>, datastore_override: Option<Seq<char>>) -> Result<
    (Seq<char>, Seq<char>, Seq<char>),
    Seq<char>,
> {
    match find_zone(p, fd) {
        Err(e) => Err(e),
        Ok(f) => match zone_location(f, fd) {
            Err(e) => Err(e),
            Ok(loc) => match datastore_override {
                Some(d) => Ok((loc.0, loc.1, d)),
                None => match default_datastore(p, f, fd, loc.0, loc.1) {
                    Err(e) => Err(e),
                    Ok(d) => Ok((loc.0, loc.1, d)),
                },
            },
        },
    }
}

fn message_with_name(before: &str, name: &str, after: &str) -> (r: String)
    ensures
        r@ == before@ + debug_str(name@) + after@,
{
    let mut m = owned(before);
    let q = quoted(name);
    m.append(q.as_str());
    m.append(after);
    m
}

/// The failure domain named `fd`.
fn find_zone_exec<'a>(provider: &'a Provider, fd: &str) -> (r: Result<&'a FailureDomain, String>)
    ensures
        match r {
            Ok(f) => find_zone(*provider, fd@) == Ok::<FailureDomain, Seq<char>>(*f),
            Err(m) => find_zone(*provider, fd@) == Err::<FailureDomain, Seq<char>>(m@),
        },
{
    let status = match &provider.status {
        Some(s) => s,
        None => return Err(owned("Provider has no status yet")),
    };
    let fds = &status.failure_domains;
    let mut i: usize = 0;
    while i < fds.len()
        invariant
            i <= fds.len(),
            provider.status matches Some(st) && st.failure_domains@ == fds@,
            forall|j: int| 0 <= j < i ==> !fd_named(fd@)(#[trigger] fds@[j]),
        decreases fds.len() - i,
    {
        if str_eq(fds[i].name.as_str(), fd) {
            proof {
                lemma_first_where(fds@, fd_named(fd@), i as int);
            }
            return Ok(&fds[i]);
        }
        i += 1;
    }
    proof {
        lemma_first_where_none(fds@, fd_named(fd@));
    }
    Err(message_with_name("failure domain ", fd, " not found in Provider.status.failureDomains[]"))
}

fn zone_location_exec(f: &FailureDomain, fd: &str) -> (r: Result<(String, String), String>)
    ensures
        match r {
            Ok(loc) => zone_location(*f, fd@) == Ok::<(Seq<char>, Seq<char>), Seq<char>>(
                (loc.0@, loc.1@),
            ),
            Err(m) => zone_location(*f, fd@) == Err::<(Seq<char>, Seq<char>), Seq<char>>(m@),
        },
{
    let dc = match f.attributes.raw.get(ATTR_DATACENTER) {
        Some(d) => d.clone(),
        None => return Err(message_with_name("failure domain ", fd, " has no datacenter attribute")),
    };
    let cluster = match f.attributes.raw.get(ATTR_CLUSTER) {
        Some(c) => c.clone(),
        None => return Err(message_with_name("failure domain ", fd, " has no cluster attribute")),
    };
    Ok((dc, cluster))
}

/// The value under `k1`, else `k2`, of the target that the class named
/// `class` has in zone (`dc`, `cluster`).
fn class_target_exec(
    classes: &Vec<ClassMapping>,
    class: &str,
    dc: &str,
    cluster: &str,
    k1: &str,
    k2: &str,
) -> (r: Option<String>)
    ensures
        match r {
            Some(t) => class_target(classes@, class@, dc@, cluster@, k1@, k2@) == Some(t@),
            None => class_target(classes@, class@, dc@, cluster@, k1@, k2@) is None,
        },
{
    let mut i: usize = 0;
    while i < classes.len()
        invariant
            i <= classes.len(),
            forall|j: int| 0 <= j < i ==> !class_named(class@)(#[trigger] classes@[j]),
        decreases classes.len() - i,
    {
        if str_eq(classes[i].name.as_str(), class) {
            proof {
                lemma_first_where(classes@, class_named(class@), i as int);
            }
            return match classes[i].target_for(dc, cluster) {
                None => None,
                Some(t) => match t.get(k1) {
                    Some(v) => Some(v.clone()),
                    None => match t.get(k2) {
                        Some(v) => Some(v.clone()),
                        None => None,
                    },
                },
            };
        }
        i += 1;
    }
    proof {
        lemma_first_where_none(classes@, class_named(class@));
    }
    None
}

/// The concrete placement of one zone's import: datacenter and cluster
/// from the failure domain, the datastore from `datastore_override` or the
/// zone's first available storage class.
pub fn resolve_zone(provider: &Provider, failure_domain: &str, datastore_override: Option<&str>) -> (r:
    Result<ZonePlan, String>)
    ensures
        match r {
            Ok(z) => resolve_zone_spec(
                *provider,
                failure_domain@,
                match datastore_override {
                    Some(d) => Some(d@),
                    None => None,
                },
            ) == Ok::<(Seq<char>, Seq<char>, Seq<char>), Seq<char>>(
                (z.datacenter@, z.cluster@, z.datastore@),
            ),
            Err(m) => resolve_zone_spec(
                *provider,
                failure_domain@,
                match datastore_override {
                    Some(d) => Some(d@),
                    None => None,
                },
            ) == Err::<(Seq<char>, Seq<char>, Seq<char>), Seq<char>>(m@),
        },
{
    let f = match find_zone_exec(provider, failure_domain) {
        Ok(f) => f,
        Err(m) => return Err(m),
    };
    let (datacenter, cluster) = match zone_location_exec(f, failure_domain) {
        Ok(loc) => loc,
        Err(m) => return Err(m),
    };
    let datastore = match datastore_override {
        Some(d) => owned(d),
        None => {
            let avail = &f.attributes.available_storage_classes;
            if avail.len() == 0 {
                return Err(
                    message_with_name(
                        "failure domain ",
                        failure_domain,
                        " has no available storage class; pass --datastore to import into a specific datastore",
                    ),
                );
            }
            match class_target_exec(
                &provider.spec.capabilities.storage_classes,
                avail[0].as_str(),
                datacenter.as_str(),
                cluster.as_str(),
                TARGET_DATASTORE,
                TARGET_DATASTORE_CLUSTER,
            ) {
                Some(t) => t,
                None => {
                    return Err(
                        message_with_name(
                            "storage class ",
                            avail[0].as_str(),
                            " has no datastore/datastoreCluster target",
                        ),
                    );
                },
            }
        },
    };
    Ok(ZonePlan { datacenter, cluster, datastore })
}

// ---------------------------------------------------------------------
// NIC networks
// ---------------------------------------------------------------------

/// One template NIC with every default applied.
#[derive(Debug, Clone, PartialEq, Eq)]
pub struct ResolvedNic {
    pub network: String,
    pub adapter: NicAdapter,
    pub pci_slot: i32,
}

/// The port group of a zone's first available network class.
pub open spec fn default_network(p: Provider, f: FailureDomain, fd: Seq<char>) -> Result<
    Seq<char>,
    Seq<char>,
> {
    match zone_location(f, fd) {
        Err(e) => Err(e),
        Ok(loc) => {
            let avail = f.attributes.available_network_classes@;
            if avail.len() == 0 {
                Err(no_network_class_error(fd))
            } else {
                match class_target(
                    p.spec.capabilities.network_classes@,
                    avail[0]@,
                    loc.0,
                    loc.1,
                    TARGET_PORT_GROUP@,
                    TARGET_DISTRIBUTED_PORT_GROUP@,
                ) {
                    Some(t) => Ok(t),
                    None => Err(no_network_target_error(avail[0]@)),
                }
            }
        },
    }
}

/// The NICs a template gets: the declared ones, or one default NIC when
/// none is declared.
pub open spec fn effective_nics(nics: Seq<NicModel>) -> Seq<NicModel> {
    if nics.len() == 0 {
        seq![NicModel { network: None, adapter: None, pci_slot: None }]
    } else {
        nics
    }
}

pub open spec fn nic_models(nics: Seq<VMImageTemplateNic>) -> Seq<NicModel> {
    nics.map_values(|n: VMImageTemplateNic| nic_model(n))
}

pub open spec fn needs_default_network(es: Seq<NicModel>) -> bool {
    exists|i: int| 0 <= i < es.len() && (#[trigger] es[i]).network is None
}

/// NIC `i` with defaults: the zone's default network, a vmxnet3 adapter,
/// PCI slot 192 + `i`.
pub open spec fn resolved_nic(n: NicModel, i: int, default_net: Seq<char>) -> (Seq<char>, NicAdapter, int) {
    (
        match n.network {
            Some(v) => v,
            None => default_net,
        },
        match n.adapter {
            Some(a) => a,
            None => NicAdapter::Vmxnet3,
        },
        match n.pci_slot {
            Some(p) => p as int,
            None => FIRST_NIC_PCI_SLOT + i,
        },
    )
}

pub open spec fn resolved_view(r: ResolvedNic) -> (Seq<char>, NicAdapter, int) {
    (r.network@, r.adapter, r.pci_slot as int)
}

/// The resolved NICs of a zone's template, or the error that prevents
/// them. The zone's default network is looked up only when some NIC
/// leaves its network unset.
pub open spec fn resolve_nics_spec(p: Provider, fd: Seq<char>, nics: Seq<NicModel>) -> Result<
    Seq<(Seq<char>, NicAdapter, int)>,
    Seq<char>,
> {
    match find_zone(p, fd) {
        Err(e) => Err(e),
        Ok(f) => {
            let es = effective_nics(nics);
            if needs_default_network(es) {
                match default_network(p, f, fd) {
                    Err(e) => Err(e),
                    Ok(dn) => Ok(Seq::new(es.len(), |i: int| resolved_nic(es[i], i, dn))),
                }
            } else {
                Ok(Seq::new(es.len(), |i: int| resolved_nic(es[i], i, Seq::empty())))
            }
        },
    }
}

fn copy_nic(n: &VMImageTemplateNic) -> (r: VMImageTemplateNic)
    ensures
        nic_model(r) == nic_model(*n),
{
    VMImageTemplateNic {
        network: match &n.network {
            Some(s) => Some(s.clone()),
            None => None,
        },
        adapter: n.adapter,
        pci_slot: n.pci_slot,
    }
}

/// Resolve every template NIC of zone `failure_domain` to a port group,
/// adapter and PCI slot. No NIC declared means one NIC with every default.
pub fn resolve_nic_networks(
    provider: &Provider,
    failure_domain: &str,
    nics: &[VMImageTemplateNic],
) -> (r: Result<Vec<ResolvedNic>, String>)
    requires
        nics.len() <= 2147483456,
    ensures
        match r {
            Ok(v) => resolve_nics_spec(*provider, failure_domain@, nic_models(nics@)) == Ok::<
                Seq<(Seq<char>, NicAdapter, int)>,
                Seq<char>,
            >(v@.map_values(|x: ResolvedNic| resolved_view(x))),
            Err(m) => resolve_nics_spec(*provider, failure_domain@, nic_models(nics@)) == Err::<
                Seq<(Seq<char>, NicAdapter, int)>,
                Seq<char>,
            >(m@),
        },
{
    let f = match find_zone_exec(provider, failure_domain) {
        Ok(f) => f,
        Err(m) => return Err(m),
    };
    let mut es: Vec<VMImageTemplateNic> = Vec::new();
    if nics.len() == 0 {
        es.push(VMImageTemplateNic::unset());
    } else {
        let mut k: usize = 0;
        while k < nics.len()
            invariant
                k <= nics.len(),
                es.len() == k,
                forall|j: int| 0 <= j < k ==> nic_model(#[trigger] es@[j]) == nic_model(nics@[j]),
            decreases nics.len() - k,
        {
            es.push(copy_nic(&nics[k]));
            k += 1;
        }
    }
    let ghost em = effective_nics(nic_models(nics@));
    proof {
        assert(nic_models(es@) =~= em);
    }
    // Is a default network needed?
    let mut needs = false;
    let mut k: usize = 0;
    while k < es.len()
        invariant
            k <= es.len(),
            nic_models(es@) == em,
            needs == exists|j: int| 0 <= j < k && (#[trigger] em[j]).network is None,
        decreases es.len() - k,
    {
        if es[k].network.is_none() {
            assert(em[k as int].network is None);
            needs = true;
        }
        k += 1;
    }
    let mut default_net = String::new();
    if needs {
        let (dc, cluster) = match zone_location_exec(f, failure_domain) {
            Ok(loc) => loc,
            Err(m) => return Err(m),
        };
        let avail = &f.attributes.available_network_classes;
        if avail.len() == 0 {
            return Err(
                message_with_name(
                    "failure domain ",
                    failure_domain,
                    " has no available network class; pass a NIC network to import onto a specific port group",
                ),
            );
        }
        default_net = match class_target_exec(
            &provider.spec.capabilities.network_classes,
            avail[0].as_str(),
            dc.as_str(),
            cluster.as_str(),
            TARGET_PORT_GROUP,
            TARGET_DISTRIBUTED_PORT_GROUP,
        ) {
            Some(t) => t,
            None => {
                return Err(
                    message_with_name(
                        "network class ",
                        avail[0].as_str(),
                        " has no portGroup/distributedPortGroup target",
                    ),
                );
            },
        };
    }
    let ghost dn = if needs {
        default_net@
    } else {
        Seq::<char>::empty()
    };
    let mut out: Vec<ResolvedNic> = Vec::new();
    let mut i: usize = 0;
    while i < es.len()
        invariant
            i <= es.len() <= 2147483456,
            nic_models(es@) == em,
            out.len() == i,
            needs ==> default_net@ == dn,
            !needs ==> forall|j: int| 0 <= j < es.len() ==> (#[trigger] em[j]).network is Some,
            forall|j: int|
                0 <= j < i ==> resolved_view(#[trigger] out@[j]) == resolved_nic(em[j], j, dn),
        decreases es.len() - i,
    {
        let n = &es[i];
        let network = match &n.network {
            Some(s) => s.clone(),
            None => {
                assert(em[i as int].network is None);
                default_net.clone()
            },
        };
        let adapter = match n.adapter {
            Some(a) => a,
            None => NicAdapter::Vmxnet3,
        };
        let pci_slot = match n.pci_slot {
            Some(p) => p,
            None => FIRST_NIC_PCI_SLOT + (i as i32),
        };
        out.push(ResolvedNic { network, adapter, pci_slot });
        i += 1;
    }
    proof {
        assert(out@.map_values(|x: ResolvedNic| resolved_view(x)) =~= Seq::new(
            em.len(),
            |j: int| resolved_nic(em[j], j, dn),
        ));
    }
    Ok(out)
}

// ---------------------------------------------------------------------
// Datastores
// ---------------------------------------------------------------------

/// The datastores a target name stands for: the datastore of that name,
/// else every member of the datastore cluster of that name.
pub open spec fn candidates_spec(ds: Seq<Datastore>, target: Seq<char>) -> Seq<Datastore> {
    match first_where(ds, datastore_named(target)) {
        Some(i) => seq![ds[i]],
        None => ds.filter(cluster_member(target)),
    }
}

pub open spec fn datastore_named(name: Seq<char>) -> spec_fn(Datastore) -> bool {
    |d: Datastore| d.name@ == name
}

pub open spec fn cluster_member(cluster: Seq<char>) -> spec_fn(Datastore) -> bool {
    |d: Datastore| in_datastore_cluster(d, cluster)
}

/// Every candidate for a target is a reachable datastore.
pub proof fn lemma_candidate_is_reachable(ds: Seq<Datastore>, target: Seq<char>, j: int)
    requires
        0 <= j < candidates_spec(ds, target).len(),
    ensures
        ds.contains(candidates_spec(ds, target)[j]),
{
    let c = candidates_spec(ds, target);
    let x = c[j];
    match first_where(ds, datastore_named(target)) {
        Some(i) => {
            lemma_first_where_found(ds, datastore_named(target));
            assert(x == ds[i]);
        },
        None => {
            assert(c.contains(x));
            ds.lemma_filter_contains_rev(cluster_member(target), x);
        },
    }
}

pub open spec fn unknown_datastore_error(ds: Seq<Datastore>, target: Seq<char>) -> Seq<char> {
    "datastore "@ + debug_str(target)
        + " is neither a datastore nor a datastore-cluster reachable from the zone's cluster; reachable datastores: ["@
        + join(ds.map_values(|d: Datastore| d.name@), ", "@) + "]"@
}

/// Candidate datastores for `target` (a datastore or a datastore-cluster
/// name).
pub fn candidate_datastores(datastores: &[Datastore], target: &str) -> (r: Result<Vec<Datastore>, String>)
    ensures
        match r {
            Ok(v) => candidates_spec(datastores@, target@).len() > 0 && v@ == candidates_spec(
                datastores@,
                target@,
            ),
            Err(m) => candidates_spec(datastores@, target@).len() == 0 && m@
                == unknown_datastore_error(datastores@, target@),
        },
{
    let ghost named = datastore_named(target@);
    let ghost member = cluster_member(target@);
    let mut i: usize = 0;
    while i < datastores.len()
        invariant
            i <= datastores.len(),
            named == datastore_named(target@),
            forall|j: int| 0 <= j < i ==> !named(#[trigger] datastores@[j]),
        decreases datastores.len() - i,
    {
        if str_eq(datastores[i].name.as_str(), target) {
            proof {
                lemma_first_where(datastores@, named, i as int);
            }
            let mut v: Vec<Datastore> = Vec::new();
            v.push(datastores[i].duplicate());
            proof {
                assert(v@ =~= seq![datastores@[i as int]]);
            }
            return Ok(v);
        }
        i += 1;
    }
    proof {
        lemma_first_where_none(datastores@, named);
    }
    let mut members: Vec<Datastore> = Vec::new();
    let mut names: Vec<String> = Vec::new();
    let mut k: usize = 0;
    proof {
        assert(datastores@.take(0) =~= Seq::<Datastore>::empty());
    }
    while k < datastores.len()
        invariant
            k <= datastores.len(),
            member == cluster_member(target@),
            members@ == datastores@.take(k as int).filter(member),
            strings_view(names@) == datastores@.take(k as int).map_values(|d: Datastore| d.name@),
        decreases datastores.len() - k,
    {
        proof {
            assert(datastores@.take(k as int + 1).drop_last() =~= datastores@.take(k as int));
            assert(datastores@.take(k as int + 1).last() == datastores@[k as int]);
        }
        let hit = match &datastores[k].datastore_cluster {
            Some(c) => str_eq(c.as_str(), target),
            None => false,
        };
        let ghost before_members = members@;
        if hit {
            members.push(datastores[k].duplicate());
        }
        proof {
            reveal(Seq::filter);
            assert(datastores@.take(k as int + 1).filter(member) =~= if member(datastores@[k as int]) {
                datastores@.take(k as int).filter(member).push(datastores@[k as int])
            } else {
                datastores@.take(k as int).filter(member)
            });
        }
        let ghost before = names@;
        names.push(datastores[k].name.clone());
        proof {
            assert(strings_view(names@) =~= strings_view(before).push(datastores@[k as int].name@));
            assert(datastores@.take(k as int + 1).map_values(|d: Datastore| d.name@) =~= datastores@.take(
                k as int,
            ).map_values(|d: Datastore| d.name@).push(datastores@[k as int].name@));
        }
        k += 1;
    }
    proof {
        assert(datastores@.take(datastores.len() as int) =~= datastores@);
    }
    if members.len() == 0 {
        let mut m = message_with_name(
            "datastore ",
            target,
            " is neither a datastore nor a datastore-cluster reachable from the zone's cluster; reachable datastores: [",
        );
        let joined = join_strings(&names, ", ");
        m.append(joined.as_str());
        m.append("]");
        return Err(m);
    }
    Ok(members)
}

/// The free space a datastore reports, the least value when unknown.
pub open spec fn free_key(d: Datastore) -> int {
    match d.free_space_bytes {
        Some(f) => f as int,
        None => i64::MIN as int,
    }
}

/// `a` is a better fresh placement than `b`: more free space, or as much
/// and a smaller name.
pub open spec fn roomier(a: Datastore, b: Datastore) -> bool {
    free_key(a) > free_key(b) || (free_key(a) == free_key(b) && text_lt(a.name@, b.name@))
}

/// Entry `i` is the one picked for a fresh placement: no entry is roomier,
/// and it is roomier than every later entry (of equally good entries the
/// last is picked).
pub open spec fn is_emptiest(s: Seq<Datastore>, i: int) -> bool {
    &&& 0 <= i < s.len()
    &&& forall|j: int| 0 <= j < s.len() ==> !roomier(#[trigger] s[j], s[i])
    &&& forall|j: int| i < j < s.len() ==> roomier(s[i], #[trigger] s[j])
}

pub open spec fn emptiest_index(s: Seq<Datastore>) -> int {
    choose|i: int| is_emptiest(s, i)
}

proof fn lemma_roomier_asymmetric(a: Datastore, b: Datastore)
    requires
        roomier(a, b),
    ensures
        !roomier(b, a),
{
    if free_key(a) == free_key(b) && text_lt(a.name@, b.name@) && text_lt(b.name@, a.name@) {
        lemma_text_lt_transitive(a.name@, b.name@, a.name@);
        lemma_text_lt_irreflexive(a.name@);
    }
}

proof fn lemma_not_roomier_transitive(a: Datastore, b: Datastore, c: Datastore)
    requires
        !roomier(a, b),
        !roomier(b, c),
    ensures
        !roomier(a, c),
{
    if roomier(a, c) {
        // a > c, a <= b, b <= c
        if free_key(a) == free_key(c) {
            assert(text_lt(a.name@, c.name@));
            assert(free_key(a) == free_key(b) && free_key(b) == free_key(c));
            lemma_text_lt_total(a.name@, b.name@);
            lemma_text_lt_total(b.name@, c.name@);
            if text_lt(b.name@, a.name@) {
                lemma_text_lt_transitive(b.name@, a.name@, c.name@);
                if text_lt(c.name@, b.name@) {
                    lemma_text_lt_transitive(b.name@, c.name@, b.name@);
                    lemma_text_lt_irreflexive(b.name@);
                }
            }
        }
    }
}

proof fn lemma_emptiest_unique(s: Seq<Datastore>, i: int)
    requires
        is_emptiest(s, i),
    ensures
        emptiest_index(s) == i,
{
    let k = emptiest_index(s);
    assert(is_emptiest(s, k));
    if k < i {
        assert(roomier(s[k], s[i]));
    } else if i < k {
        assert(roomier(s[i], s[k]));
    }
}

fn roomier_exec(a: &Datastore, b: &Datastore) -> (r: bool)
    ensures
        r == roomier(*a, *b),
{
    let fa: i64 = match a.free_space_bytes {
        Some(f) => f,
        None => i64::MIN,
    };
    let fb: i64 = match b.free_space_bytes {
        Some(f) => f,
        None => i64::MIN,
    };
    fa > fb || (fa == fb && text_less(a.name.as_str(), b.name.as_str()))
}

/// The datastore to place a fresh upload on: the most free space, ties
/// (and unknown free space) going to the smallest name.
pub fn pick_emptiest(candidates: &[Datastore]) -> (r: &Datastore)
    requires
        candidates.len() > 0,
    ensures
        *r == candidates@[emptiest_index(candidates@)],
        is_emptiest(candidates@, emptiest_index(candidates@)),
{
    let i = pick_emptiest_index(candidates);
    &candidates[i]
}

/// The index of [`pick_emptiest`]'s choice.
pub fn pick_emptiest_index(candidates: &[Datastore]) -> (r: usize)
    requires
        candidates.len() > 0,
    ensures
        r == emptiest_index(candidates@),
        r < candidates.len(),
        is_emptiest(candidates@, emptiest_index(candidates@)),
{
    let ghost s = candidates@;
    let mut best: usize = 0;
    let mut j: usize = 1;
    proof {
        lemma_text_lt_irreflexive(s[0].name@);
    }
    while j < candidates.len()
        invariant
            1 <= j <= candidates.len(),
            s == candidates@,
            best < j,
            forall|k: int| 0 <= k < j ==> !roomier(#[trigger] s[k], s[best as int]),
            forall|k: int| best < k < j ==> roomier(s[best as int], #[trigger] s[k]),
        decreases candidates.len() - j,
    {
        if !roomier_exec(&candidates[best], &candidates[j]) {
            proof {
                assert forall|k: int| 0 <= k < j + 1 implies !roomier(#[trigger] s[k], s[j as int]) by {
                    if k < j {
                        lemma_not_roomier_transitive(s[k], s[best as int], s[j as int]);
                    } else {
                        lemma_text_lt_irreflexive(s[k].name@);
                    }
                }
            }
            best = j;
        } else {
            proof {
                lemma_roomier_asymmetric(s[best as int], s[j as int]);
            }
        }
        j += 1;
    }
    proof {
        lemma_emptiest_unique(s, best as int);
    }
    best
}

/// What the HEAD probe of a candidate's ISO path gave.
#[derive(Debug, Clone, Copy, PartialEq, Eq)]
pub enum ProbeResult {
    /// The probe answered with this status code.
    Answered(u16),
    /// The probe could not be sent or got no answer.
    NoAnswer,
}

/// The next move while placing an ISO among candidate datastores.
#[derive(Debug, Clone, Copy, PartialEq, Eq)]
pub enum Placement {
    /// Probe the candidate at this index for the ISO.
    Probe(usize),
    /// Use the candidate at this index.
    Use(usize),
}

/// One step of choosing the datastore an ISO goes to. `probed` candidates
/// have been probed, in order, and `last` is what the last probe gave. A
/// forced upload takes the emptiest candidate at once. Otherwise the first
/// candidate whose probe answers 2xx (the ISO is already there) is reused;
/// candidates are probed in order, and an inconclusive probe counts as
/// absent; when none holds it, the emptiest candidate is taken.
pub fn placement_step(
    candidates: &[Datastore],
    force_upload: bool,
    probed: usize,
    last: Option<ProbeResult>,
) -> (r: Placement)
    requires
        candidates.len() > 0,
        probed <= candidates.len(),
        last is Some ==> probed > 0,
    ensures
        r == (if force_upload {
            Placement::Use(emptiest_index(candidates@) as usize)
        } else if last matches Some(ProbeResult::Answered(code)) && is_success_status(code) {
            Placement::Use((probed - 1) as usize)
        } else if probed < candidates.len() {
            Placement::Probe(probed)
        } else {
            Placement::Use(emptiest_index(candidates@) as usize)
        }),
        r matches Placement::Use(i) ==> i < candidates.len(),
        r matches Placement::Probe(i) ==> i < candidates.len(),
{
    let emptiest = pick_emptiest_index(candidates);
    if force_upload {
        return Placement::Use(emptiest);
    }
    match last {
        Some(ProbeResult::Answered(code)) => {
            if 200 <= code && code <= 299 {
                return Placement::Use(probed - 1);
            }
        },
        _ => {},
    }
    if probed < candidates.len() {
        Placement::Probe(probed)
    } else {
        Placement::Use(emptiest)
    }
}

/// The concrete datastore for `target`: the datastore of that name, else
/// the emptiest member of the datastore cluster of that name.
pub fn resolve_concrete_datastore(datastores: &[Datastore], target: &str) -> (r: Result<String, String>)
    ensures
        match r {
            Ok(n) => candidates_spec(datastores@, target@).len() > 0 && n@ == candidates_spec(
                datastores@,
                target@,
            )[emptiest_index(candidates_spec(datastores@, target@))].name@ && is_emptiest(
                candidates_spec(datastores@, target@),
                emptiest_index(candidates_spec(datastores@, target@)),
            ),
            Err(m) => candidates_spec(datastores@, target@).len() == 0 && m@
                == unknown_datastore_error(datastores@, target@),
        },
{
    let candidates = match candidate_datastores(datastores, target) {
        Ok(c) => c,
        Err(m) => return Err(m),
    };
    let best = pick_emptiest(candidates.as_slice());
    Ok(best.name.clone())
}

// ---------------------------------------------------------------------
// Upload progress
// ---------------------------------------------------------------------

/// Decile `d` (a percentage) is crossed when the bytes sent go from
/// `before` to `before + chunk` out of `total`.
pub open spec fn crossed(before: int, chunk: int, total: int, d: int) -> bool {
    100 * before < d * total && d * total <= 100 * (before + chunk)
}

pub open spec fn milestones_upto(before: int, chunk: int, total: int, k: int) -> Seq<u8>
    decreases k,
{
    if k <= 0 {
        Seq::empty()
    } else {
        let rest = milestones_upto(before, chunk, total, k - 1);
        if crossed(before, chunk, total, 10 * k) {
            rest.push((10 * k) as u8)
        } else {
            rest
        }
    }
}

/// The progress percentages (10, 20, ..., 100) a chunk of the upload
/// crosses; none when the total size is unknown (zero). Sending past the
/// total reports no more than 100.
pub open spec fn milestones(before: int, chunk: int, total: int) -> Seq<u8> {
    if total == 0 {
        Seq::empty()
    } else {
        milestones_upto(before, chunk, total, 10)
    }
}

proof fn lemma_no_milestones_below(before: int, chunk: int, total: int, k: int)
    requires
        total >= 0,
        k >= 0,
        10 * k * total <= 100 * before,
    ensures
        milestones_upto(before, chunk, total, k) == Seq::<u8>::empty(),
    decreases k,
{
    if k > 0 {
        assert(10 * (k - 1) * total <= 10 * k * total) by (nonlinear_arith)
            requires
                total >= 0,
                k >= 1,
        ;
        lemma_no_milestones_below(before, chunk, total, k - 1);
    }
}

proof fn lemma_milestones_upto_split(before: int, c1: int, c2: int, total: int, k: int)
    requires
        total >= 0,
        c1 >= 0,
        c2 >= 0,
        k >= 0,
    ensures
        milestones_upto(before, c1 + c2, total, k) == milestones_upto(before, c1, total, k)
            + milestones_upto(before + c1, c2, total, k),
    decreases k,
{
    if k > 0 {
        lemma_milestones_upto_split(before, c1, c2, total, k - 1);
        let d = 10 * k;
        let u1 = milestones_upto(before, c1, total, k - 1);
        let u2 = milestones_upto(before + c1, c2, total, k - 1);
        if crossed(before, c1, total, d) {
            assert(10 * (k - 1) * total <= 10 * k * total) by (nonlinear_arith)
                requires
                    total >= 0,
                    k >= 1,
            ;
            lemma_no_milestones_below(before + c1, c2, total, k - 1);
            assert(u2 == Seq::<u8>::empty());
            assert((u1 + u2).push(d as u8) =~= u1.push(d as u8) + u2);
        } else if crossed(before + c1, c2, total, d) {
            assert((u1 + u2).push(d as u8) =~= u1 + u2.push(d as u8));
        }
    }
}

/// Sending one chunk and then another crosses exactly the milestones that
/// sending both at once does, in the same order: each milestone is reported
/// once over an upload.
pub proof fn lemma_milestones_split(before: int, c1: int, c2: int, total: int)
    requires
        total >= 0,
        c1 >= 0,
        c2 >= 0,
    ensures
        milestones(before, c1 + c2, total) == milestones(before, c1, total) + milestones(
            before + c1,
            c2,
            total,
        ),
{
    if total == 0 {
        assert(Seq::<u8>::empty() + Seq::<u8>::empty() =~= Seq::<u8>::empty());
    } else {
        lemma_milestones_upto_split(before, c1, c2, total, 10);
    }
}

pub fn upload_progress_milestones(sent_before: u64, chunk_len: u64, total: u64) -> (r: Vec<u8>)
    ensures
        r@ == milestones(sent_before as int, chunk_len as int, total as int),
{
    let mut out: Vec<u8> = Vec::new();
    if total == 0 {
        return out;
    }
    let b: u128 = sent_before as u128;
    let c: u128 = chunk_len as u128;
    let t: u128 = total as u128;
    let mut k: u128 = 1;
    while k <= 10
        invariant
            1 <= k <= 11,
            b == sent_before,
            c == chunk_len,
            t == total,
            out@ == milestones_upto(b as int, c as int, t as int, k - 1),
        decreases 11 - k,
    {
        let d: u128 = 10 * k;
        assert(d * t <= 100 * 18446744073709551615u128) by (nonlinear_arith)
            requires
                d <= 100,
                t <= 18446744073709551615u128,
        ;
        let lhs: u128 = 100 * b;
        let dt: u128 = d * t;
        let rhs: u128 = 100 * (b + c);
        if lhs < dt && dt <= rhs {
            out.push(d as u8);
        }
        k += 1;
    }
    out
}

// ---------------------------------------------------------------------
// Folders and paths
// ---------------------------------------------------------------------

/// `s` without trailing `/` characters.
pub open spec fn trim_end_slashes(s: Seq<char>) -> Seq<char>
    decreases s.len(),
{
    if s.len() > 0 && s.last() == '/' {
        trim_end_slashes(s.drop_last())
    } else {
        s
    }
}

/// The vCenter folder a zone's template goes in: the zone's own folder
/// nested under the configured root (its trailing slashes dropped), or just
/// the zone when no root, or an empty one, is configured.
pub open spec fn effective_folder_spec(root: Option<Seq<char>>, zone: Seq<char>) -> Seq<char> {
    match root {
        Some(r) => if trim_end_slashes(r).len() == 0 {
            zone
        } else {
            trim_end_slashes(r) + "/"@ + zone
        },
        None => zone,
    }
}

/// Zones under the same root never share a folder: distinct zones get
/// distinct folders.
pub proof fn lemma_effective_folder_distinct(root: Option<Seq<char>>, z1: Seq<char>, z2: Seq<char>)
    requires
        z1 != z2,
    ensures
        effective_folder_spec(root, z1) != effective_folder_spec(root, z2),
{
    let p: Seq<char> = match root {
        Some(r) => if trim_end_slashes(r).len() == 0 {
            Seq::empty()
        } else {
            trim_end_slashes(r) + "/"@
        },
        None => Seq::empty(),
    };
    assert(effective_folder_spec(root, z1) =~= p + z1);
    assert(effective_folder_spec(root, z2) =~= p + z2);
    if p + z1 == p + z2 {
        assert((p + z1).skip(p.len() as int) =~= z1);
        assert((p + z2).skip(p.len() as int) =~= z2);
    }
}

pub fn effective_folder(root: Option<&str>, zone: &str) -> (r: String)
    ensures
        r@ == effective_folder_spec(
            match root {
                Some(x) => Some(x@),
                None => None,
            },
            zone@,
        ),
{
    match root {
        None => owned(zone),
        Some(x) => {
            let v = chars_of(x);
            let mut end: usize = v.len();
            proof {
                assert(v@.subrange(0, end as int) =~= v@);
            }
            while end > 0 && v[end - 1] == '/'
                invariant
                    end <= v.len(),
                    v@ == x@,
                    trim_end_slashes(v@.subrange(0, end as int)) == trim_end_slashes(x@),
                decreases end,
            {
                proof {
                    assert(v@.subrange(0, end as int).drop_last() =~= v@.subrange(0, end - 1));
                }
                end -= 1;
            }
            proof {
                let t = v@.subrange(0, end as int);
                assert(end == 0 || t.last() != '/');
                if end == 0 {
                    assert(t =~= Seq::<char>::empty());
                }
            }
            if end == 0 {
                return owned(zone);
            }
            let mut r = substring_of(&v, 0, end);
            r.append("/");
            r.append(zone);
            r
        },
    }
}

/// Where the ISO of `vmimage` goes on a datastore.
pub open spec fn iso_remote_path(vmimage: Seq<char>) -> Seq<char> {
    DATASTORE_UPLOAD_DIR@ + "/"@ + vmimage + ".iso"@
}

pub fn iso_remote_path_of(vmimage: &str) -> (r: String)
    ensures
        r@ == iso_remote_path(vmimage@),
{
    let mut r = owned(DATASTORE_UPLOAD_DIR);
    r.append("/");
    r.append(vmimage);
    r.append(".iso");
    r
}

/// The `[datastore] path` form vCenter names a datastore file by.
pub fn datastore_path(datastore: &str, remote_path: &str) -> (r: String)
    ensures
        r@ == "["@ + datastore@ + "] "@ + remote_path@,
{
    let mut r = owned("[");
    r.append(datastore);
    r.append("] ");
    r.append(remote_path);
    r
}

// ---------------------------------------------------------------------
// Checksum gate
// ---------------------------------------------------------------------

/// The digest algorithms a checksum may name.
#[derive(Debug, Clone, Copy, PartialEq, Eq, Structural)]
pub enum ChecksumAlgorithm {
    Sha256,
    Sha512,
}

/// `<alg>:<hex>` split at the first `:`.
pub open spec fn checksum_parts(expected: Seq<char>) -> Result<(Seq<char>, Seq<char>), Seq<char>> {
    if !expected.contains(':') {
        Err("--checksum expected `<alg>:<hex>`, got "@ + debug_str(expected))
    } else {
        let q = crate::text::first_index(expected, ':');
        Ok((expected.subrange(0, q), expected.subrange(q + 1, expected.len() as int)))
    }
}

/// Split an expected checksum into algorithm and hex digest.
pub fn split_checksum(expected: &str) -> (r: Result<(String, String), String>)
    ensures
        match r {
            Ok(p) => checksum_parts(expected@) == Ok::<(Seq<char>, Seq<char>), Seq<char>>(
                (p.0@, p.1@),
            ),
            Err(m) => checksum_parts(expected@) == Err::<(Seq<char>, Seq<char>), Seq<char>>(m@),
        },
{
    let v = chars_of(expected);
    match crate::text::find_first(&v, ':') {
        Some(q) => {
            proof {
                crate::text::lemma_first_index(v@, ':', q as int);
            }
            assert(q < v.len());
            Ok((substring_of(&v, 0, q), substring_of(&v, q + 1, v.len())))
        },
        None => {
            let mut m = owned("--checksum expected `<alg>:<hex>`, got ");
            let d = quoted(expected);
            m.append(d.as_str());
            Err(m)
        },
    }
}

pub open spec fn algorithm_of(alg: Seq<char>) -> Result<ChecksumAlgorithm, Seq<char>> {
    if alg == "sha256"@ {
        Ok(ChecksumAlgorithm::Sha256)
    } else if alg == "sha512"@ {
        Ok(ChecksumAlgorithm::Sha512)
    } else {
        Err(
            "unsupported checksum algorithm "@ + debug_str(alg)
                + " (supported: sha256, sha512); refusing to import an unverified artifact"@,
        )
    }
}

/// The algorithm a checksum names; an unsupported one fails closed.
pub fn checksum_algorithm(alg: &str) -> (r: Result<ChecksumAlgorithm, String>)
    ensures
        match r {
            Ok(a) => algorithm_of(alg@) == Ok::<ChecksumAlgorithm, Seq<char>>(a),
            Err(m) => algorithm_of(alg@) == Err::<ChecksumAlgorithm, Seq<char>>(m@),
        },
{
    if str_eq(alg, "sha256") {
        Ok(ChecksumAlgorithm::Sha256)
    } else if str_eq(alg, "sha512") {
        Ok(ChecksumAlgorithm::Sha512)
    } else {
        Err(
            message_with_name(
                "unsupported checksum algorithm ",
                alg,
                " (supported: sha256, sha512); refusing to import an unverified artifact",
            ),
        )
    }
}

pub open spec fn checksum_mismatch_error(
    path: Seq<char>,
    expected: Seq<char>,
    alg: Seq<char>,
    actual_hex: Seq<char>,
) -> Seq<char> {
    "checksum mismatch for "@ + path + ": expected "@ + expected + ", computed "@ + alg + ":"@
        + actual_hex + "; refusing to import a corrupted or substituted artifact"@
}

/// Accept the artifact at `path` only when the computed digest equals the
/// expected one, letter case aside.
pub fn checksum_verdict(
    path: &str,
    expected: &str,
    alg: &str,
    expected_hex: &str,
    actual_hex: &str,
) -> (r: Result<(), String>)
    ensures
        r is Ok <==> lower_seq(actual_hex@) == lower_seq(expected_hex@),
        r matches Err(m) ==> m@ == checksum_mismatch_error(path@, expected@, alg@, actual_hex@),
{
    if eq_ignore_case(actual_hex, expected_hex) {
        return Ok(());
    }
    let mut m = owned("checksum mismatch for ");
    m.append(path);
    m.append(": expected ");
    m.append(expected);
    m.append(", computed ");
    m.append(alg);
    m.append(":");
    m.append(actual_hex);
    m.append("; refusing to import a corrupted or substituted artifact");
    Err(m)
}

/// A zero-length source ISO means the build produced nothing.
pub fn check_source_length(path: &str, len: u64) -> (r: Result<u64, String>)
    ensures
        r is Ok <==> len > 0,
        r matches Ok(n) ==> n == len,
        r matches Err(m) ==> m@ == path@ + " is empty; the build produced no ISO"@,
{
    if len == 0 {
        let mut m = owned(path);
        m.append(" is empty; the build produced no ISO");
        return Err(m);
    }
    Ok(len)
}


// ---------------------------------------------------------------------
// ISO upload over the datastore file API
// ---------------------------------------------------------------------

/// What `Url::parse_with_params` of the `url` crate (re-exported by
/// reqwest) gives for `base` with the query `dcPath=<dc_path>&dsName=<ds_name>`,
/// as text; `None` when `base` does not parse as a URL.
pub uninterp spec fn url_with_query(base: Seq<char>, dc_path: Seq<char>, ds_name: Seq<char>) -> Option<Seq<char>>;

/// Calls `reqwest::Url::parse_with_params(base, [("dcPath", dc_path),
/// ("dsName", ds_name)])` and renders the URL with `to_string`. Claimed: the
/// text is the named result of those three arguments, and `None` exactly when
/// the name says the base does not parse. The percent-encoding itself is not
/// stated.
#[verifier::external_body]
fn parse_with_params(base: &str, dc_path: &str, ds_name: &str) -> (r: Option<String>)
    ensures
        r matches Some(u) ==> url_with_query(base@, dc_path@, ds_name@) == Some(u@),
        r is None ==> url_with_query(base@, dc_path@, ds_name@) is None,
{
    match reqwest::Url::parse_with_params(base, &[("dcPath", dc_path), ("dsName", ds_name)]) {
        Ok(u) => Some(u.to_string()),
        Err(_) => None,
    }
}

/// `https://<host>/folder/<remote_path>`, before the query.
pub open spec fn datastore_base_url(host: Seq<char>, remote_path: Seq<char>) -> Seq<char> {
    "https://"@ + host + "/folder/"@ + remote_path
}

/// The datastore-file URL of `remote_path`:
/// `https://<host>/folder/<path>?dcPath=<datacenter>&dsName=<datastore>`,
/// the query percent-encoded by the URL parser.
pub fn datastore_file_url(host: &str, remote_path: &str, datacenter: &str, datastore: &str) -> (r:
    Result<String, String>)
    ensures
        match url_with_query(datastore_base_url(host@, remote_path@), datacenter@, datastore@) {
            Some(u) => r matches Ok(s) && s@ == u,
            None => r matches Err(m) && m@ == "building datastore URL from "@ + datastore_base_url(
                host@,
                remote_path@,
            ),
        },
{
    let mut base = owned("https://");
    base.append(host);
    base.append("/folder/");
    base.append(remote_path);
    match parse_with_params(base.as_str(), datacenter, datastore) {
        Some(u) => Ok(u),
        None => {
            let mut m = owned("building datastore URL from ");
            m.append(base.as_str());
            Err(m)
        },
    }
}

/// What came back from the last request of an ISO upload.
#[derive(Debug, Clone, PartialEq, Eq)]
pub enum UploadEvent {
    /// Nothing has been sent yet.
    Started,
    /// The DELETE of an existing file answered: status code and its text.
    DeleteAnswered(u16, String),
    /// The DELETE could not be sent or got no answer.
    DeleteFailed,
    /// The HEAD probe answered with this status code.
    ProbeAnswered(u16),
    /// The HEAD probe could not be sent or got no answer.
    ProbeFailed,
    /// The PUT answered: status code, its text, and the response body.
    PutAnswered(u16, String, String),
    /// The PUT could not be sent or got no answer.
    PutFailed,
}

/// What an ISO upload does next.
#[derive(Debug, Clone, PartialEq, Eq)]
pub enum UploadStep {
    /// DELETE the file at the URL (the file API does not overwrite in place).
    DeleteExisting,
    /// HEAD the URL to see whether the ISO is already there.
    ProbeExisting,
    /// PUT the ISO.
    Put,
    /// The ISO already on the datastore is kept; nothing is uploaded.
    Reused,
    /// The ISO was uploaded.
    Uploaded,
    /// The upload failed with this message.
    Failed(String),
}

pub open spec fn is_success_status(code: u16) -> bool {
    200 <= code <= 299
}

/// The next step of an ISO upload after `event`. A forced upload first
/// deletes any existing file (a 2xx or a 404 answer lets it go on); an
/// unforced one first probes for it and keeps it when the probe answers 2xx,
/// and uploads when the probe answers otherwise or not at all. The PUT
/// succeeds on a 2xx answer.
pub fn upload_step(force_upload: bool, url: &str, event: &UploadEvent) -> (r: UploadStep)
    ensures
        match *event {
            UploadEvent::Started => r == (if force_upload {
                UploadStep::DeleteExisting
            } else {
                UploadStep::ProbeExisting
            }),
            UploadEvent::DeleteAnswered(code, text) => if is_success_status(code) || code == 404 {
                r == UploadStep::Put
            } else {
                r matches UploadStep::Failed(m) && m@ == "deleting existing ISO at "@ + url@
                    + " returned "@ + text@
            },
            UploadEvent::DeleteFailed => r matches UploadStep::Failed(m) && m@
                == "deleting existing ISO before re-upload"@,
            UploadEvent::ProbeAnswered(code) => r == (if is_success_status(code) {
                UploadStep::Reused
            } else {
                UploadStep::Put
            }),
            UploadEvent::ProbeFailed => r == UploadStep::Put,
            UploadEvent::PutAnswered(code, text, body) => if is_success_status(code) {
                r == UploadStep::Uploaded
            } else {
                r matches UploadStep::Failed(m) && m@ == "datastore upload to "@ + url@ + " returned "@
                    + text@ + ": "@ + body@
            },
            UploadEvent::PutFailed => r matches UploadStep::Failed(m) && m@
                == "datastore upload request failed"@,
        },
{
    match event {
        UploadEvent::Started => if force_upload {
            UploadStep::DeleteExisting
        } else {
            UploadStep::ProbeExisting
        },
        UploadEvent::DeleteAnswered(code, text) => {
            if (200 <= *code && *code <= 299) || *code == 404 {
                UploadStep::Put
            } else {
                let mut m = owned("deleting existing ISO at ");
                m.append(url);
                m.append(" returned ");
                m.append(text.as_str());
                UploadStep::Failed(m)
            }
        },
        UploadEvent::DeleteFailed => UploadStep::Failed(owned("deleting existing ISO before re-upload")),
        UploadEvent::ProbeAnswered(code) => if 200 <= *code && *code <= 299 {
            UploadStep::Reused
        } else {
            UploadStep::Put
        },
        UploadEvent::ProbeFailed => UploadStep::Put,
        UploadEvent::PutAnswered(code, text, body) => {
            if 200 <= *code && *code <= 299 {
                UploadStep::Uploaded
            } else {
                let mut m = owned("datastore upload to ");
                m.append(url);
                m.append(" returned ");
                m.append(text.as_str());
                m.append(": ");
                m.append(body.as_str());
                UploadStep::Failed(m)
            }
        },
        UploadEvent::PutFailed => UploadStep::Failed(owned("datastore upload request failed")),
    }
}


// ---------------------------------------------------------------------
// Template NICs on the cluster's networks
// ---------------------------------------------------------------------

pub open spec fn network_named(name: Seq<char>) -> spec_fn(Network) -> bool {
    |n: Network| n.name@ == name
}

pub open spec fn unreachable_network_message(network: Seq<char>, cluster: Seq<char>) -> Seq<char> {
    "network "@ + debug_str(network) + " not reachable from cluster "@ + debug_str(cluster)
}

/// The first NIC whose port group the cluster does not reach, if any.
pub open spec fn first_unreachable(nics: Seq<ResolvedNic>, networks: Seq<Network>) -> Option<int> {
    first_where(nics, |n: ResolvedNic| first_where(networks, network_named(n.network@)) is None)
}

/// Each resolved NIC on the first network of its port group's name that
/// the cluster reaches, with that network's reference and kind; the first
/// NIC whose port group is not reachable is an error.
pub fn requested_nics(nics: &[ResolvedNic], networks: &[Network], cluster: &str) -> (r: Result<
    Vec<RequestedNic>,
    String,
>)
    ensures
        match first_unreachable(nics@, networks@) {
            Some(k) => r matches Err(m) && m@ == unreachable_network_message(nics@[k].network@, cluster@),
            None => r matches Ok(v) && v@.len() == nics@.len() && forall|i: int|
                0 <= i < nics@.len() ==> {
                    let j = first_where(networks@, network_named(nics@[i].network@))->0;
                    &&& (#[trigger] v@[i]).network@ == nics@[i].network@
                    &&& v@[i].network_moref@ == networks@[j].moref@
                    &&& v@[i].network_distributed == networks@[j].distributed
                    &&& v@[i].adapter == nics@[i].adapter
                    &&& v@[i].pci_slot == nics@[i].pci_slot
                },
        },
{
    let ghost unreachable = |n: ResolvedNic| first_where(networks@, network_named(n.network@)) is None;
    let mut out: Vec<RequestedNic> = Vec::new();
    let mut i: usize = 0;
    while i < nics.len()
        invariant
            i <= nics.len(),
            unreachable == (|n: ResolvedNic| first_where(networks@, network_named(n.network@)) is None),
            forall|k: int| 0 <= k < i ==> !unreachable(#[trigger] nics@[k]),
            out@.len() == i,
            forall|k: int|
                0 <= k < i ==> {
                    let j = first_where(networks@, network_named(nics@[k].network@))->0;
                    &&& (#[trigger] out@[k]).network@ == nics@[k].network@
                    &&& out@[k].network_moref@ == networks@[j].moref@
                    &&& out@[k].network_distributed == networks@[j].distributed
                    &&& out@[k].adapter == nics@[k].adapter
                    &&& out@[k].pci_slot == nics@[k].pci_slot
                },
        decreases nics.len() - i,
    {
        let nic = &nics[i];
        let ghost p = network_named(nic.network@);
        let mut j: usize = 0;
        while j < networks.len() && !str_eq(networks[j].name.as_str(), nic.network.as_str())
            invariant
                j <= networks.len(),
                p == network_named(nic.network@),
                forall|q: int| 0 <= q < j ==> !p(#[trigger] networks@[q]),
            decreases networks.len() - j,
        {
            j += 1;
        }
        if j >= networks.len() {
            proof {
                lemma_first_where_none(networks@, p);
                lemma_first_where(nics@, unreachable, i as int);
            }
            let mut m = owned("network ");
            let q = quoted(nic.network.as_str());
            m.append(q.as_str());
            m.append(" not reachable from cluster ");
            let q2 = quoted(cluster);
            m.append(q2.as_str());
            return Err(m);
        }
        proof {
            lemma_first_where(networks@, p, j as int);
        }
        out.push(
            RequestedNic {
                network: nic.network.clone(),
                network_moref: networks[j].moref.clone(),
                network_distributed: networks[j].distributed,
                adapter: nic.adapter,
                pci_slot: nic.pci_slot,
            },
        );
        i += 1;
    }
    proof {
        lemma_first_where_none(nics@, unreachable);
    }
    Ok(out)
}

} // verus!
