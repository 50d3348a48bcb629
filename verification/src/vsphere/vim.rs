//! vCenter rules that need no connection: the address to dial, how long to
//! wait for a guest install, the hardware a template is created with, and
//! lookups in a VM's device list.
use vstd::prelude::*;
use crate::text::{
    chars_of, contains_seq, find_seq, first_occurrence, int_dec, int_to_string,
    lemma_first_occurrence, occurs_at, owned, substring_of,
};
use crate::vsphere::api::{
    DiskController, DiskProvisioning, Firmware, NicAdapter,
};
use crate::vsphere::client::IsoImportRequest;

verus! {

/// Seconds between two looks at a guest install.
pub const INSTALL_POLL_INTERVAL_SECS: u32 = 5;

/// The install wait when none is configured.
pub const DEFAULT_INSTALL_TIMEOUT_SECS: u32 = 1800;

pub const FIRMWARE_BIOS: &'static str = "bios";

pub const FIRMWARE_EFI: &'static str = "efi";

pub const DISK_MODE_PERSISTENT: &'static str = "persistent";

/// Provisional device keys of a template being created.
pub const KEY_SCSI: i32 = -1000;

pub const KEY_DISK: i32 = -1001;

pub const KEY_IDE: i32 = -1002;

pub const KEY_CDROM: i32 = -1003;

pub const KEY_NIC: i32 = -1004;

pub const KEY_TPM: i32 = -1005;

pub const KIB_PER_GIB: i64 = 1048576;

/// Builds clients for a real vCenter.
#[derive(Debug, Clone, Copy, Default)]
pub struct VimClientFactory;

impl VimClientFactory {
    pub fn new() -> (r: Self) {
        VimClientFactory
    }
}

// ---------------------------------------------------------------------
// The address to dial
// ---------------------------------------------------------------------

/// `e` without a leading `scheme://`.
pub open spec fn after_scheme(e: Seq<char>) -> Seq<char> {
    if contains_seq(e, "://"@) {
        e.subrange(first_occurrence(e, "://"@) + 3, e.len() as int)
    } else {
        e
    }
}

pub open spec fn is_url_delim(c: char) -> bool {
    c == '/' || c == '?' || c == '#'
}

pub open spec fn is_first_delim(s: Seq<char>, i: int) -> bool {
    &&& 0 <= i < s.len()
    &&& is_url_delim(s[i])
    &&& forall|j: int| 0 <= j < i ==> !is_url_delim(#[trigger] s[j])
}

/// `s` up to its first `/`, `?` or `#`.
pub open spec fn up_to_delim(s: Seq<char>) -> Seq<char> {
    if exists|i: int| 0 <= i < s.len() && is_url_delim(#[trigger] s[i]) {
        s.subrange(0, choose|i: int| is_first_delim(s, i))
    } else {
        s
    }
}

/// The `host[:port]` of an endpoint URL: the scheme and everything from the
/// first `/`, `?` or `#` on removed.
pub open spec fn server_address_spec(endpoint: Seq<char>) -> Seq<char> {
    up_to_delim(after_scheme(endpoint))
}

/// Reduce `Provider.spec.connection.endpoint` to the bare `host[:port]` the
/// vCenter client dials.
pub fn server_address(endpoint: &str) -> (r: String)
    ensures
        r@ == server_address_spec(endpoint@),
{
    let e = chars_of(endpoint);
    let sep = chars_of("://");
    proof {
        reveal_strlit("://");
    }
    let rest = match find_seq(&e, &sep) {
        Some(i) => {
            proof {
                lemma_first_occurrence(e@, sep@, i as int);
            }
            assert(sep@.len() == 3);
            assert(i + 3 <= e.len());
            substring_of(&e, i + 3, e.len())
        },
        None => substring_of(&e, 0, e.len()),
    };
    proof {
        assert(e@.subrange(0, e@.len() as int) =~= e@);
    }
    let r = chars_of(rest.as_str());
    let mut i: usize = 0;
    while i < r.len()
        invariant
            i <= r.len(),
            r@ == after_scheme(endpoint@),
            forall|j: int| 0 <= j < i ==> !is_url_delim(#[trigger] r@[j]),
        decreases r.len() - i,
    {
        let c = r[i];
        if c == '/' || c == '?' || c == '#' {
            proof {
                assert(is_first_delim(r@, i as int));
                let k = choose|k: int| is_first_delim(r@, k);
                if k < i {
                    assert(!is_url_delim(r@[k]));
                } else if i < k {
                    assert(!is_url_delim(r@[i as int]));
                }
            }
            return substring_of(&r, 0, i);
        }
        i += 1;
    }
    proof {
        assert(r@.subrange(0, r@.len() as int) =~= r@);
    }
    substring_of(&r, 0, r.len())
}

proof fn lemma_first_delim_exists(s: Seq<char>, i: int)
    requires
        0 <= i < s.len(),
        is_url_delim(s[i]),
    ensures
        exists|k: int| is_first_delim(s, k),
    decreases i,
{
    if forall|j: int| 0 <= j < i ==> !is_url_delim(#[trigger] s[j]) {
        assert(is_first_delim(s, i));
    } else {
        let j = choose|j: int| 0 <= j < i && is_url_delim(#[trigger] s[j]);
        lemma_first_delim_exists(s, j);
    }
}

proof fn lemma_up_to_delim(s: Seq<char>)
    ensures
        up_to_delim(s).len() <= s.len(),
        up_to_delim(s) == s.take(up_to_delim(s).len() as int),
        forall|j: int| 0 <= j < up_to_delim(s).len() ==> !is_url_delim(#[trigger] up_to_delim(s)[j]),
{
    if exists|i: int| 0 <= i < s.len() && is_url_delim(#[trigger] s[i]) {
        let i = choose|i: int| 0 <= i < s.len() && is_url_delim(#[trigger] s[i]);
        lemma_first_delim_exists(s, i);
        let k = choose|k: int| is_first_delim(s, k);
        let t = up_to_delim(s);
        assert(t == s.subrange(0, k));
        assert(t =~= s.take(k));
        assert forall|j: int| 0 <= j < t.len() implies !is_url_delim(#[trigger] t[j]) by {
            assert(t[j] == s[j]);
        }
    } else {
        assert(s.take(s.len() as int) =~= s);
    }
}

/// The address to dial holds no `/`, `?` or `#`; it is a prefix of what
/// follows the endpoint's scheme; and reducing it again changes nothing.
pub proof fn lemma_server_address(endpoint: Seq<char>)
    ensures
        forall|j: int|
            0 <= j < server_address_spec(endpoint).len() ==> !is_url_delim(
                #[trigger] server_address_spec(endpoint)[j],
            ),
        after_scheme(endpoint).take(server_address_spec(endpoint).len() as int)
            == server_address_spec(endpoint),
        server_address_spec(server_address_spec(endpoint)) == server_address_spec(endpoint),
{
    let r = server_address_spec(endpoint);
    lemma_up_to_delim(after_scheme(endpoint));
    reveal_strlit("://");
    assert(!contains_seq(r, "://"@)) by {
        if contains_seq(r, "://"@) {
            let i = choose|i: int| #[trigger] occurs_at(r, "://"@, i);
            assert(r.subrange(i, i + 3)[1] == "://"@[1]);
            assert(r[i + 1] == '/');
        }
    }
    assert(after_scheme(r) == r);
    assert(!exists|i: int| 0 <= i < r.len() && is_url_delim(#[trigger] r[i]));
}

// ---------------------------------------------------------------------
// Install wait
// ---------------------------------------------------------------------

/// Polls in an install wait of `timeout_seconds`: the timeout divided by the
/// poll interval, rounded up, with a non-positive timeout meaning the
/// default one.
pub open spec fn install_poll_attempts(timeout_seconds: i32) -> int {
    let secs: int = if timeout_seconds <= 0 {
        DEFAULT_INSTALL_TIMEOUT_SECS as int
    } else {
        timeout_seconds as int
    };
    (secs + INSTALL_POLL_INTERVAL_SECS - 1) / (INSTALL_POLL_INTERVAL_SECS as int)
}

pub fn install_poll_max_attempts(timeout_seconds: i32) -> (r: u32)
    ensures
        r == install_poll_attempts(timeout_seconds),
        r >= 1,
{
    let secs: u32 = if timeout_seconds <= 0 {
        DEFAULT_INSTALL_TIMEOUT_SECS
    } else {
        timeout_seconds as u32
    };
    (secs + INSTALL_POLL_INTERVAL_SECS - 1) / INSTALL_POLL_INTERVAL_SECS
}

// ---------------------------------------------------------------------
// Device lookups
// ---------------------------------------------------------------------

/// The kind of a VM hardware device.
#[derive(Debug, Clone, Copy, PartialEq, Eq, Structural)]
pub enum DeviceKind {
    Cdrom,
    Disk,
    Vmxnet3,
    Vmxnet2,
    Vmxnet,
    E1000,
    E1000e,
    Other,
}

pub open spec fn is_nic_kind(k: DeviceKind) -> bool {
    match k {
        DeviceKind::Vmxnet3 | DeviceKind::Vmxnet2 | DeviceKind::Vmxnet | DeviceKind::E1000
        | DeviceKind::E1000e => true,
        _ => false,
    }
}

/// What the provider reads of one hardware device.
#[derive(Debug, Clone, Copy, PartialEq, Eq, Structural)]
pub struct DeviceInfo {
    pub kind: DeviceKind,
    pub key: i32,
    pub controller_key: Option<i32>,
    pub unit_number: Option<i32>,
    pub pci_slot: Option<i32>,
}

/// Where a CD-ROM sits: enough to send an edit of it.
#[derive(Debug, Clone, Copy, PartialEq, Eq, Structural)]
pub struct CdromPlacement {
    pub key: i32,
    pub controller_key: Option<i32>,
    pub unit_number: Option<i32>,
}

pub open spec fn is_first_of_kind(d: Seq<DeviceInfo>, k: DeviceKind, i: int) -> bool {
    &&& 0 <= i < d.len()
    &&& d[i].kind == k
    &&& forall|j: int| 0 <= j < i ==> (#[trigger] d[j]).kind != k
}

fn first_of_kind(devices: &[DeviceInfo], k: DeviceKind) -> (r: Option<usize>)
    ensures
        match r {
            Some(i) => is_first_of_kind(devices@, k, i as int),
            None => forall|j: int| 0 <= j < devices.len() ==> (#[trigger] devices@[j]).kind != k,
        },
{
    let mut i: usize = 0;
    while i < devices.len()
        invariant
            i <= devices.len(),
            forall|j: int| 0 <= j < i ==> (#[trigger] devices@[j]).kind != k,
        decreases devices.len() - i,
    {
        if devices[i].kind == k {
            return Some(i);
        }
        i += 1;
    }
    None
}

/// The key of the first CD-ROM.
pub fn find_cdrom_key(devices: &[DeviceInfo]) -> (r: Option<i32>)
    ensures
        match r {
            Some(key) => exists|i: int| is_first_of_kind(devices@, DeviceKind::Cdrom, i) && devices@[i].key == key,
            None => forall|j: int| 0 <= j < devices.len() ==> (#[trigger] devices@[j]).kind != DeviceKind::Cdrom,
        },
{
    match first_of_kind(devices, DeviceKind::Cdrom) {
        Some(i) => Some(devices[i].key),
        None => None,
    }
}

/// The placement of the first CD-ROM.
pub fn find_cdrom_placement(devices: &[DeviceInfo]) -> (r: Option<CdromPlacement>)
    ensures
        match r {
            Some(p) => exists|i: int|
                is_first_of_kind(devices@, DeviceKind::Cdrom, i) && p == (CdromPlacement {
                    key: devices@[i].key,
                    controller_key: devices@[i].controller_key,
                    unit_number: devices@[i].unit_number,
                }),
            None => forall|j: int| 0 <= j < devices.len() ==> (#[trigger] devices@[j]).kind != DeviceKind::Cdrom,
        },
{
    match first_of_kind(devices, DeviceKind::Cdrom) {
        Some(i) => Some(
            CdromPlacement {
                key: devices[i].key,
                controller_key: devices[i].controller_key,
                unit_number: devices[i].unit_number,
            },
        ),
        None => None,
    }
}

/// The key of the first virtual disk.
pub fn find_disk_key(devices: &[DeviceInfo]) -> (r: Option<i32>)
    ensures
        match r {
            Some(key) => exists|i: int| is_first_of_kind(devices@, DeviceKind::Disk, i) && devices@[i].key == key,
            None => forall|j: int| 0 <= j < devices.len() ==> (#[trigger] devices@[j]).kind != DeviceKind::Disk,
        },
{
    match first_of_kind(devices, DeviceKind::Disk) {
        Some(i) => Some(devices[i].key),
        None => None,
    }
}

/// Key, kind and pinned PCI slot of the first NIC of any adapter type.
pub fn find_first_nic_key(devices: &[DeviceInfo]) -> (r: Option<(i32, DeviceKind, Option<i32>)>)
    ensures
        match r {
            Some(t) => exists|i: int|
                0 <= i < devices.len() && is_nic_kind(devices@[i].kind) && (forall|j: int|
                    0 <= j < i ==> !is_nic_kind(#[trigger] devices@[j].kind)) && t == (
                    devices@[i].key,
                    devices@[i].kind,
                    devices@[i].pci_slot,
                ),
            None => forall|j: int| 0 <= j < devices.len() ==> !is_nic_kind(#[trigger] devices@[j].kind),
        },
{
    let mut i: usize = 0;
    while i < devices.len()
        invariant
            i <= devices.len(),
            forall|j: int| 0 <= j < i ==> !is_nic_kind(#[trigger] devices@[j].kind),
        decreases devices.len() - i,
    {
        let d = devices[i];
        match d.kind {
            DeviceKind::Vmxnet3 | DeviceKind::Vmxnet2 | DeviceKind::Vmxnet | DeviceKind::E1000
            | DeviceKind::E1000e => {
                return Some((d.key, d.kind, d.pci_slot));
            },
            _ => {},
        }
        i += 1;
    }
    None
}

/// The NICs of a device list, in order.
pub open spec fn nic_keys(d: Seq<DeviceInfo>) -> Seq<(i32, DeviceKind)>
    decreases d.len(),
{
    if d.len() == 0 {
        Seq::empty()
    } else {
        let rest = nic_keys(d.drop_last());
        if is_nic_kind(d.last().kind) {
            rest.push((d.last().key, d.last().kind))
        } else {
            rest
        }
    }
}

/// Key and kind of every NIC, in device-list order.
pub fn find_all_nic_keys(devices: &[DeviceInfo]) -> (r: Vec<(i32, DeviceKind)>)
    ensures
        r@ == nic_keys(devices@),
{
    let mut out: Vec<(i32, DeviceKind)> = Vec::new();
    let mut i: usize = 0;
    proof {
        assert(devices@.take(0) =~= Seq::<DeviceInfo>::empty());
    }
    while i < devices.len()
        invariant
            i <= devices.len(),
            out@ == nic_keys(devices@.take(i as int)),
        decreases devices.len() - i,
    {
        let d = devices[i];
        proof {
            assert(devices@.take(i as int + 1).drop_last() =~= devices@.take(i as int));
            assert(devices@.take(i as int + 1).last() == d);
        }
        match d.kind {
            DeviceKind::Vmxnet3 | DeviceKind::Vmxnet2 | DeviceKind::Vmxnet | DeviceKind::E1000
            | DeviceKind::E1000e => {
                out.push((d.key, d.kind));
            },
            _ => {},
        }
        i += 1;
    }
    proof {
        assert(devices@.take(devices.len() as int) =~= devices@);
    }
    out
}

// ---------------------------------------------------------------------
// PCI slots
// ---------------------------------------------------------------------

/// The `ethernet<i>.pciSlotNumber` key of NIC `i`.
pub open spec fn pci_slot_key(i: int) -> Seq<char> {
    "ethernet"@ + int_dec(i) + ".pciSlotNumber"@
}

/// The ExtraConfig entries pinning NIC `i` to `pci_slots[i]`, in order.
pub fn nic_pci_slot_extra_config(pci_slots: &[i32]) -> (r: Vec<(String, String)>)
    requires
        pci_slots.len() <= i64::MAX,
    ensures
        r.len() == pci_slots.len(),
        forall|i: int|
            0 <= i < r.len() ==> (#[trigger] r@[i]).0@ == pci_slot_key(i) && r@[i].1@ == int_dec(
                pci_slots@[i] as int,
            ),
{
    let mut out: Vec<(String, String)> = Vec::new();
    let mut i: usize = 0;
    while i < pci_slots.len()
        invariant
            i <= pci_slots.len() <= i64::MAX,
            out.len() == i,
            forall|k: int|
                0 <= k < i ==> (#[trigger] out@[k]).0@ == pci_slot_key(k) && out@[k].1@ == int_dec(
                    pci_slots@[k] as int,
                ),
        decreases pci_slots.len() - i,
    {
        let mut key = owned("ethernet");
        let n = int_to_string(i as i64);
        key.append(n.as_str());
        key.append(".pciSlotNumber");
        let value = int_to_string(pci_slots[i] as i64);
        out.push((key, value));
        i += 1;
    }
    out
}

// ---------------------------------------------------------------------
// The hardware of a new template
// ---------------------------------------------------------------------

/// One NIC of a new template.
#[derive(Debug, Clone, PartialEq, Eq)]
pub struct NicDevicePlan {
    pub key: i32,
    pub adapter: NicAdapter,
    pub network: String,
    pub network_moref: String,
    pub network_distributed: bool,
}

/// The configuration a template VM is created with.
#[derive(Debug, Clone, PartialEq, Eq)]
pub struct TemplateConfigPlan {
    pub name: String,
    pub guest_id: String,
    pub num_cpus: i32,
    pub memory_mb: i64,
    pub firmware: &'static str,
    pub secure_boot: bool,
    pub vm_path_name: String,
    pub scsi_controller: DiskController,
    pub thin_provisioned: Option<bool>,
    pub eagerly_scrub: Option<bool>,
    pub capacity_in_kb: i64,
    pub iso_path: String,
    pub nics: Vec<NicDevicePlan>,
}

/// `(thin_provisioned, eagerly_scrub)` of a provisioning mode.
pub open spec fn provisioning_flags(p: DiskProvisioning) -> (Option<bool>, Option<bool>) {
    match p {
        DiskProvisioning::Thin => (Some(true), None),
        DiskProvisioning::Thick => (Some(false), Some(false)),
        DiskProvisioning::EagerZeroed => (Some(false), Some(true)),
    }
}

/// The firmware name vCenter takes, and whether secure boot is on: secure
/// boot is EFI with a boot option.
pub open spec fn firmware_setting(f: Firmware) -> (Seq<char>, bool) {
    match f {
        Firmware::Bios => (FIRMWARE_BIOS@, false),
        Firmware::Efi => (FIRMWARE_EFI@, false),
        Firmware::EfiSecure => (FIRMWARE_EFI@, true),
    }
}

pub open spec fn disk_capacity_kib(disk_gib: i64) -> int {
    (if disk_gib < 1 {
        1
    } else {
        disk_gib as int
    }) * KIB_PER_GIB
}

/// The configuration of the template `req` asks for: its disk on a
/// controller of the requested kind, at least one GiB, provisioned as
/// requested; the ISO on a CD-ROM; one NIC per requested NIC with keys
/// counting down from `KEY_NIC`; firmware and secure boot from the request.
pub fn template_config_plan(req: &IsoImportRequest) -> (r: TemplateConfigPlan)
    requires
        disk_capacity_kib(req.disk_gib) <= i64::MAX,
        req.nics.len() < 2147482645,
    ensures
        r.name@ == req.template_name@,
        r.guest_id@ == req.guest_id@,
        r.num_cpus == req.cpus,
        r.memory_mb == req.memory_mib,
        (r.firmware@, r.secure_boot) == firmware_setting(req.firmware),
        r.vm_path_name@ == "["@ + req.datastore@ + "]"@,
        r.scsi_controller == req.disk_controller,
        (r.thin_provisioned, r.eagerly_scrub) == provisioning_flags(req.disk_provisioning),
        r.capacity_in_kb == disk_capacity_kib(req.disk_gib),
        r.iso_path@ == req.iso_datastore_path@,
        r.nics.len() == req.nics.len(),
        forall|i: int|
            0 <= i < r.nics.len() ==> {
                let n = #[trigger] r.nics@[i];
                &&& n.key == KEY_NIC - i
                &&& n.adapter == req.nics@[i].adapter
                &&& n.network@ == req.nics@[i].network@
                &&& n.network_moref@ == req.nics@[i].network_moref@
                &&& n.network_distributed == req.nics@[i].network_distributed
            },
{
    let (thin_provisioned, eagerly_scrub) = match req.disk_provisioning {
        DiskProvisioning::Thin => (Some(true), None),
        DiskProvisioning::Thick => (Some(false), Some(false)),
        DiskProvisioning::EagerZeroed => (Some(false), Some(true)),
    };
    let (firmware, secure_boot): (&'static str, bool) = match req.firmware {
        Firmware::Bios => (FIRMWARE_BIOS, false),
        Firmware::Efi => (FIRMWARE_EFI, false),
        Firmware::EfiSecure => (FIRMWARE_EFI, true),
    };
    let gib: i64 = if req.disk_gib < 1 {
        1
    } else {
        req.disk_gib
    };
    let capacity_in_kb = gib * KIB_PER_GIB;
    let mut vm_path_name = owned("[");
    vm_path_name.append(req.datastore.as_str());
    vm_path_name.append("]");
    let mut nics: Vec<NicDevicePlan> = Vec::new();
    let mut i: usize = 0;
    while i < req.nics.len()
        invariant
            i <= req.nics.len() < 2147482645,
            nics.len() == i,
            forall|k: int|
                0 <= k < i ==> {
                    let n = #[trigger] nics@[k];
                    &&& n.key == KEY_NIC - k
                    &&& n.adapter == req.nics@[k].adapter
                    &&& n.network@ == req.nics@[k].network@
                    &&& n.network_moref@ == req.nics@[k].network_moref@
                    &&& n.network_distributed == req.nics@[k].network_distributed
                },
        decreases req.nics.len() - i,
    {
        let key: i32 = KEY_NIC - (i as i32);
        nics.push(
            NicDevicePlan {
                key,
                adapter: req.nics[i].adapter,
                network: req.nics[i].network.clone(),
                network_moref: req.nics[i].network_moref.clone(),
                network_distributed: req.nics[i].network_distributed,
            },
        );
        i += 1;
    }
    TemplateConfigPlan {
        name: req.template_name.clone(),
        guest_id: req.guest_id.clone(),
        num_cpus: req.cpus,
        memory_mb: req.memory_mib,
        firmware,
        secure_boot,
        vm_path_name,
        scsi_controller: req.disk_controller,
        thin_provisioned,
        eagerly_scrub,
        capacity_in_kb,
        iso_path: req.iso_datastore_path.clone(),
        nics,
    }
}

} // verus!
