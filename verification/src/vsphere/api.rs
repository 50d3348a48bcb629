//! The parts of the banlieue resources that the vSphere provider reads and
//! writes: enums with their wire names, capability mappings, failure
//! domains.
use vstd::prelude::*;
use crate::str_map::StrMap;
use crate::text::str_eq;

verus! {

// ---------------------------------------------------------------------
// Enums and their wire names
// ---------------------------------------------------------------------

/// Virtual NIC model.
#[derive(Debug, Clone, Copy, PartialEq, Eq, Structural)]
pub enum NicAdapter {
    Vmxnet3,
    Vmxnet2,
    E1000,
    E1000e,
}

pub open spec fn nic_adapter_name(a: NicAdapter) -> Seq<char> {
    match a {
        NicAdapter::Vmxnet3 => "vmxnet3"@,
        NicAdapter::Vmxnet2 => "vmxnet2"@,
        NicAdapter::E1000 => "e1000"@,
        NicAdapter::E1000e => "e1000e"@,
    }
}

/// How a template's install disk is provisioned.
#[derive(Debug, Clone, Copy, PartialEq, Eq, Structural)]
pub enum DiskProvisioning {
    Thin,
    Thick,
    EagerZeroed,
}

pub open spec fn disk_provisioning_name(d: DiskProvisioning) -> Seq<char> {
    match d {
        DiskProvisioning::Thin => "thin"@,
        DiskProvisioning::Thick => "thick"@,
        DiskProvisioning::EagerZeroed => "eagerZeroed"@,
    }
}

/// The disk controller a template's install disk hangs off.
#[derive(Debug, Clone, Copy, PartialEq, Eq, Structural)]
pub enum DiskController {
    Pvscsi,
    LsiLogic,
    LsiLogicSas,
    BusLogic,
}

pub open spec fn disk_controller_name(d: DiskController) -> Seq<char> {
    match d {
        DiskController::Pvscsi => "pvscsi"@,
        DiskController::LsiLogic => "lsiLogic"@,
        DiskController::LsiLogicSas => "lsiLogicSas"@,
        DiskController::BusLogic => "busLogic"@,
    }
}

/// Boot firmware.
#[derive(Debug, Clone, Copy, PartialEq, Eq, Structural)]
pub enum Firmware {
    Bios,
    Efi,
    EfiSecure,
}

pub open spec fn firmware_name(f: Firmware) -> Seq<char> {
    match f {
        Firmware::Bios => "bios"@,
        Firmware::Efi => "efi"@,
        Firmware::EfiSecure => "efi-secure"@,
    }
}

/// How the install step of a template build is driven.
#[derive(Debug, Clone, Copy, PartialEq, Eq, Structural)]
pub enum InstallMode {
    Immediate,
    Deferred,
    Manual,
}

pub open spec fn install_mode_name(m: InstallMode) -> Seq<char> {
    match m {
        InstallMode::Immediate => "Immediate"@,
        InstallMode::Deferred => "Deferred"@,
        InstallMode::Manual => "Manual"@,
    }
}

/// Power state of a virtual machine.
#[derive(Debug, Clone, Copy, PartialEq, Eq, Structural)]
pub enum PowerState {
    PoweredOn,
    PoweredOff,
    Suspended,
}

impl NicAdapter {
    /// The wire name.
    pub fn as_str(self) -> (r: &'static str)
        ensures
            r@ == nic_adapter_name(self),
    {
        match self {
            NicAdapter::Vmxnet3 => "vmxnet3",
            NicAdapter::Vmxnet2 => "vmxnet2",
            NicAdapter::E1000 => "e1000",
            NicAdapter::E1000e => "e1000e",
        }
    }

    /// The adapter whose wire name is `s`, if any.
    pub fn from_name(s: &str) -> (r: Option<NicAdapter>)
        ensures
            r == nic_adapter_from_name(s@),
    {
        if str_eq(s, "vmxnet3") {
            Some(NicAdapter::Vmxnet3)
        } else if str_eq(s, "vmxnet2") {
            Some(NicAdapter::Vmxnet2)
        } else if str_eq(s, "e1000") {
            Some(NicAdapter::E1000)
        } else if str_eq(s, "e1000e") {
            Some(NicAdapter::E1000e)
        } else {
            None
        }
    }
}

/// The adapter whose wire name is `s`, if any.
pub open spec fn nic_adapter_from_name(s: Seq<char>) -> Option<NicAdapter> {
    if s == "vmxnet3"@ {
        Some(NicAdapter::Vmxnet3)
    } else if s == "vmxnet2"@ {
        Some(NicAdapter::Vmxnet2)
    } else if s == "e1000"@ {
        Some(NicAdapter::E1000)
    } else if s == "e1000e"@ {
        Some(NicAdapter::E1000e)
    } else {
        None
    }
}

/// Every adapter is read back from its wire name.
pub proof fn lemma_nic_adapter_name_round_trip(a: NicAdapter)
    ensures
        nic_adapter_from_name(nic_adapter_name(a)) == Some(a),
{
    reveal_strlit("vmxnet3");
    reveal_strlit("vmxnet2");
    reveal_strlit("e1000");
    reveal_strlit("e1000e");
    assert("vmxnet3"@[6] != "vmxnet2"@[6]);
    assert("e1000"@.len() != "e1000e"@.len());
    assert("vmxnet3"@[0] != "e1000"@[0]);
    assert("vmxnet2"@[0] != "e1000"@[0]);
    assert("vmxnet3"@[0] != "e1000e"@[0]);
    assert("vmxnet2"@[0] != "e1000e"@[0]);
}

impl DiskProvisioning {
    /// The wire name.
    pub fn as_str(self) -> (r: &'static str)
        ensures
            r@ == disk_provisioning_name(self),
    {
        match self {
            DiskProvisioning::Thin => "thin",
            DiskProvisioning::Thick => "thick",
            DiskProvisioning::EagerZeroed => "eagerZeroed",
        }
    }
}

impl DiskController {
    /// The wire name.
    pub fn as_str(self) -> (r: &'static str)
        ensures
            r@ == disk_controller_name(self),
    {
        match self {
            DiskController::Pvscsi => "pvscsi",
            DiskController::LsiLogic => "lsiLogic",
            DiskController::LsiLogicSas => "lsiLogicSas",
            DiskController::BusLogic => "busLogic",
        }
    }
}

impl Firmware {
    /// The wire name.
    pub fn as_str(self) -> (r: &'static str)
        ensures
            r@ == firmware_name(self),
    {
        match self {
            Firmware::Bios => "bios",
            Firmware::Efi => "efi",
            Firmware::EfiSecure => "efi-secure",
        }
    }
}

impl InstallMode {
    /// The wire name.
    pub fn as_str(self) -> (r: &'static str)
        ensures
            r@ == install_mode_name(self),
    {
        match self {
            InstallMode::Immediate => "Immediate",
            InstallMode::Deferred => "Deferred",
            InstallMode::Manual => "Manual",
        }
    }
}

impl DiskProvisioning {
    /// The value whose wire name is `s`, if any.
    pub fn from_name(s: &str) -> (r: Option<DiskProvisioning>)
        ensures
            match r {
                Some(v) => disk_provisioning_name(v) == s@,
                None => forall|v: DiskProvisioning| disk_provisioning_name(v) != s@,
            },
    {
        let r = if str_eq(s, "thin") {
            Some(DiskProvisioning::Thin)
        } else if str_eq(s, "thick") {
            Some(DiskProvisioning::Thick)
        } else if str_eq(s, "eagerZeroed") {
            Some(DiskProvisioning::EagerZeroed)
        } else {
            None
        };
        proof {
            if r is None {
                assert forall|v: DiskProvisioning| disk_provisioning_name(v) != s@ by {
                    match v {
                        DiskProvisioning::Thin => {},
                        DiskProvisioning::Thick => {},
                        DiskProvisioning::EagerZeroed => {},
                    }
                }
            }
        }
        r
    }
}

impl DiskController {
    /// The value whose wire name is `s`, if any.
    pub fn from_name(s: &str) -> (r: Option<DiskController>)
        ensures
            match r {
                Some(v) => disk_controller_name(v) == s@,
                None => forall|v: DiskController| disk_controller_name(v) != s@,
            },
    {
        let r = if str_eq(s, "pvscsi") {
            Some(DiskController::Pvscsi)
        } else if str_eq(s, "lsiLogic") {
            Some(DiskController::LsiLogic)
        } else if str_eq(s, "lsiLogicSas") {
            Some(DiskController::LsiLogicSas)
        } else if str_eq(s, "busLogic") {
            Some(DiskController::BusLogic)
        } else {
            None
        };
        proof {
            if r is None {
                assert forall|v: DiskController| disk_controller_name(v) != s@ by {
                    match v {
                        DiskController::Pvscsi => {},
                        DiskController::LsiLogic => {},
                        DiskController::LsiLogicSas => {},
                        DiskController::BusLogic => {},
                    }
                }
            }
        }
        r
    }
}

impl Firmware {
    /// The value whose wire name is `s`, if any.
    pub fn from_name(s: &str) -> (r: Option<Firmware>)
        ensures
            match r {
                Some(v) => firmware_name(v) == s@,
                None => forall|v: Firmware| firmware_name(v) != s@,
            },
    {
        let r = if str_eq(s, "bios") {
            Some(Firmware::Bios)
        } else if str_eq(s, "efi") {
            Some(Firmware::Efi)
        } else if str_eq(s, "efi-secure") {
            Some(Firmware::EfiSecure)
        } else {
            None
        };
        proof {
            if r is None {
                assert forall|v: Firmware| firmware_name(v) != s@ by {
                    match v {
                        Firmware::Bios => {},
                        Firmware::Efi => {},
                        Firmware::EfiSecure => {},
                    }
                }
            }
        }
        r
    }
}

impl InstallMode {
    /// The value whose wire name is `s`, if any.
    pub fn from_name(s: &str) -> (r: Option<InstallMode>)
        ensures
            match r {
                Some(v) => install_mode_name(v) == s@,
                None => forall|v: InstallMode| install_mode_name(v) != s@,
            },
    {
        let r = if str_eq(s, "Immediate") {
            Some(InstallMode::Immediate)
        } else if str_eq(s, "Deferred") {
            Some(InstallMode::Deferred)
        } else if str_eq(s, "Manual") {
            Some(InstallMode::Manual)
        } else {
            None
        };
        proof {
            if r is None {
                assert forall|v: InstallMode| install_mode_name(v) != s@ by {
                    match v {
                        InstallMode::Immediate => {},
                        InstallMode::Deferred => {},
                        InstallMode::Manual => {},
                    }
                }
            }
        }
        r
    }
}


/// Distinct disk provisioning modes have distinct wire names, so a name
/// reads back as the one mode it names.
pub proof fn lemma_disk_provisioning_names_distinct(a: DiskProvisioning, b: DiskProvisioning)
    ensures
        disk_provisioning_name(a) == disk_provisioning_name(b) ==> a == b,
{
    reveal_strlit("thin");
    reveal_strlit("thick");
    reveal_strlit("eagerZeroed");
    assert(disk_provisioning_name(a).len() == disk_provisioning_name(b).len() ==> a == b);
}

/// Distinct disk controllers have distinct wire names.
pub proof fn lemma_disk_controller_names_distinct(a: DiskController, b: DiskController)
    ensures
        disk_controller_name(a) == disk_controller_name(b) ==> a == b,
{
    reveal_strlit("pvscsi");
    reveal_strlit("lsiLogic");
    reveal_strlit("lsiLogicSas");
    reveal_strlit("busLogic");
    assert("lsiLogic"@[0] != "busLogic"@[0]);
    assert(disk_controller_name(a) == disk_controller_name(b) ==> a == b) by {
        if disk_controller_name(a) == disk_controller_name(b) {
            assert(disk_controller_name(a).len() == disk_controller_name(b).len());
            assert(disk_controller_name(a)[0] == disk_controller_name(b)[0]);
        }
    }
}

/// Distinct firmwares have distinct wire names.
pub proof fn lemma_firmware_names_distinct(a: Firmware, b: Firmware)
    ensures
        firmware_name(a) == firmware_name(b) ==> a == b,
{
    reveal_strlit("bios");
    reveal_strlit("efi");
    reveal_strlit("efi-secure");
    assert(firmware_name(a).len() == firmware_name(b).len() ==> a == b);
}

/// Distinct install modes have distinct wire names.
pub proof fn lemma_install_mode_names_distinct(a: InstallMode, b: InstallMode)
    ensures
        install_mode_name(a) == install_mode_name(b) ==> a == b,
{
    reveal_strlit("Immediate");
    reveal_strlit("Deferred");
    reveal_strlit("Manual");
    assert(install_mode_name(a).len() == install_mode_name(b).len() ==> a == b);
}

// ---------------------------------------------------------------------
// Template NICs
// ---------------------------------------------------------------------

/// One NIC of a template (`spec.template.network[]`); every field optional.
#[derive(Debug, PartialEq, Eq)]
pub struct VMImageTemplateNic {
    pub network: Option<String>,
    pub adapter: Option<NicAdapter>,
    pub pci_slot: Option<i32>,
}

impl VMImageTemplateNic {
    /// A NIC with nothing set.
    pub fn unset() -> (r: Self)
        ensures
            r.network is None,
            r.adapter is None,
            r.pci_slot is None,
    {
        VMImageTemplateNic { network: None, adapter: None, pci_slot: None }
    }
}

// ---------------------------------------------------------------------
// Capability mappings
// ---------------------------------------------------------------------

/// A class target scoped to one (datacenter, cluster).
pub struct ScopedTarget {
    pub datacenter: String,
    pub cluster: String,
    pub target: StrMap<String>,
}

/// A storage or network class mapping: a default target plus per-zone
/// overrides.
pub struct ClassMapping {
    pub name: String,
    pub target: Option<StrMap<String>>,
    pub per_zone: Vec<ScopedTarget>,
}

pub open spec fn is_zone_match(s: ScopedTarget, dc: Seq<char>, cluster: Seq<char>) -> bool {
    s.datacenter@ == dc && s.cluster@ == cluster
}

/// The target a class resolves to in zone (`dc`, `cluster`): the first
/// exactly matching per-zone entry, else the default target.
pub open spec fn target_for_spec(m: ClassMapping, dc: Seq<char>, cluster: Seq<char>) -> Option<
    StrMap<String>,
> {
    if exists|i: int| 0 <= i < m.per_zone.len() && is_zone_match(#[trigger] m.per_zone@[i], dc, cluster) {
        let i = choose|i: int|
            0 <= i < m.per_zone.len() && is_zone_match(#[trigger] m.per_zone@[i], dc, cluster)
                && forall|j: int| 0 <= j < i ==> !is_zone_match(#[trigger] m.per_zone@[j], dc, cluster);
        Some(m.per_zone@[i].target)
    } else {
        m.target
    }
}

impl ClassMapping {
    /// The target this class resolves to in zone (`dc`, `cluster`).
    pub fn target_for(&self, dc: &str, cluster: &str) -> (r: Option<&StrMap<String>>)
        ensures
            match r {
                Some(t) => target_for_spec(*self, dc@, cluster@) == Some(*t),
                None => target_for_spec(*self, dc@, cluster@) is None,
            },
    {
        let mut i: usize = 0;
        while i < self.per_zone.len()
            invariant
                i <= self.per_zone.len(),
                forall|j: int| 0 <= j < i ==> !is_zone_match(#[trigger] self.per_zone@[j], dc@, cluster@),
            decreases self.per_zone.len() - i,
        {
            if str_eq(self.per_zone[i].datacenter.as_str(), dc) && str_eq(
                self.per_zone[i].cluster.as_str(),
                cluster,
            ) {
                proof {
                    let k = choose|k: int|
                        0 <= k < self.per_zone.len() && is_zone_match(#[trigger] self.per_zone@[k], dc@, cluster@)
                            && forall|j: int| 0 <= j < k ==> !is_zone_match(#[trigger] self.per_zone@[j], dc@, cluster@);
                    assert(is_zone_match(self.per_zone@[i as int], dc@, cluster@));
                    if k < i {
                    } else if k > i {
                        assert(!is_zone_match(self.per_zone@[i as int], dc@, cluster@));
                    }
                }
                return Some(&self.per_zone[i].target);
            }
            i += 1;
        }
        match &self.target {
            Some(t) => Some(t),
            None => None,
        }
    }
}

/// What a Provider declares it offers.
pub struct ProviderCapabilities {
    pub storage_classes: Vec<ClassMapping>,
    pub network_classes: Vec<ClassMapping>,
    pub features: Vec<String>,
}

/// An admin-chosen failure-domain name for one (datacenter, cluster).
pub struct FailureDomainNameOverride {
    pub datacenter: String,
    pub cluster: String,
    pub name: String,
}

/// What is reachable in one failure domain.
pub struct FailureDomainAttributes {
    pub available_storage_classes: Vec<String>,
    pub available_network_classes: Vec<String>,
    pub features: Vec<String>,
    pub raw: StrMap<String>,
}

/// One zone of a Provider: a (datacenter, cluster) pair.
pub struct FailureDomain {
    pub name: String,
    pub labels: StrMap<String>,
    pub attributes: FailureDomainAttributes,
}

/// The parts of `Provider.spec` the provider logic reads.
pub struct ProviderSpec {
    pub capabilities: ProviderCapabilities,
}

/// The parts of `Provider.status` the provider logic reads.
pub struct ProviderStatus {
    pub failure_domains: Vec<FailureDomain>,
}

/// A `Provider` as the import and reconcile logic sees it.
pub struct Provider {
    pub name: String,
    pub namespace: String,
    pub spec: ProviderSpec,
    pub status: Option<ProviderStatus>,
}

} // verus!
