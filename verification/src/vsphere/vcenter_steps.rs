//! The decisions between the vCenter calls of a template build and of a
//! clone: what an existing template means, whether a created VM has the
//! NICs asked for, the boot order to set, how a task poll or an install
//! wait ends, and which ExtraConfig a clone carries.
use vstd::prelude::*;
use crate::seq_util::{first_where, lemma_first_where, lemma_first_where_none};
use crate::text::{
    chars_of, dec, owned, str_eq, strings_view, split_char,
    split_on, u64_to_string,
};
use crate::vsphere::api::PowerState;
use crate::vsphere::client::{copy_vec, CloneVmRequest};
use crate::vsphere::error::Error;
use crate::vsphere::vim::{
    find_cdrom_placement, find_disk_key, find_all_nic_keys, find_first_nic_key, is_first_of_kind,
    is_nic_kind, nic_keys, CdromPlacement, DeviceInfo, DeviceKind, INSTALL_POLL_INTERVAL_SECS,
};

verus! {

/// Seconds between two looks at a running vCenter task.
pub const TASK_POLL_INTERVAL_SECS: u64 = 3;

/// Looks at a task before giving up on it.
pub const TASK_POLL_MAX_ATTEMPTS: u64 = 200;

/// The ExtraConfig key that pins the first NIC's PCI slot.
pub const FIRST_NIC_PCI_SLOT_KEY: &'static str = "ethernet0.pciSlotNumber";

// ---------------------------------------------------------------------
// A template build
// ---------------------------------------------------------------------

/// The reference a template build reports: `[<datastore>] <template>`.
pub open spec fn template_ref(datastore: Seq<char>, template: Seq<char>) -> Seq<char> {
    "["@ + datastore + "] "@ + template
}

pub fn resolved_template_ref(datastore: &str, template: &str) -> (r: String)
    ensures
        r@ == template_ref(datastore@, template@),
{
    let mut r = owned("[");
    r.append(datastore);
    r.append("] ");
    r.append(template);
    r
}

/// What to do about a VM already named like the template in its folder.
#[derive(Debug, PartialEq, Eq)]
pub enum ExistingTemplate {
    /// Nothing there: create the template.
    Create,
    /// One is there and no rebuild was asked for: keep it, done.
    Keep,
    /// One is there and a rebuild was asked for: destroy this VM first.
    Replace(String),
}

pub fn existing_template_step(existing: Option<String>, force_create: bool) -> (r: ExistingTemplate)
    ensures
        match existing {
            None => r == ExistingTemplate::Create,
            Some(m) => if force_create {
                r == ExistingTemplate::Replace(m)
            } else {
                r == ExistingTemplate::Keep
            },
        },
{
    match existing {
        None => ExistingTemplate::Create,
        Some(m) => if force_create {
            ExistingTemplate::Replace(m)
        } else {
            ExistingTemplate::Keep
        },
    }
}

pub open spec fn nic_count_message(vm: Seq<char>, expected: nat, found: nat) -> Seq<char> {
    vm + ": expected "@ + dec(expected) + " NIC device(s) after CreateVM_Task, found "@ + dec(found)
}

/// Whether the created VM has exactly the NICs asked for.
pub fn check_created_nics(vm_moref: &str, devices: &[DeviceInfo], expected: usize) -> (r: Result<
    (),
    Error,
>)
    ensures
        nic_keys(devices@).len() == expected ==> r is Ok,
        nic_keys(devices@).len() != expected ==> (r matches Err(Error::Vsphere(m)) && m@
            == nic_count_message(vm_moref@, expected as nat, nic_keys(devices@).len())),
{
    let found = find_all_nic_keys(devices);
    if found.len() == expected {
        Ok(())
    } else {
        let mut m = owned(vm_moref);
        m.append(": expected ");
        let e = u64_to_string(expected as u64);
        m.append(e.as_str());
        m.append(" NIC device(s) after CreateVM_Task, found ");
        let f = u64_to_string(found.len() as u64);
        m.append(f.as_str());
        Err(Error::Vsphere(m))
    }
}

/// One entry of a boot order.
#[derive(Debug, Clone, Copy, PartialEq, Eq, Structural)]
pub enum BootDevice {
    Cdrom,
    Disk(i32),
    Ethernet(i32),
}

/// The reconfiguration run before an unattended install: the CD-ROM
/// connected with the ISO, and the boot order CD-ROM, disk, first NIC.
pub struct BootOrderPlan {
    pub cdrom: CdromPlacement,
    pub iso_datastore_path: String,
    pub order: Vec<BootDevice>,
}

pub open spec fn of_kind(k: DeviceKind) -> spec_fn(DeviceInfo) -> bool {
    |d: DeviceInfo| d.kind == k
}

pub open spec fn is_nic_device() -> spec_fn(DeviceInfo) -> bool {
    |d: DeviceInfo| is_nic_kind(d.kind)
}

pub open spec fn missing_device_message(vm: Seq<char>, what: Seq<char>) -> Seq<char> {
    vm + ": no "@ + what + " device after CreateVM_Task"@
}

fn missing_device(vm_moref: &str, what: &str) -> (e: Error)
    ensures
        e matches Error::Vsphere(m) && m@ == missing_device_message(vm_moref@, what@),
{
    let mut m = owned(vm_moref);
    m.append(": no ");
    m.append(what);
    m.append(" device after CreateVM_Task");
    Error::Vsphere(m)
}

/// The boot-order reconfiguration for a created VM: its first CD-ROM, first
/// disk and first NIC, each required in that order.
pub fn boot_order_plan(vm_moref: &str, devices: &[DeviceInfo], iso_datastore_path: &str) -> (r:
    Result<BootOrderPlan, Error>)
    ensures
        match (
            first_where(devices@, of_kind(DeviceKind::Cdrom)),
            first_where(devices@, of_kind(DeviceKind::Disk)),
            first_where(devices@, is_nic_device()),
        ) {
            (Some(c), Some(d), Some(n)) => r matches Ok(p) && p.cdrom == (CdromPlacement {
                key: devices@[c].key,
                controller_key: devices@[c].controller_key,
                unit_number: devices@[c].unit_number,
            }) && p.iso_datastore_path@ == iso_datastore_path@ && p.order@ == seq![
                BootDevice::Cdrom,
                BootDevice::Disk(devices@[d].key),
                BootDevice::Ethernet(devices@[n].key),
            ],
            (None, _, _) => r matches Err(Error::Vsphere(m)) && m@ == missing_device_message(
                vm_moref@,
                "CD-ROM"@,
            ),
            (Some(_), None, _) => r matches Err(Error::Vsphere(m)) && m@ == missing_device_message(
                vm_moref@,
                "disk"@,
            ),
            (Some(_), Some(_), None) => r matches Err(Error::Vsphere(m)) && m@
                == missing_device_message(vm_moref@, "NIC"@),
        },
{
    let cdrom = match find_cdrom_placement(devices) {
        Some(c) => {
            proof {
                let i = choose|i: int|
                    is_first_of_kind(devices@, DeviceKind::Cdrom, i) && c == (CdromPlacement {
                        key: devices@[i].key,
                        controller_key: devices@[i].controller_key,
                        unit_number: devices@[i].unit_number,
                    });
                lemma_first_where(devices@, of_kind(DeviceKind::Cdrom), i);
            }
            c
        },
        None => {
            proof {
                lemma_first_where_none(devices@, of_kind(DeviceKind::Cdrom));
            }
            return Err(missing_device(vm_moref, "CD-ROM"));
        },
    };
    let disk = match find_disk_key(devices) {
        Some(k) => {
            proof {
                let i = choose|i: int| is_first_of_kind(devices@, DeviceKind::Disk, i) && devices@[i].key == k;
                lemma_first_where(devices@, of_kind(DeviceKind::Disk), i);
            }
            k
        },
        None => {
            proof {
                lemma_first_where_none(devices@, of_kind(DeviceKind::Disk));
            }
            return Err(missing_device(vm_moref, "disk"));
        },
    };
    let nic = match find_first_nic_key(devices) {
        Some(t) => {
            proof {
                let i = choose|i: int|
                    0 <= i < devices.len() && is_nic_kind(devices@[i].kind) && (forall|j: int|
                        0 <= j < i ==> !is_nic_kind(#[trigger] devices@[j].kind)) && t == (
                        devices@[i].key,
                        devices@[i].kind,
                        devices@[i].pci_slot,
                    );
                assert forall|j: int| 0 <= j < i implies !is_nic_device()(#[trigger] devices@[j]) by {
                    assert(!is_nic_kind(devices@[j].kind));
                }
                lemma_first_where(devices@, is_nic_device(), i);
            }
            t.0
        },
        None => {
            proof {
                assert forall|j: int| 0 <= j < devices.len() implies !is_nic_device()(#[trigger] devices@[j]) by {
                    assert(!is_nic_kind(devices@[j].kind));
                }
                lemma_first_where_none(devices@, is_nic_device());
            }
            return Err(missing_device(vm_moref, "NIC"));
        },
    };
    let order = vec![BootDevice::Cdrom, BootDevice::Disk(disk), BootDevice::Ethernet(nic)];
    Ok(BootOrderPlan { cdrom, iso_datastore_path: owned(iso_datastore_path), order })
}

/// The name a power state is shown by.
pub open spec fn power_state_name(p: PowerState) -> Seq<char> {
    match p {
        PowerState::PoweredOn => "PoweredOn"@,
        PowerState::PoweredOff => "PoweredOff"@,
        PowerState::Suspended => "Suspended"@,
    }
}

fn power_state_label(p: PowerState) -> (r: &'static str)
    ensures
        r@ == power_state_name(p),
{
    match p {
        PowerState::PoweredOn => "PoweredOn",
        PowerState::PoweredOff => "PoweredOff",
        PowerState::Suspended => "Suspended",
    }
}

pub open spec fn not_powered_on_message(vm: Seq<char>, state: Seq<char>) -> Seq<char> {
    vm + " did not report poweredOn after PowerOnVM_Task (state: "@ + state + ")"@
}

/// Whether a VM reported running after it was powered on; `observed` is
/// `None` for a state this provider has no name for.
pub fn check_powered_on(vm_moref: &str, observed: Option<PowerState>) -> (r: Result<(), Error>)
    ensures
        observed == Some(PowerState::PoweredOn) ==> r is Ok,
        observed != Some(PowerState::PoweredOn) ==> (r matches Err(Error::Vsphere(m)) && m@
            == not_powered_on_message(
            vm_moref@,
            match observed {
                Some(p) => power_state_name(p),
                None => "Other"@,
            },
        )),
{
    let label = match observed {
        Some(PowerState::PoweredOn) => {
            return Ok(());
        },
        Some(p) => power_state_label(p),
        None => "Other",
    };
    let mut m = owned(vm_moref);
    m.append(" did not report poweredOn after PowerOnVM_Task (state: ");
    m.append(label);
    m.append(")");
    Err(Error::Vsphere(m))
}

pub open spec fn install_timeout_message(vm: Seq<char>, seconds: nat) -> Seq<char> {
    vm + " did not power itself off within "@ + dec(seconds)
        + "s of the unattended Kairos install starting; the cloud-config must set install.poweroff: true and an after-install-chroot identity-wipe stage — the VM was left running for inspection"@
}

/// The failure of an install wait that ran out of looks: the VM is left
/// running, and the message names how long was waited.
pub fn install_wait_timeout(vm_moref: &str, max_attempts: u32) -> (e: Error)
    ensures
        e matches Error::Vsphere(m) && m@ == install_timeout_message(
            vm_moref@,
            (max_attempts * INSTALL_POLL_INTERVAL_SECS) as nat,
        ),
{
    let interval: u64 = INSTALL_POLL_INTERVAL_SECS as u64;
    assert(interval == 5);
    let secs: u64 = max_attempts as u64 * interval;
    let mut m = owned(vm_moref);
    m.append(" did not power itself off within ");
    let s = u64_to_string(secs);
    m.append(s.as_str());
    m.append(
        "s of the unattended Kairos install starting; the cloud-config must set install.poweroff: true and an after-install-chroot identity-wipe stage — the VM was left running for inspection",
    );
    Error::Vsphere(m)
}

// ---------------------------------------------------------------------
// Task polls
// ---------------------------------------------------------------------

/// The state a vCenter task reports.
#[derive(Debug, Clone, Copy, PartialEq, Eq, Structural)]
pub enum TaskState {
    Queued,
    Running,
    Success,
    Error,
}

/// What one look at a task decides.
#[derive(Debug)]
pub enum TaskPoll {
    Done,
    Failed(Error),
    Pending,
}

pub open spec fn task_failed_message(what: Seq<char>, fault: Option<Seq<char>>) -> Seq<char> {
    what + " task failed: "@ + match fault {
        Some(f) => f,
        None => "no fault detail"@,
    }
}

/// One look at a task: done on success, failed (with the fault's text) on
/// error, else still pending.
pub fn task_poll(state: TaskState, fault: Option<String>, what: &str) -> (r: TaskPoll)
    ensures
        state == TaskState::Success ==> r is Done,
        state == TaskState::Error ==> (r matches TaskPoll::Failed(Error::Vsphere(m)) && m@
            == task_failed_message(
            what@,
            match fault {
                Some(f) => Some(f@),
                None => None,
            },
        )),
        (state == TaskState::Queued || state == TaskState::Running) ==> r is Pending,
{
    match state {
        TaskState::Success => TaskPoll::Done,
        TaskState::Error => {
            let mut m = owned(what);
            m.append(" task failed: ");
            match fault {
                Some(f) => m.append(f.as_str()),
                None => m.append("no fault detail"),
            }
            TaskPoll::Failed(Error::Vsphere(m))
        },
        _ => TaskPoll::Pending,
    }
}

pub open spec fn task_timeout_message(what: Seq<char>, task: Seq<char>) -> Seq<char> {
    what + " task "@ + task + " did not complete within "@ + dec(
        (TASK_POLL_MAX_ATTEMPTS * TASK_POLL_INTERVAL_SECS) as nat,
    ) + "s"@
}

/// The failure of a task that did not settle within the allowed looks.
pub fn task_timeout(what: &str, task_moref: &str) -> (e: Error)
    ensures
        e matches Error::Vsphere(m) && m@ == task_timeout_message(what@, task_moref@),
{
    let mut m = owned(what);
    m.append(" task ");
    m.append(task_moref);
    m.append(" did not complete within ");
    let s = u64_to_string(TASK_POLL_MAX_ATTEMPTS * TASK_POLL_INTERVAL_SECS);
    m.append(s.as_str());
    m.append("s");
    Error::Vsphere(m)
}

// ---------------------------------------------------------------------
// A clone
// ---------------------------------------------------------------------

pub open spec fn no_template_nic_message(template: Seq<char>) -> Seq<char> {
    template + ": template has no NIC to reconfigure"@
}

/// The template NIC a clone re-points at its network: the first NIC, with
/// its key, adapter kind and pinned PCI slot.
pub fn template_nic(template_moref: &str, devices: &[DeviceInfo]) -> (r: Result<
    (i32, DeviceKind, Option<i32>),
    Error,
>)
    ensures
        match first_where(devices@, is_nic_device()) {
            Some(i) => r == Ok::<(i32, DeviceKind, Option<i32>), Error>(
                (devices@[i].key, devices@[i].kind, devices@[i].pci_slot),
            ),
            None => r matches Err(Error::Vsphere(m)) && m@ == no_template_nic_message(
                template_moref@,
            ),
        },
{
    match find_first_nic_key(devices) {
        Some(t) => {
            proof {
                let i = choose|i: int|
                    0 <= i < devices.len() && is_nic_kind(devices@[i].kind) && (forall|j: int|
                        0 <= j < i ==> !is_nic_kind(#[trigger] devices@[j].kind)) && t == (
                        devices@[i].key,
                        devices@[i].kind,
                        devices@[i].pci_slot,
                    );
                assert forall|j: int| 0 <= j < i implies !is_nic_device()(#[trigger] devices@[j]) by {
                    assert(!is_nic_kind(devices@[j].kind));
                }
                lemma_first_where(devices@, is_nic_device(), i);
            }
            Ok(t)
        },
        None => {
            proof {
                assert forall|j: int| 0 <= j < devices.len() implies !is_nic_device()(#[trigger] devices@[j]) by {
                    assert(!is_nic_kind(devices@[j].kind));
                }
                lemma_first_where_none(devices@, is_nic_device());
            }
            let mut m = owned(template_moref);
            m.append(": template has no NIC to reconfigure");
            Err(Error::Vsphere(m))
        },
    }
}

pub open spec fn keyed(key: Seq<char>) -> spec_fn((String, Option<String>)) -> bool {
    |e: (String, Option<String>)| e.0@ == key
}

/// The template's own first-NIC PCI slot entry, carried into a clone: the
/// value of the first ExtraConfig entry under that key, when it is a
/// string (`None` stands for a value of any other type).
pub fn template_pci_slot_number(extra_config: &[(String, Option<String>)]) -> (r: Option<String>)
    ensures
        match first_where(extra_config@, keyed(FIRST_NIC_PCI_SLOT_KEY@)) {
            Some(i) => r == extra_config@[i].1,
            None => r is None,
        },
{
    let ghost p = keyed(FIRST_NIC_PCI_SLOT_KEY@);
    let mut i: usize = 0;
    while i < extra_config.len() && !str_eq(extra_config[i].0.as_str(), FIRST_NIC_PCI_SLOT_KEY)
        invariant
            i <= extra_config.len(),
            p == keyed(FIRST_NIC_PCI_SLOT_KEY@),
            forall|j: int| 0 <= j < i ==> !p(#[trigger] extra_config@[j]),
        decreases extra_config.len() - i,
    {
        i += 1;
    }
    if i < extra_config.len() {
        proof {
            lemma_first_where(extra_config@, p, i as int);
        }
        match &extra_config[i].1 {
            Some(v) => Some(v.clone()),
            None => None,
        }
    } else {
        proof {
            lemma_first_where_none(extra_config@, p);
        }
        None
    }
}

/// The ExtraConfig a clone is created with: the request's pairs, then the
/// template's first-NIC PCI slot when it had one.
pub fn clone_extra_config(req: &CloneVmRequest, carried_pci_slot: Option<String>) -> (r: Vec<
    (String, String),
>)
    ensures
        match carried_pci_slot {
            Some(s) => r@.len() == req.extra_config@.len() + 1 && r@.take(
                req.extra_config@.len() as int,
            ) == req.extra_config@ && r@.last().0@ == FIRST_NIC_PCI_SLOT_KEY@ && r@.last().1 == s,
            None => r@ == req.extra_config@,
        },
{
    let mut out = copy_vec(&req.extra_config);
    match carried_pci_slot {
        Some(s) => {
            out.push((owned(FIRST_NIC_PCI_SLOT_KEY), s));
            assert(out@.take(req.extra_config@.len() as int) =~= req.extra_config@);
        },
        None => {},
    }
    out
}

// ---------------------------------------------------------------------
// Folders
// ---------------------------------------------------------------------

pub open spec fn non_empty_segment() -> spec_fn(Seq<char>) -> bool {
    |s: Seq<char>| s.len() > 0
}

/// The folder names a slash-separated path walks through, empty segments
/// (doubled, leading or trailing slashes) skipped.
pub fn folder_segments(path: &str) -> (r: Vec<String>)
    ensures
        strings_view(r@) == split_on(path@, '/').filter(non_empty_segment()),
{
    let pieces = split_char(path, '/');
    let ghost all = strings_view(pieces@);
    let ghost p = non_empty_segment();
    let mut out: Vec<String> = Vec::new();
    let mut i: usize = 0;
    while i < pieces.len()
        invariant
            i <= pieces.len(),
            all == strings_view(pieces@),
            p == non_empty_segment(),
            strings_view(out@) == all.take(i as int).filter(p),
        decreases pieces.len() - i,
    {
        proof {
            reveal(Seq::filter);
            assert(all.take(i + 1).drop_last() =~= all.take(i as int));
            assert(all.take(i + 1).last() == pieces@[i as int]@);
        }
        let ghost before = out@;
        if chars_of(pieces[i].as_str()).len() > 0 {
            out.push(pieces[i].clone());
            proof {
                assert(strings_view(out@) =~= strings_view(before).push(pieces@[i as int]@));
            }
        }
        i += 1;
    }
    proof {
        assert(all.take(pieces.len() as int) =~= all);
    }
    out
}

} // verus!
