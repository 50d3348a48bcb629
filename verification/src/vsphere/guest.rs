//! Whether the guest OS inside a template VM has finished installing.
//!
//! The installer announces completion by setting a guestinfo key; a guest
//! that has never announced is "not yet", and once installed is observed
//! the answer never goes back.
use vstd::prelude::*;
use crate::text::{str_eq, trim, trimmed};
use crate::vsphere::api::PowerState;

verus! {

/// The guestinfo key the installer writes its phase to.
pub const PHASE_KEY: &'static str = "guestinfo.banlieue.phase";

/// The phase value that means the install finished.
pub const PHASE_INSTALLED: &'static str = "installed";

/// What one look at a VM's guestinfo says.
#[derive(Debug, Clone, Copy, PartialEq, Eq, Structural)]
pub enum GuestProbe {
    /// The VM is not powered on, so the guest was not asked.
    NotEvaluated,
    /// The guest is running and has not announced completion.
    NotAnnounced,
    /// The guest announced that the install finished.
    Installed,
}

impl GuestProbe {
    pub fn is_installed(self) -> (r: bool)
        ensures
            r == (self == GuestProbe::Installed),
    {
        match self {
            GuestProbe::Installed => true,
            _ => false,
        }
    }
}

/// The probe result for a phase value: installed exactly when the value,
/// trimmed of whitespace, is `installed`.
pub open spec fn classify_spec(value: Option<Seq<char>>) -> GuestProbe {
    match value {
        Some(v) => if trimmed(v) == PHASE_INSTALLED@ {
            GuestProbe::Installed
        } else {
            GuestProbe::NotAnnounced
        },
        None => GuestProbe::NotAnnounced,
    }
}

pub open spec fn opt_str_view(o: Option<&str>) -> Option<Seq<char>> {
    match o {
        Some(s) => Some(s@),
        None => None,
    }
}

/// Classify the phase value read from guestinfo (`None` when unset).
pub fn classify(value: Option<&str>) -> (r: GuestProbe)
    ensures
        r == classify_spec(opt_str_view(value)),
{
    match value {
        Some(v) => {
            let t = trim(v);
            if str_eq(t.as_str(), PHASE_INSTALLED) {
                GuestProbe::Installed
            } else {
                GuestProbe::NotAnnounced
            }
        },
        None => GuestProbe::NotAnnounced,
    }
}

/// Whether the guest has to be asked at all: only a powered-on VM's guest
/// can announce anything.
pub fn guest_needs_asking(power_state: PowerState) -> (r: bool)
    ensures
        r == (power_state == PowerState::PoweredOn),
{
    match power_state {
        PowerState::PoweredOn => true,
        _ => false,
    }
}

/// The probe result for a VM in `power_state` whose phase value is `value`
/// (read only when the VM is powered on).
pub fn probe_outcome(power_state: PowerState, value: Option<&str>) -> (r: GuestProbe)
    ensures
        r == if power_state == PowerState::PoweredOn {
            classify_spec(opt_str_view(value))
        } else {
            GuestProbe::NotEvaluated
        },
{
    if !guest_needs_asking(power_state) {
        return GuestProbe::NotEvaluated;
    }
    classify(value)
}

/// The recorded "guest installed" flag after one more observation: it
/// starts at the first observation and, once true, stays true.
pub fn sticky_guest_installed(previous: Option<bool>, observed: bool) -> (r: Option<bool>)
    ensures
        r == if previous == Some(true) {
            Some(true)
        } else {
            Some(observed)
        },
{
    match previous {
        Some(true) => Some(true),
        _ => Some(observed),
    }
}

/// Whether to look again soon: only while a running guest has not yet
/// announced completion.
pub fn should_poll_soon(guest: GuestProbe) -> (r: bool)
    ensures
        r == (guest == GuestProbe::NotAnnounced),
{
    match guest {
        GuestProbe::NotAnnounced => true,
        _ => false,
    }
}

/// The flag after a run of observations.
pub open spec fn sticky_after(previous: Option<bool>, observations: Seq<bool>) -> Option<bool>
    decreases observations.len(),
{
    if observations.len() == 0 {
        previous
    } else {
        let p = sticky_after(previous, observations.drop_last());
        if p == Some(true) {
            Some(true)
        } else {
            Some(observations.last())
        }
    }
}

/// Once installed has been recorded, no later observation takes it back;
/// and after any observation the flag is installed if some observation was.
pub proof fn lemma_sticky_never_reverts(previous: Option<bool>, observations: Seq<bool>)
    ensures
        previous == Some(true) ==> sticky_after(previous, observations) == Some(true),
        observations.contains(true) ==> sticky_after(previous, observations) == Some(true),
    decreases observations.len(),
{
    if observations.len() > 0 {
        let init = observations.drop_last();
        lemma_sticky_never_reverts(previous, init);
        if observations.contains(true) && observations.last() != true {
            let i = choose|i: int| 0 <= i < observations.len() && observations[i] == true;
            assert(init[i] == true);
        }
    }
}

} // verus!
