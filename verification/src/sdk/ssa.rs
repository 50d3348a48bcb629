//! Field-manager names under which server-side apply patches are sent.
use vstd::prelude::*;

verus! {

/// The lifecycle controller.
pub const FIELD_MANAGER_CONTROLLER: &'static str = "banlieue.io/controller";

/// The vSphere provider.
pub const FIELD_MANAGER_PROVIDER_VSPHERE: &'static str = "banlieue.io/provider-vsphere";

/// The Proxmox provider.
pub const FIELD_MANAGER_PROVIDER_PROXMOX: &'static str = "banlieue.io/provider-proxmox";

/// The libvirt provider.
pub const FIELD_MANAGER_PROVIDER_LIBVIRT: &'static str = "banlieue.io/provider-libvirt";

} // verus!
