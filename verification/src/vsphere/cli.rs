//! The settings of `banlieue provider vsphere` and what is derived from
//! them: the leader lease, the scope of the `Provider` watch, and which
//! `VMImage` an import Job belongs to.
use vstd::prelude::*;
use crate::sdk::leader::{
    LeaderConfig, Period, DEFAULT_LEASE_DURATION_SECS, DEFAULT_RENEW_PERIOD_SECS,
    DEFAULT_RETRY_PERIOD_SECS,
};
use crate::str_map::StrMap;
use crate::text::owned;
use crate::vsphere::api::{DiskController, DiskProvisioning, Firmware, InstallMode};
use crate::vsphere::vmimage::LABEL_VMIMAGE;

verus! {

pub const DEFAULT_HEALTH_PORT: u16 = 8081;

pub const DEFAULT_METRICS_PORT: u16 = 8080;

pub const DEFAULT_LOG_FORMAT: &'static str = "text";

pub const DEFAULT_LEADER_ELECTION_NAMESPACE: &'static str = "banlieue-system";

pub const DEFAULT_LEADER_ELECTION_ID: &'static str = "banlieue-provider-vsphere";

pub const DEFAULT_VSPHERE_TASK_TIMEOUT_SECS: u64 = 600;

/// The image import Jobs run, unless the operator passes its own.
pub const DEFAULT_IMPORT_IMAGE: &'static str = "ghcr.io/firestoned/banlieue:v0.1.0";

/// Namespace of the artifacts PVC and the per-zone import Jobs.
pub const DEFAULT_BUILD_NAMESPACE: &'static str = "banlieue-imagebuild";

/// The read-only identity import Jobs run as.
pub const DEFAULT_IMPORT_SERVICE_ACCOUNT: &'static str = "banlieue-import";

/// Disk size of a template build when none is given, in GiB.
pub const DEFAULT_IMPORT_DISK_GB: i64 = 100;

/// The settings of `banlieue provider vsphere`.
pub struct Cli {
    pub kubeconfig: Option<String>,
    /// One namespace to serve; all when unset.
    pub namespace: Option<String>,
    pub health_port: u16,
    pub metrics_port: u16,
    pub log_format: String,
    pub log_level: Option<String>,
    pub no_leader_elect: bool,
    pub leader_election_namespace: String,
    pub leader_election_id: String,
    pub leader_election_identity: Option<String>,
    pub vsphere_task_timeout_secs: u64,
    /// The one `Provider` to serve; every one of this class when unset.
    pub provider_name: Option<String>,
    pub build_namespace: String,
    pub build_toleration: Vec<String>,
    pub import_image: String,
    pub import_service_account: String,
    pub command: Option<VsphereCommand>,
}

/// A one-shot role instead of the controllers.
pub enum VsphereCommand {
    /// Import a built ISO as a template in one zone, then exit.
    ImageImport(ImportArgs),
}

/// The settings of one per-zone template import.
pub struct ImportArgs {
    pub vmimage: String,
    pub provider: String,
    pub provider_namespace: String,
    pub failure_domain: String,
    /// Path of the ISO on the mounted artifacts volume.
    pub source: String,
    /// A datastore or datastore cluster overriding the zone's storage class.
    pub datastore: Option<String>,
    /// `<algorithm>:<hex>` the ISO must hash to.
    pub checksum: Option<String>,
    pub force_upload: bool,
    pub force_create: bool,
    pub disk_gb: i64,
    pub disk_type: DiskProvisioning,
    pub disk_controller: DiskController,
    /// The template NICs, each in `network=..,adapter=..,pciSlot=..` form.
    pub nic: Vec<String>,
    pub cpus: Option<i32>,
    pub memory_mib: Option<i64>,
    pub firmware: Option<Firmware>,
    pub guest_id: Option<String>,
    /// The folder the per-zone template folders nest under.
    pub root_folder: Option<String>,
    pub install_timeout_seconds: Option<i32>,
    pub install_mode: Option<InstallMode>,
}

impl Cli {
    /// The settings when no flag is given.
    pub fn defaults() -> (r: Self)
        ensures
            r.kubeconfig is None,
            r.namespace is None,
            r.health_port == DEFAULT_HEALTH_PORT,
            r.metrics_port == DEFAULT_METRICS_PORT,
            r.log_format@ == DEFAULT_LOG_FORMAT@,
            r.log_level is None,
            !r.no_leader_elect,
            r.leader_election_namespace@ == DEFAULT_LEADER_ELECTION_NAMESPACE@,
            r.leader_election_id@ == DEFAULT_LEADER_ELECTION_ID@,
            r.leader_election_identity is None,
            r.vsphere_task_timeout_secs == DEFAULT_VSPHERE_TASK_TIMEOUT_SECS,
            r.provider_name is None,
            r.build_namespace@ == DEFAULT_BUILD_NAMESPACE@,
            r.build_toleration@.len() == 0,
            r.import_image@ == DEFAULT_IMPORT_IMAGE@,
            r.import_service_account@ == DEFAULT_IMPORT_SERVICE_ACCOUNT@,
            r.command is None,
    {
        Cli {
            kubeconfig: None,
            namespace: None,
            health_port: DEFAULT_HEALTH_PORT,
            metrics_port: DEFAULT_METRICS_PORT,
            log_format: owned(DEFAULT_LOG_FORMAT),
            log_level: None,
            no_leader_elect: false,
            leader_election_namespace: owned(DEFAULT_LEADER_ELECTION_NAMESPACE),
            leader_election_id: owned(DEFAULT_LEADER_ELECTION_ID),
            leader_election_identity: None,
            vsphere_task_timeout_secs: DEFAULT_VSPHERE_TASK_TIMEOUT_SECS,
            provider_name: None,
            build_namespace: owned(DEFAULT_BUILD_NAMESPACE),
            build_toleration: Vec::new(),
            import_image: owned(DEFAULT_IMPORT_IMAGE),
            import_service_account: owned(DEFAULT_IMPORT_SERVICE_ACCOUNT),
            command: None,
        }
    }
}

/// The leader lease these settings name: the configured namespace and
/// lease, the configured identity (else `fallback_identity`, the pod's own
/// name), and the default timings.
pub fn build_leader_config(cli: &Cli, fallback_identity: &str) -> (r: LeaderConfig)
    ensures
        r.namespace@ == cli.leader_election_namespace@,
        r.lease_name@ == cli.leader_election_id@,
        r.identity@ == match cli.leader_election_identity {
            Some(i) => i@,
            None => fallback_identity@,
        },
        r.lease_duration == Period::from_secs_spec(DEFAULT_LEASE_DURATION_SECS),
        r.renew_period == Period::from_secs_spec(DEFAULT_RENEW_PERIOD_SECS),
        r.retry_period == Period::from_secs_spec(DEFAULT_RETRY_PERIOD_SECS),
{
    let identity = match &cli.leader_election_identity {
        Some(i) => i.clone(),
        None => owned(fallback_identity),
    };
    LeaderConfig::new(
        cli.leader_election_namespace.as_str(),
        cli.leader_election_id.as_str(),
        identity,
    )
}

/// The field selector that narrows the `Provider` watch to the one served
/// Provider; none when every Provider is served.
pub fn provider_watch_config(provider_name: Option<&str>) -> (r: Option<String>)
    ensures
        match provider_name {
            Some(n) => r matches Some(f) && f@ == "metadata.name="@ + n@,
            None => r is None,
        },
{
    match provider_name {
        Some(n) => {
            let mut f = owned("metadata.name=");
            f.append(n);
            Some(f)
        },
        None => None,
    }
}

/// The `VMImage` an import Job belongs to: the value of its image label;
/// none for a Job without it.
pub fn vmimage_ref_from_job(labels: Option<&StrMap<String>>) -> (r: Option<String>)
    ensures
        match labels {
            Some(l) => if l@.contains_key(LABEL_VMIMAGE@) {
                r == Some(l@[LABEL_VMIMAGE@])
            } else {
                r is None
            },
            None => r is None,
        },
{
    match labels {
        Some(l) => match l.get(LABEL_VMIMAGE) {
            Some(v) => Some(v.clone()),
            None => None,
        },
        None => None,
    }
}

} // verus!
