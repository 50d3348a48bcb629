//! The `VMImage` reconciler's decisions: which image source is this
//! provider's, whether the build artifact can be imported, what each
//! per-zone import Job is called and runs, and how Job and lookup outcomes
//! become status rows.
use vstd::prelude::*;
use crate::sdk::osartifact::{owner_references, OwnerReference};
use crate::sdk::reconciler::{requeue_default, requeue_long, Requeue, REQUEUE_DEFAULT_SECS, REQUEUE_LONG_SECS};
use crate::sdk::scheduling::{copy_tolerations, toleration_models, string_values, Toleration};
use crate::seq_util::{first_where, lemma_first_where, lemma_first_where_none};
use crate::str_map::StrMap;
use crate::text::{
    debug_str, eq_ignore_case, int_dec, int_to_string, join, join_strings, lower_seq, owned,
    quoted, str_eq, strings_view, strs_view,
};
use crate::vsphere::api::{
    disk_controller_name, disk_provisioning_name, firmware_name, install_mode_name,
    DiskController, DiskProvisioning, Firmware, InstallMode, VMImageTemplateNic,
};
use crate::vsphere::k8s_name::{collision_safe_name, dns_label, safe_name};
use crate::vsphere::nic_flag::{nic_flag_text, nic_model, serialize_nic_flag, NicModel};
use crate::vsphere::provider::{ATTR_DATACENTER, PROVIDER_CLASS_NAME};
use crate::vsphere::api::{FailureDomain, Provider};
use crate::vsphere::client::{Datacenter, Duplicate};

verus! {

/// Annotation asking for a forced re-import (truthy: `true`, any case).
pub const ANNOTATION_FORCE_REIMPORT: &'static str = "banlieue.io/force-reimport";

/// Label an import Job carries naming its `VMImage`.
pub const LABEL_VMIMAGE: &'static str = "banlieue.io/vmimage";

/// Label an import Job carries naming its failure domain.
pub const LABEL_FAILURE_DOMAIN: &'static str = "banlieue.io/failure-domain";

/// Finalizer set on every `VMImage` this provider reconciles.
pub const VM_IMAGE_FINALIZER: &'static str = "banlieue.io/vmimage";

/// Status reasons; operators match on them.
pub const REASON_RECONCILED: &'static str = "Reconciled";

pub const REASON_TEMPLATE_NOT_FOUND: &'static str = "TemplateNotFound";

pub const REASON_SECRET_UNAVAILABLE: &'static str = "SecretUnavailable";

pub const REASON_CONNECT_FAILED: &'static str = "ConnectFailed";

pub const REASON_LOOKUP_FAILED: &'static str = "LookupFailed";

pub const REASON_NO_VSPHERE_SOURCE: &'static str = "NoVSphereSource";

pub const REASON_BUILD_PENDING: &'static str = "BuildPending";

pub const REASON_BUILD_FAILED: &'static str = "BuildFailed";

pub const REASON_NO_FAILURE_DOMAINS: &'static str = "NoFailureDomains";

pub const REASON_IMPORTING: &'static str = "Importing";

pub const REASON_IMPORT_FAILED: &'static str = "ImportFailed";

pub const REASON_WRONG_ARTIFACT_KIND: &'static str = "WrongArtifactKind";

pub const REASON_CONTENT_LIBRARY_NOT_IMPLEMENTED: &'static str = "ContentLibraryNotImplemented";

pub const REASON_UNSUPPORTED_SOURCE_KIND: &'static str = "UnsupportedSourceKind";

// ---------------------------------------------------------------------
// Image sources
// ---------------------------------------------------------------------

#[derive(Debug, Clone, Copy, PartialEq, Eq, Structural)]
pub enum ImageSourceKind {
    Template,
    Url,
    BackingFile,
}

/// One `VMImage.spec.sources[]` entry.
#[derive(Debug, Clone, PartialEq, Eq)]
pub struct ImageSource {
    pub provider_class: String,
    pub kind: ImageSourceKind,
    pub reference: String,
}

pub open spec fn is_vsphere_source(s: ImageSource) -> bool {
    s.provider_class@ == PROVIDER_CLASS_NAME@ && (s.kind == ImageSourceKind::Template || s.kind
        == ImageSourceKind::Url)
}

/// The first vSphere source of kind `Template` or `Url`.
pub fn find_vsphere_source(sources: &[ImageSource]) -> (r: Option<&ImageSource>)
    ensures
        match r {
            Some(s) => first_where(sources@, |x: ImageSource| is_vsphere_source(x)) matches Some(i)
                && *s == sources@[i],
            None => first_where(sources@, |x: ImageSource| is_vsphere_source(x)) is None,
        },
{
    let ghost p = |x: ImageSource| is_vsphere_source(x);
    let mut i: usize = 0;
    while i < sources.len()
        invariant
            i <= sources.len(),
            p == (|x: ImageSource| is_vsphere_source(x)),
            forall|j: int| 0 <= j < i ==> !p(#[trigger] sources@[j]),
        decreases sources.len() - i,
    {
        let s = &sources[i];
        let kind_ok = match s.kind {
            ImageSourceKind::Template | ImageSourceKind::Url => true,
            ImageSourceKind::BackingFile => false,
        };
        if kind_ok && str_eq(s.provider_class.as_str(), PROVIDER_CLASS_NAME) {
            proof {
                lemma_first_where(sources@, p, i as int);
            }
            return Some(s);
        }
        i += 1;
    }
    proof {
        lemma_first_where_none(sources@, p);
    }
    None
}

// ---------------------------------------------------------------------
// Build artifact gate
// ---------------------------------------------------------------------

#[derive(Debug, Clone, Copy, PartialEq, Eq, Structural)]
pub enum BuildArtifactPhase {
    Pending,
    Building,
    Ready,
    Failed,
}

#[derive(Debug, Clone, Copy, PartialEq, Eq, Structural)]
pub enum BuildArtifactKind {
    Iso,
    CloudImage,
}

pub open spec fn phase_debug(p: BuildArtifactPhase) -> Seq<char> {
    match p {
        BuildArtifactPhase::Pending => "Pending"@,
        BuildArtifactPhase::Building => "Building"@,
        BuildArtifactPhase::Ready => "Ready"@,
        BuildArtifactPhase::Failed => "Failed"@,
    }
}

pub open spec fn kind_debug(k: BuildArtifactKind) -> Seq<char> {
    match k {
        BuildArtifactKind::Iso => "Iso"@,
        BuildArtifactKind::CloudImage => "CloudImage"@,
    }
}

fn phase_debug_str(p: BuildArtifactPhase) -> (r: &'static str)
    ensures
        r@ == phase_debug(p),
{
    match p {
        BuildArtifactPhase::Pending => "Pending",
        BuildArtifactPhase::Building => "Building",
        BuildArtifactPhase::Ready => "Ready",
        BuildArtifactPhase::Failed => "Failed",
    }
}

fn kind_debug_str(k: BuildArtifactKind) -> (r: &'static str)
    ensures
        r@ == kind_debug(k),
{
    match k {
        BuildArtifactKind::Iso => "Iso",
        BuildArtifactKind::CloudImage => "CloudImage",
    }
}

/// `VMImage.status.buildArtifact`, as written by the image builder.
#[derive(Debug, Clone, PartialEq, Eq)]
pub struct BuildArtifactStatus {
    pub phase: BuildArtifactPhase,
    pub kind: BuildArtifactKind,
    pub message: Option<String>,
    pub file: Option<String>,
    pub pvc_name: Option<String>,
    pub checksum: Option<String>,
    pub os_artifact_ref: String,
    pub os_artifact_uid: Option<String>,
}

/// Why an artifact cannot be imported yet, as (reason, message); `None`
/// when it can.
pub open spec fn gate_spec(a: Option<BuildArtifactStatus>) -> Option<(Seq<char>, Seq<char>)> {
    match a {
        None => Some(
            (
                REASON_BUILD_PENDING@,
                "waiting for banlieue-imagebuilder (VMImage.status.buildArtifact not set yet)"@,
            ),
        ),
        Some(a) => match a.phase {
            BuildArtifactPhase::Pending | BuildArtifactPhase::Building => Some(
                (REASON_BUILD_PENDING@, "ISO build in progress ("@ + phase_debug(a.phase) + ")"@),
            ),
            BuildArtifactPhase::Failed => Some(
                (
                    REASON_BUILD_FAILED@,
                    match a.message {
                        Some(m) => m@,
                        None => "ISO build failed"@,
                    },
                ),
            ),
            BuildArtifactPhase::Ready => if a.kind != BuildArtifactKind::Iso {
                Some(
                    (
                        REASON_WRONG_ARTIFACT_KIND@,
                        "buildArtifact.kind is "@ + kind_debug(a.kind)
                            + ", but the vSphere provider imports only iso artifacts"@,
                    ),
                )
            } else {
                None
            },
        },
    }
}

/// The artifact, when it is a ready ISO the importer can use; else the
/// reason and message to report.
pub fn gate_on_build_artifact(build_artifact: Option<&BuildArtifactStatus>) -> (r: Result<
    &BuildArtifactStatus,
    (&'static str, String),
>)
    ensures
        match r {
            Ok(a) => build_artifact == Some(a) && gate_spec(Some(*a)) is None,
            Err(e) => gate_spec(
                match build_artifact {
                    Some(a) => Some(*a),
                    None => None,
                },
            ) == Some((e.0@, e.1@)),
        },
{
    let a = match build_artifact {
        Some(a) => a,
        None => {
            return Err(
                (
                    REASON_BUILD_PENDING,
                    owned(
                        "waiting for banlieue-imagebuilder (VMImage.status.buildArtifact not set yet)",
                    ),
                ),
            );
        },
    };
    match a.phase {
        BuildArtifactPhase::Pending | BuildArtifactPhase::Building => {
            let mut m = owned("ISO build in progress (");
            m.append(phase_debug_str(a.phase));
            m.append(")");
            Err((REASON_BUILD_PENDING, m))
        },
        BuildArtifactPhase::Failed => {
            let m = match &a.message {
                Some(m) => m.clone(),
                None => owned("ISO build failed"),
            };
            Err((REASON_BUILD_FAILED, m))
        },
        BuildArtifactPhase::Ready => {
            match a.kind {
                BuildArtifactKind::Iso => Ok(a),
                _ => {
                    let mut m = owned("buildArtifact.kind is ");
                    m.append(kind_debug_str(a.kind));
                    m.append(", but the vSphere provider imports only iso artifacts");
                    Err((REASON_WRONG_ARTIFACT_KIND, m))
                },
            }
        },
    }
}

// ---------------------------------------------------------------------
// Forced re-import and template settings
// ---------------------------------------------------------------------

/// Whether the annotations ask for a forced re-import.
pub open spec fn force_reimport_spec(annotations: Option<Map<Seq<char>, String>>) -> bool {
    match annotations {
        Some(m) => m.contains_key(ANNOTATION_FORCE_REIMPORT@) && lower_seq(
            m[ANNOTATION_FORCE_REIMPORT@]@,
        ) == lower_seq("true"@),
        None => false,
    }
}

pub fn force_reimport_requested(annotations: Option<&StrMap<String>>) -> (r: bool)
    ensures
        r == force_reimport_spec(
            match annotations {
                Some(m) => Some(m@),
                None => None,
            },
        ),
{
    match annotations {
        Some(m) => match m.get(ANNOTATION_FORCE_REIMPORT) {
            Some(v) => eq_ignore_case(v.as_str(), "true"),
            None => false,
        },
        None => false,
    }
}

/// `spec.template.disk`.
#[derive(Debug, Clone, Copy, PartialEq, Eq, Structural)]
pub struct VMImageTemplateDisk {
    pub size: Option<i64>,
    pub provisioning: DiskProvisioning,
    pub controller: DiskController,
}

/// `spec.template`: how a template is built from an ISO.
#[derive(Debug, PartialEq, Eq)]
pub struct VMImageTemplate {
    pub root_folder: Option<String>,
    pub network: Vec<VMImageTemplateNic>,
    pub disk: Option<VMImageTemplateDisk>,
    pub cpus: Option<i32>,
    pub memory_mib: Option<i64>,
    pub firmware: Option<Firmware>,
    pub guest_id: Option<String>,
    pub force_upload: bool,
    pub force_create: bool,
    pub install_timeout_seconds: Option<i32>,
    pub install_mode: InstallMode,
    pub retain_on_delete: bool,
}

/// What drives one pass of per-zone imports: the force knobs and the
/// template settings, read off a `VMImage`.
#[derive(Debug, PartialEq, Eq)]
pub struct ImportForce {
    pub reimport: bool,
    pub upload: bool,
    pub create: bool,
    pub nics: Vec<VMImageTemplateNic>,
    pub disk: Option<VMImageTemplateDisk>,
    pub cpus: Option<i32>,
    pub memory_mib: Option<i64>,
    pub firmware: Option<Firmware>,
    pub guest_id: Option<String>,
    pub root_folder: Option<String>,
    pub install_timeout_seconds: Option<i32>,
    pub install_mode: Option<InstallMode>,
}

pub open spec fn opt_string_view(o: Option<String>) -> Option<Seq<char>> {
    match o {
        Some(s) => Some(s@),
        None => None,
    }
}

pub open spec fn nic_models_of(nics: Seq<VMImageTemplateNic>) -> Seq<NicModel> {
    nics.map_values(|n: VMImageTemplateNic| nic_model(n))
}

fn copy_opt_string(o: &Option<String>) -> (r: Option<String>)
    ensures
        opt_string_view(r) == opt_string_view(*o),
{
    match o {
        Some(s) => Some(s.clone()),
        None => None,
    }
}

fn copy_nics(nics: &Vec<VMImageTemplateNic>) -> (r: Vec<VMImageTemplateNic>)
    ensures
        nic_models_of(r@) == nic_models_of(nics@),
{
    let mut out: Vec<VMImageTemplateNic> = Vec::new();
    let mut i: usize = 0;
    while i < nics.len()
        invariant
            i <= nics.len(),
            nic_models_of(out@) == nic_models_of(nics@).take(i as int),
        decreases nics.len() - i,
    {
        let n = &nics[i];
        let c = VMImageTemplateNic {
            network: copy_opt_string(&n.network),
            adapter: n.adapter,
            pci_slot: n.pci_slot,
        };
        let ghost before = out@;
        out.push(c);
        proof {
            assert(nic_models_of(out@) =~= nic_models_of(before).push(nic_model(nics@[i as int])));
            assert(nic_models_of(nics@).take(i as int + 1) =~= nic_models_of(nics@).take(i as int).push(
                nic_model(nics@[i as int]),
            ));
        }
        i += 1;
    }
    proof {
        assert(nic_models_of(nics@).take(nics.len() as int) =~= nic_models_of(nics@));
    }
    out
}

impl ImportForce {
    /// The force knobs and template settings of a `VMImage` with these
    /// annotations and `spec.template`: no template means nothing forced and
    /// every setting unset.
    pub fn from_image(annotations: Option<&StrMap<String>>, template: Option<&VMImageTemplate>) -> (r:
        Self)
        ensures
            r.reimport == force_reimport_spec(
                match annotations {
                    Some(m) => Some(m@),
                    None => None,
                },
            ),
            match template {
                Some(t) => {
                    &&& r.upload == t.force_upload
                    &&& r.create == t.force_create
                    &&& nic_models_of(r.nics@) == nic_models_of(t.network@)
                    &&& r.disk == t.disk
                    &&& r.cpus == t.cpus
                    &&& r.memory_mib == t.memory_mib
                    &&& r.firmware == t.firmware
                    &&& opt_string_view(r.guest_id) == opt_string_view(t.guest_id)
                    &&& opt_string_view(r.root_folder) == opt_string_view(t.root_folder)
                    &&& r.install_timeout_seconds == t.install_timeout_seconds
                    &&& r.install_mode == Some(t.install_mode)
                },
                None => {
                    &&& !r.upload
                    &&& !r.create
                    &&& r.nics.len() == 0
                    &&& r.disk is None
                    &&& r.cpus is None
                    &&& r.memory_mib is None
                    &&& r.firmware is None
                    &&& r.guest_id is None
                    &&& r.root_folder is None
                    &&& r.install_timeout_seconds is None
                    &&& r.install_mode is None
                },
            },
    {
        let reimport = force_reimport_requested(annotations);
        match template {
            Some(t) => ImportForce {
                reimport,
                upload: t.force_upload,
                create: t.force_create,
                nics: copy_nics(&t.network),
                disk: t.disk,
                cpus: t.cpus,
                memory_mib: t.memory_mib,
                firmware: t.firmware,
                guest_id: copy_opt_string(&t.guest_id),
                root_folder: copy_opt_string(&t.root_folder),
                install_timeout_seconds: t.install_timeout_seconds,
                install_mode: Some(t.install_mode),
            },
            None => ImportForce {
                reimport,
                upload: false,
                create: false,
                nics: Vec::new(),
                disk: None,
                cpus: None,
                memory_mib: None,
                firmware: None,
                guest_id: None,
                root_folder: None,
                install_timeout_seconds: None,
                install_mode: None,
            },
        }
    }
}

// ---------------------------------------------------------------------
// Import Jobs
// ---------------------------------------------------------------------

/// The fields that identify one per-zone import Job.
pub struct ImportJobIdentity<'a> {
    pub image: &'a str,
    pub provider: &'a str,
    pub failure_domain: &'a str,
}

/// The deterministic, DNS-label, collision-safe name of one
/// (image, provider, failure domain) import Job.
pub fn import_job_name(id: &ImportJobIdentity) -> (r: String)
    ensures
        r@ == safe_name(seq!["import"@, id.image@, id.provider@, id.failure_domain@]),
        dns_label(r@),
{
    let parts: Vec<&str> = vec!["import", id.image, id.provider, id.failure_domain];
    proof {
        assert(strs_view(parts@) =~= seq!["import"@, id.image@, id.provider@, id.failure_domain@]);
    }
    collision_safe_name(parts.as_slice())
}

/// Everything one per-zone import Job needs.
pub struct ImportJobInputs<'a> {
    pub job_name: &'a str,
    pub namespace: &'a str,
    pub image: &'a str,
    pub service_account: Option<&'a str>,
    pub vmimage: &'a str,
    pub provider_name: &'a str,
    pub provider_namespace: &'a str,
    pub failure_domain: &'a str,
    pub artifact: &'a BuildArtifactStatus,
    pub tolerations: &'a [Toleration],
    pub force_upload: bool,
    pub force_create: bool,
    pub nics: &'a [VMImageTemplateNic],
    pub disk: Option<VMImageTemplateDisk>,
    pub cpus: Option<i32>,
    pub memory_mib: Option<i64>,
    pub firmware: Option<Firmware>,
    pub guest_id: Option<&'a str>,
    pub root_folder: Option<&'a str>,
    pub install_timeout_seconds: Option<i32>,
    pub install_mode: Option<InstallMode>,
}

pub open spec fn opt_pair(flag: Seq<char>, v: Option<Seq<char>>) -> Seq<Seq<char>> {
    match v {
        Some(x) => seq![flag, x],
        None => Seq::empty(),
    }
}

pub open spec fn opt_flag(on: bool, flag: Seq<char>) -> Seq<Seq<char>> {
    if on {
        seq![flag]
    } else {
        Seq::empty()
    }
}

/// One `--nic` pair per declared NIC, in order.
pub open spec fn nic_args(nics: Seq<NicModel>) -> Seq<Seq<char>>
    decreases nics.len(),
{
    if nics.len() == 0 {
        Seq::empty()
    } else {
        nic_args(nics.drop_last()) + seq!["--nic"@, nic_flag_text(nics.last())]
    }
}

pub open spec fn opt_str(o: Option<&str>) -> Option<Seq<char>> {
    match o {
        Some(s) => Some(s@),
        None => None,
    }
}

pub open spec fn disk_args(d: Option<VMImageTemplateDisk>) -> Seq<Seq<char>> {
    match d {
        None => Seq::empty(),
        Some(d) => opt_pair(
            "--disk-gb"@,
            match d.size {
                Some(s) => Some(int_dec(s as int)),
                None => None,
            },
        ) + seq![
            "--disk-type"@,
            disk_provisioning_name(d.provisioning),
            "--disk-controller"@,
            disk_controller_name(d.controller),
        ],
    }
}

/// The fixed head of the import command line: the subcommand, then the
/// image, provider, zone and ISO path.
pub open spec fn head_args(i: ImportJobInputs) -> Seq<Seq<char>> {
    seq![
        "provider"@,
        "vsphere"@,
        "image-import"@,
        "--vmimage"@,
        i.vmimage@,
        "--provider"@,
        i.provider_name@,
        "--provider-namespace"@,
        i.provider_namespace@,
        "--failure-domain"@,
        i.failure_domain@,
        "--source"@,
        "/artifacts/"@ + match i.artifact.file {
            Some(f) => f@,
            None => Seq::empty(),
        },
    ]
}

/// The checksum to verify, then the force flags.
pub open spec fn verify_args(i: ImportJobInputs) -> Seq<Seq<char>> {
    opt_pair("--checksum"@, opt_string_view(i.artifact.checksum)) + opt_flag(
        i.force_upload,
        "--force-upload"@,
    ) + opt_flag(i.force_create, "--force-create"@)
}

/// CPU, memory, firmware and guest type, each when set.
pub open spec fn machine_args(i: ImportJobInputs) -> Seq<Seq<char>> {
    opt_pair(
        "--cpus"@,
        match i.cpus {
            Some(c) => Some(int_dec(c as int)),
            None => None,
        },
    ) + opt_pair(
        "--memory-mib"@,
        match i.memory_mib {
            Some(m) => Some(int_dec(m as int)),
            None => None,
        },
    ) + opt_pair(
        "--firmware"@,
        match i.firmware {
            Some(f) => Some(firmware_name(f)),
            None => None,
        },
    ) + opt_pair("--guest-id"@, opt_str(i.guest_id))
}

/// Folder, install wait and install mode, each when set.
pub open spec fn install_args(i: ImportJobInputs) -> Seq<Seq<char>> {
    opt_pair("--root-folder"@, opt_str(i.root_folder)) + opt_pair(
        "--install-timeout-seconds"@,
        match i.install_timeout_seconds {
            Some(t) => Some(int_dec(t as int)),
            None => None,
        },
    ) + opt_pair(
        "--install-mode"@,
        match i.install_mode {
            Some(m) => Some(install_mode_name(m)),
            None => None,
        },
    )
}

/// The import command line: the fixed head, then each optional setting as
/// a flag (and value) when it is set.
pub open spec fn import_job_args_spec(i: ImportJobInputs) -> Seq<Seq<char>> {
    head_args(i) + verify_args(i) + nic_args(nic_models_of(i.nics@)) + machine_args(i) + disk_args(
        i.disk,
    ) + install_args(i)
}

/// `k` is where `flag` first occurs in `args`.
pub open spec fn is_first_flag(args: Seq<Seq<char>>, flag: Seq<char>, k: int) -> bool {
    &&& 0 <= k < args.len()
    &&& args[k] == flag
    &&& forall|j: int| 0 <= j < k ==> #[trigger] args[j] != flag
}

/// What a command line gives `flag`: the argument right after its first
/// occurrence.
pub open spec fn flag_value(args: Seq<Seq<char>>, flag: Seq<char>) -> Option<Seq<char>> {
    if exists|k: int| is_first_flag(args, flag, k) {
        let k = choose|k: int| is_first_flag(args, flag, k);
        if k + 1 < args.len() {
            Some(args[k + 1])
        } else {
            None
        }
    } else {
        None
    }
}

/// One of the flags that name the image, its Provider and its zone.
pub open spec fn is_identity_flag(v: Seq<char>) -> bool {
    v == "--vmimage"@ || v == "--provider"@ || v == "--provider-namespace"@ || v
        == "--failure-domain"@
}

proof fn lemma_first_flag_unique(args: Seq<Seq<char>>, flag: Seq<char>, k: int)
    requires
        is_first_flag(args, flag, k),
    ensures
        flag_value(args, flag) == (if k + 1 < args.len() {
            Some(args[k + 1])
        } else {
            None::<Seq<char>>
        }),
{
    let c = choose|c: int| is_first_flag(args, flag, c);
    if c < k {
        assert(args[c] != flag);
    } else if k < c {
        assert(args[k] != flag);
    }
}

/// The import Job's command line gives `--vmimage` the image's name,
/// `--provider` the Provider's name, `--provider-namespace` its namespace
/// and `--failure-domain` the zone, when none of those values is itself one
/// of these flags; and in any case each flag is directly followed by its
/// value somewhere on the line.
pub proof fn lemma_import_job_identity_flags(i: ImportJobInputs)
    ensures
        ({
            let a = import_job_args_spec(i);
            &&& exists|k: int| 0 <= k && k + 1 < a.len() && #[trigger] a[k] == "--vmimage"@ && a[k + 1] == i.vmimage@
            &&& exists|k: int| 0 <= k && k + 1 < a.len() && #[trigger] a[k] == "--provider"@ && a[k + 1] == i.provider_name@
            &&& exists|k: int|
                0 <= k && k + 1 < a.len() && #[trigger] a[k] == "--provider-namespace"@ && a[k + 1] == i.provider_namespace@
            &&& exists|k: int|
                0 <= k && k + 1 < a.len() && #[trigger] a[k] == "--failure-domain"@ && a[k + 1] == i.failure_domain@
            &&& exists|k: int|
                0 <= k && k + 1 < a.len() && #[trigger] a[k] == "--source"@ && a[k + 1] == "/artifacts/"@
                    + match i.artifact.file {
                    Some(f) => f@,
                    None => Seq::<char>::empty(),
                }
            &&& a.take(3) == seq!["provider"@, "vsphere"@, "image-import"@]
        }),
        !is_identity_flag(i.vmimage@) && !is_identity_flag(i.provider_name@) && !is_identity_flag(
            i.provider_namespace@,
        ) && !is_identity_flag(i.failure_domain@) ==> {
            let a = import_job_args_spec(i);
            &&& flag_value(a, "--vmimage"@) == Some(i.vmimage@)
            &&& flag_value(a, "--provider"@) == Some(i.provider_name@)
            &&& flag_value(a, "--provider-namespace"@) == Some(i.provider_namespace@)
            &&& flag_value(a, "--failure-domain"@) == Some(i.failure_domain@)
        },
{
    let a = import_job_args_spec(i);
    let h = head_args(i);
    assert(a == h + (verify_args(i) + nic_args(nic_models_of(i.nics@)) + machine_args(i) + disk_args(
        i.disk,
    ) + install_args(i))) by {
        assert(a =~= h + (verify_args(i) + nic_args(nic_models_of(i.nics@)) + machine_args(i)
            + disk_args(i.disk) + install_args(i)));
    }
    assert forall|k: int| 0 <= k < h.len() implies #[trigger] a[k] == h[k] by {}
    assert(a[3] == "--vmimage"@ && a[4] == i.vmimage@);
    assert(a[5] == "--provider"@ && a[6] == i.provider_name@);
    assert(a[7] == "--provider-namespace"@ && a[8] == i.provider_namespace@);
    assert(a[9] == "--failure-domain"@ && a[10] == i.failure_domain@);
    assert(a[11] == "--source"@ && a[12] == h[12]);
    assert(a.take(3) =~= seq!["provider"@, "vsphere"@, "image-import"@]);
    if !is_identity_flag(i.vmimage@) && !is_identity_flag(i.provider_name@) && !is_identity_flag(
        i.provider_namespace@,
    ) && !is_identity_flag(i.failure_domain@) {
        reveal_strlit("provider");
        reveal_strlit("vsphere");
        reveal_strlit("image-import");
        reveal_strlit("--vmimage");
        reveal_strlit("--provider");
        reveal_strlit("--provider-namespace");
        reveal_strlit("--failure-domain");
        assert(a[0] == "provider"@ && a[1] == "vsphere"@ && a[2] == "image-import"@);
        assert("--provider"@ != "--vmimage"@) by { assert("--provider"@[3] != "--vmimage"@[3]); }
        assert("--provider-namespace"@ != "--provider"@) by {
            assert("--provider-namespace"@.len() != "--provider"@.len());
        }
        assert("--provider-namespace"@ != "--vmimage"@) by {
            assert("--provider-namespace"@.len() != "--vmimage"@.len());
        }
        assert("--failure-domain"@ != "--vmimage"@) by { assert("--failure-domain"@[2] != "--vmimage"@[2]); }
        assert("--failure-domain"@ != "--provider"@) by { assert("--failure-domain"@[2] != "--provider"@[2]); }
        assert("--failure-domain"@ != "--provider-namespace"@) by {
            assert("--failure-domain"@[2] != "--provider-namespace"@[2]);
        }
        assert(is_first_flag(a, "--vmimage"@, 3));
        assert(is_first_flag(a, "--provider"@, 5));
        assert(is_first_flag(a, "--provider-namespace"@, 7));
        assert(is_first_flag(a, "--failure-domain"@, 9));
        lemma_first_flag_unique(a, "--vmimage"@, 3);
        lemma_first_flag_unique(a, "--provider"@, 5);
        lemma_first_flag_unique(a, "--provider-namespace"@, 7);
        lemma_first_flag_unique(a, "--failure-domain"@, 9);
    }
}

fn push_pair(args: &mut Vec<String>, flag: &str, value: String)
    ensures
        strings_view(final(args)@) == strings_view(old(args)@) + seq![flag@, value@],
{
    let ghost before = strings_view(args@);
    args.push(owned(flag));
    args.push(value);
    proof {
        assert(strings_view(args@) =~= before + seq![flag@, value@]);
    }
}

fn push_flag(args: &mut Vec<String>, flag: &str)
    ensures
        strings_view(final(args)@) == strings_view(old(args)@) + seq![flag@],
{
    let ghost before = strings_view(args@);
    args.push(owned(flag));
    proof {
        assert(strings_view(args@) =~= before + seq![flag@]);
    }
}

fn push_head_args(args: &mut Vec<String>, i: &ImportJobInputs)
    ensures
        strings_view(final(args)@) == strings_view(old(args)@) + head_args(*i),
{
    let ghost start = strings_view(args@);
    let base: Vec<&str> = vec![
        "provider",
        "vsphere",
        "image-import",
        "--vmimage",
        i.vmimage,
        "--provider",
        i.provider_name,
        "--provider-namespace",
        i.provider_namespace,
        "--failure-domain",
        i.failure_domain,
        "--source",
    ];
    let mut k: usize = 0;
    while k < base.len()
        invariant
            k <= base.len(),
            strings_view(args@) == start + strs_view(base@).take(k as int),
        decreases base.len() - k,
    {
        let ghost before = strings_view(args@);
        args.push(owned(base[k]));
        proof {
            assert(strings_view(args@) =~= before.push(base@[k as int]@));
            assert(strs_view(base@).take(k as int + 1) =~= strs_view(base@).take(k as int).push(
                base@[k as int]@,
            ));
        }
        k += 1;
    }
    let mut source = owned("/artifacts/");
    match &i.artifact.file {
        Some(f) => source.append(f.as_str()),
        None => {},
    }
    let ghost before_source = strings_view(args@);
    args.push(source);
    proof {
        assert(strs_view(base@).take(base.len() as int) =~= strs_view(base@));
        assert(strings_view(args@) =~= before_source.push(source@));
        assert(strings_view(args@) =~= start + head_args(*i));
    }
}

fn push_verify_args(args: &mut Vec<String>, i: &ImportJobInputs)
    ensures
        strings_view(final(args)@) == strings_view(old(args)@) + verify_args(*i),
{
    let ghost start = strings_view(args@);
    match &i.artifact.checksum {
        Some(c) => push_pair(args, "--checksum", c.clone()),
        None => {},
    }
    let ghost a = strings_view(args@);
    if i.force_upload {
        push_flag(args, "--force-upload");
    }
    let ghost b = strings_view(args@);
    if i.force_create {
        push_flag(args, "--force-create");
    }
    proof {
        assert(strings_view(args@) =~= start + verify_args(*i));
    }
}

fn push_nic_args(args: &mut Vec<String>, nics: &[VMImageTemplateNic])
    ensures
        strings_view(final(args)@) == strings_view(old(args)@) + nic_args(nic_models_of(nics@)),
{
    let ghost s1 = strings_view(args@);
    let mut n: usize = 0;
    proof {
        assert(nic_models_of(nics@).take(0) =~= Seq::<NicModel>::empty());
        assert(s1 =~= s1 + nic_args(nic_models_of(nics@).take(0)));
    }
    while n < nics.len()
        invariant
            n <= nics.len(),
            strings_view(args@) == s1 + nic_args(nic_models_of(nics@).take(n as int)),
        decreases nics.len() - n,
    {
        let f = serialize_nic_flag(&nics[n]);
        let ghost before = strings_view(args@);
        push_pair(args, "--nic", f);
        proof {
            let m = nic_models_of(nics@);
            assert(m.take(n as int + 1).drop_last() =~= m.take(n as int));
            assert(m.take(n as int + 1).last() == nic_model(nics@[n as int]));
            assert(strings_view(args@) =~= s1 + nic_args(m.take(n as int + 1)));
        }
        n += 1;
    }
    proof {
        assert(nic_models_of(nics@).take(nics.len() as int) =~= nic_models_of(nics@));
    }
}

fn push_machine_args(args: &mut Vec<String>, i: &ImportJobInputs)
    ensures
        strings_view(final(args)@) == strings_view(old(args)@) + machine_args(*i),
{
    let ghost start = strings_view(args@);
    if let Some(c) = i.cpus {
        push_pair(args, "--cpus", int_to_string(c as i64));
    }
    if let Some(m) = i.memory_mib {
        push_pair(args, "--memory-mib", int_to_string(m));
    }
    if let Some(f) = i.firmware {
        push_pair(args, "--firmware", owned(f.as_str()));
    }
    if let Some(g) = i.guest_id {
        push_pair(args, "--guest-id", owned(g));
    }
    proof {
        assert(strings_view(args@) =~= start + machine_args(*i));
    }
}

fn push_disk_args(args: &mut Vec<String>, disk: Option<VMImageTemplateDisk>)
    ensures
        strings_view(final(args)@) == strings_view(old(args)@) + disk_args(disk),
{
    let ghost start = strings_view(args@);
    if let Some(d) = disk {
        if let Some(size) = d.size {
            push_pair(args, "--disk-gb", int_to_string(size));
        }
        push_pair(args, "--disk-type", owned(d.provisioning.as_str()));
        push_pair(args, "--disk-controller", owned(d.controller.as_str()));
    }
    proof {
        assert(strings_view(args@) =~= start + disk_args(disk));
    }
}

fn push_install_args(args: &mut Vec<String>, i: &ImportJobInputs)
    ensures
        strings_view(final(args)@) == strings_view(old(args)@) + install_args(*i),
{
    let ghost start = strings_view(args@);
    if let Some(rf) = i.root_folder {
        push_pair(args, "--root-folder", owned(rf));
    }
    if let Some(t) = i.install_timeout_seconds {
        push_pair(args, "--install-timeout-seconds", int_to_string(t as i64));
    }
    if let Some(m) = i.install_mode {
        push_pair(args, "--install-mode", owned(m.as_str()));
    }
    proof {
        assert(strings_view(args@) =~= start + install_args(*i));
    }
}

/// The import Job's command line.
pub fn import_job_args(i: &ImportJobInputs) -> (r: Vec<String>)
    ensures
        strings_view(r@) == import_job_args_spec(*i),
{
    let mut args: Vec<String> = Vec::new();
    proof {
        assert(strings_view(args@) =~= Seq::<Seq<char>>::empty());
    }
    push_head_args(&mut args, i);
    push_verify_args(&mut args, i);
    push_nic_args(&mut args, i.nics);
    push_machine_args(&mut args, i);
    push_disk_args(&mut args, i.disk);
    push_install_args(&mut args, i);
    proof {
        assert(strings_view(args@) =~= import_job_args_spec(*i));
    }
    args
}

/// The labels of an import Job (and its pod).
pub open spec fn import_job_labels_spec(vmimage: Seq<char>, failure_domain: Seq<char>) -> Map<
    Seq<char>,
    Seq<char>,
> {
    Map::empty().insert("app.kubernetes.io/name"@, "banlieue"@).insert(
        "app.kubernetes.io/component"@,
        "vsphere-import"@,
    ).insert(LABEL_VMIMAGE@, vmimage).insert(LABEL_FAILURE_DOMAIN@, failure_domain)
}

pub fn import_job_labels(vmimage: &str, failure_domain: &str) -> (r: StrMap<String>)
    ensures
        string_values(r@) == import_job_labels_spec(vmimage@, failure_domain@),
{
    let mut m: StrMap<String> = StrMap::new();
    m.insert(owned("app.kubernetes.io/name"), owned("banlieue"));
    m.insert(owned("app.kubernetes.io/component"), owned("vsphere-import"));
    m.insert(owned(LABEL_VMIMAGE), owned(vmimage));
    m.insert(owned(LABEL_FAILURE_DOMAIN), owned(failure_domain));
    proof {
        assert(string_values(m@) =~= import_job_labels_spec(vmimage@, failure_domain@));
    }
    m
}

/// A per-zone import Job: runs the image-import command with the artifacts
/// volume mounted read-only at `/artifacts`, is owned by the build
/// artifact when its uid is known, retries once and is cleaned up a day
/// after it finishes.
pub struct ImportJobSpec {
    pub name: String,
    pub namespace: String,
    pub labels: StrMap<String>,
    pub owner_references: Option<Vec<OwnerReference>>,
    pub backoff_limit: i32,
    pub ttl_seconds_after_finished: i32,
    pub container_image: String,
    pub args: Vec<String>,
    pub pvc_claim: String,
    pub service_account: Option<String>,
    pub tolerations: Vec<Toleration>,
    /// The pod is never restarted; a failed import is retried by a new pod.
    pub restart_policy: String,
    pub container_name: String,
    /// The artifact volume: the artifact claim, mounted read-only.
    pub volume_name: String,
    pub mount_path: String,
    pub read_only: bool,
}

pub const IMPORT_RESTART_POLICY: &'static str = "Never";

pub const IMPORT_CONTAINER_NAME: &'static str = "import";

pub const ARTIFACTS_VOLUME: &'static str = "artifacts";

pub const ARTIFACTS_MOUNT_PATH: &'static str = "/artifacts";

pub fn build_import_job(i: &ImportJobInputs) -> (r: ImportJobSpec)
    ensures
        r.name@ == i.job_name@,
        r.namespace@ == i.namespace@,
        string_values(r.labels@) == import_job_labels_spec(i.vmimage@, i.failure_domain@),
        i.artifact.os_artifact_uid is None <==> r.owner_references is None,
        r.backoff_limit == 1,
        r.ttl_seconds_after_finished == 86400,
        r.container_image@ == i.image@,
        strings_view(r.args@) == import_job_args_spec(*i),
        r.pvc_claim@ == match i.artifact.pvc_name {
            Some(p) => p@,
            None => Seq::empty(),
        },
        opt_string_view(r.service_account) == opt_str(i.service_account),
        toleration_models(r.tolerations@) == toleration_models(i.tolerations@),
        r.restart_policy@ == IMPORT_RESTART_POLICY@,
        r.container_name@ == IMPORT_CONTAINER_NAME@,
        r.volume_name@ == ARTIFACTS_VOLUME@,
        r.mount_path@ == ARTIFACTS_MOUNT_PATH@,
        r.read_only,
{
    let owners = owner_references(
        i.artifact.os_artifact_ref.as_str(),
        match &i.artifact.os_artifact_uid {
            Some(u) => Some(u.as_str()),
            None => None,
        },
    );
    ImportJobSpec {
        name: owned(i.job_name),
        namespace: owned(i.namespace),
        labels: import_job_labels(i.vmimage, i.failure_domain),
        owner_references: owners,
        backoff_limit: 1,
        ttl_seconds_after_finished: 86400,
        container_image: owned(i.image),
        args: import_job_args(i),
        pvc_claim: match &i.artifact.pvc_name {
            Some(p) => p.clone(),
            None => String::new(),
        },
        service_account: match i.service_account {
            Some(s) => Some(owned(s)),
            None => None,
        },
        tolerations: copy_tolerations(i.tolerations),
        restart_policy: owned(IMPORT_RESTART_POLICY),
        container_name: owned(IMPORT_CONTAINER_NAME),
        volume_name: owned(ARTIFACTS_VOLUME),
        mount_path: owned(ARTIFACTS_MOUNT_PATH),
        read_only: true,
    }
}

// ---------------------------------------------------------------------
// Status rows
// ---------------------------------------------------------------------

/// One zone's import status.
#[derive(Debug, Clone, PartialEq, Eq)]
pub struct ZoneImageStatus {
    pub name: String,
    pub ready: bool,
    pub resolved_ref: Option<String>,
    pub template_folder: Option<String>,
    pub reason: Option<String>,
    pub message: Option<String>,
}

/// A zone row that is not ready.
pub fn zone_row(failure_domain: &str, ready: bool, reason: &str, message: &str) -> (r: ZoneImageStatus)
    ensures
        r.name@ == failure_domain@,
        r.ready == ready,
        r.resolved_ref is None,
        r.template_folder is None,
        opt_string_view(r.reason) == Some(reason@),
        opt_string_view(r.message) == Some(message@),
{
    ZoneImageStatus {
        name: owned(failure_domain),
        ready,
        resolved_ref: None,
        template_folder: None,
        reason: Some(owned(reason)),
        message: Some(owned(message)),
    }
}

/// The succeeded and failed pod counts of a Job's status.
#[derive(Debug, Clone, Copy, PartialEq, Eq, Structural)]
pub struct JobCounts {
    pub succeeded: Option<i32>,
    pub failed: Option<i32>,
}

pub open spec fn count_of(o: Option<i32>) -> int {
    match o {
        Some(n) => n as int,
        None => 0,
    }
}

/// A zone's row from its import Job: ready with the template's name and
/// folder once a pod succeeded; failed once one failed; importing
/// otherwise.
pub fn zone_from_job(
    failure_domain: &str,
    image_name: &str,
    folder: &str,
    job_name: &str,
    status: Option<JobCounts>,
) -> (r: ZoneImageStatus)
    ensures
        r.name@ == failure_domain@,
        ({
            let (s, f) = match status {
                Some(c) => (count_of(c.succeeded), count_of(c.failed)),
                None => (0, 0),
            };
            if s > 0 {
                &&& r.ready
                &&& opt_string_view(r.resolved_ref) == Some(image_name@)
                &&& opt_string_view(r.template_folder) == Some(folder@)
                &&& opt_string_view(r.reason) == Some(REASON_RECONCILED@)
                &&& r.message is None
            } else if f > 0 {
                &&& !r.ready
                &&& r.resolved_ref is None
                &&& opt_string_view(r.reason) == Some(REASON_IMPORT_FAILED@)
                &&& opt_string_view(r.message) == Some("import Job "@ + job_name@ + " failed"@)
            } else {
                &&& !r.ready
                &&& r.resolved_ref is None
                &&& opt_string_view(r.reason) == Some(REASON_IMPORTING@)
                &&& opt_string_view(r.message) == Some("import Job running"@)
            }
        }),
{
    let (succeeded, failed): (i32, i32) = match status {
        Some(c) => (
            match c.succeeded {
                Some(n) => n,
                None => 0,
            },
            match c.failed {
                Some(n) => n,
                None => 0,
            },
        ),
        None => (0, 0),
    };
    if succeeded > 0 {
        return ZoneImageStatus {
            name: owned(failure_domain),
            ready: true,
            resolved_ref: Some(owned(image_name)),
            template_folder: Some(owned(folder)),
            reason: Some(owned(REASON_RECONCILED)),
            message: None,
        };
    }
    if failed > 0 {
        let mut m = owned("import Job ");
        m.append(job_name);
        m.append(" failed");
        return zone_row(failure_domain, false, REASON_IMPORT_FAILED, m.as_str());
    }
    zone_row(failure_domain, false, REASON_IMPORTING, "import Job running")
}

/// A zone row after an attempt to create its import Job: importing
/// either way, with the API error as the message when the attempt failed
/// (a create racing a still-terminating Job is retried next pass).
pub fn zone_after_create(failure_domain: &str, result: Result<(), &str>) -> (r: ZoneImageStatus)
    ensures
        r.name@ == failure_domain@,
        !r.ready,
        opt_string_view(r.reason) == Some(REASON_IMPORTING@),
        opt_string_view(r.message) == Some(
            match result {
                Ok(()) => "import Job created"@,
                Err(e) => e@,
            },
        ),
{
    match result {
        Ok(()) => zone_row(failure_domain, false, REASON_IMPORTING, "import Job created"),
        Err(e) => zone_row(failure_domain, false, REASON_IMPORTING, e),
    }
}

/// One provider's row of `VMImage.status.perProvider[]`.
#[derive(Debug, Clone, PartialEq, Eq)]
pub struct ImagePerProviderStatus {
    pub provider_name: String,
    pub provider_namespace: String,
    pub ready: bool,
    pub resolved_ref: Option<String>,
    pub reason: Option<String>,
    pub message: Option<String>,
    pub zones: Vec<ZoneImageStatus>,
}

/// A provider row that is not ready, with a reason and message.
pub fn per_provider_failure(
    provider_name: &str,
    provider_namespace: &str,
    reason: &str,
    message: String,
) -> (r: ImagePerProviderStatus)
    ensures
        r.provider_name@ == provider_name@,
        r.provider_namespace@ == provider_namespace@,
        !r.ready,
        r.resolved_ref is None,
        opt_string_view(r.reason) == Some(reason@),
        opt_string_view(r.message) == Some(message@),
        r.zones.len() == 0,
{
    ImagePerProviderStatus {
        provider_name: owned(provider_name),
        provider_namespace: owned(provider_namespace),
        ready: false,
        resolved_ref: None,
        reason: Some(owned(reason)),
        message: Some(message),
        zones: Vec::new(),
    }
}

pub open spec fn zone_reason_is(z: ZoneImageStatus, reason: Seq<char>) -> bool {
    opt_string_view(z.reason) == Some(reason)
}

/// The reason of a URL-source provider row: reconciled when every zone is
/// ready, else import-failed when a zone failed, else importing.
pub open spec fn url_row_reason(zones: Seq<ZoneImageStatus>) -> Seq<char> {
    if forall|i: int| 0 <= i < zones.len() ==> (#[trigger] zones[i]).ready {
        REASON_RECONCILED@
    } else if exists|i: int| 0 <= i < zones.len() && zone_reason_is(#[trigger] zones[i], REASON_IMPORT_FAILED@) {
        REASON_IMPORT_FAILED@
    } else {
        REASON_IMPORTING@
    }
}

/// The provider row for a URL source from its zone rows.
pub fn url_source_row(provider_name: &str, provider_namespace: &str, zones: Vec<ZoneImageStatus>) -> (r:
    ImagePerProviderStatus)
    ensures
        r.provider_name@ == provider_name@,
        r.provider_namespace@ == provider_namespace@,
        r.ready == forall|i: int| 0 <= i < zones.len() ==> (#[trigger] zones@[i]).ready,
        r.resolved_ref is None,
        opt_string_view(r.reason) == Some(url_row_reason(zones@)),
        r.message is None,
        r.zones@ == zones@,
{
    let mut ready = true;
    let mut failed = false;
    let mut i: usize = 0;
    while i < zones.len()
        invariant
            i <= zones.len(),
            ready == forall|j: int| 0 <= j < i ==> (#[trigger] zones@[j]).ready,
            failed == exists|j: int| 0 <= j < i && zone_reason_is(#[trigger] zones@[j], REASON_IMPORT_FAILED@),
        decreases zones.len() - i,
    {
        let z = &zones[i];
        if !z.ready {
            ready = false;
        }
        let is_failed = match &z.reason {
            Some(r) => str_eq(r.as_str(), REASON_IMPORT_FAILED),
            None => false,
        };
        if is_failed {
            assert(zone_reason_is(zones@[i as int], REASON_IMPORT_FAILED@));
            failed = true;
        }
        i += 1;
    }
    let reason = if ready {
        REASON_RECONCILED
    } else if failed {
        REASON_IMPORT_FAILED
    } else {
        REASON_IMPORTING
    };
    ImagePerProviderStatus {
        provider_name: owned(provider_name),
        provider_namespace: owned(provider_namespace),
        ready,
        resolved_ref: None,
        reason: Some(owned(reason)),
        message: None,
        zones,
    }
}

/// `[dc1,dc2] name`: the datacenters a template was found in, then its
/// name.
pub open spec fn resolved_ref_spec(dcs: Seq<Seq<char>>, template_name: Seq<char>) -> Seq<char> {
    "["@ + join(dcs, ","@) + "] "@ + template_name
}

pub fn render_resolved_ref(dcs: &Vec<String>, template_name: &str) -> (r: String)
    ensures
        r@ == resolved_ref_spec(strings_view(dcs@), template_name@),
{
    let mut r = owned("[");
    let j = join_strings(dcs, ",");
    r.append(j.as_str());
    r.append("] ");
    r.append(template_name);
    r
}

/// The outcome of looking a template up in one datacenter.
#[derive(Debug, Clone, PartialEq, Eq)]
pub enum TemplateLookup {
    Found,
    Absent,
    Failed(String),
}

pub open spec fn is_failed_lookup(l: (String, TemplateLookup)) -> bool {
    l.1 is Failed
}

/// The datacenters the template was found in, in lookup order.
pub open spec fn found_in(lookups: Seq<(String, TemplateLookup)>) -> Seq<Seq<char>>
    decreases lookups.len(),
{
    if lookups.len() == 0 {
        Seq::empty()
    } else {
        let rest = found_in(lookups.drop_last());
        if lookups.last().1 is Found {
            rest.push(lookups.last().0@)
        } else {
            rest
        }
    }
}

/// The provider row of a `Template` source from per-datacenter lookups
/// (made in order, stopping at the first failure): no datacenter, or no
/// hit, is template-not-found; a failed lookup is lookup-failed; else the
/// row is ready and names the datacenters that have the template.
pub fn template_status(
    provider_name: &str,
    provider_namespace: &str,
    template_name: &str,
    lookups: &Vec<(String, TemplateLookup)>,
) -> (r: ImagePerProviderStatus)
    ensures
        r.provider_name@ == provider_name@,
        r.provider_namespace@ == provider_namespace@,
        r.zones.len() == 0,
        lookups.len() == 0 ==> !r.ready && opt_string_view(r.reason) == Some(
            REASON_TEMPLATE_NOT_FOUND@,
        ) && opt_string_view(r.message) == Some("no datacenters discovered for this Provider"@),
        lookups.len() > 0 ==> match first_where(lookups@, |l: (String, TemplateLookup)| is_failed_lookup(l)) {
            Some(i) => !r.ready && opt_string_view(r.reason) == Some(REASON_LOOKUP_FAILED@)
                && (lookups@[i].1 matches TemplateLookup::Failed(m) && opt_string_view(r.message)
                == Some(m@)),
            None => if found_in(lookups@).len() == 0 {
                &&& !r.ready
                &&& opt_string_view(r.reason) == Some(REASON_TEMPLATE_NOT_FOUND@)
                &&& opt_string_view(r.message) == Some(
                    "template "@ + debug_str(template_name@) + " not present in any datacenter"@,
                )
            } else {
                &&& r.ready
                &&& opt_string_view(r.resolved_ref) == Some(
                    resolved_ref_spec(found_in(lookups@), template_name@),
                )
                &&& opt_string_view(r.reason) == Some(REASON_RECONCILED@)
                &&& r.message is None
            },
        },
{
    if lookups.len() == 0 {
        return per_provider_failure(
            provider_name,
            provider_namespace,
            REASON_TEMPLATE_NOT_FOUND,
            owned("no datacenters discovered for this Provider"),
        );
    }
    let ghost p = |l: (String, TemplateLookup)| is_failed_lookup(l);
    let mut hits: Vec<String> = Vec::new();
    let mut i: usize = 0;
    proof {
        assert(lookups@.take(0) =~= Seq::<(String, TemplateLookup)>::empty());
    }
    while i < lookups.len()
        invariant
            i <= lookups.len(),
            p == (|l: (String, TemplateLookup)| is_failed_lookup(l)),
            forall|j: int| 0 <= j < i ==> !p(#[trigger] lookups@[j]),
            strings_view(hits@) == found_in(lookups@.take(i as int)),
        decreases lookups.len() - i,
    {
        proof {
            assert(lookups@.take(i as int + 1).drop_last() =~= lookups@.take(i as int));
            assert(lookups@.take(i as int + 1).last() == lookups@[i as int]);
        }
        match &lookups[i].1 {
            TemplateLookup::Failed(m) => {
                proof {
                    lemma_first_where(lookups@, p, i as int);
                }
                return per_provider_failure(
                    provider_name,
                    provider_namespace,
                    REASON_LOOKUP_FAILED,
                    m.clone(),
                );
            },
            TemplateLookup::Found => {
                let ghost before = strings_view(hits@);
                hits.push(lookups[i].0.clone());
                proof {
                    assert(strings_view(hits@) =~= before.push(lookups@[i as int].0@));
                }
            },
            TemplateLookup::Absent => {},
        }
        i += 1;
    }
    proof {
        lemma_first_where_none(lookups@, p);
        assert(lookups@.take(lookups.len() as int) =~= lookups@);
    }
    if hits.len() == 0 {
        let mut m = owned("template ");
        let q = quoted(template_name);
        m.append(q.as_str());
        m.append(" not present in any datacenter");
        return per_provider_failure(provider_name, provider_namespace, REASON_TEMPLATE_NOT_FOUND, m);
    }
    ImagePerProviderStatus {
        provider_name: owned(provider_name),
        provider_namespace: owned(provider_namespace),
        ready: true,
        resolved_ref: Some(render_resolved_ref(&hits, template_name)),
        reason: Some(owned(REASON_RECONCILED)),
        message: None,
        zones: Vec::new(),
    }
}

/// After a pass over every provider: poll again soon while some row is not
/// ready, else back off.
pub fn vmimage_requeue(rows: &Vec<ImagePerProviderStatus>) -> (r: Requeue)
    ensures
        r == if exists|i: int| 0 <= i < rows.len() && !(#[trigger] rows@[i]).ready {
            Requeue::After(REQUEUE_DEFAULT_SECS)
        } else {
            Requeue::After(REQUEUE_LONG_SECS)
        },
{
    let mut i: usize = 0;
    while i < rows.len()
        invariant
            i <= rows.len(),
            forall|j: int| 0 <= j < i ==> (#[trigger] rows@[j]).ready,
        decreases rows.len() - i,
    {
        if !rows[i].ready {
            return requeue_default();
        }
        i += 1;
    }
    requeue_long()
}


// ---------------------------------------------------------------------
// Datacenters and zone templates of a Provider
// ---------------------------------------------------------------------

/// The datacenter a failure domain recorded, if any.
pub open spec fn fd_datacenter(f: FailureDomain) -> Option<Seq<char>> {
    if f.attributes.raw@.contains_key(ATTR_DATACENTER@) {
        Some(f.attributes.raw@[ATTR_DATACENTER@]@)
    } else {
        None
    }
}

/// The distinct datacenters the failure domains recorded, in first-seen
/// order.
pub open spec fn recorded_datacenters(fds: Seq<FailureDomain>) -> Seq<Seq<char>>
    decreases fds.len(),
{
    if fds.len() == 0 {
        Seq::empty()
    } else {
        let rest = recorded_datacenters(fds.drop_last());
        match fd_datacenter(fds.last()) {
            Some(d) => if rest.contains(d) {
                rest
            } else {
                rest.push(d)
            },
            None => rest,
        }
    }
}

fn contains_string(v: &Vec<String>, s: &str) -> (r: bool)
    ensures
        r == strings_view(v@).contains(s@),
{
    let mut i: usize = 0;
    while i < v.len()
        invariant
            i <= v.len(),
            forall|j: int| 0 <= j < i ==> v@[j]@ != s@,
        decreases v.len() - i,
    {
        if str_eq(v[i].as_str(), s) {
            assert(strings_view(v@)[i as int] == s@);
            return true;
        }
        i += 1;
    }
    proof {
        if strings_view(v@).contains(s@) {
            let k = choose|k: int| 0 <= k < strings_view(v@).len() && strings_view(v@)[k] == s@;
            assert(v@[k]@ == s@);
        }
    }
    false
}

/// The datacenters a Provider's status records for its failure domains,
/// each once, in first-seen order.
pub fn status_datacenters(provider: &Provider) -> (r: Vec<String>)
    ensures
        strings_view(r@) == match provider.status {
            Some(s) => recorded_datacenters(s.failure_domains@),
            None => Seq::empty(),
        },
{
    let mut out: Vec<String> = Vec::new();
    match &provider.status {
        None => {
            assert(strings_view(out@) =~= Seq::<Seq<char>>::empty());
        },
        Some(status) => {
            let fds = &status.failure_domains;
            let mut i: usize = 0;
            assert(strings_view(out@) =~= recorded_datacenters(fds@.take(0)));
            while i < fds.len()
                invariant
                    i <= fds.len(),
                    strings_view(out@) == recorded_datacenters(fds@.take(i as int)),
                decreases fds.len() - i,
            {
                proof {
                    assert(fds@.take(i + 1).drop_last() =~= fds@.take(i as int));
                    assert(fds@.take(i + 1).last() == fds@[i as int]);
                }
                match fds[i].attributes.raw.get(ATTR_DATACENTER) {
                    Some(d) => {
                        if !contains_string(&out, d.as_str()) {
                            let ghost before = out@;
                            out.push(d.clone());
                            assert(strings_view(out@) =~= strings_view(before).push(d@));
                        }
                    },
                    None => {},
                }
                i += 1;
            }
            assert(fds@.take(fds.len() as int) =~= fds@);
        },
    }
    out
}

pub open spec fn listed_in(names: Seq<Seq<char>>) -> spec_fn(Datacenter) -> bool {
    |d: Datacenter| names.contains(d.name@)
}

/// The datacenters to look templates up in: every live one when the
/// status records none (the Provider was not reconciled yet), else the live
/// ones the status records, in live order; stale records are dropped.
pub fn select_live_datacenters(recorded: &Vec<String>, live: Vec<Datacenter>) -> (r: Vec<Datacenter>)
    ensures
        r@ == if recorded.len() == 0 {
            live@
        } else {
            live@.filter(listed_in(strings_view(recorded@)))
        },
{
    if recorded.len() == 0 {
        return live;
    }
    let ghost p = listed_in(strings_view(recorded@));
    let mut out: Vec<Datacenter> = Vec::new();
    let mut i: usize = 0;
    while i < live.len()
        invariant
            i <= live.len(),
            p == listed_in(strings_view(recorded@)),
            out@ == live@.take(i as int).filter(p),
        decreases live.len() - i,
    {
        proof {
            reveal(Seq::filter);
            assert(live@.take(i + 1).drop_last() =~= live@.take(i as int));
            assert(live@.take(i + 1).last() == live@[i as int]);
        }
        if contains_string(recorded, live[i].name.as_str()) {
            out.push(live[i].duplicate());
        }
        i += 1;
    }
    assert(live@.take(live.len() as int) =~= live@);
    out
}

pub open spec fn fd_named_as(name: Seq<char>) -> spec_fn(FailureDomain) -> bool {
    |f: FailureDomain| f.name@ == name
}

pub open spec fn dc_named_as(name: Seq<char>) -> spec_fn(Datacenter) -> bool {
    |d: Datacenter| d.name@ == name
}

/// Where a zone's template is destroyed on deletion: the index of the
/// datacenter of the zone's failure domain. `None` (the zone is skipped)
/// when the zone has no template, its failure domain is gone, the failure
/// domain recorded no datacenter, or that datacenter is not live.
pub open spec fn zone_template_dc(zone: ZoneImageStatus, fds: Seq<FailureDomain>, dcs: Seq<Datacenter>) -> Option<int> {
    if zone.resolved_ref is None {
        None
    } else {
        match first_where(fds, fd_named_as(zone.name@)) {
            None => None,
            Some(f) => match fd_datacenter(fds[f]) {
                None => None,
                Some(d) => first_where(dcs, dc_named_as(d)),
            },
        }
    }
}

pub fn zone_template_datacenter(zone: &ZoneImageStatus, fds: &[FailureDomain], dcs: &[Datacenter]) -> (r: Option<usize>)
    ensures
        match r {
            Some(i) => zone_template_dc(*zone, fds@, dcs@) == Some(i as int),
            None => zone_template_dc(*zone, fds@, dcs@) is None,
        },
{
    if zone.resolved_ref.is_none() {
        return None;
    }
    let ghost pf = fd_named_as(zone.name@);
    let mut i: usize = 0;
    while i < fds.len() && !str_eq(fds[i].name.as_str(), zone.name.as_str())
        invariant
            i <= fds.len(),
            pf == fd_named_as(zone.name@),
            forall|j: int| 0 <= j < i ==> !pf(#[trigger] fds@[j]),
        decreases fds.len() - i,
    {
        i += 1;
    }
    if i >= fds.len() {
        proof {
            lemma_first_where_none(fds@, pf);
        }
        return None;
    }
    proof {
        lemma_first_where(fds@, pf, i as int);
    }
    let dc_name = match fds[i].attributes.raw.get(ATTR_DATACENTER) {
        Some(d) => d,
        None => {
            return None;
        },
    };
    let ghost pd = dc_named_as(dc_name@);
    let mut k: usize = 0;
    while k < dcs.len() && !str_eq(dcs[k].name.as_str(), dc_name.as_str())
        invariant
            k <= dcs.len(),
            pd == dc_named_as(dc_name@),
            forall|j: int| 0 <= j < k ==> !pd(#[trigger] dcs@[j]),
        decreases dcs.len() - k,
    {
        k += 1;
    }
    if k >= dcs.len() {
        proof {
            lemma_first_where_none(dcs@, pd);
        }
        return None;
    }
    proof {
        lemma_first_where(dcs@, pd, k as int);
    }
    Some(k)
}

/// Why a URL source cannot be imported for this Provider yet, as (reason,
/// message); `None` when it can.
pub open spec fn url_source_blocker(use_content_library: bool, failure_domains: nat) -> Option<(Seq<char>, Seq<char>)> {
    if use_content_library {
        Some((REASON_CONTENT_LIBRARY_NOT_IMPLEMENTED@, MESSAGE_CONTENT_LIBRARY@))
    } else if failure_domains == 0 {
        Some((REASON_NO_FAILURE_DOMAINS@, MESSAGE_NO_FAILURE_DOMAINS@))
    } else {
        None
    }
}

pub const MESSAGE_CONTENT_LIBRARY: &'static str = "Provider.spec.useContentLibrary=true, but the Content Library import path is not implemented yet";

pub const MESSAGE_NO_FAILURE_DOMAINS: &'static str = "Provider has no status.failureDomains[] published yet";

pub fn url_source_precheck(use_content_library: bool, failure_domains: usize) -> (r: Option<(&'static str, &'static str)>)
    ensures
        match r {
            Some(v) => url_source_blocker(use_content_library, failure_domains as nat) == Some((v.0@, v.1@)),
            None => url_source_blocker(use_content_library, failure_domains as nat) is None,
        },
{
    if use_content_library {
        Some((REASON_CONTENT_LIBRARY_NOT_IMPLEMENTED, MESSAGE_CONTENT_LIBRARY))
    } else if failure_domains == 0 {
        Some((REASON_NO_FAILURE_DOMAINS, MESSAGE_NO_FAILURE_DOMAINS))
    } else {
        None
    }
}

} // verus!
