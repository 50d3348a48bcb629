//! What the provider knows of a vCenter inventory, and the requests it
//! sends to one.
use vstd::prelude::*;
use crate::sdk::ca_bundle::{is_utf8, utf8_text};
use crate::text::{debug_plain, debug_str, owned, quoted};
use crate::vsphere::error::Error;
use crate::vsphere::api::{
    DiskController, DiskProvisioning, Firmware, InstallMode, NicAdapter,
};

verus! {

/// A value that can be copied field by field into an equal value.
pub trait Duplicate: Sized {
    fn duplicate(&self) -> (r: Self)
        ensures
            r == *self,
    ;
}

/// A copy of each element, in order.
pub fn copy_vec<T: Duplicate>(v: &Vec<T>) -> (r: Vec<T>)
    ensures
        r@ == v@,
{
    let mut out: Vec<T> = Vec::new();
    let mut i: usize = 0;
    while i < v.len()
        invariant
            i <= v.len(),
            out@ == v@.take(i as int),
        decreases v.len() - i,
    {
        out.push(v[i].duplicate());
        i += 1;
        assert(out@ =~= v@.take(i as int));
    }
    assert(v@.take(v.len() as int) =~= v@);
    out
}

pub fn copy_opt_string(o: &Option<String>) -> (r: Option<String>)
    ensures
        r == *o,
{
    match o {
        Some(s) => Some(s.clone()),
        None => None,
    }
}

impl Duplicate for String {
    fn duplicate(&self) -> (r: Self) {
        self.clone()
    }
}

impl Duplicate for (String, String) {
    fn duplicate(&self) -> (r: Self) {
        (self.0.clone(), self.1.clone())
    }
}

impl Duplicate for Datacenter {
    fn duplicate(&self) -> (r: Self) {
        Datacenter { name: self.name.clone(), moref: self.moref.clone() }
    }
}

impl Duplicate for Cluster {
    fn duplicate(&self) -> (r: Self) {
        Cluster {
            name: self.name.clone(),
            moref: self.moref.clone(),
            datacenter_moref: self.datacenter_moref.clone(),
        }
    }
}

impl Duplicate for Template {
    fn duplicate(&self) -> (r: Self) {
        Template {
            name: self.name.clone(),
            moref: self.moref.clone(),
            datacenter_moref: self.datacenter_moref.clone(),
        }
    }
}

impl Duplicate for Network {
    fn duplicate(&self) -> (r: Self) {
        Network { name: self.name.clone(), moref: self.moref.clone(), distributed: self.distributed }
    }
}

/// `a` and `b` hold the same request.
pub open spec fn same_request(a: CloneVmRequest, b: CloneVmRequest) -> bool {
    &&& a.datacenter_moref == b.datacenter_moref
    &&& a.cluster_moref == b.cluster_moref
    &&& a.template_moref == b.template_moref
    &&& a.datastore_moref == b.datastore_moref
    &&& a.network == b.network
    &&& a.network_moref == b.network_moref
    &&& a.network_distributed == b.network_distributed
    &&& a.num_cpus == b.num_cpus
    &&& a.memory_mib == b.memory_mib
    &&& a.folder == b.folder
    &&& a.vm_name == b.vm_name
    &&& a.extra_config@ == b.extra_config@
}

impl CloneVmRequest {
    /// A field-by-field copy.
    pub fn copy(&self) -> (r: Self)
        ensures
            same_request(r, *self),
    {
        CloneVmRequest {
            datacenter_moref: self.datacenter_moref.clone(),
            cluster_moref: self.cluster_moref.clone(),
            template_moref: self.template_moref.clone(),
            datastore_moref: self.datastore_moref.clone(),
            network: self.network.clone(),
            network_moref: self.network_moref.clone(),
            network_distributed: self.network_distributed,
            num_cpus: self.num_cpus,
            memory_mib: self.memory_mib,
            folder: copy_opt_string(&self.folder),
            vm_name: self.vm_name.clone(),
            extra_config: copy_vec(&self.extra_config),
        }
    }
}

#[derive(Debug, Clone, PartialEq, Eq)]
pub struct Datacenter {
    pub name: String,
    pub moref: String,
}

#[derive(Debug, Clone, PartialEq, Eq)]
pub struct Cluster {
    pub name: String,
    pub moref: String,
    pub datacenter_moref: String,
}

#[derive(Debug, Clone, PartialEq, Eq)]
pub struct Template {
    pub name: String,
    pub moref: String,
    pub datacenter_moref: String,
}

/// A datastore reachable from a cluster; `datastore_cluster` names the SDRS
/// datastore cluster it belongs to, if any.
#[derive(Debug, Clone, PartialEq, Eq)]
pub struct Datastore {
    pub name: String,
    pub moref: String,
    pub datastore_cluster: Option<String>,
    pub free_space_bytes: Option<i64>,
}

impl Duplicate for Datastore {
    fn duplicate(&self) -> (r: Self) {
        Datastore {
            name: self.name.clone(),
            moref: self.moref.clone(),
            datastore_cluster: copy_opt_string(&self.datastore_cluster),
            free_space_bytes: self.free_space_bytes,
        }
    }
}

/// A port group reachable from a cluster; `distributed` for a vDS one.
#[derive(Debug, Clone, PartialEq, Eq)]
pub struct Network {
    pub name: String,
    pub moref: String,
    pub distributed: bool,
}

/// vCenter login.
#[derive(Clone)]
pub struct Credentials {
    pub username: String,
    pub password: String,
}

/// The debug rendering of credentials: the username, and the password
/// replaced by a fixed marker.
pub open spec fn credentials_debug(username: Seq<char>) -> Seq<char> {
    "Credentials { username: "@ + debug_str(username) + ", password: \"<redacted>\" }"@
}

impl Credentials {
    /// The `{:?}` rendering, with the password redacted.
    pub fn debug_string(&self) -> (r: String)
        ensures
            r@ == credentials_debug(self.username@),
            debug_plain(self.username@) ==> r@ == "Credentials { username: \""@ + self.username@
                + "\", password: \"<redacted>\" }"@,
    {
        let mut r = owned("Credentials { username: ");
        let u = quoted(self.username.as_str());
        r.append(u.as_str());
        r.append(", password: \"<redacted>\" }");
        proof {
            reveal_strlit("Credentials { username: ");
            reveal_strlit("Credentials { username: \"");
            reveal_strlit(", password: \"<redacted>\" }");
            reveal_strlit("\", password: \"<redacted>\" }");
            if debug_plain(self.username@) {
                assert(r@ =~= "Credentials { username: \""@ + self.username@
                    + "\", password: \"<redacted>\" }"@);
            }
        }
        r
    }
}

/// The debug rendering never depends on the password: two credentials with
/// the same username render the same.
pub proof fn lemma_debug_ignores_password(a: Credentials, b: Credentials)
    requires
        a.username@ == b.username@,
    ensures
        credentials_debug(a.username@) == credentials_debug(b.username@),
{
}

/// A request to clone a template into a VM.
#[derive(Debug, Clone, PartialEq, Eq)]
pub struct CloneVmRequest {
    pub datacenter_moref: String,
    pub cluster_moref: String,
    pub template_moref: String,
    pub datastore_moref: String,
    pub network: String,
    pub network_moref: String,
    pub network_distributed: bool,
    pub num_cpus: i32,
    pub memory_mib: i64,
    pub folder: Option<String>,
    pub vm_name: String,
    pub extra_config: Vec<(String, String)>,
}

/// One NIC of a template build, resolved to a port group.
#[derive(Debug, Clone, PartialEq, Eq)]
pub struct RequestedNic {
    pub network: String,
    pub network_moref: String,
    pub network_distributed: bool,
    pub adapter: NicAdapter,
    pub pci_slot: i32,
}

/// A request to build a template from an uploaded ISO.
#[derive(Debug, Clone, PartialEq, Eq)]
pub struct IsoImportRequest {
    pub datacenter: String,
    pub datacenter_moref: String,
    pub cluster: String,
    pub cluster_moref: String,
    pub datastore: String,
    pub nics: Vec<RequestedNic>,
    pub disk_gib: i64,
    pub disk_provisioning: DiskProvisioning,
    pub disk_controller: DiskController,
    pub cpus: i32,
    pub memory_mib: i64,
    pub firmware: Firmware,
    pub folder: Option<String>,
    pub iso_datastore_path: String,
    pub template_name: String,
    pub guest_id: String,
    pub force_create: bool,
    pub install_timeout_seconds: i32,
    pub install_mode: InstallMode,
}


/// The Secret key holding the vCenter user.
pub const SECRET_KEY_USERNAME: &'static str = "username";

/// The Secret key holding the vCenter password.
pub const SECRET_KEY_PASSWORD: &'static str = "password";

/// Why credentials could not be read from a Secret's data, if they could
/// not: a key missing, or a value that is not UTF-8 (checked in that order,
/// user first).
pub open spec fn credentials_problem(username: Option<Seq<u8>>, password: Option<Seq<u8>>) -> Option<Seq<char>> {
    match (username, password) {
        (None, _) => Some("secret.data.username"@),
        (Some(_), None) => Some("secret.data.password"@),
        (Some(u), Some(p)) => if !vstd::utf8::valid_utf8(u) {
            Some("secret.data.username (not utf-8)"@)
        } else if !vstd::utf8::valid_utf8(p) {
            Some("secret.data.password (not utf-8)"@)
        } else {
            None
        },
    }
}

/// The credentials a Secret's `username` and `password` values hold.
pub fn credentials_from_secret(username: Option<&[u8]>, password: Option<&[u8]>) -> (r: Result<
    Credentials,
    Error,
>)
    ensures
        match credentials_problem(
            match username {
                Some(u) => Some(u@),
                None => None,
            },
            match password {
                Some(p) => Some(p@),
                None => None,
            },
        ) {
            Some(what) => r matches Err(Error::Missing(m)) && m@ == what,
            None => r matches Ok(c) && c.username@ == vstd::utf8::decode_utf8(username->0@)
                && c.password@ == vstd::utf8::decode_utf8(password->0@),
        },
{
    let u = match username {
        Some(u) => u,
        None => {
            return Err(Error::Missing(owned("secret.data.username")));
        },
    };
    let p = match password {
        Some(p) => p,
        None => {
            return Err(Error::Missing(owned("secret.data.password")));
        },
    };
    if !is_utf8(u) {
        return Err(Error::Missing(owned("secret.data.username (not utf-8)")));
    }
    if !is_utf8(p) {
        return Err(Error::Missing(owned("secret.data.password (not utf-8)")));
    }
    Ok(Credentials { username: utf8_text(u), password: utf8_text(p) })
}

} // verus!
