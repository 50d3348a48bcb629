//! An in-memory vCenter: a seeded inventory answered from memory, with the
//! clones, power changes and deletions asked of it recorded instead of
//! performed.
use vstd::prelude::*;
use crate::seq_util::{first_where, lemma_first_where, lemma_first_where_none};
use crate::text::{chars_of, owned, str_eq, strings_view};
use crate::vsphere::api::PowerState;
use crate::vsphere::client::{
    copy_vec, same_request, CloneVmRequest, Cluster, Credentials, Datacenter, Datastore,
    Duplicate, IsoImportRequest, Network, Template,
};
use crate::vsphere::error::Error;

verus! {

// ---------------------------------------------------------------------
// The inventory
// ---------------------------------------------------------------------

/// A seeded vCenter inventory. Build one with [`Inventory::builder`].
pub struct Inventory {
    pub datacenters: Vec<Datacenter>,
    /// Every cluster, each naming its datacenter.
    pub clusters: Vec<Cluster>,
    /// Templates found by a datacenter-wide lookup (no folder).
    pub templates: Vec<Template>,
    /// Templates found by a lookup in a folder, with their folder path.
    pub folder_templates: Vec<(String, Template)>,
    /// Datastores, each with the reference of the cluster that reaches it.
    pub datastores: Vec<(String, Datastore)>,
    /// Networks, each with the reference of the cluster that reaches it.
    pub networks: Vec<(String, Network)>,
}

/// `a` and `b` hold the same inventory.
pub open spec fn same_inventory(a: Inventory, b: Inventory) -> bool {
    &&& a.datacenters@ == b.datacenters@
    &&& a.clusters@ == b.clusters@
    &&& a.templates@ == b.templates@
    &&& a.folder_templates@ == b.folder_templates@
    &&& a.datastores@ == b.datastores@
    &&& a.networks@ == b.networks@
}

pub open spec fn is_empty_inventory(i: Inventory) -> bool {
    &&& i.datacenters@.len() == 0
    &&& i.clusters@.len() == 0
    &&& i.templates@.len() == 0
    &&& i.folder_templates@.len() == 0
    &&& i.datastores@.len() == 0
    &&& i.networks@.len() == 0
}

pub open spec fn named_dc(name: Seq<char>) -> spec_fn(Datacenter) -> bool {
    |d: Datacenter| d.name@ == name
}

pub open spec fn cluster_in(dc_moref: Seq<char>, name: Seq<char>) -> spec_fn(Cluster) -> bool {
    |c: Cluster| c.datacenter_moref@ == dc_moref && c.name@ == name
}

/// The reference of the first datacenter named `dc_name`.
pub open spec fn dc_moref_of(inv: Inventory, dc_name: Seq<char>) -> Option<Seq<char>> {
    match first_where(inv.datacenters@, named_dc(dc_name)) {
        Some(i) => Some(inv.datacenters@[i].moref@),
        None => None,
    }
}

/// The reference of the first cluster named `cluster_name` in the first
/// datacenter named `dc_name`.
pub open spec fn cluster_moref_of(inv: Inventory, dc_name: Seq<char>, cluster_name: Seq<char>) -> Option<
    Seq<char>,
> {
    match dc_moref_of(inv, dc_name) {
        Some(m) => match first_where(inv.clusters@, cluster_in(m, cluster_name)) {
            Some(i) => Some(inv.clusters@[i].moref@),
            None => None,
        },
        None => None,
    }
}

/// `b` is `a` with one more element at the end.
pub open spec fn grew_by_one<T>(a: Seq<T>, b: Seq<T>) -> bool {
    b.len() == a.len() + 1 && b.take(a.len() as int) == a
}

impl Inventory {
    /// An inventory with nothing in it.
    pub fn empty() -> (r: Self)
        ensures
            is_empty_inventory(r),
    {
        Inventory {
            datacenters: Vec::new(),
            clusters: Vec::new(),
            templates: Vec::new(),
            folder_templates: Vec::new(),
            datastores: Vec::new(),
            networks: Vec::new(),
        }
    }

    /// A builder starting from an empty inventory.
    pub fn builder() -> (r: InventoryBuilder)
        ensures
            is_empty_inventory(r.inventory()),
    {
        InventoryBuilder { inv: Inventory::empty() }
    }

    /// A field-by-field copy.
    pub fn copy(&self) -> (r: Self)
        ensures
            same_inventory(r, *self),
    {
        Inventory {
            datacenters: copy_vec(&self.datacenters),
            clusters: copy_vec(&self.clusters),
            templates: copy_vec(&self.templates),
            folder_templates: copy_vec(&self.folder_templates),
            datastores: copy_vec(&self.datastores),
            networks: copy_vec(&self.networks),
        }
    }
}

impl Duplicate for (String, Template) {
    fn duplicate(&self) -> (r: Self) {
        (self.0.clone(), self.1.duplicate())
    }
}

impl Duplicate for (String, Datastore) {
    fn duplicate(&self) -> (r: Self) {
        (self.0.clone(), self.1.duplicate())
    }
}

impl Duplicate for (String, Network) {
    fn duplicate(&self) -> (r: Self) {
        (self.0.clone(), self.1.duplicate())
    }
}

/// Seeds an inventory one object at a time; a cluster goes into a seeded
/// datacenter, a datastore or network into a seeded cluster.
pub struct InventoryBuilder {
    inv: Inventory,
}

impl InventoryBuilder {
    /// The inventory seeded so far.
    pub closed spec fn inventory(self) -> Inventory {
        self.inv
    }

    fn lookup_dc(&self, dc_name: &str) -> (r: String)
        requires
            dc_moref_of(self.inventory(), dc_name@) is Some,
        ensures
            dc_moref_of(self.inventory(), dc_name@) == Some(r@),
    {
        let ghost p = named_dc(dc_name@);
        let dcs = &self.inv.datacenters;
        let mut i: usize = 0;
        while i < dcs.len() && !str_eq(dcs[i].name.as_str(), dc_name)
            invariant
                i <= dcs.len(),
                p == named_dc(dc_name@),
                forall|j: int| 0 <= j < i ==> !p(#[trigger] dcs@[j]),
            decreases dcs.len() - i,
        {
            i += 1;
        }
        if i >= dcs.len() {
            proof {
                lemma_first_where_none(dcs@, p);
            }
            assert(false);
        }
        proof {
            lemma_first_where(dcs@, p, i as int);
        }
        dcs[i].moref.clone()
    }

    fn lookup_cluster(&self, dc_name: &str, cluster_name: &str) -> (r: String)
        requires
            cluster_moref_of(self.inventory(), dc_name@, cluster_name@) is Some,
        ensures
            cluster_moref_of(self.inventory(), dc_name@, cluster_name@) == Some(r@),
    {
        let dcm = self.lookup_dc(dc_name);
        let ghost p = cluster_in(dcm@, cluster_name@);
        let cs = &self.inv.clusters;
        let mut i: usize = 0;
        while i < cs.len() && !(str_eq(cs[i].datacenter_moref.as_str(), dcm.as_str()) && str_eq(
            cs[i].name.as_str(),
            cluster_name,
        ))
            invariant
                i <= cs.len(),
                p == cluster_in(dcm@, cluster_name@),
                forall|j: int| 0 <= j < i ==> !p(#[trigger] cs@[j]),
            decreases cs.len() - i,
        {
            i += 1;
        }
        if i >= cs.len() {
            proof {
                lemma_first_where_none(cs@, p);
            }
            assert(false);
        }
        proof {
            lemma_first_where(cs@, p, i as int);
        }
        cs[i].moref.clone()
    }

    /// Adds datacenter `name`, referenced `datacenter-<name>`.
    pub fn with_dc(self, name: &str) -> (r: Self)
        ensures
            grew_by_one(self.inventory().datacenters@, r.inventory().datacenters@),
            r.inventory().datacenters@.last().name@ == name@,
            r.inventory().datacenters@.last().moref@ == "datacenter-"@ + name@,
            r.inventory().clusters == self.inventory().clusters,
            r.inventory().templates == self.inventory().templates,
            r.inventory().folder_templates == self.inventory().folder_templates,
            r.inventory().datastores == self.inventory().datastores,
            r.inventory().networks == self.inventory().networks,
    {
        let mut b = self;
        let mut moref = owned("datacenter-");
        moref.append(name);
        b.inv.datacenters.push(Datacenter { name: owned(name), moref });
        proof {
            assert(b.inv.datacenters@.take(self.inv.datacenters@.len() as int) =~= self.inv.datacenters@);
        }
        b
    }

    /// Adds cluster `cluster_name` to the seeded datacenter `dc_name`,
    /// referenced `domain-c-<dc>-<cluster>`.
    pub fn with_cluster(self, dc_name: &str, cluster_name: &str) -> (r: Self)
        requires
            dc_moref_of(self.inventory(), dc_name@) is Some,
        ensures
            grew_by_one(self.inventory().clusters@, r.inventory().clusters@),
            r.inventory().clusters@.last().name@ == cluster_name@,
            r.inventory().clusters@.last().moref@ == "domain-c-"@ + dc_name@ + "-"@ + cluster_name@,
            Some(r.inventory().clusters@.last().datacenter_moref@) == dc_moref_of(
                self.inventory(),
                dc_name@,
            ),
            r.inventory().datacenters == self.inventory().datacenters,
            r.inventory().templates == self.inventory().templates,
            r.inventory().folder_templates == self.inventory().folder_templates,
            r.inventory().datastores == self.inventory().datastores,
            r.inventory().networks == self.inventory().networks,
    {
        let dcm = self.lookup_dc(dc_name);
        let mut b = self;
        let mut moref = owned("domain-c-");
        moref.append(dc_name);
        moref.append("-");
        moref.append(cluster_name);
        b.inv.clusters.push(Cluster { name: owned(cluster_name), moref, datacenter_moref: dcm });
        proof {
            assert(b.inv.clusters@.take(self.inv.clusters@.len() as int) =~= self.inv.clusters@);
        }
        b
    }

    /// Adds a datacenter-wide template to the seeded datacenter `dc_name`,
    /// referenced `vm-template-<dc>-<name>`.
    pub fn with_template(self, dc_name: &str, template_name: &str) -> (r: Self)
        requires
            dc_moref_of(self.inventory(), dc_name@) is Some,
        ensures
            grew_by_one(self.inventory().templates@, r.inventory().templates@),
            r.inventory().templates@.last().name@ == template_name@,
            r.inventory().templates@.last().moref@ == "vm-template-"@ + dc_name@ + "-"@
                + template_name@,
            Some(r.inventory().templates@.last().datacenter_moref@) == dc_moref_of(
                self.inventory(),
                dc_name@,
            ),
            r.inventory().datacenters == self.inventory().datacenters,
            r.inventory().clusters == self.inventory().clusters,
            r.inventory().folder_templates == self.inventory().folder_templates,
            r.inventory().datastores == self.inventory().datastores,
            r.inventory().networks == self.inventory().networks,
    {
        let dcm = self.lookup_dc(dc_name);
        let mut b = self;
        let mut moref = owned("vm-template-");
        moref.append(dc_name);
        moref.append("-");
        moref.append(template_name);
        b.inv.templates.push(Template { name: owned(template_name), moref, datacenter_moref: dcm });
        proof {
            assert(b.inv.templates@.take(self.inv.templates@.len() as int) =~= self.inv.templates@);
        }
        b
    }

    /// Adds a template in folder `folder` of the seeded datacenter
    /// `dc_name`, referenced `vm-template-<folder>-<name>`; only a lookup
    /// in that folder finds it.
    pub fn with_template_in_folder(self, dc_name: &str, folder: &str, template_name: &str) -> (r:
        Self)
        requires
            dc_moref_of(self.inventory(), dc_name@) is Some,
        ensures
            grew_by_one(self.inventory().folder_templates@, r.inventory().folder_templates@),
            r.inventory().folder_templates@.last().0@ == folder@,
            r.inventory().folder_templates@.last().1.name@ == template_name@,
            r.inventory().folder_templates@.last().1.moref@ == "vm-template-"@ + folder@ + "-"@
                + template_name@,
            Some(r.inventory().folder_templates@.last().1.datacenter_moref@) == dc_moref_of(
                self.inventory(),
                dc_name@,
            ),
            r.inventory().datacenters == self.inventory().datacenters,
            r.inventory().clusters == self.inventory().clusters,
            r.inventory().templates == self.inventory().templates,
            r.inventory().datastores == self.inventory().datastores,
            r.inventory().networks == self.inventory().networks,
    {
        let dcm = self.lookup_dc(dc_name);
        let mut b = self;
        let mut moref = owned("vm-template-");
        moref.append(folder);
        moref.append("-");
        moref.append(template_name);
        b.inv.folder_templates.push(
            (owned(folder), Template { name: owned(template_name), moref, datacenter_moref: dcm }),
        );
        proof {
            assert(b.inv.folder_templates@.take(self.inv.folder_templates@.len() as int)
                =~= self.inv.folder_templates@);
        }
        b
    }

    /// Adds a datastore reachable from the seeded cluster, referenced
    /// `datastore-<cluster>-<name>`, a member of `datastore_cluster` when
    /// one is given; its free space is unknown.
    pub fn with_datastore(
        self,
        dc_name: &str,
        cluster_name: &str,
        ds_name: &str,
        datastore_cluster: Option<&str>,
    ) -> (r: Self)
        requires
            cluster_moref_of(self.inventory(), dc_name@, cluster_name@) is Some,
        ensures
            grew_by_one(self.inventory().datastores@, r.inventory().datastores@),
            Some(r.inventory().datastores@.last().0@) == cluster_moref_of(
                self.inventory(),
                dc_name@,
                cluster_name@,
            ),
            r.inventory().datastores@.last().1.name@ == ds_name@,
            r.inventory().datastores@.last().1.moref@ == "datastore-"@ + cluster_name@ + "-"@
                + ds_name@,
            r.inventory().datastores@.last().1.free_space_bytes is None,
            match datastore_cluster {
                Some(c) => r.inventory().datastores@.last().1.datastore_cluster matches Some(x)
                    && x@ == c@,
                None => r.inventory().datastores@.last().1.datastore_cluster is None,
            },
            r.inventory().datacenters == self.inventory().datacenters,
            r.inventory().clusters == self.inventory().clusters,
            r.inventory().templates == self.inventory().templates,
            r.inventory().folder_templates == self.inventory().folder_templates,
            r.inventory().networks == self.inventory().networks,
    {
        let cm = self.lookup_cluster(dc_name, cluster_name);
        let mut b = self;
        let mut moref = owned("datastore-");
        moref.append(cluster_name);
        moref.append("-");
        moref.append(ds_name);
        let member = match datastore_cluster {
            Some(c) => Some(owned(c)),
            None => None,
        };
        b.inv.datastores.push(
            (
                cm,
                Datastore {
                    name: owned(ds_name),
                    moref,
                    datastore_cluster: member,
                    free_space_bytes: None,
                },
            ),
        );
        proof {
            assert(b.inv.datastores@.take(self.inv.datastores@.len() as int) =~= self.inv.datastores@);
        }
        b
    }

    /// Adds a network reachable from the seeded cluster, referenced
    /// `network-<cluster>-<name>`; `distributed` marks a distributed port
    /// group.
    pub fn with_network(self, dc_name: &str, cluster_name: &str, net_name: &str, distributed: bool) -> (r:
        Self)
        requires
            cluster_moref_of(self.inventory(), dc_name@, cluster_name@) is Some,
        ensures
            grew_by_one(self.inventory().networks@, r.inventory().networks@),
            Some(r.inventory().networks@.last().0@) == cluster_moref_of(
                self.inventory(),
                dc_name@,
                cluster_name@,
            ),
            r.inventory().networks@.last().1.name@ == net_name@,
            r.inventory().networks@.last().1.moref@ == "network-"@ + cluster_name@ + "-"@
                + net_name@,
            r.inventory().networks@.last().1.distributed == distributed,
            r.inventory().datacenters == self.inventory().datacenters,
            r.inventory().clusters == self.inventory().clusters,
            r.inventory().templates == self.inventory().templates,
            r.inventory().folder_templates == self.inventory().folder_templates,
            r.inventory().datastores == self.inventory().datastores,
    {
        let cm = self.lookup_cluster(dc_name, cluster_name);
        let mut b = self;
        let mut moref = owned("network-");
        moref.append(cluster_name);
        moref.append("-");
        moref.append(net_name);
        b.inv.networks.push((cm, Network { name: owned(net_name), moref, distributed }));
        proof {
            assert(b.inv.networks@.take(self.inv.networks@.len() as int) =~= self.inv.networks@);
        }
        b
    }

    /// The inventory seeded so far.
    pub fn build(self) -> (r: Inventory)
        ensures
            r == self.inventory(),
    {
        self.inv
    }
}


// ---------------------------------------------------------------------
// The client
// ---------------------------------------------------------------------

/// One recorded clone: what was asked and the reference handed back.
pub struct ClonedVm {
    pub request: CloneVmRequest,
    pub moref: String,
}

/// `a` and `b` record the same clone.
pub open spec fn same_clone(a: ClonedVm, b: ClonedVm) -> bool {
    same_request(a.request, b.request) && a.moref == b.moref
}

/// The power state `log` leaves `vm`: the last entry for it (`None` after a
/// deletion), `None` when there is none.
pub open spec fn last_power(log: Seq<(Seq<char>, Option<PowerState>)>, vm: Seq<char>) -> Option<
    PowerState,
>
    decreases log.len(),
{
    if log.len() == 0 {
        None
    } else if log.last().0 == vm {
        log.last().1
    } else {
        last_power(log.drop_last(), vm)
    }
}

/// Reading a VM's power state gives back the last state written for it;
/// writing one VM's state leaves every other VM's as it was.
pub proof fn lemma_power_read_after_write(
    log: Seq<(Seq<char>, Option<PowerState>)>,
    vm: Seq<char>,
    state: Option<PowerState>,
    other: Seq<char>,
)
    ensures
        last_power(log.push((vm, state)), vm) == state,
        other != vm ==> last_power(log.push((vm, state)), other) == last_power(log, other),
{
    assert(log.push((vm, state)).drop_last() =~= log);
}

pub open spec fn power_log_view(log: Seq<(String, Option<PowerState>)>) -> Seq<(Seq<char>, Option<PowerState>)> {
    log.map_values(|e: (String, Option<PowerState>)| (e.0@, e.1))
}

pub open spec fn dc_clusters(dc_moref: Seq<char>) -> spec_fn(Cluster) -> bool {
    |c: Cluster| c.datacenter_moref@ == dc_moref
}

pub open spec fn dc_template(dc_moref: Seq<char>, name: Seq<char>) -> spec_fn(Template) -> bool {
    |t: Template| t.datacenter_moref@ == dc_moref && t.name@ == name
}

pub open spec fn folder_template(folder: Seq<char>, name: Seq<char>) -> spec_fn((String, Template)) -> bool {
    |e: (String, Template)| e.0@ == folder && e.1.name@ == name
}

pub open spec fn reached_by<T>(cluster_moref: Seq<char>) -> spec_fn((String, T)) -> bool {
    |e: (String, T)| e.0@ == cluster_moref
}

pub open spec fn second<T>(e: (String, T)) -> T {
    e.1
}

/// What a template lookup finds: with a non-empty folder, the first
/// template of that name in the folder; else the first template of that
/// name in the datacenter.
pub open spec fn template_lookup(inv: Inventory, dc_moref: Seq<char>, folder: Option<Seq<char>>, name: Seq<char>) -> Option<Template> {
    match folder {
        Some(f) if f.len() > 0 => match first_where(inv.folder_templates@, folder_template(f, name)) {
            Some(i) => Some(inv.folder_templates@[i].1),
            None => None,
        },
        _ => match first_where(inv.templates@, dc_template(dc_moref, name)) {
            Some(i) => Some(inv.templates@[i]),
            None => None,
        },
    }
}

/// An in-memory client answering from a seeded inventory. Clones, power
/// changes and deletions are recorded, not performed.
pub struct FakeClient {
    inventory: Inventory,
    clones: Vec<ClonedVm>,
    power_log: Vec<(String, Option<PowerState>)>,
    power_calls: Vec<String>,
    destroyed: Vec<String>,
}

impl FakeClient {
    pub closed spec fn inventory(self) -> Inventory {
        self.inventory
    }

    /// The clones asked for, in order.
    pub closed spec fn clones(self) -> Seq<ClonedVm> {
        self.clones@
    }

    /// Every power change, in order: a reference with the state it was put
    /// in, `None` for a deletion.
    pub closed spec fn power_log(self) -> Seq<(Seq<char>, Option<PowerState>)> {
        power_log_view(self.power_log@)
    }

    /// The references `set_power_state` was called with, in order.
    pub closed spec fn power_calls(self) -> Seq<Seq<char>> {
        strings_view(self.power_calls@)
    }

    /// The references `destroy_vm` was called with, in order.
    pub closed spec fn destroyed(self) -> Seq<Seq<char>> {
        strings_view(self.destroyed@)
    }

    /// A client over `inventory` with nothing recorded.
    pub fn new(inventory: Inventory) -> (r: Self)
        ensures
            r.inventory() == inventory,
            r.clones().len() == 0,
            r.power_log().len() == 0,
            r.power_calls().len() == 0,
            r.destroyed().len() == 0,
    {
        let r = FakeClient {
            inventory,
            clones: Vec::new(),
            power_log: Vec::new(),
            power_calls: Vec::new(),
            destroyed: Vec::new(),
        };
        proof {
            assert(r.power_log() =~= Seq::<(Seq<char>, Option<PowerState>)>::empty());
            assert(r.power_calls() =~= Seq::<Seq<char>>::empty());
            assert(r.destroyed() =~= Seq::<Seq<char>>::empty());
        }
        r
    }

    /// Every clone recorded so far, in order.
    pub fn cloned_vms(&self) -> (r: Vec<ClonedVm>)
        ensures
            r@.len() == self.clones().len(),
            forall|i: int| 0 <= i < r@.len() ==> same_clone(#[trigger] r@[i], self.clones()[i]),
    {
        let mut out: Vec<ClonedVm> = Vec::new();
        let mut i: usize = 0;
        while i < self.clones.len()
            invariant
                i <= self.clones.len(),
                out@.len() == i,
                forall|j: int| 0 <= j < i ==> same_clone(#[trigger] out@[j], self.clones@[j]),
            decreases self.clones.len() - i,
        {
            let c = &self.clones[i];
            out.push(ClonedVm { request: c.request.copy(), moref: c.moref.clone() });
            i += 1;
        }
        out
    }

    /// The state the last power change left `vm_moref` in; `None` when it
    /// was never cloned or powered, or was deleted since.
    pub fn power_state_of(&self, vm_moref: &str) -> (r: Option<PowerState>)
        ensures
            r == last_power(self.power_log(), vm_moref@),
    {
        let ghost log = self.power_log();
        let mut i: usize = self.power_log.len();
        proof {
            assert(log.take(i as int) =~= log);
        }
        while i > 0
            invariant
                i <= self.power_log.len(),
                log == power_log_view(self.power_log@),
                last_power(log, vm_moref@) == last_power(log.take(i as int), vm_moref@),
            decreases i,
        {
            let e = &self.power_log[i - 1];
            proof {
                assert(log.take(i as int).last() == (e.0@, e.1));
                assert(log.take(i as int).drop_last() =~= log.take(i - 1));
            }
            if str_eq(e.0.as_str(), vm_moref) {
                return e.1;
            }
            i -= 1;
        }
        None
    }

    /// How often `set_power_state` was called for `vm_moref`.
    pub fn power_state_call_count(&self, vm_moref: &str) -> (r: usize)
        ensures
            r == self.power_calls().filter(|m: Seq<char>| m == vm_moref@).len(),
    {
        let ghost calls = self.power_calls();
        let ghost p = |m: Seq<char>| m == vm_moref@;
        let mut n: usize = 0;
        let mut i: usize = 0;
        while i < self.power_calls.len()
            invariant
                i <= self.power_calls.len(),
                calls == strings_view(self.power_calls@),
                p == (|m: Seq<char>| m == vm_moref@),
                n == calls.take(i as int).filter(p).len(),
                n <= i,
            decreases self.power_calls.len() - i,
        {
            proof {
                reveal(Seq::filter);
                assert(calls.take(i + 1).drop_last() =~= calls.take(i as int));
                assert(calls.take(i + 1).last() == self.power_calls@[i as int]@);
            }
            if str_eq(self.power_calls[i].as_str(), vm_moref) {
                n += 1;
            }
            i += 1;
        }
        proof {
            assert(calls.take(calls.len() as int) =~= calls);
        }
        n
    }

    /// Every reference `destroy_vm` was called with, in order.
    pub fn destroyed_vms(&self) -> (r: Vec<String>)
        ensures
            strings_view(r@) == self.destroyed(),
    {
        copy_vec(&self.destroyed)
    }

    /// The seeded datacenters.
    pub fn list_datacenters(&self) -> (r: Result<Vec<Datacenter>, Error>)
        ensures
            r matches Ok(v) && v@ == self.inventory().datacenters@,
    {
        Ok(copy_vec(&self.inventory.datacenters))
    }

    /// The seeded clusters of `dc`, in seeding order.
    pub fn list_clusters(&self, dc: &Datacenter) -> (r: Result<Vec<Cluster>, Error>)
        ensures
            r matches Ok(v) && v@ == self.inventory().clusters@.filter(dc_clusters(dc.moref@)),
    {
        let all = &self.inventory.clusters;
        let ghost p = dc_clusters(dc.moref@);
        let mut out: Vec<Cluster> = Vec::new();
        let mut i: usize = 0;
        while i < all.len()
            invariant
                i <= all.len(),
                p == dc_clusters(dc.moref@),
                out@ == all@.take(i as int).filter(p),
            decreases all.len() - i,
        {
            proof {
                reveal(Seq::filter);
                assert(all@.take(i + 1).drop_last() =~= all@.take(i as int));
                assert(all@.take(i + 1).last() == all@[i as int]);
            }
            if str_eq(all[i].datacenter_moref.as_str(), dc.moref.as_str()) {
                out.push(all[i].duplicate());
            }
            i += 1;
        }
        proof {
            assert(all@.take(all.len() as int) =~= all@);
        }
        Ok(out)
    }

    /// The template named `name`: looked up in `folder` when one is given,
    /// else datacenter-wide in `dc`.
    pub fn find_template(&self, dc: &Datacenter, folder: Option<&str>, name: &str) -> (r: Result<
        Option<Template>,
        Error,
    >)
        ensures
            r matches Ok(found) && found == template_lookup(
                self.inventory(),
                dc.moref@,
                match folder {
                    Some(f) => Some(f@),
                    None => None,
                },
                name@,
            ),
    {
        let in_folder = match folder {
            Some(f) => chars_of(f).len() > 0,
            None => false,
        };
        if in_folder {
            let f = folder.unwrap();
            let all = &self.inventory.folder_templates;
            let ghost p = folder_template(f@, name@);
            let mut i: usize = 0;
            while i < all.len() && !(str_eq(all[i].0.as_str(), f) && str_eq(all[i].1.name.as_str(), name))
                invariant
                    i <= all.len(),
                    p == folder_template(f@, name@),
                    forall|j: int| 0 <= j < i ==> !p(#[trigger] all@[j]),
                decreases all.len() - i,
            {
                i += 1;
            }
            if i < all.len() {
                proof {
                    lemma_first_where(all@, p, i as int);
                }
                Ok(Some(all[i].1.duplicate()))
            } else {
                proof {
                    lemma_first_where_none(all@, p);
                }
                Ok(None)
            }
        } else {
            let all = &self.inventory.templates;
            let ghost p = dc_template(dc.moref@, name@);
            let mut i: usize = 0;
            while i < all.len() && !(str_eq(all[i].datacenter_moref.as_str(), dc.moref.as_str())
                && str_eq(all[i].name.as_str(), name))
                invariant
                    i <= all.len(),
                    p == dc_template(dc.moref@, name@),
                    forall|j: int| 0 <= j < i ==> !p(#[trigger] all@[j]),
                decreases all.len() - i,
            {
                i += 1;
            }
            if i < all.len() {
                proof {
                    lemma_first_where(all@, p, i as int);
                }
                Ok(Some(all[i].duplicate()))
            } else {
                proof {
                    lemma_first_where_none(all@, p);
                }
                Ok(None)
            }
        }
    }

    /// The seeded datastores reachable from `cluster`, in seeding order.
    pub fn list_datastores(&self, cluster: &Cluster) -> (r: Result<Vec<Datastore>, Error>)
        ensures
            r matches Ok(v) && v@ == self.inventory().datastores@.filter(
                reached_by::<Datastore>(cluster.moref@),
            ).map_values(|e: (String, Datastore)| e.1),
    {
        let all = &self.inventory.datastores;
        let ghost p = reached_by::<Datastore>(cluster.moref@);
        let mut out: Vec<Datastore> = Vec::new();
        let mut i: usize = 0;
        while i < all.len()
            invariant
                i <= all.len(),
                p == reached_by::<Datastore>(cluster.moref@),
                out@ == all@.take(i as int).filter(p).map_values(|e: (String, Datastore)| e.1),
            decreases all.len() - i,
        {
            proof {
                reveal(Seq::filter);
                assert(all@.take(i + 1).drop_last() =~= all@.take(i as int));
                assert(all@.take(i + 1).last() == all@[i as int]);
            }
            let ghost before = out@;
            if str_eq(all[i].0.as_str(), cluster.moref.as_str()) {
                out.push(all[i].1.duplicate());
                proof {
                    assert(all@.take(i + 1).filter(p) == all@.take(i as int).filter(p).push(all@[i as int]));
                    assert(out@ =~= all@.take(i + 1).filter(p).map_values(|e: (String, Datastore)| e.1));
                }
            } else {
                proof {
                    assert(all@.take(i + 1).filter(p) == all@.take(i as int).filter(p));
                }
            }
            i += 1;
        }
        proof {
            assert(all@.take(all.len() as int) =~= all@);
        }
        Ok(out)
    }

    /// The seeded networks reachable from `cluster`, in seeding order.
    pub fn list_networks(&self, cluster: &Cluster) -> (r: Result<Vec<Network>, Error>)
        ensures
            r matches Ok(v) && v@ == self.inventory().networks@.filter(
                reached_by::<Network>(cluster.moref@),
            ).map_values(|e: (String, Network)| e.1),
    {
        let all = &self.inventory.networks;
        let ghost p = reached_by::<Network>(cluster.moref@);
        let mut out: Vec<Network> = Vec::new();
        let mut i: usize = 0;
        while i < all.len()
            invariant
                i <= all.len(),
                p == reached_by::<Network>(cluster.moref@),
                out@ == all@.take(i as int).filter(p).map_values(|e: (String, Network)| e.1),
            decreases all.len() - i,
        {
            proof {
                reveal(Seq::filter);
                assert(all@.take(i + 1).drop_last() =~= all@.take(i as int));
                assert(all@.take(i + 1).last() == all@[i as int]);
            }
            if str_eq(all[i].0.as_str(), cluster.moref.as_str()) {
                out.push(all[i].1.duplicate());
                proof {
                    assert(all@.take(i + 1).filter(p) == all@.take(i as int).filter(p).push(all@[i as int]));
                    assert(out@ =~= all@.take(i + 1).filter(p).map_values(|e: (String, Network)| e.1));
                }
            } else {
                proof {
                    assert(all@.take(i + 1).filter(p) == all@.take(i as int).filter(p));
                }
            }
            i += 1;
        }
        proof {
            assert(all@.take(all.len() as int) =~= all@);
        }
        Ok(out)
    }

    /// The reference a real import would resolve to: `[<datastore>]
    /// <template>`; nothing is created.
    pub fn import_iso_template(&self, req: &IsoImportRequest) -> (r: Result<String, Error>)
        ensures
            r matches Ok(s) && s@ == "["@ + req.datastore@ + "] "@ + req.template_name@,
    {
        let mut s = owned("[");
        s.append(req.datastore.as_str());
        s.append("] ");
        s.append(req.template_name.as_str());
        Ok(s)
    }

    /// Nothing to create: always succeeds.
    pub fn ensure_datastore_dir(&self, datacenter_moref: &str, datastore: &str, dir: &str) -> (r: Result<(), Error>)
        ensures
            r is Ok,
    {
        Ok(())
    }

    /// Nothing to destroy: always succeeds.
    pub fn destroy_if_present(&self, datacenter_moref: &str, folder: &str, name: &str) -> (r: Result<(), Error>)
        ensures
            r is Ok,
    {
        Ok(())
    }

    /// Records a clone of `req` named `vm-clone-<vm name>`, powered off as
    /// a real clone starts.
    pub fn clone_vm(&mut self, req: &CloneVmRequest) -> (r: Result<String, Error>)
        ensures
            r matches Ok(m) && m@ == "vm-clone-"@ + req.vm_name@,
            r matches Ok(m) && final(self).clones().len() == old(self).clones().len() + 1
                && final(self).clones().take(old(self).clones().len() as int) == old(self).clones()
                && same_request(final(self).clones().last().request, *req)
                && final(self).clones().last().moref == m,
            r matches Ok(m) && final(self).power_log() == old(self).power_log().push(
                (m@, Some(PowerState::PoweredOff)),
            ),
            final(self).inventory() == old(self).inventory(),
            final(self).power_calls() == old(self).power_calls(),
            final(self).destroyed() == old(self).destroyed(),
    {
        let mut moref = owned("vm-clone-");
        moref.append(req.vm_name.as_str());
        let ghost before = self.clones@;
        self.clones.push(ClonedVm { request: req.copy(), moref: moref.clone() });
        self.power_log.push((moref.clone(), Some(PowerState::PoweredOff)));
        proof {
            assert(self.clones@.take(before.len() as int) =~= before);
            assert(power_log_view(self.power_log@) =~= power_log_view(old(self).power_log@).push(
                (moref@, Some(PowerState::PoweredOff)),
            ));
        }
        Ok(moref)
    }

    /// Records `vm_moref` put in `desired`.
    pub fn set_power_state(&mut self, vm_moref: &str, desired: PowerState) -> (r: Result<(), Error>)
        ensures
            r is Ok,
            final(self).power_log() == old(self).power_log().push((vm_moref@, Some(desired))),
            final(self).power_calls() == old(self).power_calls().push(vm_moref@),
            final(self).inventory() == old(self).inventory(),
            final(self).clones() == old(self).clones(),
            final(self).destroyed() == old(self).destroyed(),
    {
        self.power_log.push((owned(vm_moref), Some(desired)));
        self.power_calls.push(owned(vm_moref));
        proof {
            assert(power_log_view(self.power_log@) =~= power_log_view(old(self).power_log@).push(
                (vm_moref@, Some(desired)),
            ));
            assert(strings_view(self.power_calls@) =~= strings_view(old(self).power_calls@).push(
                vm_moref@,
            ));
        }
        Ok(())
    }

    /// The recorded power state of `vm_moref`, or an error when there is
    /// none.
    pub fn power_state(&self, vm_moref: &str) -> (r: Result<PowerState, Error>)
        ensures
            match last_power(self.power_log(), vm_moref@) {
                Some(p) => r == Ok::<PowerState, Error>(p),
                None => r matches Err(Error::Vsphere(m)) && m@ == vm_moref@
                    + ": no fake power state recorded"@,
            },
    {
        match self.power_state_of(vm_moref) {
            Some(p) => Ok(p),
            None => {
                let mut m = owned(vm_moref);
                m.append(": no fake power state recorded");
                Err(Error::Vsphere(m))
            },
        }
    }

    /// Records the deletion of `vm_moref`, which forgets its power state.
    pub fn destroy_vm(&mut self, vm_moref: &str) -> (r: Result<(), Error>)
        ensures
            r is Ok,
            final(self).destroyed() == old(self).destroyed().push(vm_moref@),
            final(self).power_log() == old(self).power_log().push((vm_moref@, None)),
            final(self).inventory() == old(self).inventory(),
            final(self).clones() == old(self).clones(),
            final(self).power_calls() == old(self).power_calls(),
    {
        self.destroyed.push(owned(vm_moref));
        self.power_log.push((owned(vm_moref), None));
        proof {
            assert(power_log_view(self.power_log@) =~= power_log_view(old(self).power_log@).push(
                (vm_moref@, None),
            ));
            assert(strings_view(self.destroyed@) =~= strings_view(old(self).destroyed@).push(
                vm_moref@,
            ));
        }
        Ok(())
    }
}

/// Hands out fake clients over copies of one inventory.
pub struct FakeClientFactory {
    inventory: Inventory,
}

impl FakeClientFactory {
    pub closed spec fn inventory(self) -> Inventory {
        self.inventory
    }

    pub fn new(inventory: Inventory) -> (r: Self)
        ensures
            r.inventory() == inventory,
    {
        FakeClientFactory { inventory }
    }

    /// A fresh client over a copy of the inventory, whatever the endpoint,
    /// credentials and CA bundle.
    pub fn build(&self, endpoint: &str, creds: &Credentials, ca_bundle_pem: Option<&str>) -> (r: Result<
        FakeClient,
        Error,
    >)
        ensures
            r matches Ok(c) && same_inventory(c.inventory(), self.inventory()) && c.clones().len() == 0
                && c.power_log().len() == 0 && c.power_calls().len() == 0 && c.destroyed().len()
                == 0,
    {
        Ok(FakeClient::new(self.inventory.copy()))
    }
}

} // verus!
