//! The `Provider` reconciler's decisions: which declared storage and
//! network classes each zone can reach, what each failure domain is called
//! and labelled, and which conditions a pass records.
use vstd::prelude::*;
use crate::keyed::{
    first_repeat, is_first_repeat, lemma_sort_keeps_one_per_key, one_per_key, sort_by_key,
    sort_keyed, Keyed,
};
use crate::sdk::condition_status;
use crate::sdk::status::{after_set, models, set_condition_at, Condition};
use crate::str_map::StrMap;
use crate::text::{debug_str, owned, quoted, str_eq, strings_view, strs_view};
use crate::vsphere::api::{
    target_for_spec, ClassMapping, FailureDomain, FailureDomainAttributes,
    FailureDomainNameOverride, ProviderCapabilities,
};
use crate::vsphere::client::{Datastore, Network};
use crate::vsphere::k8s_name::{collision_safe_name, dns_label, safe_name};
use crate::sdk::scheduling::string_values;

verus! {

/// The provider class this provider acts for.
pub const PROVIDER_CLASS_NAME: &'static str = "vsphere";

/// Condition types on `Provider.status`.
pub const CONDITION_READY: &'static str = "Ready";

pub const CONDITION_PROVIDER_REACHABLE: &'static str = "ProviderReachable";

/// Condition reasons; operators match on them, so they stay stable.
pub const REASON_RECONCILED: &'static str = "Reconciled";

pub const REASON_CONNECT_FAILED: &'static str = "ConnectFailed";

pub const REASON_SECRET_MISSING: &'static str = "SecretMissing";

pub const REASON_SECRET_INVALID: &'static str = "SecretInvalid";

pub const REASON_INVENTORY_FAILED: &'static str = "InventoryFailed";

/// Keys of a storage-class target.
pub const TARGET_DATASTORE: &'static str = "datastore";

pub const TARGET_DATASTORE_CLUSTER: &'static str = "datastoreCluster";

/// Keys of a network-class target.
pub const TARGET_PORT_GROUP: &'static str = "portGroup";

pub const TARGET_DISTRIBUTED_PORT_GROUP: &'static str = "distributedPortGroup";

/// Keys of a failure domain's raw attributes and labels.
pub const ATTR_DATACENTER: &'static str = "datacenter";

pub const ATTR_CLUSTER: &'static str = "cluster";

pub const LABEL_NAME: &'static str = "name";

impl Keyed for FailureDomain {
    open spec fn key_view(&self) -> Seq<char> {
        self.name@
    }

    fn key_str(&self) -> (r: &str) {
        self.name.as_str()
    }
}

// ---------------------------------------------------------------------
// Reachability
// ---------------------------------------------------------------------

/// `d` is a member of the datastore cluster named `c`.
pub open spec fn in_datastore_cluster(d: Datastore, c: Seq<char>) -> bool {
    match d.datastore_cluster {
        Some(x) => x@ == c,
        None => false,
    }
}

/// A storage target is reachable when a datastore of its `datastore` name,
/// or else a member of its `datastoreCluster`, is among `ds`.
pub open spec fn storage_reachable(target: Map<Seq<char>, String>, ds: Seq<Datastore>) -> bool {
    if target.contains_key(TARGET_DATASTORE@) {
        exists|i: int| 0 <= i < ds.len() && #[trigger] ds[i].name@ == target[TARGET_DATASTORE@]@
    } else if target.contains_key(TARGET_DATASTORE_CLUSTER@) {
        exists|i: int| 0 <= i < ds.len() && in_datastore_cluster(#[trigger] ds[i], target[TARGET_DATASTORE_CLUSTER@]@)
    } else {
        false
    }
}

/// A network target is reachable when a standard port group of its
/// `portGroup` name, or else a distributed one of its
/// `distributedPortGroup` name, is among `nets`.
pub open spec fn network_reachable(target: Map<Seq<char>, String>, nets: Seq<Network>) -> bool {
    if target.contains_key(TARGET_PORT_GROUP@) {
        exists|i: int|
            0 <= i < nets.len() && !(#[trigger] nets[i]).distributed && nets[i].name@
                == target[TARGET_PORT_GROUP@]@
    } else if target.contains_key(TARGET_DISTRIBUTED_PORT_GROUP@) {
        exists|i: int|
            0 <= i < nets.len() && (#[trigger] nets[i]).distributed && nets[i].name@
                == target[TARGET_DISTRIBUTED_PORT_GROUP@]@
    } else {
        false
    }
}

pub fn storage_class_reachable(target: &StrMap<String>, datastores: &[Datastore]) -> (r: bool)
    ensures
        r == storage_reachable(target@, datastores@),
{
    match target.get(TARGET_DATASTORE) {
        Some(name) => {
            let mut i: usize = 0;
            while i < datastores.len()
                invariant
                    i <= datastores.len(),
                    target@.contains_key(TARGET_DATASTORE@),
                    *name == target@[TARGET_DATASTORE@],
                    forall|j: int| 0 <= j < i ==> #[trigger] datastores@[j].name@ != name@,
                decreases datastores.len() - i,
            {
                if str_eq(datastores[i].name.as_str(), name.as_str()) {
                    return true;
                }
                i += 1;
            }
            false
        },
        None => match target.get(TARGET_DATASTORE_CLUSTER) {
            Some(dsc) => {
                let mut i: usize = 0;
                while i < datastores.len()
                    invariant
                        i <= datastores.len(),
                        !target@.contains_key(TARGET_DATASTORE@),
                        target@.contains_key(TARGET_DATASTORE_CLUSTER@),
                        *dsc == target@[TARGET_DATASTORE_CLUSTER@],
                        forall|j: int| 0 <= j < i ==> !in_datastore_cluster(#[trigger] datastores@[j], dsc@),
                    decreases datastores.len() - i,
                {
                    let hit = match &datastores[i].datastore_cluster {
                        Some(c) => str_eq(c.as_str(), dsc.as_str()),
                        None => false,
                    };
                    if hit {
                        return true;
                    }
                    i += 1;
                }
                false
            },
            None => false,
        },
    }
}

pub fn network_class_reachable(target: &StrMap<String>, networks: &[Network]) -> (r: bool)
    ensures
        r == network_reachable(target@, networks@),
{
    match target.get(TARGET_PORT_GROUP) {
        Some(name) => {
            let mut i: usize = 0;
            while i < networks.len()
                invariant
                    i <= networks.len(),
                    target@.contains_key(TARGET_PORT_GROUP@),
                    *name == target@[TARGET_PORT_GROUP@],
                    forall|j: int|
                        0 <= j < i ==> !(!(#[trigger] networks@[j]).distributed && networks@[j].name@
                            == name@),
                decreases networks.len() - i,
            {
                if !networks[i].distributed && str_eq(networks[i].name.as_str(), name.as_str()) {
                    return true;
                }
                i += 1;
            }
            false
        },
        None => match target.get(TARGET_DISTRIBUTED_PORT_GROUP) {
            Some(name) => {
                let mut i: usize = 0;
                while i < networks.len()
                    invariant
                        i <= networks.len(),
                        !target@.contains_key(TARGET_PORT_GROUP@),
                        target@.contains_key(TARGET_DISTRIBUTED_PORT_GROUP@),
                        *name == target@[TARGET_DISTRIBUTED_PORT_GROUP@],
                        forall|j: int|
                            0 <= j < i ==> !((#[trigger] networks@[j]).distributed
                                && networks@[j].name@ == name@),
                    decreases networks.len() - i,
                {
                    if networks[i].distributed && str_eq(networks[i].name.as_str(), name.as_str()) {
                        return true;
                    }
                    i += 1;
                }
                false
            },
            None => false,
        },
    }
}

// ---------------------------------------------------------------------
// Failure-domain attributes
// ---------------------------------------------------------------------

/// The names of the storage classes reachable in zone (`dc`, `cluster`), in
/// declaration order.
pub open spec fn available_storage(
    classes: Seq<ClassMapping>,
    ds: Seq<Datastore>,
    dc: Seq<char>,
    cluster: Seq<char>,
) -> Seq<Seq<char>>
    decreases classes.len(),
{
    if classes.len() == 0 {
        Seq::empty()
    } else {
        let rest = available_storage(classes.drop_last(), ds, dc, cluster);
        let c = classes.last();
        if target_for_spec(c, dc, cluster) matches Some(t) && storage_reachable(t@, ds) {
            rest.push(c.name@)
        } else {
            rest
        }
    }
}

/// The names of the network classes reachable in zone (`dc`, `cluster`), in
/// declaration order.
pub open spec fn available_networks(
    classes: Seq<ClassMapping>,
    nets: Seq<Network>,
    dc: Seq<char>,
    cluster: Seq<char>,
) -> Seq<Seq<char>>
    decreases classes.len(),
{
    if classes.len() == 0 {
        Seq::empty()
    } else {
        let rest = available_networks(classes.drop_last(), nets, dc, cluster);
        let c = classes.last();
        if target_for_spec(c, dc, cluster) matches Some(t) && network_reachable(t@, nets) {
            rest.push(c.name@)
        } else {
            rest
        }
    }
}

/// The map `{datacenter: dc, cluster: cluster}`.
pub open spec fn zone_map(dc: Seq<char>, cluster: Seq<char>) -> Map<Seq<char>, Seq<char>> {
    Map::empty().insert(ATTR_DATACENTER@, dc).insert(ATTR_CLUSTER@, cluster)
}

fn copy_strings(v: &Vec<String>) -> (r: Vec<String>)
    ensures
        strings_view(r@) == strings_view(v@),
{
    let mut out: Vec<String> = Vec::new();
    let mut i: usize = 0;
    while i < v.len()
        invariant
            i <= v.len(),
            strings_view(out@) == strings_view(v@).take(i as int),
        decreases v.len() - i,
    {
        let ghost before = out@;
        out.push(v[i].clone());
        proof {
            assert(strings_view(out@) =~= strings_view(before).push(v@[i as int]@));
            assert(strings_view(v@).take(i as int + 1) =~= strings_view(v@).take(i as int).push(
                v@[i as int]@,
            ));
        }
        i += 1;
    }
    proof {
        assert(strings_view(v@).take(v.len() as int) =~= strings_view(v@));
    }
    out
}

fn zone_attributes_map(dc: &str, cluster: &str) -> (r: StrMap<String>)
    ensures
        string_values(r@) == zone_map(dc@, cluster@),
{
    let mut raw: StrMap<String> = StrMap::new();
    raw.insert(owned(ATTR_DATACENTER), owned(dc));
    raw.insert(owned(ATTR_CLUSTER), owned(cluster));
    proof {
        assert(string_values(raw@) =~= zone_map(dc@, cluster@));
    }
    raw
}

/// A failure domain's capability attributes: the declared classes whose
/// target for this zone is reachable from it, the declared features as
/// they are, and the zone's datacenter and cluster.
pub fn compute_failure_domain_attributes(
    capabilities: &ProviderCapabilities,
    datastores: &[Datastore],
    networks: &[Network],
    dc_name: &str,
    cluster_name: &str,
) -> (r: FailureDomainAttributes)
    ensures
        strings_view(r.available_storage_classes@) == available_storage(
            capabilities.storage_classes@,
            datastores@,
            dc_name@,
            cluster_name@,
        ),
        strings_view(r.available_network_classes@) == available_networks(
            capabilities.network_classes@,
            networks@,
            dc_name@,
            cluster_name@,
        ),
        strings_view(r.features@) == strings_view(capabilities.features@),
        string_values(r.raw@) == zone_map(dc_name@, cluster_name@),
{
    let sc = &capabilities.storage_classes;
    let mut storage: Vec<String> = Vec::new();
    let mut i: usize = 0;
    proof {
        assert(sc@.take(0) =~= Seq::<ClassMapping>::empty());
    }
    while i < sc.len()
        invariant
            i <= sc.len(),
            strings_view(storage@) == available_storage(
                sc@.take(i as int),
                datastores@,
                dc_name@,
                cluster_name@,
            ),
        decreases sc.len() - i,
    {
        proof {
            assert(sc@.take(i as int + 1).drop_last() =~= sc@.take(i as int));
            assert(sc@.take(i as int + 1).last() == sc@[i as int]);
        }
        let ok = match sc[i].target_for(dc_name, cluster_name) {
            Some(t) => storage_class_reachable(t, datastores),
            None => false,
        };
        if ok {
            let ghost before = storage@;
            storage.push(sc[i].name.clone());
            proof {
                assert(strings_view(storage@) =~= strings_view(before).push(sc@[i as int].name@));
            }
        }
        i += 1;
    }
    proof {
        assert(sc@.take(sc.len() as int) =~= sc@);
    }
    let nc = &capabilities.network_classes;
    let mut nets: Vec<String> = Vec::new();
    let mut j: usize = 0;
    proof {
        assert(nc@.take(0) =~= Seq::<ClassMapping>::empty());
    }
    while j < nc.len()
        invariant
            j <= nc.len(),
            strings_view(nets@) == available_networks(
                nc@.take(j as int),
                networks@,
                dc_name@,
                cluster_name@,
            ),
        decreases nc.len() - j,
    {
        proof {
            assert(nc@.take(j as int + 1).drop_last() =~= nc@.take(j as int));
            assert(nc@.take(j as int + 1).last() == nc@[j as int]);
        }
        let ok = match nc[j].target_for(dc_name, cluster_name) {
            Some(t) => network_class_reachable(t, networks),
            None => false,
        };
        if ok {
            let ghost before = nets@;
            nets.push(nc[j].name.clone());
            proof {
                assert(strings_view(nets@) =~= strings_view(before).push(nc@[j as int].name@));
            }
        }
        j += 1;
    }
    proof {
        assert(nc@.take(nc.len() as int) =~= nc@);
    }
    FailureDomainAttributes {
        available_storage_classes: storage,
        available_network_classes: nets,
        features: copy_strings(&capabilities.features),
        raw: zone_attributes_map(dc_name, cluster_name),
    }
}

// ---------------------------------------------------------------------
// Names
// ---------------------------------------------------------------------

/// The fields that identify one generated failure-domain name.
pub struct FailureDomainIdentity<'a> {
    pub provider: &'a str,
    pub dc: &'a str,
    pub cluster: &'a str,
}

/// A DNS-label `<provider>-<dc>-<cluster>` name, at most 63 characters and
/// collision-safe when cut.
pub fn failure_domain_name(id: &FailureDomainIdentity) -> (r: String)
    ensures
        r@ == safe_name(seq![id.provider@, id.dc@, id.cluster@]),
        dns_label(r@),
{
    let parts: Vec<&str> = vec![id.provider, id.dc, id.cluster];
    proof {
        assert(strs_view(parts@) =~= seq![id.provider@, id.dc@, id.cluster@]);
    }
    collision_safe_name(parts.as_slice())
}

pub open spec fn is_override_for(o: FailureDomainNameOverride, dc: Seq<char>, cluster: Seq<char>) -> bool {
    o.datacenter@ == dc && o.cluster@ == cluster
}

/// The name the first override for (`dc`, `cluster`) gives, if any.
pub open spec fn override_for(
    overrides: Seq<FailureDomainNameOverride>,
    dc: Seq<char>,
    cluster: Seq<char>,
) -> Option<Seq<char>> {
    if exists|i: int| 0 <= i < overrides.len() && is_override_for(#[trigger] overrides[i], dc, cluster) {
        let i = choose|i: int|
            0 <= i < overrides.len() && is_override_for(#[trigger] overrides[i], dc, cluster)
                && forall|j: int| 0 <= j < i ==> !is_override_for(#[trigger] overrides[j], dc, cluster);
        Some(overrides[i].name@)
    } else {
        None
    }
}

/// Find an admin-declared name for (`dc`, `cluster`), if any.
pub fn find_failure_domain_name_override<'a>(
    overrides: &'a [FailureDomainNameOverride],
    dc: &str,
    cluster: &str,
) -> (r: Option<&'a str>)
    ensures
        match r {
            Some(n) => override_for(overrides@, dc@, cluster@) == Some(n@),
            None => override_for(overrides@, dc@, cluster@) is None,
        },
{
    let mut i: usize = 0;
    while i < overrides.len()
        invariant
            i <= overrides.len(),
            forall|j: int| 0 <= j < i ==> !is_override_for(#[trigger] overrides@[j], dc@, cluster@),
        decreases overrides.len() - i,
    {
        if str_eq(overrides[i].datacenter.as_str(), dc) && str_eq(
            overrides[i].cluster.as_str(),
            cluster,
        ) {
            proof {
                let k = choose|k: int|
                    0 <= k < overrides.len() && is_override_for(#[trigger] overrides@[k], dc@, cluster@)
                        && forall|j: int| 0 <= j < k ==> !is_override_for(#[trigger] overrides@[j], dc@, cluster@);
                assert(is_override_for(overrides@[i as int], dc@, cluster@));
                if k > i {
                    assert(!is_override_for(overrides@[i as int], dc@, cluster@));
                }
            }
            return Some(overrides[i].name.as_str());
        }
        i += 1;
    }
    None
}

/// The name of the failure domain of (`dc`, `cluster`): an override's name
/// when one matches, else `<provider>-<dc>-<cluster>`, either way made a
/// collision-safe DNS label.
pub open spec fn failure_domain_name_for(
    provider: Seq<char>,
    dc: Seq<char>,
    cluster: Seq<char>,
    overrides: Seq<FailureDomainNameOverride>,
) -> Seq<char> {
    match override_for(overrides, dc, cluster) {
        Some(o) => safe_name(seq![o]),
        None => safe_name(seq![provider, dc, cluster]),
    }
}

/// The labels of a failure domain: its datacenter, cluster and name.
pub open spec fn failure_domain_labels(dc: Seq<char>, cluster: Seq<char>, name: Seq<char>) -> Map<
    Seq<char>,
    Seq<char>,
> {
    zone_map(dc, cluster).insert(LABEL_NAME@, name)
}

/// One failure domain from its zone and already computed attributes.
pub fn build_failure_domain(
    provider: &str,
    dc_name: &str,
    cluster_name: &str,
    attributes: FailureDomainAttributes,
    overrides: &[FailureDomainNameOverride],
) -> (r: FailureDomain)
    ensures
        r.name@ == failure_domain_name_for(provider@, dc_name@, cluster_name@, overrides@),
        dns_label(r.name@),
        string_values(r.labels@) == failure_domain_labels(dc_name@, cluster_name@, r.name@),
        r.attributes == attributes,
{
    let name = match find_failure_domain_name_override(overrides, dc_name, cluster_name) {
        Some(o) => {
            let parts: Vec<&str> = vec![o];
            proof {
                assert(strs_view(parts@) =~= seq![o@]);
            }
            collision_safe_name(parts.as_slice())
        },
        None => failure_domain_name(
            &FailureDomainIdentity { provider, dc: dc_name, cluster: cluster_name },
        ),
    };
    let mut labels = zone_attributes_map(dc_name, cluster_name);
    let ghost before = labels@;
    labels.insert(owned(LABEL_NAME), name.clone());
    proof {
        assert(string_values(labels@) =~= string_values(before).insert(LABEL_NAME@, name@));
    }
    FailureDomain { name, labels, attributes }
}

/// What was found in one (datacenter, cluster) of vCenter.
pub struct ZoneInventory {
    pub datacenter: String,
    pub cluster: String,
    pub datastores: Vec<Datastore>,
    pub networks: Vec<Network>,
}

/// The failure domain of one zone of the inventory.
pub fn zone_failure_domain(
    provider: &str,
    capabilities: &ProviderCapabilities,
    overrides: &[FailureDomainNameOverride],
    zone: &ZoneInventory,
) -> (r: FailureDomain)
    ensures
        r.name@ == failure_domain_name_for(
            provider@,
            zone.datacenter@,
            zone.cluster@,
            overrides@,
        ),
        dns_label(r.name@),
        string_values(r.labels@) == failure_domain_labels(
            zone.datacenter@,
            zone.cluster@,
            r.name@,
        ),
        strings_view(r.attributes.available_storage_classes@) == available_storage(
            capabilities.storage_classes@,
            zone.datastores@,
            zone.datacenter@,
            zone.cluster@,
        ),
        strings_view(r.attributes.available_network_classes@) == available_networks(
            capabilities.network_classes@,
            zone.networks@,
            zone.datacenter@,
            zone.cluster@,
        ),
        strings_view(r.attributes.features@) == strings_view(capabilities.features@),
        string_values(r.attributes.raw@) == zone_map(zone.datacenter@, zone.cluster@),
{
    let attributes = compute_failure_domain_attributes(
        capabilities,
        zone.datastores.as_slice(),
        zone.networks.as_slice(),
        zone.datacenter.as_str(),
        zone.cluster.as_str(),
    );
    build_failure_domain(
        provider,
        zone.datacenter.as_str(),
        zone.cluster.as_str(),
        attributes,
        overrides,
    )
}

pub open spec fn duplicate_name_error(name: Seq<char>) -> Seq<char> {
    "two failure domains resolved to the same name "@ + debug_str(name)
        + " — check spec.failureDomainNameOverrides for two (datacenter, cluster) pairs mapped to the same name"@
}

/// The failure domains in name order (so the status does not change from
/// one pass to the next), or an error naming the first name two of them
/// share.
pub fn finalize_failure_domains(fds: Vec<FailureDomain>) -> (r: Result<Vec<FailureDomain>, String>)
    ensures
        match r {
            Ok(v) => v@ == sort_by_key(fds@) && one_per_key(v@),
            Err(m) => exists|i: int|
                is_first_repeat(sort_by_key(fds@), i) && m@ == duplicate_name_error(
                    #[trigger] sort_by_key(fds@)[i].name@,
                ),
        },
        one_per_key(fds@) ==> r is Ok,
{
    let ghost original = fds@;
    let sorted = sort_keyed(fds);
    proof {
        if one_per_key(original) {
            lemma_sort_keeps_one_per_key(original);
        }
    }
    match first_repeat(&sorted) {
        Some(i) => {
            let mut m = owned("two failure domains resolved to the same name ");
            let q = quoted(sorted[i].name.as_str());
            m.append(q.as_str());
            m.append(
                " — check spec.failureDomainNameOverrides for two (datacenter, cluster) pairs mapped to the same name",
            );
            proof {
                if one_per_key(sorted@) {
                    let j = choose|j: int|
                        0 <= j < i && #[trigger] sorted@[j].key_view() == sorted@[i as int].key_view();
                    assert(sorted@[j].key_view() != sorted@[i as int].key_view());
                }
            }
            Err(m)
        },
        None => Ok(sorted),
    }
}

/// `fd` is the failure domain of `zone`: what [`zone_failure_domain`]
/// builds.
pub open spec fn is_zone_failure_domain(
    provider: Seq<char>,
    capabilities: ProviderCapabilities,
    overrides: Seq<FailureDomainNameOverride>,
    zone: ZoneInventory,
    fd: FailureDomain,
) -> bool {
    &&& fd.name@ == failure_domain_name_for(provider, zone.datacenter@, zone.cluster@, overrides)
    &&& dns_label(fd.name@)
    &&& string_values(fd.labels@) == failure_domain_labels(zone.datacenter@, zone.cluster@, fd.name@)
    &&& strings_view(fd.attributes.available_storage_classes@) == available_storage(
        capabilities.storage_classes@,
        zone.datastores@,
        zone.datacenter@,
        zone.cluster@,
    )
    &&& strings_view(fd.attributes.available_network_classes@) == available_networks(
        capabilities.network_classes@,
        zone.networks@,
        zone.datacenter@,
        zone.cluster@,
    )
    &&& strings_view(fd.attributes.features@) == strings_view(capabilities.features@)
    &&& string_values(fd.attributes.raw@) == zone_map(zone.datacenter@, zone.cluster@)
}

/// `fds` are the failure domains of `zones`, one per zone, in zone order.
pub open spec fn zone_failure_domains(
    provider: Seq<char>,
    capabilities: ProviderCapabilities,
    overrides: Seq<FailureDomainNameOverride>,
    zones: Seq<ZoneInventory>,
    fds: Seq<FailureDomain>,
) -> bool {
    &&& fds.len() == zones.len()
    &&& forall|i: int|
        0 <= i < zones.len() ==> is_zone_failure_domain(
            provider,
            capabilities,
            overrides,
            #[trigger] zones[i],
            fds[i],
        )
}

/// What [`finalize_failure_domains`] gives for `fds`.
pub open spec fn finalized(fds: Seq<FailureDomain>, r: Result<Vec<FailureDomain>, String>) -> bool {
    &&& match r {
        Ok(v) => v@ == sort_by_key(fds) && one_per_key(v@),
        Err(m) => exists|i: int|
            is_first_repeat(sort_by_key(fds), i) && m@ == duplicate_name_error(
                #[trigger] sort_by_key(fds)[i].name@,
            ),
    }
    &&& one_per_key(fds) ==> r is Ok
}

/// The failure domains of a Provider pass: one per zone of the inventory
/// (a datacenter and one of its clusters, with what the cluster reaches),
/// in name order, or an error when two of them resolve to one name.
pub fn discover_inventory(
    provider: &str,
    capabilities: &ProviderCapabilities,
    overrides: &[FailureDomainNameOverride],
    zones: &[ZoneInventory],
) -> (r: Result<Vec<FailureDomain>, String>)
    ensures
        exists|fds: Seq<FailureDomain>|
            #[trigger] zone_failure_domains(provider@, *capabilities, overrides@, zones@, fds)
                && finalized(fds, r),
{
    let mut out: Vec<FailureDomain> = Vec::new();
    let mut i: usize = 0;
    while i < zones.len()
        invariant
            i <= zones.len(),
            out.len() == i,
            forall|j: int|
                0 <= j < i ==> is_zone_failure_domain(
                    provider@,
                    *capabilities,
                    overrides@,
                    #[trigger] zones@[j],
                    out@[j],
                ),
        decreases zones.len() - i,
    {
        let fd = zone_failure_domain(provider, capabilities, overrides, &zones[i]);
        out.push(fd);
        i += 1;
    }
    let ghost fds = out@;
    proof {
        assert(zone_failure_domains(provider@, *capabilities, overrides@, zones@, fds));
    }
    let r = finalize_failure_domains(out);
    proof {
        assert(finalized(fds, r));
    }
    r
}

// ---------------------------------------------------------------------
// Conditions
// ---------------------------------------------------------------------

/// What stopped a reconcile pass.
#[derive(Debug, Clone, Copy, PartialEq, Eq, Structural)]
pub enum ProviderFailure {
    /// The credentials Secret (or one of its keys) is missing.
    SecretMissing,
    /// The credentials Secret is unusable.
    SecretInvalid,
    /// The CA bundle could not be resolved.
    CaBundle,
    /// vCenter could not be reached or logged into.
    Connect,
    /// The inventory walk failed.
    Inventory,
}

/// The condition type and reason a failure is recorded under.
pub open spec fn failure_condition(f: ProviderFailure) -> (Seq<char>, Seq<char>) {
    match f {
        ProviderFailure::SecretMissing => (CONDITION_PROVIDER_REACHABLE@, REASON_SECRET_MISSING@),
        ProviderFailure::SecretInvalid => (CONDITION_PROVIDER_REACHABLE@, REASON_SECRET_INVALID@),
        ProviderFailure::CaBundle => (CONDITION_PROVIDER_REACHABLE@, REASON_CONNECT_FAILED@),
        ProviderFailure::Connect => (CONDITION_PROVIDER_REACHABLE@, REASON_CONNECT_FAILED@),
        ProviderFailure::Inventory => (CONDITION_READY@, REASON_INVENTORY_FAILED@),
    }
}

pub fn failure_condition_of(f: ProviderFailure) -> (r: (&'static str, &'static str))
    ensures
        (r.0@, r.1@) == failure_condition(f),
{
    match f {
        ProviderFailure::SecretMissing => (CONDITION_PROVIDER_REACHABLE, REASON_SECRET_MISSING),
        ProviderFailure::SecretInvalid => (CONDITION_PROVIDER_REACHABLE, REASON_SECRET_INVALID),
        ProviderFailure::CaBundle => (CONDITION_PROVIDER_REACHABLE, REASON_CONNECT_FAILED),
        ProviderFailure::Connect => (CONDITION_PROVIDER_REACHABLE, REASON_CONNECT_FAILED),
        ProviderFailure::Inventory => (CONDITION_READY, REASON_INVENTORY_FAILED),
    }
}

/// Whether this provider acts on a `Provider` of class `class_name` whose
/// `paused` flag is `paused`.
pub fn should_reconcile(class_name: &str, paused: bool) -> (r: bool)
    ensures
        r == (class_name@ == PROVIDER_CLASS_NAME@ && !paused),
{
    str_eq(class_name, PROVIDER_CLASS_NAME) && !paused
}

/// Conditions after a failed pass: the failed condition set to `False`
/// and, when that is not `Ready` itself, `Ready` set to `False` with the
/// same reason and message.
pub fn record_failure(
    conditions: &mut Vec<Condition>,
    condition_type: &str,
    reason: &str,
    message: &str,
    generation: i64,
    now: i64,
)
    ensures
        ({
            let first = after_set(
                models(old(conditions)@),
                condition_type@,
                condition_status::FALSE@,
                reason@,
                message@,
                generation,
                now,
            );
            models(final(conditions)@) == if condition_type@ == CONDITION_READY@ {
                first
            } else {
                after_set(
                    first,
                    CONDITION_READY@,
                    condition_status::FALSE@,
                    reason@,
                    message@,
                    generation,
                    now,
                )
            }
        }),
{
    set_condition_at(conditions, condition_type, condition_status::FALSE, reason, message, generation, now);
    if !str_eq(condition_type, CONDITION_READY) {
        set_condition_at(
            conditions,
            CONDITION_READY,
            condition_status::FALSE,
            reason,
            message,
            generation,
            now,
        );
    }
}

/// Conditions after a successful pass: `ProviderReachable` then `Ready`,
/// both `True`.
pub fn record_success(conditions: &mut Vec<Condition>, generation: i64, now: i64)
    ensures
        models(final(conditions)@) == after_set(
            after_set(
                models(old(conditions)@),
                CONDITION_PROVIDER_REACHABLE@,
                condition_status::TRUE@,
                REASON_RECONCILED@,
                "vCenter reachable; inventory walk succeeded"@,
                generation,
                now,
            ),
            CONDITION_READY@,
            condition_status::TRUE@,
            REASON_RECONCILED@,
            "Provider reconciled"@,
            generation,
            now,
        ),
{
    set_condition_at(
        conditions,
        CONDITION_PROVIDER_REACHABLE,
        condition_status::TRUE,
        REASON_RECONCILED,
        "vCenter reachable; inventory walk succeeded",
        generation,
        now,
    );
    set_condition_at(
        conditions,
        CONDITION_READY,
        condition_status::TRUE,
        REASON_RECONCILED,
        "Provider reconciled",
        generation,
        now,
    );
}

} // verus!
