use banlieue::str_map::StrMap;
use banlieue::vsphere::api::{ClassMapping, FailureDomain, FailureDomainNameOverride, ProviderCapabilities};
use banlieue::vsphere::fake::{FakeClient, Inventory};
use banlieue::vsphere::provider::{self, ZoneInventory};

/// Lists the zones the in-memory client reports (each datacenter with each
/// of its clusters and what the cluster reaches) and hands them to the
/// library.
fn discover_inventory(
    client: &FakeClient,
    provider: &str,
    caps: &ProviderCapabilities,
    overrides: &[FailureDomainNameOverride],
) -> Result<Vec<FailureDomain>, String> {
    let mut zones = Vec::new();
    for dc in client.list_datacenters().map_err(|e| e.message())? {
        for cluster in client.list_clusters(&dc).map_err(|e| e.message())? {
            zones.push(ZoneInventory {
                datacenter: dc.name.clone(),
                cluster: cluster.name.clone(),
                datastores: client.list_datastores(&cluster).map_err(|e| e.message())?,
                networks: client.list_networks(&cluster).map_err(|e| e.message())?,
            });
        }
    }
    provider::discover_inventory(provider, caps, overrides, &zones)
}

fn no_caps() -> ProviderCapabilities {
    ProviderCapabilities { storage_classes: Vec::new(), network_classes: Vec::new(), features: Vec::new() }
}

fn small_inventory() -> Inventory {
    Inventory::builder()
        .with_dc("dc-east")
        .with_cluster("dc-east", "cluster-a")
        .with_cluster("dc-east", "cluster-b")
        .with_dc("dc-west")
        .with_cluster("dc-west", "cluster-z")
        .build()
}

fn fd_override(datacenter: &str, cluster: &str, name: &str) -> FailureDomainNameOverride {
    FailureDomainNameOverride { datacenter: datacenter.to_string(), cluster: cluster.to_string(), name: name.to_string() }
}

fn target(pairs: &[(&str, &str)]) -> StrMap<String> {
    let mut m = StrMap::new();
    for (k, v) in pairs {
        m.insert(k.to_string(), v.to_string());
    }
    m
}

fn names(fds: &[FailureDomain]) -> Vec<&str> {
    fds.iter().map(|fd| fd.name.as_str()).collect()
}

#[test]
fn discover_inventory_returns_one_fd_per_dc_cluster_pair() {
    let client = FakeClient::new(small_inventory());
    let fds = discover_inventory(&client, "prod-vsphere", &no_caps(), &[]).ok().expect("inventory walk succeeds");
    assert_eq!(fds.len(), 3);
    let names = names(&fds);
    assert!(names.contains(&"prod-vsphere-dc-east-cluster-a"));
    assert!(names.contains(&"prod-vsphere-dc-east-cluster-b"));
    assert!(names.contains(&"prod-vsphere-dc-west-cluster-z"));
    let mut sorted = names.clone();
    sorted.sort_unstable();
    assert_eq!(names, sorted, "failure domains must be returned sorted by name");
}

#[test]
fn discover_inventory_populates_labels_and_raw_attributes() {
    let client = FakeClient::new(small_inventory());
    let fds = discover_inventory(&client, "p", &no_caps(), &[]).ok().unwrap();
    let fd = fds.iter().find(|f| f.name == "p-dc-east-cluster-a").unwrap();
    assert_eq!(fd.labels.get("datacenter").map(String::as_str), Some("dc-east"));
    assert_eq!(fd.labels.get("cluster").map(String::as_str), Some("cluster-a"));
    assert_eq!(fd.attributes.raw.get("datacenter").map(String::as_str), Some("dc-east"));
    assert_eq!(fd.attributes.raw.get("cluster").map(String::as_str), Some("cluster-a"));
}

#[test]
fn discover_inventory_labels_each_fd_with_its_own_resolved_name() {
    let overrides = [fd_override("dc-east", "cluster-a", "cluster-01")];
    let client = FakeClient::new(small_inventory());
    let fds = discover_inventory(&client, "p", &no_caps(), &overrides).ok().unwrap();
    let fd = fds.iter().find(|f| f.name == "cluster-01").unwrap();
    assert_eq!(fd.labels.get("name").map(String::as_str), Some("cluster-01"));
    let auto = fds.iter().find(|f| f.name == "p-dc-east-cluster-b").unwrap();
    assert_eq!(auto.labels.get("name").map(String::as_str), Some("p-dc-east-cluster-b"));
}

#[test]
fn discover_inventory_with_no_datacenters_returns_empty() {
    let client = FakeClient::new(Inventory::empty());
    let fds = discover_inventory(&client, "p", &no_caps(), &[]).ok().unwrap();
    assert!(fds.is_empty());
}

#[test]
fn discover_inventory_with_dc_but_no_clusters_returns_empty() {
    let client = FakeClient::new(Inventory::builder().with_dc("dc-empty").build());
    let fds = discover_inventory(&client, "p", &no_caps(), &[]).ok().unwrap();
    assert!(fds.is_empty());
}

#[test]
fn discover_inventory_uses_the_override_name_when_one_matches() {
    let client = FakeClient::new(small_inventory());
    let overrides = [fd_override("dc-east", "cluster-a", "cluster-01")];
    let fds = discover_inventory(&client, "prod-vsphere", &no_caps(), &overrides).ok().expect("inventory walk succeeds");
    let names = names(&fds);
    assert!(names.contains(&"cluster-01"));
    assert!(names.contains(&"prod-vsphere-dc-east-cluster-b"));
    assert!(names.contains(&"prod-vsphere-dc-west-cluster-z"));
    assert!(!names.contains(&"prod-vsphere-dc-east-cluster-a"));
}

#[test]
fn discover_inventory_slugifies_an_override_name() {
    let client = FakeClient::new(small_inventory());
    let overrides = [fd_override("dc-east", "cluster-a", "Cluster 01")];
    let fds = discover_inventory(&client, "prod-vsphere", &no_caps(), &overrides).ok().unwrap();
    assert!(names(&fds).contains(&"cluster-01"));
}

#[test]
fn discover_inventory_ignores_an_override_for_an_unmatched_zone() {
    let client = FakeClient::new(small_inventory());
    let overrides = [fd_override("dc-nonexistent", "cluster-x", "cluster-01")];
    let fds = discover_inventory(&client, "prod-vsphere", &no_caps(), &overrides).ok().unwrap();
    let names = names(&fds);
    assert_eq!(names.len(), 3);
    assert!(!names.contains(&"cluster-01"));
}

#[test]
fn discover_inventory_fails_when_two_zones_override_to_the_same_name() {
    let client = FakeClient::new(small_inventory());
    let overrides = [fd_override("dc-east", "cluster-a", "cluster-01"), fd_override("dc-east", "cluster-b", "cluster-01")];
    let err = match discover_inventory(&client, "prod-vsphere", &no_caps(), &overrides) {
        Ok(_) => panic!("two zones overridden to one name must fail the walk"),
        Err(e) => e,
    };
    assert!(err.contains("cluster-01"), "got: {err}");
}

#[test]
fn discover_inventory_reports_per_cluster_reachability() {
    let inv = Inventory::builder()
        .with_dc("dc")
        .with_cluster("dc", "c1")
        .with_cluster("dc", "c2")
        .with_datastore("dc", "c1", "ds-gold", Some("DSC-GOLD"))
        .with_network("dc", "c1", "pg-prod", true)
        .build();
    let caps = ProviderCapabilities {
        storage_classes: vec![ClassMapping {
            name: "gold".into(),
            target: Some(target(&[("datastoreCluster", "DSC-GOLD")])),
            per_zone: Vec::new(),
        }],
        network_classes: vec![ClassMapping {
            name: "prod".into(),
            target: Some(target(&[("distributedPortGroup", "pg-prod")])),
            per_zone: Vec::new(),
        }],
        features: Vec::new(),
    };
    let client = FakeClient::new(inv);
    let fds = discover_inventory(&client, "p", &caps, &[]).ok().unwrap();
    let c1 = fds.iter().find(|f| f.labels.get("cluster").map(String::as_str) == Some("c1")).unwrap();
    let c2 = fds.iter().find(|f| f.labels.get("cluster").map(String::as_str) == Some("c2")).unwrap();
    assert_eq!(c1.attributes.available_storage_classes, vec!["gold"]);
    assert_eq!(c1.attributes.available_network_classes, vec!["prod"]);
    assert!(c2.attributes.available_storage_classes.is_empty());
    assert!(c2.attributes.available_network_classes.is_empty());
}
