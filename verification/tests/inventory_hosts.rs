use ansible_operator::ansible_inventory::{
    distinct_host_count, distinct_hosts, flatten_hosts, is_node_host, managed_ssh_node_names,
    node_hosts, HostConnection, ResolvedHosts, ResolvedInventoryGroup,
};
use ansible_operator::resources::{GenericMap, SecretRef, SshConfig};
use std::collections::HashSet;

fn group(name: &str, hosts: &[&str]) -> ResolvedHosts {
    ResolvedHosts {
        name: name.into(),
        hosts: hosts.iter().map(|host| (*host).to_string()).collect(),
        ..Default::default()
    }
}

fn ssh_config() -> SshConfig {
    SshConfig {
        user: "root".into(),
        secret_ref: SecretRef { name: "key".into() },
    }
}

/// One Node is one host, however many of an inventory's groups match it.
#[test]
fn a_host_in_two_groups_is_one_host() {
    let groups = vec![
        ResolvedHosts {
            name: "workers".into(),
            hosts: vec!["node-a".into(), "node-b".into()],
            ..Default::default()
        },
        ResolvedHosts {
            name: "storage".into(),
            hosts: vec!["node-b".into(), "node-c".into()],
            ..Default::default()
        },
    ];

    assert_eq!(
        distinct_hosts(&groups),
        vec!["node-a".to_string(), "node-b".into(), "node-c".into()],
        "first-seen order, so group membership still reads naturally"
    );
    assert_eq!(distinct_host_count(&groups), 3);
    assert_eq!(distinct_host_count(&[]), 0);
}

#[test]
fn flattening_records_how_each_group_is_reached() {
    let flattened = flatten_hosts(&[
        ResolvedInventoryGroup::ManagedSsh {
            hosts: group("workers", &["node-a"]),
            tolerations: None,
            variables: None,
        },
        ResolvedInventoryGroup::Ssh {
            hosts: group("edge", &["ccu.fritz.box"]),
            static_inventory_name: "ccu".into(),
            config: ssh_config(),
            variables: None,
        },
    ]);

    assert_eq!(
        flattened[0].connection,
        Some(HostConnection::ManagedSsh),
        "a ClusterInventory group is always a cluster Node"
    );
    assert_eq!(flattened[1].connection, Some(HostConnection::Ssh));
    assert_eq!(flattened[0].hosts, vec!["node-a".to_string()]);
}

/// Only what was recorded as a Node counts.
#[test]
fn only_groups_recorded_as_nodes_are_nodes() {
    let node_group = ResolvedHosts {
        connection: Some(HostConnection::ManagedSsh),
        ..group("workers", &["node-a", "node-b"])
    };
    let external = ResolvedHosts {
        connection: Some(HostConnection::Ssh),
        ..group("edge", &["ccu.fritz.box"])
    };
    let untracked = group("legacy", &["node-c"]);

    let groups = [node_group, external, untracked];
    let listed = node_hosts(&groups);
    let hosts: HashSet<&str> = listed.iter().map(String::as_str).collect();

    assert_eq!(
        hosts,
        HashSet::from(["node-a", "node-b"]),
        "the external group and the untracked one are both left out"
    );
    assert!(node_hosts(&[]).is_empty());

    for host in ["node-a", "node-b", "ccu.fritz.box", "node-c", "absent"] {
        assert_eq!(
            is_node_host(&groups, host),
            hosts.contains(host),
            "{host} must be answered the same way whichever shape asks"
        );
    }
    assert!(!is_node_host(&[], "node-a"));
}

#[test]
fn a_group_gives_its_hosts_its_connection_and_its_variables() {
    let managed = ResolvedInventoryGroup::ManagedSsh {
        hosts: group("workers", &["node-a", "node-b"]),
        tolerations: None,
        variables: Some(GenericMap { json: "{\"a\":1}".into() }),
    };
    let external = ResolvedInventoryGroup::Ssh {
        hosts: group("edge", &["ccu.fritz.box"]),
        static_inventory_name: "ccu".into(),
        config: ssh_config(),
        variables: None,
    };

    assert_eq!(managed.hosts().name, "workers");
    assert_eq!(managed.connection(), HostConnection::ManagedSsh);
    assert_eq!(managed.variables().map(|v| v.json.as_str()), Some("{\"a\":1}"));
    assert_eq!(external.connection(), HostConnection::Ssh);
    assert_eq!(external.variables(), None);
    assert_eq!(managed_ssh_node_names(&[managed, external]), ["node-a", "node-b"]);
}
