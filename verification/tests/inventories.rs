use ansible_operator::ansible_inventory::{
    AnsibleInventory, HostConnection, ResolvedHosts, ResolvedInventoryGroup,
};
use ansible_operator::cluster_inventory::{
    ClusterInventory, ClusterInventorySpec, ClusterInventoryStatus,
};
use ansible_operator::execution_evaluator::{calculate_execution_hash, SecretData};
use ansible_operator::node_access::{policy_status, NodeAccessPolicySpec};
use ansible_operator::plans::{InventoryRef, PlaybookPlan, ReconcileError};
use ansible_operator::resources::{
    GenericMap, InventoryHosts, LabelMap, NodeSelectorTerm, ObjectMeta, SecretRef, SshConfig,
    StaticInventory, StaticInventoryHosts, StaticInventorySpec,
};
use ansible_operator::run_inventory::{
    cluster_inventory_names, hash_playbook_inputs, inventory_variables, kept_data,
    reject_reserved_variables, resolve_inventory, static_inventory_names,
};
use ansible_operator::version::parse;

fn labelled(name: &str, labels: &[(&str, &str)]) -> ObjectMeta {
    let mut map = LabelMap::new();
    for (key, value) in labels {
        map.insert((*key).to_string(), (*value).to_string());
    }
    ObjectMeta {
        name: Some(name.to_string()),
        labels: map,
        ..Default::default()
    }
}

fn variables(json: &str) -> Option<GenericMap> {
    Some(GenericMap { json: json.into() })
}

fn resolved(name: &str, hosts: &[&str]) -> ResolvedHosts {
    ResolvedHosts {
        name: name.into(),
        hosts: hosts.iter().map(|host| (*host).to_string()).collect(),
        ..Default::default()
    }
}

fn cluster(variables_of_workers: Option<GenericMap>) -> ClusterInventory {
    ClusterInventory {
        metadata: labelled("nodes", &[]),
        spec: ClusterInventorySpec {
            hosts: vec![InventoryHosts {
                name: "workers".into(),
                match_labels: None,
                variables: variables_of_workers,
            }],
            tolerations: None,
        },
        status: Some(ClusterInventoryStatus {
            observed_generation: None,
            host_count: 1,
            resolved_hosts: vec![resolved("workers", &["node-a"])],
            waiting_hosts: 0,
            dependencies: Vec::new(),
        }),
    }
}

fn external(variables_of_edge: Option<GenericMap>) -> StaticInventory {
    StaticInventory {
        metadata: labelled("ccu", &[]),
        spec: StaticInventorySpec {
            hosts: vec![StaticInventoryHosts {
                name: "edge".into(),
                hosts: vec!["ccu.fritz.box".into()],
                variables: variables_of_edge,
            }],
            ssh: SshConfig {
                user: "root".into(),
                secret_ref: SecretRef { name: "key".into() },
            },
        },
    }
}

#[test]
fn every_group_keeps_the_inventory_it_came_from() {
    let groups = resolve_inventory(
        &[cluster(variables(r#"{"motd":"hello"}"#))],
        &[external(None)],
        &["ansible_host".to_string()],
    )
    .unwrap();
    assert_eq!(groups.len(), 2);
    let ResolvedInventoryGroup::ManagedSsh { hosts, variables, .. } = &groups[0] else {
        panic!("a ClusterInventory is reached through proxies");
    };
    assert_eq!(hosts.hosts, ["node-a"]);
    assert_eq!(variables.as_ref().unwrap().json, r#"{"motd":"hello"}"#);
    let ResolvedInventoryGroup::Ssh {
        hosts,
        static_inventory_name,
        config,
        ..
    } = &groups[1]
    else {
        panic!("a StaticInventory is reached over its own key");
    };
    assert_eq!(hosts.hosts, ["ccu.fritz.box"]);
    assert_eq!(static_inventory_name, "ccu");
    assert_eq!(config.secret_ref.name, "key");
    assert_eq!(inventory_variables(&groups).len(), 1);
}

#[test]
fn a_recorded_connection_is_kept_with_its_hosts() {
    let mut recorded = cluster(None);
    if let Some(status) = recorded.status.as_mut() {
        status.resolved_hosts[0].connection = Some(HostConnection::ManagedSsh);
    }
    let groups = resolve_inventory(&[recorded, cluster(None)], &[external(None)], &[]).unwrap();
    let connections: Vec<Option<HostConnection>> = groups
        .iter()
        .map(|group| group.hosts().connection)
        .collect();
    assert_eq!(connections, [Some(HostConnection::ManagedSsh), None, None]);
}

#[test]
fn a_variable_the_operator_manages_is_refused() {
    let reserved = ["ansible_host".to_string(), "ansible_port".to_string()];
    let refused = resolve_inventory(
        &[cluster(None)],
        &[external(variables(r#"{"a":1,"ansible_port":22}"#))],
        &reserved,
    );
    assert!(matches!(
        refused,
        Err(ReconcileError::ReservedInventoryVariable { group, key })
            if group == "edge" && key == "ansible_port"
    ));
    assert!(reject_reserved_variables("edge", variables(r#"{"a":1}"#).as_ref(), &reserved).is_ok());
    assert!(reject_reserved_variables("edge", None, &reserved).is_ok());
}

#[test]
fn a_plan_names_its_inventories_by_kind_and_in_order() {
    let mut plan = PlaybookPlan::default();
    let reference = |cluster: Option<&str>, fixed: Option<&str>| InventoryRef {
        cluster_inventory: cluster.map(String::from),
        static_inventory: fixed.map(String::from),
    };
    plan.spec.inventory_refs = vec![
        reference(Some("b"), None),
        reference(None, Some("x")),
        reference(Some("a"), None),
    ];
    assert_eq!(cluster_inventory_names(&plan), ["b", "a"]);
    assert_eq!(static_inventory_names(&plan), ["x"]);
}

#[test]
fn an_inventory_gives_what_it_last_resolved_to() {
    let mut inventory = cluster(None);
    assert_eq!(inventory.get_hosts()[0].hosts, ["node-a"]);
    inventory.status = None;
    assert!(inventory.get_hosts().is_empty());
}

#[test]
fn a_secret_that_cannot_be_read_takes_no_part_in_the_revision() {
    let mut secret = SecretData::new();
    secret.insert("a".into(), b"1".to_vec());
    let groups = resolve_inventory(&[cluster(None)], &[], &[]).unwrap();
    assert_eq!(
        hash_playbook_inputs("playbook", vec![None, Some(secret.clone()), None], &groups),
        calculate_execution_hash("playbook", &[secret])
    );
    let with_variables =
        resolve_inventory(&[cluster(variables(r#"{"motd":"hello"}"#))], &[], &[]).unwrap();
    assert_ne!(
        hash_playbook_inputs("playbook", vec![], &with_variables),
        hash_playbook_inputs("playbook", vec![], &groups)
    );
}

#[test]
fn a_rewritten_secret_keeps_only_what_it_is_not_given_anew() {
    let mut data = SecretData::new();
    data.insert("inventory.yml".into(), b"old".to_vec());
    data.insert("extra".into(), b"kept".to_vec());
    let mut files = LabelMap::new();
    files.insert("inventory.yml".into(), "new".into());
    let kept = kept_data(data, &files);
    assert_eq!(kept.len(), 1);
    assert_eq!(kept.get("extra"), Some(&b"kept".to_vec()));
}

#[test]
fn a_policy_grants_what_both_its_selectors_match() {
    let selector = |key: &str, value: &str| NodeSelectorTerm {
        match_labels: Some(labelled("", &[(key, value)]).labels),
        match_expressions: None,
    };
    let status = policy_status(
        &NodeAccessPolicySpec {
            namespace_selector: selector("team", "a"),
            node_selector: selector("pool", "business"),
        },
        &[
            labelled("tenant", &[("team", "a")]),
            labelled("other", &[("team", "b")]),
        ],
        &[
            labelled("node-b", &[("pool", "business")]),
            labelled("node-a", &[("pool", "business")]),
            labelled("node-c", &[("pool", "platform")]),
        ],
    );
    assert_eq!(status.matched_namespaces, ["tenant"]);
    assert_eq!(status.allowed_nodes, ["node-a", "node-b"]);
    assert_eq!(status.allowed_node_count, 2);

    let nothing = policy_status(
        &NodeAccessPolicySpec {
            namespace_selector: NodeSelectorTerm::default(),
            node_selector: NodeSelectorTerm::default(),
        },
        &[labelled("tenant", &[])],
        &[labelled("node-a", &[])],
    );
    assert!(nothing.matched_namespaces.is_empty() && nothing.allowed_nodes.is_empty());
}

#[test]
fn versions_are_ordered_by_their_numbers_and_pre_releases() {
    let ordered = ["1.4.0-rc.1", "1.4.0-rc.2", "1.4.0-rc.10", "1.4.0", "1.9.9", "1.10.0", "2"];
    for pair in ordered.windows(2) {
        let (low, high) = (parse(pair[0]).unwrap(), parse(pair[1]).unwrap());
        assert!(low.is_below(&high), "{pair:?}");
        assert!(!high.is_below(&low), "{pair:?}");
    }
    assert!(!parse("v1.4").unwrap().is_below(&parse("1.4.0_build").unwrap()));
    for text in ["", "latest", "1.x", "1.2.3.4", "-1"] {
        assert!(parse(text).is_none(), "{text}");
    }
}
