use ansible_operator::ansible_inventory::{HostConnection, ResolvedHosts, ResolvedInventoryGroup};
use ansible_operator::execution_evaluator::{find_outdated_hosts, ExecutionHash};
use ansible_operator::host_records::apply_terminal_play_status;
use ansible_operator::node_access::{enforce, policy_status, NodeAccessPolicySpec};
use ansible_operator::plans::{
    HostOutcome, HostStatus, PlayHostResult, PlayStatus, PlaybookPlanStatus, Timestamp,
};
use ansible_operator::resources::{
    LabelMap, Node, NodeSelectorTerm, ObjectMeta, SecretRef, SshConfig,
};
use ansible_operator::textmap::TextMap;

fn at(seconds: i64) -> Timestamp {
    Timestamp {
        seconds,
        nanos: 0,
        offset_seconds: 0,
    }
}

fn labels(pairs: &[(&str, &str)]) -> LabelMap {
    let mut map = LabelMap::new();
    for (key, value) in pairs {
        map.insert(key.to_string(), value.to_string());
    }
    map
}

fn node(name: &str, uid: &str, created: i64, node_labels: &[(&str, &str)]) -> Node {
    Node {
        metadata: ObjectMeta {
            name: Some(name.into()),
            uid: Some(uid.into()),
            creation_timestamp: Some(created),
            labels: labels(node_labels),
            ..Default::default()
        },
        conditions: None,
    }
}

fn play(results: &[(&str, HostOutcome)]) -> PlayStatus {
    let mut hosts = TextMap::new();
    for (host, outcome) in results {
        hosts.insert(
            host.to_string(),
            PlayHostResult {
                outcome: *outcome,
                ..Default::default()
            },
        );
    }
    PlayStatus {
        finished_at: Some(at(900)),
        hosts,
        ..Default::default()
    }
}

fn plan_status(hosts: &[&str], connection: HostConnection) -> PlaybookPlanStatus {
    PlaybookPlanStatus {
        eligible_hosts: vec![ResolvedHosts {
            name: "all".into(),
            hosts: hosts.iter().map(|h| h.to_string()).collect(),
            connection: Some(connection),
        }],
        ..Default::default()
    }
}

#[test]
fn a_result_is_claimed_for_the_hosts_that_succeeded_only() {
    let hash = ExecutionHash(0x1a);
    let mut status = plan_status(&["a", "b"], HostConnection::ManagedSsh);
    let mut records = TextMap::new();
    records.insert(
        "b".to_string(),
        HostStatus {
            last_applied_hash: "7".into(),
            applied_version: Some("1.0.0".into()),
            ..Default::default()
        },
    );
    status.hosts_status = Some(records);

    apply_terminal_play_status(
        &hash,
        &play(&[
            ("a", HostOutcome::Succeeded),
            ("b", HostOutcome::Unreachable),
        ]),
        Some(at(500)),
        &Some("2.0.0".to_string()),
        &[node("a", "uid-a", 400, &[]), node("b", "uid-b", 400, &[])],
        &mut status,
    );

    let records = status.hosts_status.as_ref().unwrap();
    assert_eq!(
        *records.get("a").unwrap(),
        HostStatus {
            last_applied_hash: "1a".into(),
            last_outcome: HostOutcome::Succeeded,
            applied_at: Some(at(500)),
            applied_version: Some("2.0.0".into()),
            applied_node_uid: Some("uid-a".into()),
            last_transition_time: Some(at(900)),
        }
    );
    assert_eq!(
        *records.get("b").unwrap(),
        HostStatus {
            last_applied_hash: "7".into(),
            last_outcome: HostOutcome::Unreachable,
            applied_version: Some("1.0.0".into()),
            last_transition_time: Some(at(900)),
            ..Default::default()
        },
        "a failure takes back no earlier claim"
    );
    assert_eq!(find_outdated_hosts(&status, &hash), ["b"]);
}

#[test]
fn a_machine_rebuilt_during_the_run_is_claimed_nothing() {
    let mut status = plan_status(&["a"], HostConnection::ManagedSsh);
    let outcome = play(&[("a", HostOutcome::Succeeded)]);
    let rebuilt = [node("a", "uid-2", 501, &[])];
    apply_terminal_play_status(
        &ExecutionHash(1),
        &outcome,
        Some(at(500)),
        &None,
        &rebuilt,
        &mut status,
    );
    let records = status.hosts_status.as_ref().unwrap();
    assert_eq!(records.get("a").unwrap().last_applied_hash, "");

    let mut external = plan_status(&["a"], HostConnection::Ssh);
    apply_terminal_play_status(
        &ExecutionHash(1),
        &outcome,
        Some(at(500)),
        &None,
        &rebuilt,
        &mut external,
    );
    let records = external.hosts_status.as_ref().unwrap();
    assert_eq!(
        records.get("a").unwrap().last_applied_hash,
        "1",
        "an external host that shares a Node's name is another machine"
    );
}

fn selector(pairs: &[(&str, &str)]) -> NodeSelectorTerm {
    NodeSelectorTerm {
        match_labels: Some(labels(pairs)),
        match_expressions: None,
    }
}

fn managed(hosts: &[&str]) -> ResolvedInventoryGroup {
    ResolvedInventoryGroup::ManagedSsh {
        hosts: ResolvedHosts {
            name: "nodes".into(),
            hosts: hosts.iter().map(|h| h.to_string()).collect(),
            connection: None,
        },
        tolerations: None,
        variables: None,
    }
}

fn external(hosts: &[&str]) -> ResolvedInventoryGroup {
    ResolvedInventoryGroup::Ssh {
        hosts: ResolvedHosts {
            name: "external".into(),
            hosts: hosts.iter().map(|h| h.to_string()).collect(),
            connection: None,
        },
        static_inventory_name: "lab".into(),
        config: SshConfig {
            user: "root".into(),
            secret_ref: SecretRef { name: "key".into() },
        },
        variables: None,
    }
}

#[test]
fn a_namespace_keeps_the_nodes_some_policy_grants_it() {
    let policies = [NodeAccessPolicySpec {
        namespace_selector: selector(&[("team", "a")]),
        node_selector: selector(&[("pool", "edge")]),
    }];
    let nodes = [
        node("n1", "1", 0, &[("pool", "edge")]),
        node("n2", "2", 0, &[("pool", "core")]),
    ];
    let mut groups = vec![managed(&["n1", "n2", "gone"]), external(&["n2"])];
    let excluded = enforce(&policies, &labels(&[("team", "a")]), &nodes, &mut groups);
    assert_eq!(excluded, ["n2", "gone"]);
    assert_eq!(groups, [managed(&["n1"]), external(&["n2"])]);

    let mut groups = vec![managed(&["n1"]), external(&["x"])];
    let excluded = enforce(&policies, &labels(&[("team", "b")]), &nodes, &mut groups);
    assert_eq!(excluded, ["n1"], "an ungoverned namespace reaches no Node");
    assert_eq!(groups, [managed(&[]), external(&["x"])]);
}

#[test]
fn an_empty_selector_grants_nothing() {
    let policies = [NodeAccessPolicySpec {
        namespace_selector: NodeSelectorTerm::default(),
        node_selector: selector(&[("pool", "edge")]),
    }];
    let mut groups = vec![managed(&["n1"])];
    let excluded = enforce(
        &policies,
        &labels(&[("team", "a")]),
        &[node("n1", "1", 0, &[("pool", "edge")])],
        &mut groups,
    );
    assert_eq!(excluded, ["n1"]);
}

#[test]
fn allowed_nodes_are_sorted() {
    let spec = NodeAccessPolicySpec {
        namespace_selector: selector(&[("team", "a")]),
        node_selector: selector(&[("pool", "edge")]),
    };
    let nodes: Vec<ObjectMeta> = ["z", "a", "m"]
        .iter()
        .map(|name| node(name, "u", 0, &[("pool", "edge")]).metadata)
        .collect();
    let status = policy_status(&spec, &[], &nodes);
    assert_eq!(status.allowed_nodes, ["a", "m", "z"]);
    assert_eq!(status.allowed_node_count, 3);
    assert!(status.matched_namespaces.is_empty());
}

#[test]
fn what_a_policy_reports_is_what_is_enforced() {
    let spec = NodeAccessPolicySpec {
        namespace_selector: selector(&[("team", "a")]),
        node_selector: selector(&[("pool", "edge")]),
    };
    let nodes = [
        node("n1", "1", 0, &[("pool", "edge")]),
        node("n2", "2", 0, &[("pool", "core")]),
        node("n3", "3", 0, &[]),
    ];
    let metas: Vec<ObjectMeta> = nodes.iter().map(|node| node.metadata.clone()).collect();
    let reported = policy_status(&spec, &[], &metas).allowed_nodes;
    let mut groups = vec![managed(&["n1", "n2", "n3"])];
    enforce(&[spec], &labels(&[("team", "a")]), &nodes, &mut groups);
    assert_eq!(groups[0].hosts().hosts, reported);
}
