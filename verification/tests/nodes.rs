use ansible_operator::ansible_inventory::{ResolvedHosts, ResolvedInventoryGroup};
use ansible_operator::node_readiness::{holds_for_unready_nodes, is_ready, unready_nodes};
use ansible_operator::node_recreation::{drop_records_for_recreated_nodes, node_replaced_since};
use ansible_operator::plans::{
    ExecutionMode, HostOutcome, HostStatus, PlaybookPlanStatus, Timestamp,
};
use ansible_operator::resources::{Node, NodeCondition, ObjectMeta, SecretRef, SshConfig};
use ansible_operator::textmap::TextMap;
use chrono::DateTime;

fn at(rfc3339: &str) -> Timestamp {
    let time = DateTime::parse_from_rfc3339(rfc3339).unwrap();
    Timestamp {
        seconds: time.timestamp(),
        nanos: time.timestamp_subsec_nanos(),
        offset_seconds: time.offset().local_minus_utc(),
    }
}

fn group_of(name: &str, hosts: &[&str]) -> ResolvedHosts {
    ResolvedHosts {
        name: name.into(),
        hosts: hosts.iter().map(|host| (*host).to_string()).collect(),
        ..Default::default()
    }
}

fn managed(hosts: &[&str]) -> ResolvedInventoryGroup {
    ResolvedInventoryGroup::ManagedSsh {
        hosts: group_of("workers", hosts),
        tolerations: None,
        variables: None,
    }
}

fn external(hosts: &[&str]) -> ResolvedInventoryGroup {
    ResolvedInventoryGroup::Ssh {
        hosts: group_of("edge", hosts),
        static_inventory_name: "external".into(),
        config: SshConfig {
            user: "root".into(),
            secret_ref: SecretRef { name: "key".into() },
        },
        variables: None,
    }
}

fn status_with(hosts: &[(&str, HostStatus)]) -> PlaybookPlanStatus {
    let mut records = TextMap::new();
    for (host, record) in hosts {
        records.insert((*host).to_string(), record.clone());
    }
    PlaybookPlanStatus {
        hosts_status: Some(records),
        ..Default::default()
    }
}

fn node_with_ready(status: Option<&str>) -> Node {
    Node {
        conditions: status.map(|status| {
            vec![NodeCondition {
                type_: "Ready".to_string(),
                status: status.to_string(),
                last_heartbeat_time: None,
            }]
        }),
        ..Default::default()
    }
}

fn node(name: &str, created: Option<&str>) -> Node {
    Node {
        metadata: ObjectMeta {
            name: Some(name.to_string()),
            creation_timestamp: created.map(|created| at(created).seconds),
            ..Default::default()
        },
        ..Default::default()
    }
}

fn applied(hash: &str, claimed_at: Option<&str>) -> HostStatus {
    HostStatus {
        last_applied_hash: hash.into(),
        last_outcome: HostOutcome::Succeeded,
        applied_at: claimed_at.map(at),
        applied_version: Some("1.4.2".into()),
        applied_node_uid: None,
        last_transition_time: Some(at("2026-01-01T00:00:00Z")),
    }
}

#[test]
fn only_a_ready_true_condition_counts_as_ready() {
    assert!(is_ready(&node_with_ready(Some("True"))));
    assert!(!is_ready(&node_with_ready(Some("False"))));
    // The node controller writes `Unknown` once a kubelet stops reporting.
    assert!(!is_ready(&node_with_ready(Some("Unknown"))));
}

#[test]
fn a_node_that_has_not_reported_a_status_is_not_ready() {
    assert!(!is_ready(&node_with_ready(None)));
    assert!(!is_ready(&Node::default()));
}

#[test]
fn a_run_holds_only_when_every_one_of_its_hosts_is_an_unready_node() {
    let groups = vec![managed(&["node-a", "node-b"])];

    assert!(holds_for_unready_nodes(
        &ExecutionMode::OneShot,
        &groups,
        &["node-a".to_string(), "node-b".to_string()]
    ));
    assert!(
        !holds_for_unready_nodes(&ExecutionMode::OneShot, &groups, &["node-a".to_string()]),
        "node-b can still be reached, so the run has work to do"
    );
    assert!(!holds_for_unready_nodes(
        &ExecutionMode::OneShot,
        &groups,
        &[]
    ));
}

#[test]
fn a_recurring_run_starts_even_when_every_node_is_down() {
    let groups = vec![managed(&["node-a", "node-b"])];
    let unready = ["node-a".to_string(), "node-b".to_string()];

    assert!(!holds_for_unready_nodes(
        &ExecutionMode::Recurring,
        &groups,
        &unready
    ));
    assert!(
        holds_for_unready_nodes(&ExecutionMode::OneShot, &groups, &unready),
        "the same inputs hold a OneShot plan — the mode is the only difference"
    );
}

#[test]
fn a_static_host_alongside_an_unready_node_keeps_the_run_going() {
    let groups = vec![
        managed(&["node-a"]),
        external(&["host.example.com"]),
    ];

    assert!(!holds_for_unready_nodes(
        &ExecutionMode::OneShot,
        &groups,
        &["node-a".to_string()]
    ));
}

#[test]
fn an_external_host_named_like_an_unready_node_is_another_machine() {
    let unready = ["node-a".to_string()];
    let groups = vec![managed(&["node-a"]), external(&["node-a"])];
    assert!(!holds_for_unready_nodes(&ExecutionMode::OneShot, &groups, &unready));

    let groups = vec![managed(&["node-a"]), external(&[])];
    assert!(
        holds_for_unready_nodes(&ExecutionMode::OneShot, &groups, &unready),
        "a group without hosts gives the run nothing to do"
    );
}

#[test]
fn a_node_created_after_the_run_that_claimed_it_is_a_different_machine() {
    let claimed_at = Some(at("2026-01-01T12:00:00Z"));

    assert!(node_replaced_since(
        claimed_at,
        &node("node-a", Some("2026-01-02T00:00:00Z"))
    ));
    assert!(!node_replaced_since(
        claimed_at,
        &node("node-a", Some("2025-12-31T00:00:00Z"))
    ));
}

#[test]
fn a_node_created_in_the_same_second_as_the_run_is_the_same_machine() {
    assert!(!node_replaced_since(
        Some(at("2026-01-01T12:00:00Z")),
        &node("node-a", Some("2026-01-01T12:00:00Z"))
    ));
}

#[test]
fn a_record_predating_the_field_is_left_alone() {
    assert!(!node_replaced_since(
        None,
        &node("node-a", Some("2026-01-02T00:00:00Z"))
    ));

    let mut status = status_with(&[("node-a", applied("abc", None))]);
    let replaced = drop_records_for_recreated_nodes(
        &[node("node-a", Some("2026-01-02T00:00:00Z"))],
        &[managed(&["node-a"])],
        &mut status,
    );

    assert!(replaced.is_empty());
    assert_eq!(
        status.hosts_status.unwrap().get("node-a").unwrap().last_applied_hash,
        "abc"
    );
}

#[test]
fn a_node_without_a_creation_timestamp_is_not_a_replacement() {
    assert!(!node_replaced_since(
        Some(at("2026-01-01T00:00:00Z")),
        &node("node-a", None)
    ));
}

#[test]
fn a_replaced_node_loses_its_claim_but_keeps_its_history() {
    let mut status = status_with(&[
        ("node-a", applied("abc", Some("2026-01-01T00:00:00Z"))),
        ("node-b", applied("abc", Some("2026-01-01T00:00:00Z"))),
    ]);

    let replaced = drop_records_for_recreated_nodes(
        &[
            node("node-a", Some("2026-01-02T00:00:00Z")),
            node("node-b", Some("2025-12-01T00:00:00Z")),
        ],
        &[managed(&["node-a", "node-b"])],
        &mut status,
    );

    assert_eq!(replaced, vec!["node-a".to_string()]);
    let hosts = status.hosts_status.unwrap();
    assert_eq!(
        hosts.get("node-a").unwrap().last_applied_hash, "",
        "the fresh machine has applied nothing"
    );
    assert_eq!(hosts.get("node-a").unwrap().applied_at, None);
    assert_eq!(
        hosts.get("node-a").unwrap().applied_version, None,
        "the version a Node label would be derived from goes with the claim"
    );
    assert_eq!(
        hosts.get("node-a").unwrap().last_outcome,
        HostOutcome::Succeeded,
        "what happened to the previous machine is still history"
    );
    assert!(hosts.get("node-a").unwrap().last_transition_time.is_some());
    assert_eq!(
        hosts.get("node-b").unwrap().last_applied_hash, "abc",
        "a Node older than the run that claimed it is the machine it was claimed about"
    );
}

#[test]
fn a_host_with_no_node_in_the_cache_keeps_its_record() {
    let mut status = status_with(&[("node-a", applied("abc", Some("2026-01-01T00:00:00Z")))]);

    let replaced =
        drop_records_for_recreated_nodes(&[], &[managed(&["node-a"])], &mut status);

    assert!(replaced.is_empty());
    assert_eq!(
        status.hosts_status.unwrap().get("node-a").unwrap().last_applied_hash,
        "abc"
    );
}

#[test]
fn an_external_host_sharing_a_node_name_is_untouched() {
    let mut status = status_with(&[("node-a", applied("abc", Some("2026-01-01T00:00:00Z")))]);

    let replaced = drop_records_for_recreated_nodes(
        &[node("node-a", Some("2026-01-02T00:00:00Z"))],
        &[external(&["node-a"])],
        &mut status,
    );

    assert!(replaced.is_empty());
    assert_eq!(
        status.hosts_status.unwrap().get("node-a").unwrap().last_applied_hash,
        "abc"
    );
}

#[test]
fn a_plan_that_never_ran_has_nothing_to_drop() {
    let mut status = PlaybookPlanStatus::default();

    let replaced = drop_records_for_recreated_nodes(
        &[node("node-a", Some("2026-01-02T00:00:00Z"))],
        &[managed(&["node-a"])],
        &mut status,
    );

    assert!(replaced.is_empty());
    assert!(status.hosts_status.is_none());
}

#[test]
fn a_node_is_known_to_be_unready_only_where_it_is_known() {
    let named = |name: &str, ready: &str| {
        let mut node = node_with_ready(Some(ready));
        node.metadata.name = Some(name.to_string());
        node
    };
    let nodes = [named("node-b", "False"), named("node-a", "Unknown"), named("node-c", "True")];
    let groups = [
        managed(&["node-c", "node-b", "node-a", "node-x"]),
        external(&["node-b"]),
    ];
    assert_eq!(unready_nodes(&nodes, &groups), ["node-a", "node-b"]);
}
