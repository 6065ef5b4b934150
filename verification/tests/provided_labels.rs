use ansible_operator::ansible_inventory::{ResolvedHosts, ResolvedInventoryGroup};
use ansible_operator::dependency_keys::label_key;
use ansible_operator::node_labels::{
    desired_labels, label_change, label_patch, label_reach, nodes_carrying, orphaned_labels,
    worth_retrying_soon, LabelChange, LabelReach, LabelWrite, LabelWrites, Orphan, PatchOutcome,
};
use ansible_operator::plans::{
    HostOutcome, HostStatus, PlaybookPlan, PlaybookPlanStatus, Timestamp,
};
use ansible_operator::resources::{LabelMap, Node, ObjectMeta, SecretRef, SshConfig};
use ansible_operator::textmap::TextMap;
use chrono::DateTime;

fn at(rfc3339: &str) -> Timestamp {
    let time = DateTime::parse_from_rfc3339(rfc3339).unwrap();
    Timestamp {
        seconds: time.timestamp(),
        nanos: time.timestamp_subsec_nanos(),
        offset_seconds: time.offset().local_minus_utc(),
    }
}

fn group_of(name: &str, hosts: &[&str]) -> ResolvedHosts {
    ResolvedHosts {
        name: name.into(),
        hosts: hosts.iter().map(|host| (*host).to_string()).collect(),
        ..Default::default()
    }
}

fn managed(hosts: &[&str]) -> ResolvedInventoryGroup {
    ResolvedInventoryGroup::ManagedSsh {
        hosts: group_of("workers", hosts),
        tolerations: None,
        variables: None,
    }
}

fn external(hosts: &[&str]) -> ResolvedInventoryGroup {
    ResolvedInventoryGroup::Ssh {
        hosts: group_of("edge", hosts),
        static_inventory_name: "external".into(),
        config: SshConfig {
            user: "root".into(),
            secret_ref: SecretRef { name: "key".into() },
        },
        variables: None,
    }
}

fn status_with(hosts: &[(&str, HostStatus)]) -> PlaybookPlanStatus {
    let mut records = TextMap::new();
    for (host, record) in hosts {
        records.insert((*host).to_string(), record.clone());
    }
    PlaybookPlanStatus {
        hosts_status: Some(records),
        ..Default::default()
    }
}

fn node(name: &str, created: &str, labels: &[(&str, &str)]) -> Node {
    let mut map = LabelMap::new();
    for (key, value) in labels {
        map.insert((*key).to_string(), (*value).to_string());
    }
    Node {
        metadata: ObjectMeta {
            name: Some(name.to_string()),
            creation_timestamp: Some(at(created).seconds),
            labels: map,
            ..Default::default()
        },
        ..Default::default()
    }
}

fn applied(version: Option<&str>, applied_at: Option<&str>) -> HostStatus {
    HostStatus {
        last_applied_hash: "abc".into(),
        last_outcome: HostOutcome::Succeeded,
        applied_at: applied_at.map(at),
        applied_version: version.map(str::to_string),
        applied_node_uid: None,
        last_transition_time: Some(at("2026-01-01T00:00:00Z")),
    }
}

fn plans(names: &[(&str, &str)]) -> Vec<PlaybookPlan> {
    names
        .iter()
        .map(|(namespace, name)| PlaybookPlan {
            metadata: ObjectMeta {
                name: Some((*name).to_string()),
                namespace: Some((*namespace).to_string()),
                ..Default::default()
            },
            ..Default::default()
        })
        .collect()
}

const KEY: &str = "platform.plan.ansible.cloudbending.dev/containerd";

#[test]
fn the_key_is_built_from_the_plans_own_namespace_and_name() {
    assert_eq!(label_key("platform", "containerd"), KEY);
    assert_eq!(
        label_key("team-a", "harden"),
        "team-a.plan.ansible.cloudbending.dev/harden"
    );
}

#[test]
fn the_longest_legal_key_is_still_a_legal_key() {
    let key = label_key(&"n".repeat(63), &"p".repeat(63));
    let (prefix, name) = key.split_once('/').unwrap();

    assert!(prefix.len() <= 253, "prefix was {}", prefix.len());
    assert!(name.len() <= 63, "name was {}", name.len());
}

#[test]
fn a_converged_host_is_labelled_with_the_version_it_applied() {
    let writes = desired_labels(
        KEY,
        &[managed(&["node-a"])],
        &status_with(&[(
            "node-a",
            applied(Some("1.4.2"), Some("2026-01-02T00:00:00Z")),
        )]),
        &[node("node-a", "2026-01-01T00:00:00Z", &[])],
    );

    assert_eq!(
        writes,
        vec![LabelWrite {
            node: "node-a".into(),
            value: "1.4.2".into()
        }]
    );
}

#[test]
fn a_node_that_already_carries_the_value_is_not_written_again() {
    let writes = desired_labels(
        KEY,
        &[managed(&["node-a"])],
        &status_with(&[(
            "node-a",
            applied(Some("1.4.2"), Some("2026-01-02T00:00:00Z")),
        )]),
        &[node(
            "node-a",
            "2026-01-01T00:00:00Z",
            &[(KEY, "1.4.2")],
        )],
    );

    assert!(writes.is_empty());
}

#[test]
fn a_node_carrying_an_older_version_is_updated() {
    let writes = desired_labels(
        KEY,
        &[managed(&["node-a"])],
        &status_with(&[(
            "node-a",
            applied(Some("1.5.0"), Some("2026-01-02T00:00:00Z")),
        )]),
        &[node(
            "node-a",
            "2026-01-01T00:00:00Z",
            &[(KEY, "1.4.2")],
        )],
    );

    assert_eq!(
        writes.first().map(|write| write.value.as_str()),
        Some("1.5.0")
    );
}

#[test]
fn a_host_that_has_applied_no_version_is_not_labelled() {
    let writes = desired_labels(
        KEY,
        &[managed(&["node-a"])],
        &status_with(&[("node-a", applied(None, Some("2026-01-02T00:00:00Z")))]),
        &[node("node-a", "2026-01-01T00:00:00Z", &[])],
    );

    assert!(writes.is_empty());
}

#[test]
fn a_node_rebuilt_since_the_claim_is_not_labelled() {
    let writes = desired_labels(
        KEY,
        &[managed(&["node-a"])],
        &status_with(&[(
            "node-a",
            applied(Some("1.4.2"), Some("2026-01-02T00:00:00Z")),
        )]),
        &[node("node-a", "2026-01-03T00:00:00Z", &[])],
    );

    assert!(writes.is_empty());
}

#[test]
fn a_claim_that_cannot_be_dated_is_not_labelled() {
    let writes = desired_labels(
        KEY,
        &[managed(&["node-a"])],
        &status_with(&[("node-a", applied(Some("1.4.2"), None))]),
        &[node("node-a", "2026-01-03T00:00:00Z", &[])],
    );

    assert!(writes.is_empty());
}

#[test]
fn an_external_host_never_labels_a_node_that_shares_its_name() {
    let writes = desired_labels(
        KEY,
        &[external(&["node-a"])],
        &status_with(&[(
            "node-a",
            applied(Some("1.4.2"), Some("2026-01-02T00:00:00Z")),
        )]),
        &[node("node-a", "2026-01-01T00:00:00Z", &[])],
    );

    assert!(writes.is_empty());
}

#[test]
fn a_host_with_no_node_in_the_cache_is_skipped() {
    let writes = desired_labels(
        KEY,
        &[managed(&["node-a"])],
        &status_with(&[(
            "node-a",
            applied(Some("1.4.2"), Some("2026-01-02T00:00:00Z")),
        )]),
        &[],
    );

    assert!(writes.is_empty());
}

#[test]
fn only_hosts_in_the_resolved_groups_are_considered() {
    let status = status_with(&[
        (
            "node-a",
            applied(Some("1.4.2"), Some("2026-01-02T00:00:00Z")),
        ),
        (
            "node-b",
            applied(Some("1.4.2"), Some("2026-01-02T00:00:00Z")),
        ),
    ]);
    let nodes = [
        node("node-a", "2026-01-01T00:00:00Z", &[]),
        node("node-b", "2026-01-01T00:00:00Z", &[(KEY, "1.4.2")]),
    ];

    let writes = desired_labels(KEY, &[managed(&["node-a"])], &status, &nodes);

    assert_eq!(writes.len(), 1);
    assert_eq!(writes[0].node, "node-a");
}

#[test]
fn a_plan_that_provides_nothing_withdraws_its_label() {
    let status = status_with(&[(
        "node-a",
        applied(Some("1.4.2"), Some("2026-01-02T00:00:00Z")),
    )]);
    let nodes = [
        node("node-b", "2026-01-01T00:00:00Z", &[(KEY, "1.4.1")]),
        node("node-a", "2026-01-01T00:00:00Z", &[]),
    ];
    let groups = [managed(&["node-a", "node-b"])];

    assert_eq!(
        label_change(&None, KEY, &groups, &status, &nodes),
        LabelChange::Withdraw {
            nodes: vec!["node-b".into()]
        }
    );
    assert_eq!(
        label_change(&Some("1.4.2".into()), KEY, &groups, &status, &nodes),
        LabelChange::Publish {
            writes: vec![LabelWrite {
                node: "node-a".into(),
                value: "1.4.2".into()
            }]
        }
    );
}

#[test]
fn only_labels_whose_plan_is_gone_are_swept() {
    let nodes = [
        node(
            "node-a",
            "2026-01-01T00:00:00Z",
            &[
                (KEY, "1.4.2"),
                ("team-a.plan.ansible.cloudbending.dev/gone", "2.0"),
                ("node-role.kubernetes.io/worker", ""),
            ],
        ),
        node(
            "node-b",
            "2026-01-01T00:00:00Z",
            &[("team-a.plan.ansible.cloudbending.dev/gone", "2.0")],
        ),
    ];

    let orphans = orphaned_labels(&nodes, &plans(&[("platform", "containerd")]));

    assert_eq!(
        orphans,
        vec![
            Orphan {
                node: "node-a".into(),
                key: "team-a.plan.ansible.cloudbending.dev/gone".into()
            },
            Orphan {
                node: "node-b".into(),
                key: "team-a.plan.ansible.cloudbending.dev/gone".into()
            },
        ],
        "the live plan's label stays, and a foreign label is never touched"
    );
}

#[test]
fn a_plan_is_matched_within_its_own_namespace() {
    let nodes = [node(
        "node-a",
        "2026-01-01T00:00:00Z",
        &[(&label_key("platform", "harden"), "1.0")],
    )];

    assert!(orphaned_labels(&nodes, &plans(&[("platform", "harden")])).is_empty());
    assert_eq!(
        orphaned_labels(&nodes, &plans(&[("other", "harden")])).len(),
        1,
        "same name, different namespace, different plan"
    );
}

#[test]
fn an_empty_plan_store_would_condemn_every_label() {
    let nodes = [node(
        "node-a",
        "2026-01-01T00:00:00Z",
        &[(KEY, "1.4.2")],
    )];

    assert_eq!(orphaned_labels(&nodes, &plans(&[])).len(), 1);
}

#[test]
fn nodes_carrying_the_key_are_found_whatever_their_value() {
    let nodes = [
        node("node-a", "2026-01-01T00:00:00Z", &[(KEY, "1.4.2")]),
        node("node-b", "2026-01-01T00:00:00Z", &[(KEY, "1.5.0")]),
        node("node-c", "2026-01-01T00:00:00Z", &[("other", "x")]),
        node("node-d", "2026-01-01T00:00:00Z", &[]),
    ];

    assert_eq!(nodes_carrying(KEY, &nodes), vec!["node-a", "node-b"]);
    assert!(
        nodes_carrying("team-b.plan.ansible.cloudbending.dev/other", &nodes).is_empty(),
        "another plan's key is not this plan's to remove"
    );
}

#[test]
fn only_nodes_carrying_the_exact_version_count_as_reached() {
    let nodes = [
        node("node-a", "2026-01-01T00:00:00Z", &[(KEY, "1.4.2")]),
        node("node-b", "2026-01-01T00:00:00Z", &[(KEY, "1.5.0")]),
        node("node-c", "2026-01-01T00:00:00Z", &[(KEY, "1.5.0-rc1")]),
        node("node-d", "2026-01-01T00:00:00Z", &[("other", "1.5.0")]),
        node("node-e", "2026-01-01T00:00:00Z", &[]),
    ];

    for (version, at_version) in [("1.5.0", 1), ("1.4.2", 1), ("2.0.0", 0)] {
        assert_eq!(
            label_reach(KEY, version, &nodes),
            LabelReach {
                at_version,
                carrying: 3
            },
            "at {version}"
        );
    }

    assert_eq!(
        label_reach("team-b.plan.ansible.cloudbending.dev/other", "1.0", &nodes),
        LabelReach {
            at_version: 0,
            carrying: 0
        },
        "another plan's key is not this plan's reach"
    );
}

#[test]
fn a_plan_that_has_never_run_writes_nothing() {
    let writes = desired_labels(
        KEY,
        &[managed(&["node-a"])],
        &PlaybookPlanStatus::default(),
        &[node("node-a", "2026-01-01T00:00:00Z", &[])],
    );

    assert!(writes.is_empty());
}

#[test]
fn only_a_refusal_another_attempt_could_clear_is_worth_hurrying_back_for() {
    let api_error = Some;

    // Both need an administrator; neither is fixed by asking again.
    assert!(!worth_retrying_soon(api_error(403)));
    assert!(!worth_retrying_soon(api_error(401)));
    // The Node is gone, and leaves the diff with the cache.
    assert!(!worth_retrying_soon(api_error(404)));

    // Nothing about the plan or the cluster's configuration decided these.
    assert!(worth_retrying_soon(api_error(409)));
    assert!(worth_retrying_soon(api_error(429)));
    assert!(worth_retrying_soon(api_error(500)));
    assert!(worth_retrying_soon(api_error(503)));
}

#[test]
fn a_pass_of_patches_is_counted_by_what_became_of_each() {
    let mut writes = LabelWrites::default();
    for outcome in [
        PatchOutcome::Accepted,
        PatchOutcome::Accepted,
        PatchOutcome::Refused(403),
        PatchOutcome::Refused(409),
        PatchOutcome::Refused(500),
        PatchOutcome::Failed,
    ] {
        writes.note(outcome);
    }
    assert_eq!(
        writes,
        LabelWrites {
            published: 2,
            retryable: 3,
        }
    );
    assert!(worth_retrying_soon(None), "no verdict of the API server at all");
}

#[test]
fn a_label_patch_sets_or_nulls_one_label() {
    assert_eq!(
        label_patch(KEY, Some("1.4.2")),
        format!(r#"{{"metadata":{{"labels":{{"{KEY}":"1.4.2"}}}}}}"#)
    );
    assert_eq!(
        label_patch("a/b", None),
        r#"{"metadata":{"labels":{"a/b":null}}}"#,
        "in a merge patch only an explicit null removes a label"
    );
    let value: serde_json::Value = serde_json::from_str(&label_patch("k", Some("q\"\\\u{1}"))).unwrap();
    assert_eq!(value["metadata"]["labels"]["k"], "q\"\\\u{1}");
}
