use ansible_operator::cluster_inventory::{status_for, ClusterInventory, ClusterInventorySpec};
use ansible_operator::dependencies::{
    bounded, waits, GroupDependencies, MAX_DEPENDENCIES, MAX_FIELD_CHARS,
};
use ansible_operator::dependency_keys::label_key;
use ansible_operator::nodeselector::node_matches;
use ansible_operator::resources::{
    InventoryHosts, LabelMap, Node, NodeSelectorTerm, ObjectMeta, SelectorExpression,
    SelectorOperator,
};

fn labels(pairs: &[(&str, &str)]) -> LabelMap {
    let mut map = LabelMap::new();
    for (key, value) in pairs {
        map.insert((*key).to_string(), (*value).to_string());
    }
    map
}

fn node(name: &str, pairs: &[(&str, &str)]) -> Node {
    Node {
        metadata: ObjectMeta {
            name: Some(name.to_string()),
            labels: labels(pairs),
            ..Default::default()
        },
        ..Default::default()
    }
}

fn expression(key: &str, operator: SelectorOperator, values: &[&str]) -> SelectorExpression {
    SelectorExpression {
        operator,
        key: key.to_string(),
        values: Some(values.iter().map(|value| (*value).to_string()).collect()),
    }
}

fn selector(pairs: &[(&str, &str)], expressions: Vec<SelectorExpression>) -> NodeSelectorTerm {
    NodeSelectorTerm {
        match_labels: Some(labels(pairs)),
        match_expressions: Some(expressions),
    }
}

fn containerd() -> String {
    label_key("platform", "containerd")
}

#[test]
fn a_node_failing_only_the_dependency_is_waiting() {
    let key = containerd();
    let result = waits(
        "workers",
        Some(&selector(
            &[("node-role", "worker")],
            vec![expression(&key, SelectorOperator::Ge, &["1.4.0"])],
        )),
        &[
            node("ready", &[("node-role", "worker"), (&key, "1.4.2")]),
            node("behind", &[("node-role", "worker"), (&key, "1.3.0")]),
            node("bare", &[("node-role", "worker")]),
        ],
    );

    let dependency = &result.dependencies[0];
    assert_eq!(dependency.key, key);
    assert_eq!(dependency.provider_namespace, "platform");
    assert_eq!(dependency.provider_name, "containerd");
    assert_eq!(dependency.requirement, "Ge 1.4.0");
    assert_eq!(dependency.satisfied, 1);
    assert_eq!(dependency.waiting, 2);
    assert_eq!(result.waiting_hosts, vec!["behind", "bare"]);
}

#[test]
fn a_node_failing_an_unrelated_term_is_not_waiting() {
    let key = containerd();
    let result = waits(
        "workers",
        Some(&selector(
            &[("node-role", "worker")],
            vec![expression(&key, SelectorOperator::Exists, &[])],
        )),
        &[node("controlplane", &[("node-role", "control-plane")])],
    );

    assert_eq!(result.dependencies[0].waiting, 0);
    assert_eq!(result.dependencies[0].satisfied, 0);
    assert!(result.waiting_hosts.is_empty());
}

#[test]
fn a_node_failing_two_dependencies_is_counted_under_both() {
    let containerd = containerd();
    let hardening = label_key("platform", "hardening");
    let result = waits(
        "workers",
        Some(&selector(
            &[],
            vec![
                expression(&containerd, SelectorOperator::Exists, &[]),
                expression(&hardening, SelectorOperator::Exists, &[]),
            ],
        )),
        &[node("bare", &[])],
    );

    assert_eq!(result.dependencies.len(), 2);
    assert!(result.dependencies.iter().all(|entry| entry.waiting == 1));
    assert_eq!(
        result.waiting_hosts,
        vec!["bare"],
        "one Node, however many requirements it fails"
    );
}

#[test]
fn satisfied_and_waiting_add_up_to_the_group_less_its_other_terms() {
    let key = containerd();
    let result = waits(
        "workers",
        Some(&selector(
            &[("node-role", "worker")],
            vec![expression(&key, SelectorOperator::Exists, &[])],
        )),
        &[
            node("a", &[("node-role", "worker"), (&key, "1.0")]),
            node("b", &[("node-role", "worker")]),
            node("c", &[("node-role", "control-plane")]),
        ],
    );

    let dependency = &result.dependencies[0];
    assert_eq!(dependency.satisfied + dependency.waiting, 2);
}

#[test]
fn equality_on_an_operator_key_is_a_dependency() {
    let key = containerd();
    let from_match_labels = waits(
        "workers",
        Some(&selector(&[(&key, "1.4.2")], vec![])),
        &[node("a", &[(&key, "1.4.2")]), node("b", &[])],
    );
    let from_expressions = waits(
        "workers",
        Some(&selector(
            &[],
            vec![expression(&key, SelectorOperator::In, &["1.4.2"])],
        )),
        &[node("a", &[(&key, "1.4.2")]), node("b", &[])],
    );

    assert_eq!(from_match_labels.dependencies[0].requirement, "= 1.4.2");
    assert_eq!(from_match_labels.dependencies[0].waiting, 1);
    assert_eq!(from_expressions.dependencies[0].requirement, "In [1.4.2]");
    assert_eq!(from_expressions.dependencies[0].waiting, 1);
}

#[test]
fn exclusions_and_foreign_keys_are_ordinary_terms() {
    let key = containerd();
    let result = waits(
        "workers",
        Some(&selector(
            &[("node-role", "worker")],
            vec![
                expression(&key, SelectorOperator::NotIn, &["1.0"]),
                expression(&key, SelectorOperator::DoesNotExist, &[]),
                expression("topology.kubernetes.io/zone", SelectorOperator::Exists, &[]),
            ],
        )),
        &[node("a", &[])],
    );

    assert!(result.dependencies.is_empty());
    assert!(result.waiting_hosts.is_empty());
}

#[test]
fn an_unparseable_selector_value_is_flagged() {
    let key = containerd();
    let result = waits(
        "workers",
        Some(&selector(
            &[],
            vec![expression(&key, SelectorOperator::Ge, &["latest"])],
        )),
        &[node("a", &[(&key, "1.4.2")])],
    );

    let dependency = &result.dependencies[0];
    assert!(dependency.invalid_value);
    assert!(!dependency.malformed_term);
    assert_eq!(dependency.waiting, 1);
    assert_eq!(dependency.requirement, "Ge latest");
}

#[test]
fn an_ordered_term_without_exactly_one_value_is_flagged() {
    let key = containerd();
    for values in [vec![], vec!["1.0", "2.0"]] {
        let result = waits(
            "workers",
            Some(&selector(
                &[],
                vec![expression(&key, SelectorOperator::Ge, &values)],
            )),
            &[node("a", &[(&key, "1.4.2")])],
        );

        let dependency = &result.dependencies[0];
        assert!(dependency.malformed_term, "{values:?} is not a comparison");
        assert!(
            !dependency.invalid_value,
            "the term has no single value to judge"
        );
        assert_eq!(dependency.waiting, 1);
    }
}

#[test]
fn a_node_carrying_a_value_that_is_not_a_version_is_flagged() {
    let key = containerd();
    let result = waits(
        "workers",
        Some(&selector(
            &[],
            vec![expression(&key, SelectorOperator::Ge, &["1.4.0"])],
        )),
        &[
            node("odd", &[(&key, "latest")]),
            node("behind", &[(&key, "1.0.0")]),
            node("bare", &[]),
        ],
    );

    let dependency = &result.dependencies[0];
    assert_eq!(dependency.waiting, 3);
    assert_eq!(
        dependency.unparseable_hosts, 1,
        "a Node that simply has no label carries no unparseable value"
    );
}

#[test]
fn long_strings_are_cut_in_the_status() {
    let key = containerd();
    let many: Vec<String> = (0..200).map(|index| format!("1.{index}.0")).collect();
    let many: Vec<&str> = many.iter().map(String::as_str).collect();
    let group = "g".repeat(1000);

    let result = waits(
        &group,
        Some(&selector(
            &[],
            vec![expression(&key, SelectorOperator::In, &many)],
        )),
        &[],
    );

    let dependency = &result.dependencies[0];
    assert_eq!(dependency.requirement.chars().count(), MAX_FIELD_CHARS + 1);
    assert!(dependency.requirement.starts_with("In [1.0.0, 1.1.0, "));
    assert!(dependency.requirement.ends_with('…'));
    assert_eq!(dependency.group.chars().count(), MAX_FIELD_CHARS + 1);
    assert_eq!(
        dependency.key, key,
        "a key short enough to be a label is kept whole"
    );
}

#[test]
fn a_string_is_cut_on_a_character_boundary() {
    let text = "ä".repeat(MAX_FIELD_CHARS + 5);
    assert_eq!(bounded(&text), format!("{}…", "ä".repeat(MAX_FIELD_CHARS)));
    assert_eq!(bounded("short"), "short");
    assert_eq!(
        bounded(&"a".repeat(MAX_FIELD_CHARS)),
        "a".repeat(MAX_FIELD_CHARS)
    );
}

#[test]
fn an_in_listing_no_values_is_flagged() {
    let key = containerd();
    for values in [None, Some(Vec::new())] {
        let result = waits(
            "workers",
            Some(&selector(
                &[],
                vec![SelectorExpression {
                    operator: SelectorOperator::In,
                    key: key.clone(),
                    values,
                }],
            )),
            &[node("bare", &[])],
        );
        assert!(result.dependencies[0].malformed_term);
    }

    let listed = waits(
        "workers",
        Some(&selector(
            &[],
            vec![expression(&key, SelectorOperator::In, &["1.4.0"])],
        )),
        &[],
    );
    assert!(!listed.dependencies[0].malformed_term);
}

#[test]
fn a_key_naming_no_plan_is_reported_by_its_spelling() {
    let key = ".plan.ansible.cloudbending.dev/x";
    let result = waits(
        "workers",
        Some(&selector(
            &[],
            vec![expression(key, SelectorOperator::Exists, &[])],
        )),
        &[],
    );

    let dependency = &result.dependencies[0];
    assert_eq!(dependency.provider_namespace, "");
    assert_eq!(dependency.provider_name, key);
}

#[test]
fn a_selector_without_operator_keys_reports_nothing() {
    let result = waits(
        "workers",
        Some(&selector(&[("node-role", "worker")], vec![])),
        &[node("a", &[("node-role", "worker")])],
    );

    assert_eq!(result, GroupDependencies::default());
    assert_eq!(
        waits("all", None, &[node("a", &[])]),
        GroupDependencies::default()
    );
}

fn group(name: &str, expressions: Vec<SelectorExpression>) -> InventoryHosts {
    InventoryHosts {
        name: name.to_string(),
        match_labels: Some(selector(&[("node-role", "worker")], expressions)),
        variables: None,
    }
}

fn inventory(groups: Vec<InventoryHosts>) -> ClusterInventory {
    ClusterInventory {
        metadata: ObjectMeta {
            name: Some("workers".to_string()),
            generation: Some(3),
            ..Default::default()
        },
        spec: ClusterInventorySpec {
            hosts: groups,
            tolerations: None,
        },
        status: None,
    }
}

#[test]
fn a_node_another_group_takes_is_not_waiting() {
    let key = label_key("platform", "hardening");
    let gated = SelectorExpression {
        operator: SelectorOperator::Exists,
        key: key.clone(),
        values: None,
    };

    let status = status_for(
        &inventory(vec![group("all", vec![]), group("hardened", vec![gated])]),
        &[
            node("hardened", &[("node-role", "worker"), (&key, "1.0.0")]),
            node("plain", &[("node-role", "worker")]),
        ],
    );

    assert_eq!(status.observed_generation, Some(3));
    assert_eq!(status.host_count, 2);
    assert_eq!(status.waiting_hosts, 0);
    assert_eq!(status.dependencies.len(), 1);
    assert_eq!(status.dependencies[0].waiting, 1);
    assert_eq!(status.dependencies[0].satisfied, 1);
}

#[test]
fn the_published_requirements_are_bounded() {
    let key = label_key("platform", "hardening");
    let groups = (0..=MAX_DEPENDENCIES)
        .map(|index| {
            group(
                &format!("group-{index}"),
                vec![SelectorExpression {
                    operator: SelectorOperator::Exists,
                    key: key.clone(),
                    values: None,
                }],
            )
        })
        .collect();

    let status = status_for(
        &inventory(groups),
        &[node("plain", &[("node-role", "worker")])],
    );

    assert_eq!(status.dependencies.len(), MAX_DEPENDENCIES);
    assert_eq!(status.waiting_hosts, 1);
}

#[test]
fn hosts_and_waiting_count_distinct_nodes() {
    let hardening = label_key("platform", "hardening");
    let containerd = label_key("platform", "containerd");
    let exists = |key: &str| SelectorExpression {
        operator: SelectorOperator::Exists,
        key: key.to_string(),
        values: None,
    };

    let status = status_for(
        &inventory(vec![
            group("hardened", vec![exists(&hardening)]),
            group("containerd", vec![exists(&containerd)]),
        ]),
        &[
            node(
                "both",
                &[
                    ("node-role", "worker"),
                    (&hardening, "1.0.0"),
                    (&containerd, "1.4.0"),
                ],
            ),
            node("neither", &[("node-role", "worker")]),
            node("controlplane", &[("node-role", "controlplane")]),
        ],
    );

    assert_eq!(status.host_count, 1);
    assert_eq!(status.waiting_hosts, 1);
}

#[test]
fn a_node_of_the_group_matches_or_waits() {
    let key = containerd();
    let wanted = selector(
        &[("node-role", "worker")],
        vec![expression(&key, SelectorOperator::Exists, &[])],
    );
    let nodes = [
        node("in", &[("node-role", "worker"), (&key, "1.4.2")]),
        node("waits", &[("node-role", "worker")]),
        node("foreign", &[("node-role", "control-plane"), (&key, "1.4.2")]),
    ];
    let waiting = waits("workers", Some(&wanted), &nodes).waiting_hosts;
    let taken: Vec<&str> = nodes
        .iter()
        .filter(|node| node_matches(node, Some(&wanted)))
        .filter_map(|node| node.metadata.name.as_deref())
        .collect();
    assert_eq!(taken, ["in"]);
    assert_eq!(waiting, ["waits"]);
}
