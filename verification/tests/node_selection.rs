use ansible_operator::nodeselector::{
    matches_expressions, matches_labels, node_matches, selector_matches,
    selector_matches_fail_closed,
};
use ansible_operator::resources::{
    LabelMap, Node, NodeSelectorTerm, ObjectMeta, SelectorExpression, SelectorOperator,
};

fn labels(pairs: impl IntoIterator<Item = (&'static str, &'static str)>) -> LabelMap {
    let mut map = LabelMap::new();
    for (key, value) in pairs {
        map.insert(key.to_string(), value.to_string());
    }
    map
}

fn label_selector(pairs: impl IntoIterator<Item = (&'static str, &'static str)>) -> LabelMap {
    labels(pairs)
}

fn make_node(pairs: impl IntoIterator<Item = (&'static str, &'static str)>) -> Node {
    Node {
        metadata: ObjectMeta {
            labels: labels(pairs),
            ..Default::default()
        },
        ..Default::default()
    }
}

fn node_matches_match_labels(node: &Node, wanted: &LabelMap) -> bool {
    matches_labels(&node.metadata.labels, wanted)
}

fn node_matches_match_expressions(node: &Node, exprs: &[SelectorExpression]) -> bool {
    matches_expressions(&node.metadata.labels, exprs)
}

#[test]
fn node_matches_no_selector_always_true() {
    let node = make_node([("key", "value")]);
    assert!(node_matches(&node, None));
}

#[test]
fn node_matches_empty_selector_always_true() {
    let node = make_node([]);
    let selector = NodeSelectorTerm {
        match_labels: None,
        match_expressions: None,
    };
    assert!(node_matches(&node, Some(&selector)));
}

#[test]
fn node_matches_labels_and_expressions_both_pass() {
    let node = make_node([("env", "prod"), ("region", "eu")]);
    let selector = NodeSelectorTerm {
        match_labels: Some(label_selector([("env", "prod")])),
        match_expressions: Some(vec![SelectorExpression {
            operator: SelectorOperator::DoesNotExist,
            key: "spot".to_string(),
            values: None,
        }]),
    };
    assert!(node_matches(&node, Some(&selector)));
}

#[test]
fn node_matches_fails_when_labels_fail() {
    let node = make_node([("env", "staging")]);
    let selector = NodeSelectorTerm {
        match_labels: Some(label_selector([("env", "prod")])),
        match_expressions: None,
    };
    assert!(!node_matches(&node, Some(&selector)));
}

#[test]
fn node_matches_fails_when_expressions_fail() {
    let node = make_node([("env", "prod"), ("spot", "true")]);
    let selector = NodeSelectorTerm {
        match_labels: Some(label_selector([("env", "prod")])),
        match_expressions: Some(vec![SelectorExpression {
            operator: SelectorOperator::DoesNotExist,
            key: "spot".to_string(),
            values: None,
        }]),
    };
    assert!(!node_matches(&node, Some(&selector)));
}

#[test]
fn match_labels_all_present_and_equal() {
    let node = make_node([("a", "1"), ("b", "2"), ("c", "3")]);
    let selector = label_selector([("a", "1"), ("b", "2")]);
    assert!(node_matches_match_labels(&node, &selector));
}

#[test]
fn match_labels_key_missing_from_node() {
    let node = make_node([("a", "1")]);
    let selector = label_selector([("z", "99")]);
    assert!(!node_matches_match_labels(&node, &selector));
}

#[test]
fn match_labels_key_present_wrong_value() {
    let node = make_node([("env", "staging")]);
    let selector = label_selector([("env", "prod")]);
    assert!(!node_matches_match_labels(&node, &selector));
}

#[test]
fn match_labels_empty_selector_matches_any_node() {
    let node = make_node([("a", "1")]);
    let selector = label_selector([]);
    assert!(node_matches_match_labels(&node, &selector));
}

#[test]
fn match_labels_node_has_no_labels() {
    let node = make_node([]);
    let selector = label_selector([("a", "1")]);
    assert!(!node_matches_match_labels(&node, &selector));
}

#[test]
fn expressions_in_key_matches_value() {
    let node = make_node([("zone", "eu-west-1")]);
    let exprs = vec![SelectorExpression {
        operator: SelectorOperator::In,
        key: "zone".to_string(),
        values: Some(vec!["eu-west-1".to_string(), "eu-central-1".to_string()]),
    }];
    assert!(node_matches_match_expressions(&node, &exprs));
}

#[test]
fn expressions_in_key_value_not_in_list() {
    let node = make_node([("zone", "us-east-1")]);
    let exprs = vec![SelectorExpression {
        operator: SelectorOperator::In,
        key: "zone".to_string(),
        values: Some(vec!["eu-west-1".to_string(), "eu-central-1".to_string()]),
    }];
    assert!(!node_matches_match_expressions(&node, &exprs));
}

#[test]
fn expressions_in_key_missing_from_node() {
    let node = make_node([]);
    let exprs = vec![SelectorExpression {
        operator: SelectorOperator::In,
        key: "zone".to_string(),
        values: Some(vec!["eu-west-1".to_string()]),
    }];
    assert!(!node_matches_match_expressions(&node, &exprs));
}

#[test]
fn expressions_in_empty_values_never_matches() {
    let node = make_node([("zone", "eu-west-1")]);
    let exprs = vec![SelectorExpression {
        operator: SelectorOperator::In,
        key: "zone".to_string(),
        values: None,
    }];
    assert!(!node_matches_match_expressions(&node, &exprs));
}

#[test]
fn expressions_doesnotexist_key_absent() {
    let node = make_node([("env", "prod")]);
    let exprs = vec![SelectorExpression {
        operator: SelectorOperator::DoesNotExist,
        key: "spot".to_string(),
        values: None,
    }];
    assert!(node_matches_match_expressions(&node, &exprs));
}

#[test]
fn expressions_doesnotexist_key_present() {
    let node = make_node([("spot", "true")]);
    let exprs = vec![SelectorExpression {
        operator: SelectorOperator::DoesNotExist,
        key: "spot".to_string(),
        values: None,
    }];
    assert!(!node_matches_match_expressions(&node, &exprs));
}

#[test]
fn expressions_doesnotexist_node_has_no_labels() {
    let node = make_node([]);
    let exprs = vec![SelectorExpression {
        operator: SelectorOperator::DoesNotExist,
        key: "spot".to_string(),
        values: None,
    }];
    assert!(node_matches_match_expressions(&node, &exprs));
}

#[test]
fn expressions_multiple_all_must_pass() {
    let node = make_node([("zone", "eu-west-1"), ("env", "prod")]);
    let exprs = vec![
        SelectorExpression {
            operator: SelectorOperator::In,
            key: "zone".to_string(),
            values: Some(vec!["eu-west-1".to_string()]),
        },
        SelectorExpression {
            operator: SelectorOperator::DoesNotExist,
            key: "spot".to_string(),
            values: None,
        },
    ];
    assert!(node_matches_match_expressions(&node, &exprs));
}

#[test]
fn expressions_multiple_one_failing_fails_all() {
    let node = make_node([("zone", "eu-west-1"), ("spot", "true")]);
    let exprs = vec![
        SelectorExpression {
            operator: SelectorOperator::In,
            key: "zone".to_string(),
            values: Some(vec!["eu-west-1".to_string()]),
        },
        SelectorExpression {
            operator: SelectorOperator::DoesNotExist,
            key: "spot".to_string(),
            values: None,
        },
    ];
    assert!(!node_matches_match_expressions(&node, &exprs));
}

#[test]
fn expressions_exists_key_present() {
    let node = make_node([("env", "prod")]);
    let exprs = vec![SelectorExpression {
        operator: SelectorOperator::Exists,
        key: "env".to_string(),
        values: None,
    }];
    assert!(node_matches_match_expressions(&node, &exprs));
}

#[test]
fn expressions_exists_key_absent() {
    let node = make_node([("env", "prod")]);
    let exprs = vec![SelectorExpression {
        operator: SelectorOperator::Exists,
        key: "spot".to_string(),
        values: None,
    }];
    assert!(!node_matches_match_expressions(&node, &exprs));
}

#[test]
fn expressions_exists_node_has_no_labels() {
    let node = make_node([]);
    let exprs = vec![SelectorExpression {
        operator: SelectorOperator::Exists,
        key: "env".to_string(),
        values: None,
    }];
    assert!(!node_matches_match_expressions(&node, &exprs));
}

#[test]
fn expressions_notin_key_absent_always_matches() {
    let node = make_node([("env", "prod")]);
    let exprs = vec![SelectorExpression {
        operator: SelectorOperator::NotIn,
        key: "zone".to_string(),
        values: Some(vec!["eu-west-1".to_string()]),
    }];
    assert!(node_matches_match_expressions(&node, &exprs));
}

#[test]
fn expressions_notin_key_present_value_not_in_list() {
    let node = make_node([("zone", "us-east-1")]);
    let exprs = vec![SelectorExpression {
        operator: SelectorOperator::NotIn,
        key: "zone".to_string(),
        values: Some(vec!["eu-west-1".to_string(), "eu-central-1".to_string()]),
    }];
    assert!(node_matches_match_expressions(&node, &exprs));
}

#[test]
fn expressions_notin_key_present_value_in_list() {
    let node = make_node([("zone", "eu-west-1")]);
    let exprs = vec![SelectorExpression {
        operator: SelectorOperator::NotIn,
        key: "zone".to_string(),
        values: Some(vec!["eu-west-1".to_string(), "eu-central-1".to_string()]),
    }];
    assert!(!node_matches_match_expressions(&node, &exprs));
}

#[test]
fn expressions_notin_empty_values_always_matches() {
    // NotIn [] means "value is not in the empty set" → always true
    let node = make_node([("zone", "eu-west-1")]);
    let exprs = vec![SelectorExpression {
        operator: SelectorOperator::NotIn,
        key: "zone".to_string(),
        values: None,
    }];
    assert!(node_matches_match_expressions(&node, &exprs));
}

// --- ordered version comparison (Gt/Ge/Lt/Le) ---

#[test]
fn expressions_version_comparison_table() {
    // (label value on the Node, operator, the term's values, expected match)
    let cases: &[(Option<&str>, SelectorOperator, &[&str], bool)] = &[
        // Ordering is numeric per component, which is the whole point: as strings "1.10.0"
        // would sort before "1.9.0".
        (Some("1.10.0"), SelectorOperator::Ge, &["1.9.0"], true),
        (Some("1.9.0"), SelectorOperator::Ge, &["1.10.0"], false),
        (Some("1.4.2"), SelectorOperator::Ge, &["1.4.2"], true),
        (Some("1.4.2"), SelectorOperator::Gt, &["1.4.2"], false),
        (Some("1.4.3"), SelectorOperator::Gt, &["1.4.2"], true),
        (Some("1.4.2"), SelectorOperator::Le, &["1.4.2"], true),
        (Some("1.4.2"), SelectorOperator::Lt, &["1.4.2"], false),
        (Some("1.4.1"), SelectorOperator::Lt, &["1.4.2"], true),
        // Missing components are zero on both sides, the term's included. So a short bound is
        // a lower bound on a whole series (`Ge 2` admits every 2.x), but never an upper one:
        // `Le 2` is `Le 2.0.0` and excludes 2.1.1, which is the asymmetry that surprises.
        (Some("1.4"), SelectorOperator::Ge, &["1.4.0"], true),
        (Some("1.4"), SelectorOperator::Gt, &["1.4.0"], false),
        (Some("2"), SelectorOperator::Ge, &["1.9.9"], true),
        (Some("2.1.1"), SelectorOperator::Ge, &["2"], true),
        (Some("2.0.0"), SelectorOperator::Ge, &["2"], true),
        (Some("1.9.9"), SelectorOperator::Ge, &["2"], false),
        (Some("2.1.1"), SelectorOperator::Le, &["2"], false),
        (Some("2.0.0"), SelectorOperator::Gt, &["2"], false),
        (Some("2.0.1"), SelectorOperator::Gt, &["2"], true),
        // An integer label compares exactly as Kubernetes' integer-only Gt/Lt would.
        (Some("10"), SelectorOperator::Gt, &["9"], true),
        (Some("9"), SelectorOperator::Gt, &["10"], false),
        // A release candidate is not the release.
        (Some("1.4.0-rc.1"), SelectorOperator::Ge, &["1.4.0"], false),
        (Some("1.4.0"), SelectorOperator::Ge, &["1.4.0-rc.1"], true),
        (Some("1.4.0-rc.2"), SelectorOperator::Gt, &["1.4.0-rc.1"], true),
        // Build metadata is ignored, on either side.
        (Some("1.4.2_a1b2c3"), SelectorOperator::Ge, &["1.4.2"], true),
        (Some("1.4.2"), SelectorOperator::Ge, &["1.4.2_a1b2c3"], true),
        (Some("v1.4.2"), SelectorOperator::Ge, &["1.4.2"], true),
        // Fail closed: nothing to compare, or something that is not a version.
        (None, SelectorOperator::Ge, &["1.4.2"], false),
        (None, SelectorOperator::Lt, &["1.4.2"], false),
        (Some("latest"), SelectorOperator::Ge, &["1.4.2"], false),
        (Some("latest"), SelectorOperator::Lt, &["1.4.2"], false),
        (Some("1.4.2"), SelectorOperator::Ge, &["latest"], false),
        (Some(""), SelectorOperator::Ge, &["1.4.2"], false),
        // A comparison takes exactly one value; anything else is unanswerable.
        (Some("1.4.2"), SelectorOperator::Ge, &[], false),
        (Some("1.4.2"), SelectorOperator::Ge, &["1.0.0", "2.0.0"], false),
    ];

    for (label, operator, values, expected) in cases {
        let node = match label {
            Some(value) => make_node([("version", *value)]),
            None => make_node([]),
        };
        let exprs = vec![SelectorExpression {
            operator: *operator,
            key: "version".to_string(),
            values: Some(values.iter().map(|v| v.to_string()).collect()),
        }];

        assert_eq!(
            node_matches_match_expressions(&node, &exprs),
            *expected,
            "{label:?} {operator:?} {values:?}"
        );
    }
}

#[test]
fn expressions_version_comparison_without_values_never_matches() {
    // `values: None` is a distinct shape from an empty list, and just as unanswerable.
    let node = make_node([("version", "1.4.2")]);
    let exprs = vec![SelectorExpression {
        operator: SelectorOperator::Ge,
        key: "version".to_string(),
        values: None,
    }];
    assert!(!node_matches_match_expressions(&node, &exprs));
}

// --- fail-closed selector matching (NodeAccessPolicy) ---

#[test]
fn selector_matches_empty_selector_matches_everything() {
    // Default (non-fail-closed) semantics: empty selector matches any labels.
    let empty = NodeSelectorTerm::default();
    assert!(selector_matches(&labels([("a", "1")]), &empty));
    assert!(selector_matches(&labels([]), &empty));
}

#[test]
fn fail_closed_empty_selector_matches_nothing() {
    // The inversion: an empty ceiling grants no access.
    let empty = NodeSelectorTerm::default();
    assert!(!selector_matches_fail_closed(&labels([("a", "1")]), &empty));
    assert!(!selector_matches_fail_closed(&labels([]), &empty));

    // An empty matchLabels map (not just `None`) is still "empty" → nothing.
    let empty_map = NodeSelectorTerm {
        match_labels: Some(label_selector([])),
        match_expressions: Some(vec![]),
    };
    assert!(!selector_matches_fail_closed(
        &labels([("a", "1")]),
        &empty_map
    ));
}

#[test]
fn fail_closed_nonempty_selector_matches_like_normal() {
    let sel = NodeSelectorTerm {
        match_labels: Some(label_selector([("node-pool", "business")])),
        match_expressions: None,
    };
    assert!(selector_matches_fail_closed(
        &labels([("node-pool", "business")]),
        &sel
    ));
    assert!(!selector_matches_fail_closed(
        &labels([("node-pool", "platform")]),
        &sel
    ));

    // "Allow all" must be expressed explicitly, e.g. Exists on a ubiquitous label.
    let all = NodeSelectorTerm {
        match_labels: None,
        match_expressions: Some(vec![SelectorExpression {
            operator: SelectorOperator::Exists,
            key: "kubernetes.io/hostname".to_string(),
            values: None,
        }]),
    };
    assert!(selector_matches_fail_closed(
        &labels([("kubernetes.io/hostname", "n1")]),
        &all
    ));
    assert!(!selector_matches_fail_closed(
        &labels([("other", "x")]),
        &all
    ));
}

#[test]
fn fail_closed_selector_orders_versions_too() {
    // A ceiling may be written against a plan's `spec.provides` label, e.g. "only Nodes the
    // hardening plan has finished with". One evaluator serves both kinds of selector, so the
    // ordered operators are available here as well — and still fail closed.
    let sel = NodeSelectorTerm {
        match_labels: None,
        match_expressions: Some(vec![SelectorExpression {
            operator: SelectorOperator::Ge,
            key: "platform.plan.ansible.cloudbending.dev/hardening".to_string(),
            values: Some(vec!["1.4.0".to_string()]),
        }]),
    };

    assert!(selector_matches_fail_closed(
        &labels([("platform.plan.ansible.cloudbending.dev/hardening", "1.10.0")]),
        &sel
    ));
    assert!(!selector_matches_fail_closed(
        &labels([("platform.plan.ansible.cloudbending.dev/hardening", "1.3.0")]),
        &sel
    ));
    assert!(!selector_matches_fail_closed(&labels([]), &sel));
}

#[test]
fn the_exclusions_answer_the_opposite_of_the_inclusions() {
    for node in [make_node([("zone", "a")]), make_node([("zone", "b")]), make_node([])] {
        let with = |operator| {
            vec![SelectorExpression {
                operator,
                key: "zone".to_string(),
                values: Some(vec!["a".to_string()]),
            }]
        };
        assert_ne!(
            node_matches_match_expressions(&node, &with(SelectorOperator::In)),
            node_matches_match_expressions(&node, &with(SelectorOperator::NotIn))
        );
        assert_ne!(
            node_matches_match_expressions(&node, &with(SelectorOperator::Exists)),
            node_matches_match_expressions(&node, &with(SelectorOperator::DoesNotExist))
        );
    }
}
