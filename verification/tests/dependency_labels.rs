use ansible_operator::dependency_keys::{decode_key, is_operator_key, label_key};

const KEY: &str = "platform.plan.ansible.cloudbending.dev/containerd";

#[test]
fn a_key_decodes_back_to_the_plan_that_wrote_it() {
    assert_eq!(decode_key(KEY), Some(("platform", "containerd")));
    assert_eq!(
        decode_key(&label_key("team-a", "harden")),
        Some(("team-a", "harden"))
    );

    assert_eq!(decode_key("node-role.kubernetes.io/worker"), None);
    assert_eq!(
        decode_key("plan.ansible.cloudbending.dev/x"),
        None,
        "the namespace segment and its dot are part of the format"
    );
    assert_eq!(
        decode_key("a.plan.ansible.cloudbending.dev.evil/x"),
        None,
        "the domain has to end the prefix, not merely appear in it"
    );
    assert!(is_operator_key(KEY));
    assert!(!is_operator_key("node-role.kubernetes.io/worker"));
}

#[test]
fn an_operator_key_needs_both_of_its_parts() {
    assert_eq!(label_key("platform", "containerd"), KEY);
    assert_eq!(decode_key(".plan.ansible.cloudbending.dev/x"), None);
    assert_eq!(decode_key("a.plan.ansible.cloudbending.dev/"), None);
    assert!(is_operator_key("a.plan.ansible.cloudbending.dev/"));
    assert_eq!(decode_key(""), None);
}

#[test]
fn no_two_plans_share_a_key_and_every_key_fits() {
    let plans = [("a", "b"), ("a", "c"), ("b", "b"), ("a.b", "c"), ("a", "b.c")];
    let keys: Vec<String> = plans.iter().map(|(ns, plan)| label_key(ns, plan)).collect();
    for (i, key) in keys.iter().enumerate() {
        assert!(!keys[i + 1..].contains(key), "{key}");
    }
    let longest = label_key(&"n".repeat(63), &"p".repeat(63));
    let (prefix, name) = longest.split_once('/').unwrap();
    assert_eq!((prefix.len(), name.len()), (93, 63));
}
