use ansible_operator::ansible_inventory::{
    distinct_host_count, distinct_hosts, renders_group_vars, ResolvedHosts,
};
use ansible_operator::execution_evaluator::{
    calculate_execution_hash, digest_variables, find_all_hosts, find_outdated_hosts,
    hash_secret_data, ExecutionHash, GroupVariables, SecretData,
};
use ansible_operator::plans::{HostStatus, PlaybookPlanStatus};
use ansible_operator::resources::GenericMap;
use ansible_operator::textmap::TextMap;
use std::hash::{Hash, Hasher};

fn json(text: &str) -> GenericMap {
    GenericMap { json: text.into() }
}

fn groups(entries: &[(&str, &GenericMap)]) -> Vec<GroupVariables> {
    entries
        .iter()
        .map(|(group, variables)| GroupVariables {
            group: (*group).to_string(),
            variables: (*variables).clone(),
        })
        .collect()
}

fn records(entries: Vec<(String, HostStatus)>) -> TextMap<HostStatus> {
    let mut map = TextMap::new();
    for (host, status) in entries {
        map.insert(host, status);
    }
    map
}

fn secret_of(entries: Vec<(String, Vec<u8>)>) -> SecretData {
    let mut map = TextMap::new();
    for (key, value) in entries {
        map.insert(key, value);
    }
    map
}

fn secret(entries: &[(&str, &[u8])]) -> SecretData {
    secret_of(
        entries
            .iter()
            .map(|(key, value)| ((*key).to_string(), value.to_vec()))
            .collect(),
    )
}

#[test]
fn test_must_execute_returns_none_when_eligible_hosts_empty() {
    // Given
    let status = PlaybookPlanStatus {
        eligible_hosts: Vec::new(),
        ..Default::default()
    };

    // When
    let to_execute = find_outdated_hosts(&status, &ExecutionHash(1));

    // Then
    assert_eq!(to_execute.len(), 0);
}

#[test]
fn test_must_execute_returns_all_when_hosts_status_empty() {
    // Given
    let status = PlaybookPlanStatus {
        eligible_hosts: vec![ResolvedHosts {
            name: "test-inventory".into(),
            hosts: vec!["host-1".into(), "host-2".into(), "host-3".into()],
            ..Default::default()
        }],
        hosts_status: None,
        ..Default::default()
    };

    // When
    let to_execute = find_outdated_hosts(&status, &ExecutionHash(1));

    // Then
    let expected_hostnames = [
        "host-1".to_owned(),
        "host-2".to_owned(),
        "host-3".to_owned(),
    ];
    let expected: Vec<String> = expected_hostnames.to_vec();
    let actual: Vec<String> = to_execute;

    assert!(expected.eq(&actual));
}

#[test]
fn test_must_execute_returns_correct_hosts() {
    // Given
    let status = PlaybookPlanStatus {
        eligible_hosts: vec![ResolvedHosts {
            name: "test-inventory".into(),
            hosts: vec!["host-1".into(), "host-2".into(), "host-3".into()],
            ..Default::default()
        }],
        hosts_status: Some(records(vec![
            (
                "host-1".to_owned(),
                HostStatus {
                    last_applied_hash: "1".to_owned(),
                    ..Default::default()
                },
            ),
            (
                "host-2".to_owned(),
                HostStatus {
                    last_applied_hash: "2".to_owned(),
                    ..Default::default()
                },
            ),
            (
                "host-3".to_owned(),
                HostStatus {
                    last_applied_hash: "1".to_owned(),
                    ..Default::default()
                },
            ),
        ])),
        ..Default::default()
    };

    // When
    let to_execute = find_outdated_hosts(&status, &ExecutionHash(2));

    // Then
    let expected_hostnames = ["host-1".to_owned(), "host-3".to_owned()];
    let expected: Vec<String> = expected_hostnames.to_vec();
    let actual: Vec<String> = to_execute;

    assert_eq!(expected, actual);
}

#[test]
fn test_calculate_execution_hash_is_order_insensitive() {
    // Given
    let playbook = "awesome playbook here";
    let secret1_data = secret_of(vec![
        ("key-1".to_string(), b"data-1".to_vec()),
        ("key-2".to_string(), b"value-2".to_vec()),
    ]);
    let secret2_data = secret_of(vec![(
        "meaningful_number".to_string(),
        b"73".to_vec(),
    )]);
    let secret3_data = secret_of(vec![(
        "answer".to_string(),
        b"forty-two".to_vec(),
    )]);

    // When
    let hashed_1 =
        calculate_execution_hash(playbook, &[secret1_data.clone(), secret2_data.clone(), secret3_data.clone()]);
    let hashed_2 =
        calculate_execution_hash(playbook, &[secret2_data.clone(), secret1_data.clone(), secret3_data.clone()]);
    let hashed_3 =
        calculate_execution_hash(playbook, &[secret3_data.clone(), secret2_data.clone(), secret1_data.clone()]);

    // Then
    assert_eq!(hashed_1, hashed_2);
    assert_eq!(hashed_2, hashed_3);
}

#[test]
fn test_fold_inventory_variables_changes_hash_and_is_order_insensitive() {
    let base = calculate_execution_hash("playbook", &[]);

    // No variables is a no-op.
    assert_eq!(base, base.fold_inventory_variables(&[]));

    let workers = json(r#"{ "ansible_python_interpreter": "/usr/bin/python3" }"#);
    let edge = json(r#"{ "ansible_python_interpreter": "/usr/bin/python2" }"#);

    let with_vars = base.fold_inventory_variables(&groups(&[("workers", &workers), ("edge", &edge)]));
    // Folding real variables changes the hash...
    assert_ne!(base, with_vars);
    // ...but the group order does not matter.
    assert_eq!(
        with_vars,
        base.fold_inventory_variables(&groups(&[("edge", &edge), ("workers", &workers)]))
    );

    // A changed value changes the hash.
    let changed = json(r#"{ "ansible_python_interpreter": "/usr/bin/python3.11" }"#);
    assert_ne!(
        with_vars,
        base.fold_inventory_variables(&groups(&[("workers", &changed), ("edge", &edge)]))
    );
}

#[test]
fn a_plan_without_provides_hashes_as_though_the_field_did_not_exist() {
    let base = calculate_execution_hash("playbook", &[]);

    assert_eq!(base, base.fold_provides_version(None));
}

#[test]
fn declaring_and_bumping_a_version_are_both_new_revisions() {
    let base = calculate_execution_hash("playbook", &[]);

    let declared = base.fold_provides_version(Some("1.4.2"));
    assert_ne!(base, declared, "adding provides re-runs the plan once");

    let bumped = base.fold_provides_version(Some("1.4.3"));
    assert_ne!(declared, bumped, "a bump re-runs it everywhere");

    assert_eq!(
        declared,
        base.fold_provides_version(Some("1.4.2")),
        "an unchanged version is not an edit"
    );
}

#[test]
fn the_version_and_the_inventory_variables_fold_independently() {
    let base = calculate_execution_hash("playbook", &[]);
    let workers = json(r#"{ "motd": "hello" }"#);

    let with_vars = base.fold_inventory_variables(&groups(&[("workers", &workers)]));
    let with_both = with_vars.fold_provides_version(Some("1.4.2"));

    assert_ne!(with_both, with_vars);
    assert_ne!(with_both, base.fold_provides_version(Some("1.4.2")));
}

#[test]
fn a_group_whose_variables_render_nothing_hashes_as_though_it_had_none() {
    let base = calculate_execution_hash("playbook", &[]);
    let empty = json(r#"{}"#);
    let real = json(r#"{ "motd": "hello" }"#);

    assert_eq!(
        base.fold_inventory_variables(&groups(&[("workers", &empty)])),
        base,
        "an empty map is what the renderer drops, so it cannot move the hash"
    );
    assert_eq!(
        base.fold_inventory_variables(&groups(&[("workers", &real), ("edge", &empty)])),
        base.fold_inventory_variables(&groups(&[("workers", &real)])),
        "an empty map beside a real one contributes nothing either"
    );
    // Renaming a group that sets nothing is not a content change, because the group name is only
    // ever hashed as the key of variables that exist.
    assert_eq!(
        base.fold_inventory_variables(&groups(&[("edge", &empty)])),
        base.fold_inventory_variables(&groups(&[("workers", &empty)]))
    );
}

#[test]
fn only_a_non_empty_mapping_counts_as_group_variables() {
    assert!(renders_group_vars(&json(r#"{ "a": 1 }"#)));

    assert!(!renders_group_vars(&json(r#"{}"#)));
    assert!(!renders_group_vars(&json("null")));
    assert!(!renders_group_vars(&json(r#"[1, 2]"#)));
    assert!(!renders_group_vars(&json(r#""a string""#)));
}

#[test]
fn a_host_in_two_groups_counts_and_lists_once() {
    let overlapping = vec![
        ResolvedHosts {
            name: "workers".into(),
            hosts: vec!["node-a".into(), "node-b".into()],
            ..Default::default()
        },
        ResolvedHosts {
            name: "storage".into(),
            hosts: vec!["node-b".into(), "node-c".into()],
            ..Default::default()
        },
    ];
    assert_eq!(
        distinct_hosts(&overlapping),
        vec!["node-a".to_string(), "node-b".into(), "node-c".into()],
        "first-seen order, so group membership still reads naturally"
    );
    assert_eq!(distinct_host_count(&overlapping), 3);

    let hash = ExecutionHash(1);
    let mut status = PlaybookPlanStatus {
        eligible_hosts: overlapping,
        ..Default::default()
    };
    assert_eq!(find_all_hosts(&status).len(), 3);
    assert_eq!(
        find_outdated_hosts(&status, &hash).len(),
        3,
        "a plan that never ran owes each host one run, not one per group it appears in"
    );

    status.hosts_status = Some(records(vec![(
        "node-b".to_string(),
        HostStatus {
            last_applied_hash: hash.to_text(),
            ..Default::default()
        },
    )]));
    assert_eq!(
        find_outdated_hosts(&status, &hash),
        vec!["node-a".to_string(), "node-c".into()],
        "the shared host is current once, not once per group"
    );
}

#[test]
fn test_execution_hash_display() {
    // Given
    let hash = ExecutionHash(255);

    // When
    let as_string = hash.to_text();

    // Then
    assert_eq!("ff", as_string)
}
#[test]
fn hash_secret_data_tracks_content_and_not_read_order() {
    let a = secret(&[("id_rsa", b"key-a")]);
    let b = secret(&[("id_rsa", b"key-b")]);

    assert_eq!(
        hash_secret_data(&[a.clone(), b.clone()]),
        hash_secret_data(&[b.clone(), a.clone()]),
        "the Secrets are read concurrently and arrive in no particular order"
    );
    assert_ne!(hash_secret_data(&[a.clone()]), hash_secret_data(&[b.clone()]));
    assert_eq!(hash_secret_data(&[a.clone()]), hash_secret_data(&[a.clone()]));
    // A key added to the set is a change, even if every existing key is untouched.
    assert_ne!(hash_secret_data(&[a.clone()]), hash_secret_data(&[a.clone(), b.clone()]));
}

#[test]
fn the_key_fingerprint_is_independent_of_the_execution_hash() {
    let key = secret(&[("id_rsa", b"key-a")]);
    let rotated = secret(&[("id_rsa", b"key-b")]);

    assert_eq!(
        calculate_execution_hash("playbook", &[]),
        calculate_execution_hash("playbook", &[]),
    );
    assert_ne!(hash_secret_data(&[key.clone()]), hash_secret_data(&[rotated.clone()]));
}

#[test]
fn digests_are_those_of_the_standard_encoding() {
    let mut playbook = twox_hash::XxHash3_64::new();
    "playbook".hash(&mut playbook);
    assert_eq!(calculate_execution_hash("playbook", &[]).0, playbook.finish());

    let mut group = twox_hash::XxHash3_64::new();
    "workers".hash(&mut group);
    r#"{"a":1}"#.hash(&mut group);
    assert_eq!(digest_variables("workers", r#"{"a":1}"#), group.finish());
    assert_eq!(
        ExecutionHash(5)
            .fold_inventory_variables(&groups(&[("workers", &json(r#"{ "a" : 1 }"#))]))
            .0,
        group.finish().wrapping_add(5)
    );

    let mut data = twox_hash::XxHash3_64::new();
    "id_rsa".to_string().hash(&mut data);
    b"key-a".to_vec().hash(&mut data);
    assert_eq!(
        hash_secret_data(&[secret(&[("id_rsa", b"key-a")])]),
        format!("{:x}", data.finish())
    );
}

#[test]
fn a_hash_reads_back_from_any_of_its_written_forms() {
    for text in ["1a", "1A", "00001A"] {
        assert_eq!(ExecutionHash::from_hex(text), Some(ExecutionHash(26)));
    }
    assert_eq!(ExecutionHash::from_hex("ffffffffffffffff"), Some(ExecutionHash(u64::MAX)));
    for text in ["", "xyz", "1g", "10000000000000000", "-1", " 1", "+1a", "+"] {
        assert_eq!(ExecutionHash::from_hex(text), None, "{text:?}");
    }
    let hash = ExecutionHash(0x00ab_cdef_0123_4567);
    assert_eq!(hash.to_text(), "abcdef01234567");
    assert_eq!(ExecutionHash::from_hex(&hash.to_text()), Some(hash));
}
