use ansible_operator::ansible_inventory::{ResolvedHosts, ResolvedInventoryGroup};
use ansible_operator::execution_evaluator::{calculate_execution_hash, ExecutionHash};
use ansible_operator::job_builder::{
    correlate_job_to_play, create_job_blueprint, create_job_skeleton, extract_file_volumes,
    job_network_policy, name_volume, render_ansible_command, DEFAULT_JOB_TTL_SECONDS_AFTER_FINISHED,
    MIN_JOB_TTL_SECONDS_AFTER_FINISHED,
};
use ansible_operator::job_names::{
    job_name, job_network_policy_name, retry_count_from_job_name, run_short_id,
};
use ansible_operator::labels::{
    COMPONENT, PLAYBOOKPLAN_HASH, PLAYBOOKPLAN_NAME, PLAYBOOK_COMPONENT, PLAY_UID_ANNOTATION, RUN_ID,
};
use ansible_operator::plans::{
    FilesSource, PlaybookPlan, PlaybookPlanSpec, PlaybookVariableSource, ReconcileError,
    MAX_PLAN_NAME_LEN,
};
use ansible_operator::resources::{
    GenericMap, ObjectMeta, SecretRef, SshConfig, MAX_DNS_LABEL_LEN, MAX_DNS_SUBDOMAIN_LEN,
};
use ansible_operator::workloads::{SecurityContext, VolumeSource};

fn minimal_plan() -> PlaybookPlan {
    let mut spec = PlaybookPlanSpec {
        image: "docker.io/serversideup/ansible-core:2.18".into(),
        ..Default::default()
    };
    spec.template.playbook = "- hosts: all\n  tasks: []\n".into();
    PlaybookPlan {
        metadata: ObjectMeta {
            name: Some("an-example".into()),
            namespace: Some("default".into()),
            uid: Some("11111111-1111-1111-1111-111111111111".into()),
            ..Default::default()
        },
        spec,
        status: None,
    }
}

#[test]
fn test_extract_file_volumes_generates_correct_volumes() {
    let mut pp = minimal_plan();
    pp.spec.template.files = Some(vec![
        FilesSource::Secret {
            name: "some-configs".into(),
            secret_ref: SecretRef {
                name: "secret-with-config-files".into(),
            },
        },
        FilesSource::Other {
            name: "binary-assets".into(),
            extra: GenericMap {
                json: r#"{"image":{"reference":"my.registry.tld/the-image:v2","pullPolicy":"IfNotPresent"}}"#
                    .into(),
            },
        },
    ]);

    let results = extract_file_volumes(&pp);
    let (oks, errs): (Vec<_>, Vec<_>) = results.into_iter().partition(Result::is_ok);

    assert!(errs.is_empty(), "Some results were Err: {errs:#?}");

    let volumes: Vec<_> = oks.into_iter().map(Result::unwrap).collect();
    let volume1 = volumes.first().unwrap();
    let volume2 = volumes.get(1).unwrap();

    assert_eq!("some-configs", volume1.name);
    assert_eq!(
        volume1.source,
        VolumeSource::Secret {
            secret_name: "secret-with-config-files".into(),
            default_mode: None,
            items: None,
        }
    );

    assert_eq!("binary-assets", volume2.name);
    let VolumeSource::Custom { json } = &volume2.source else {
        panic!("expected the volume as it was written");
    };
    let volume: k8s_openapi::api::core::v1::Volume = serde_json::from_str(json).unwrap();
    assert_eq!("binary-assets", volume.name);
    assert!(volume.image.is_some());
    assert_eq!(
        volume.image.as_ref().unwrap().reference,
        Some("my.registry.tld/the-image:v2".into())
    );
    assert_eq!(
        volume.image.as_ref().unwrap().pull_policy,
        Some("IfNotPresent".into())
    );
}

#[test]
fn render_ansible_command_has_no_connection_flags_and_uses_full_inventory() {

    let pp = minimal_plan();

    let command = render_ansible_command(&pp, &[]);

    assert!(!command.iter().any(|arg| arg == "-c"));
    assert!(!command.iter().any(|arg| arg == "-l"));
    assert!(!command.iter().any(|arg| arg == "--private-key"));
    assert!(command.iter().any(|arg| arg == "inventory.yml"));
    assert!(command.iter().any(|arg| arg == "playbook.yml"));
    // No verbosity requested -> no -v flag at all.
    assert!(!command.iter().any(|arg| arg.starts_with("-v")));
}

#[test]
fn render_ansible_command_maps_verbosity_to_v_flags() {

    let v_flags = |plan: &PlaybookPlan| -> Vec<String> {
        render_ansible_command(plan, &[])
            .into_iter()
            .filter(|arg| arg.starts_with("-v"))
            .collect()
    };

    // Explicit 0 is treated the same as unset: no flag.
    let mut zero = minimal_plan();
    zero.spec.verbosity = Some(0);
    assert!(v_flags(&zero).is_empty());

    // A level renders as a single combined flag.
    let mut two = minimal_plan();
    two.spec.verbosity = Some(2);
    assert_eq!(v_flags(&two), vec!["-vv".to_string()]);

    // Above the ceiling is clamped to -vvvv, not rejected.
    let mut huge = minimal_plan();
    huge.spec.verbosity = Some(9);
    assert_eq!(v_flags(&huge), vec!["-vvvv".to_string()]);
}

#[test]
fn the_plan_name_half_is_truncated_from_45_characters() {

    let hash = calculate_execution_hash("playbook", &[]);
    let name_of = |length: usize, attempt: u32| {
        job_name(&"n".repeat(length), "uid", &hash, attempt)
    };

    assert!(
        name_of(44, 1).contains(&"n".repeat(44)),
        "44 characters is the longest plan name that survives whole"
    );
    assert!(
        !name_of(45, 1).contains(&"n".repeat(45)),
        "45 is the first length that loses a character"
    );
    // Both sit exactly on the cap: the readable half is what absorbs the difference.
    assert_eq!(name_of(44, 1).len(), MAX_DNS_LABEL_LEN);
    assert_eq!(name_of(45, 1).len(), MAX_DNS_LABEL_LEN);

    // Every further digit of the attempt number takes another character off that half.
    assert!(!name_of(44, 10).contains(&"n".repeat(44)));
    assert!(name_of(43, 10).contains(&"n".repeat(43)));

    // Whatever the plan name and attempt, the result stays inside the cap a Job is validated
    // against — which is the property the truncation exists for.
    for length in [1, 44, 45, MAX_PLAN_NAME_LEN] {
        assert!(name_of(length, u32::MAX).len() <= MAX_DNS_LABEL_LEN);
    }
}

#[test]
fn job_blueprint_names_by_retry_count_not_a_time_nonce() {

    let pp = minimal_plan();
    let hash = calculate_execution_hash("- hosts: all", &[]);

    let attempt_1 = create_job_blueprint(&hash, 1, "run-1", &[], &pp).unwrap();
    let attempt_2 = create_job_blueprint(&hash, 2, "run-1", &[], &pp).unwrap();
    let attempt_1_again = create_job_blueprint(&hash, 1, "run-1", &[], &pp).unwrap();

    let name_1 = attempt_1.metadata.name.unwrap();
    let name_2 = attempt_2.metadata.name.unwrap();
    let name_1_again = attempt_1_again.metadata.name.unwrap();

    assert_eq!(
        name_1, name_1_again,
        "same hash + same retry_count must be deterministic"
    );
    assert_ne!(
        name_1, name_2,
        "different retry_count for the same spec must produce a different name"
    );
    assert!(name_1.ends_with("-1"));
    assert!(name_2.ends_with("-2"));

    // The shortid portion stays the same across retries — it's the spec-version identifier.
    let shortid_1 = name_1.rsplit_once('-').unwrap().0;
    let shortid_2 = name_2.rsplit_once('-').unwrap().0;
    assert_eq!(shortid_1, shortid_2);
}

#[test]
fn managed_ssh_run_softly_prefers_scheduling_off_targeted_nodes() {

    let pp = minimal_plan();
    let hash = calculate_execution_hash("- hosts: all", &[]);
    let groups = vec![ResolvedInventoryGroup::ManagedSsh {
        hosts: ResolvedHosts {
            name: "workers".into(),
            hosts: vec!["node-a".into(), "node-b".into()],
            ..Default::default()
        },
        tolerations: None,
        variables: None,
    }];

    let job = create_job_blueprint(&hash, 1, "run-1", &groups, &pp).unwrap();

    // Preferences only: a run targeting every node must still schedule.
    let terms = job.template.spec.preferred_nodes;
    assert_eq!(terms.len(), 1);
    let term = &terms[0];
    assert_eq!(term.weight, 100);
    assert_eq!(term.key, "kubernetes.io/hostname");
    assert_eq!(term.operator, "NotIn");
    assert_eq!(term.values, vec!["node-a".to_string(), "node-b".to_string()]);
}

#[test]
fn job_ttl_defaults_and_clamps_to_a_silent_minimum() {

    let hash = calculate_execution_hash("- hosts: all", &[]);
    let ttl = |plan: &PlaybookPlan| {
        create_job_blueprint(&hash, 1, "run-1", &[], plan)
            .unwrap()
            .ttl_seconds_after_finished
            .unwrap()
    };

    // Unset -> the operator's default (cleanup is the TTL controller's job, never the operator's).
    assert_eq!(
        ttl(&minimal_plan()),
        DEFAULT_JOB_TTL_SECONDS_AFTER_FINISHED
    );

    // Below the floor -> silently raised to the minimum, not rejected.
    let mut too_small = minimal_plan();
    too_small.spec.ttl_seconds_after_finished = Some(10);
    assert_eq!(ttl(&too_small), MIN_JOB_TTL_SECONDS_AFTER_FINISHED);

    // At/above the floor -> passed through unchanged.
    let mut explicit = minimal_plan();
    explicit.spec.ttl_seconds_after_finished = Some(7200);
    assert_eq!(ttl(&explicit), 7200);
}

#[test]
fn static_inventory_only_run_gets_no_node_affinity() {

    let pp = minimal_plan();
    let hash = calculate_execution_hash("- hosts: all", &[]);
    let groups = vec![ResolvedInventoryGroup::Ssh {
        hosts: ResolvedHosts {
            name: "external".into(),
            hosts: vec!["ccu.fritz.box".into()],
            ..Default::default()
        },
        static_inventory_name: "ccu".into(),
        config: SshConfig {
            user: "root".into(),
            secret_ref: SecretRef {
                name: "ssh-key".into(),
            },
        },
        variables: None,
    }];

    let job = create_job_blueprint(&hash, 1, "run-1", &groups, &pp).unwrap();
    assert!(
        job.template.spec.preferred_nodes.is_empty(),
        "StaticInventory hosts aren't cluster nodes, so nothing constrains placement"
    );
}

#[test]
fn no_service_account_means_no_token_is_mounted() {

    let pp = minimal_plan();
    assert!(pp.spec.service_account_name.is_none());
    let hash = calculate_execution_hash("- hosts: all", &[]);

    let pod_spec = create_job_blueprint(&hash, 1, "run-1", &[], &pp)
        .unwrap()
        .template
        .spec;

    assert_eq!(pod_spec.service_account_name, None);
    // Fail-closed: without a ServiceAccount named, the pod carries no API token.
    assert!(!pod_spec.automount_service_account_token);
}

#[test]
fn service_account_is_set_and_its_token_is_mounted() {

    let mut pp = minimal_plan();
    pp.spec.service_account_name = Some("playbook-sa".into());
    let hash = calculate_execution_hash("- hosts: all", &[]);

    let pod_spec = create_job_blueprint(&hash, 1, "run-1", &[], &pp)
        .unwrap()
        .template
        .spec;

    assert_eq!(pod_spec.service_account_name, Some("playbook-sa".into()));
    assert!(pod_spec.automount_service_account_token);
}

#[test]
fn plan_security_context_is_applied_to_both_job_containers() {

    let mut pp = minimal_plan();
    pp.spec.template.requirements = Some("collections: []".into());
    pp.spec.security_context = Some(GenericMap {
        json: r#"{"allowPrivilegeEscalation":false}"#.into(),
    });
    let hash = calculate_execution_hash("- hosts: all", &[]);

    let pod_spec = create_job_blueprint(&hash, 1, "run-1", &[], &pp)
        .unwrap()
        .template
        .spec;

    let asked = Some(SecurityContext::FromPlan(GenericMap {
        json: r#"{"allowPrivilegeEscalation":false}"#.into(),
    }));
    assert_eq!(pod_spec.containers[0].security_context, asked);
    assert_eq!(pod_spec.init_containers[0].security_context, asked);
}

#[test]
fn job_network_policy_name_fits_its_budget_and_stays_distinguishable() {

    // A plan name is an object name, so the worst case it has to survive is a full subdomain.
    let hash = calculate_execution_hash("playbook", &[]);
    assert!(
        job_network_policy_name(&"a".repeat(MAX_DNS_SUBDOMAIN_LEN), &hash).len()
            <= MAX_DNS_LABEL_LEN
    );

    let long_prefix = "a".repeat(60);
    let first = job_network_policy_name(&format!("{long_prefix}-one"), &hash);
    let second = job_network_policy_name(&format!("{long_prefix}-two"), &hash);

    assert_ne!(first, second);
    assert!(first.len() <= MAX_DNS_LABEL_LEN);
    assert!(second.len() <= MAX_DNS_LABEL_LEN);
}

#[test]
fn job_name_fits_the_label_budget_a_job_is_actually_validated_against() {

    let hash = calculate_execution_hash("- hosts: all", &[]);
    for plan_name in ["web", &"a".repeat(MAX_DNS_SUBDOMAIN_LEN)] {
        for attempt in [1, u32::MAX] {
            let name = job_name(plan_name, "plan-uid", &hash, attempt);
            assert!(
                name.len() <= MAX_DNS_LABEL_LEN,
                "{name} ({} chars) exceeds the Job name cap",
                name.len()
            );
            assert!(name.starts_with("apply-"));
            assert!(name.ends_with(&format!("-{attempt}")));
        }
    }

    // A name that already fits keeps the documented `apply-{plan}-{shortid}-{n}` shape, with the
    // plan's own name intact — truncation must not perturb the ordinary case.
    assert_eq!(
        job_name("web", "plan-uid", &hash, 2),
        format!("apply-web-{}-2", run_short_id("plan-uid", &hash))
    );
}

#[test]
fn long_plan_names_sharing_a_truncated_prefix_still_name_distinct_runs() {

    let hash = calculate_execution_hash("- hosts: all", &[]);
    let shared_prefix = "a".repeat(MAX_DNS_SUBDOMAIN_LEN - 4);

    let first = job_name(&format!("{shared_prefix}-one"), "uid-one", &hash, 1);
    let second = job_name(&format!("{shared_prefix}-two"), "uid-two", &hash, 1);

    assert_ne!(
        first, second,
        "two plans truncated to the same text must not share a run name"
    );
    assert!(first.len() <= MAX_DNS_LABEL_LEN);
    assert!(second.len() <= MAX_DNS_LABEL_LEN);

    // The same plan, on the other hand, has to name the same run every time it is asked — a
    // resumed attempt rebuilds the name it already committed to.
    assert_eq!(
        first,
        job_name(&format!("{shared_prefix}-one"), "uid-one", &hash, 1)
    );
}

fn is_dns_label(name: &str) -> bool {
    !name.is_empty()
        && name.len() <= MAX_DNS_LABEL_LEN
        && name.starts_with(|c: char| c.is_ascii_lowercase() || c.is_ascii_digit())
        && name.ends_with(|c: char| c.is_ascii_lowercase() || c.is_ascii_digit())
        && name
            .chars()
            .all(|c| c.is_ascii_lowercase() || c.is_ascii_digit() || c == '-')
}

#[test]
fn generated_names_stay_valid_dns_labels_for_dotted_plan_names() {

    let hash = calculate_execution_hash("- hosts: all", &[]);

    // Sweep every truncation point across a dotted name, so whichever one lands on (or just
    // after) a dot is covered rather than guessed at.
    for length in 1..=MAX_DNS_LABEL_LEN + 8 {
        let plan_name: String = std::iter::successors(Some(0usize), |n| Some(n + 1))
            .map(|n| if n % 8 == 7 { '.' } else { 'a' })
            .take(length)
            .collect();
        let plan_name = plan_name.trim_end_matches('.');
        if plan_name.is_empty() {
            continue;
        }

        for attempt in [1, 42, u32::MAX] {
            let name = job_name(plan_name, "plan-uid", &hash, attempt);
            assert!(is_dns_label(&name), "job name {name:?} is not a DNS label");
        }
        let policy = job_network_policy_name(plan_name, &hash);
        assert!(
            is_dns_label(&policy),
            "policy name {policy:?} is not a DNS label"
        );
    }

    // A name ending in hyphens before truncation must not leave one at the join either.
    for plan_name in ["web--", "web.", "a.b.c", &format!("{}.x", "a".repeat(39))] {
        let name = job_name(plan_name, "plan-uid", &hash, u32::MAX);
        assert!(is_dns_label(&name), "job name {name:?} is not a DNS label");
    }
}

#[test]
fn a_file_that_is_no_volume_is_refused() {
    let mut pp = minimal_plan();
    for json in [r#"{"image":7}"#, "[]", "nonsense"] {
        pp.spec.template.files = Some(vec![FilesSource::Other {
            name: "assets".into(),
            extra: GenericMap { json: json.into() },
        }]);
        let results = extract_file_volumes(&pp);
        assert!(
            matches!(&results[0], Err(ReconcileError::InvalidVolume { name }) if name == "assets"),
            "{json}"
        );
        assert!(create_job_blueprint(&ExecutionHash(1), 1, "run-1", &[], &pp).is_err());
    }
}

#[test]
fn a_new_job_carries_nothing_the_cluster_stamps() {
    let skeleton = create_job_skeleton(&minimal_plan(), false).unwrap();
    assert_eq!(
        skeleton.metadata,
        ObjectMeta {
            owner_references: skeleton.metadata.owner_references.clone(),
            ..Default::default()
        }
    );
    assert_eq!(skeleton.metadata.owner_references.len(), 1);
    assert_eq!(skeleton.template.metadata, ObjectMeta::default());

    let mut plan = minimal_plan();
    plan.metadata.generation = Some(7);
    plan.metadata.resource_version = Some("12".into());
    plan.metadata.creation_timestamp = Some(1);
    let job = create_job_blueprint(&ExecutionHash(0x1a), 1, "run-1", &[], &plan).unwrap();
    assert_eq!(
        job.metadata,
        ObjectMeta {
            name: job.metadata.name.clone(),
            namespace: plan.metadata.namespace.clone(),
            labels: job.metadata.labels.clone(),
            owner_references: job.metadata.owner_references.clone(),
            ..Default::default()
        }
    );
    assert_eq!(
        job.template.metadata,
        ObjectMeta {
            labels: job.metadata.labels.clone(),
            ..Default::default()
        }
    );
}

#[test]
fn a_volume_keeps_the_name_it_was_given() {
    let keys = |names: &[&str]| Some(names.iter().map(|n| (*n).to_string()).collect::<Vec<_>>());
    assert_eq!(
        name_volume(r#"{"emptyDir":{}}"#, &keys(&["emptyDir"]), "a\"b").as_deref(),
        Some(r#"{"name":"a\"b","emptyDir":{}}"#)
    );
    assert_eq!(
        name_volume(r#"{"name":"own"}"#, &keys(&["name"]), "other").as_deref(),
        Some(r#"{"name":"own"}"#)
    );
    assert_eq!(name_volume("{}", &keys(&[]), "v").as_deref(), Some(r#"{"name":"v"}"#));
    assert_eq!(name_volume("[]", &None, "v"), None);
}

#[test]
fn the_command_names_every_source_of_variables() {
    let mut pp = minimal_plan();
    pp.spec.verbosity = Some(1);
    pp.spec.template.variables = Some(vec![
        PlaybookVariableSource::Inline {
            inline: GenericMap { json: "{}".into() },
        },
        PlaybookVariableSource::SecretRef {
            secret_ref: SecretRef { name: "vars".into() },
        },
    ]);
    let command = render_ansible_command(&pp, &["vars".to_string()]);
    assert_eq!(
        command.join(" "),
        "ansible-playbook -v --extra-vars @static-variables-0.yml --extra-vars @/run/ansible-operator/workspace/vars/vars/variables.yaml -i inventory.yml playbook.yml"
    );
}

#[test]
fn a_job_and_its_pod_carry_the_identity_of_the_run() {
    let pp = minimal_plan();
    let mut job = create_job_blueprint(&ExecutionHash(26), 3, "run-9", &[], &pp).unwrap();
    correlate_job_to_play(&mut job, "play-uid");
    for metadata in [&job.metadata, &job.template.metadata] {
        let label = |key: &str| metadata.labels.get(key).cloned().unwrap();
        assert_eq!(label(PLAYBOOKPLAN_NAME), "an-example");
        assert_eq!(label(PLAYBOOKPLAN_HASH), "1a");
        assert_eq!(label(RUN_ID), "run-9");
        assert_eq!(label(COMPONENT), PLAYBOOK_COMPONENT);
        assert_eq!(metadata.annotations.get(PLAY_UID_ANNOTATION).unwrap(), "play-uid");
    }
    assert_eq!(retry_count_from_job_name(job.metadata.name.as_deref().unwrap()), Some(3));
}

#[test]
fn the_egress_policy_selects_the_jobs_pod() {
    let pp = minimal_plan();
    let hash = ExecutionHash(26);
    let job = create_job_blueprint(&hash, 1, "run-1", &[], &pp).unwrap();
    let policy = job_network_policy("operators", &hash, &[], &pp, vec![]).unwrap();
    assert_eq!(policy.metadata.name.unwrap(), job_network_policy_name("an-example", &hash));
    assert_eq!(policy.metadata.namespace.as_deref(), Some("default"));
    for i in 0..policy.pod_selector.len() {
        let (key, value) = policy.pod_selector.entry(i);
        assert_eq!(job.template.metadata.labels.get(key), Some(value));
    }
    assert!(!policy.pod_selector.is_empty());

    let mut unnamed = minimal_plan();
    unnamed.metadata.uid = None;
    assert!(job_network_policy("operators", &hash, &[], &unnamed, vec![]).is_err());
}
