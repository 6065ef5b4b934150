use ansible_operator::ansible_inventory::ResolvedHosts;
use ansible_operator::cluster_inventory::{ClusterInventory, ClusterInventorySpec};
use ansible_operator::mappers::{
    attempt_budget_available, cluster_inventory_to_playbookplans,
    node_access_policy_to_playbookplans, node_to_playbookplans, plan_awaits_node,
    plan_references_inventory, secret_to_affected_playbookplans, secret_to_playbookplans,
    ssh_secret_to_playbookplans, static_inventory_to_playbookplans, InventoryKind,
};
use ansible_operator::plans::{
    ExecutionMode, FilesSource, HostOutcome, HostStatus, InventoryRef, Phase, PlaybookPlan,
    PlaybookPlanSpec, PlaybookPlanStatus, PlaybookVariableSource,
};
use ansible_operator::resources::{
    Node, NodeCondition, ObjectMeta, SecretRef, SshConfig, StaticInventory, StaticInventorySpec,
};
use ansible_operator::textmap::TextMap;

fn plan_in(namespace: &str, inventory_refs: Vec<InventoryRef>) -> PlaybookPlan {
    PlaybookPlan {
        metadata: ObjectMeta {
            name: Some("web".into()),
            namespace: Some(namespace.to_string()),
            ..Default::default()
        },
        spec: PlaybookPlanSpec {
            inventory_refs,
            ..Default::default()
        },
        status: None,
    }
}

fn records(entries: Vec<(String, HostStatus)>) -> TextMap<HostStatus> {
    let mut map = TextMap::new();
    for (host, status) in entries {
        map.insert(host, status);
    }
    map
}

fn plan_with_status(status: PlaybookPlanStatus) -> PlaybookPlan {
    PlaybookPlan {
        status: Some(status),
        ..plan_in("tenant", Vec::new())
    }
}

fn eligible(hosts: &[&str]) -> Vec<ResolvedHosts> {
    vec![ResolvedHosts {
        name: "workers".into(),
        hosts: hosts.iter().map(|host| host.to_string()).collect(),
        ..Default::default()
    }]
}

fn node_with_uid(uid: &str) -> Node {
    Node {
        metadata: ObjectMeta {
            uid: Some(uid.to_string()),
            ..Default::default()
        },
        ..Default::default()
    }
}

fn node_named(name: &str, ready: bool) -> Node {
    Node {
        metadata: ObjectMeta {
            name: Some(name.to_string()),
            ..Default::default()
        },
        conditions: Some(vec![NodeCondition {
            type_: "Ready".into(),
            status: if ready { "True" } else { "False" }.into(),
            last_heartbeat_time: None,
        }]),
    }
}

fn static_inventory(name: &str, namespace: &str, secret: &str) -> StaticInventory {
    StaticInventory {
        metadata: ObjectMeta {
            name: Some(name.to_string()),
            namespace: Some(namespace.to_string()),
            ..Default::default()
        },
        spec: StaticInventorySpec {
            hosts: Vec::new(),
            ssh: SshConfig {
                user: "root".into(),
                secret_ref: SecretRef {
                    name: secret.into(),
                },
            },
        },
    }
}

fn plan_using(name: &str, namespace: &str, inventory: &str, phase: Phase) -> PlaybookPlan {
    let mut plan = plan_in(namespace, vec![static_(inventory)]);
    plan.metadata.name = Some(name.to_string());
    plan.status = Some(PlaybookPlanStatus {
        phase,
        ..Default::default()
    });
    plan
}

fn secret_named(name: &str, namespace: &str) -> ObjectMeta {
    ObjectMeta {
        name: Some(name.to_string()),
        namespace: Some(namespace.to_string()),
        ..Default::default()
    }
}

fn cluster(name: &str) -> InventoryRef {
    InventoryRef {
        cluster_inventory: Some(name.to_string()),
        static_inventory: None,
    }
}

fn static_(name: &str) -> InventoryRef {
    InventoryRef {
        cluster_inventory: None,
        static_inventory: Some(name.to_string()),
    }
}

#[test]
fn a_plan_matches_the_inventory_it_names() {
    let plan = plan_in("tenant", vec![cluster("workers")]);

    assert!(plan_references_inventory(
        &plan,
        Some("tenant"),
        "workers",
        InventoryKind::Cluster
    ));
    assert!(!plan_references_inventory(
        &plan,
        Some("tenant"),
        "storage",
        InventoryKind::Cluster
    ));
}

#[test]
fn an_inventory_in_another_namespace_is_a_different_inventory() {
    let plan = plan_in("tenant", vec![cluster("workers")]);

    assert!(!plan_references_inventory(
        &plan,
        Some("other-tenant"),
        "workers",
        InventoryKind::Cluster
    ));
    assert!(!plan_references_inventory(
        &plan,
        None,
        "workers",
        InventoryKind::Cluster
    ));
}

#[test]
fn the_two_inventory_kinds_do_not_match_each_other() {
    let cluster_plan = plan_in("tenant", vec![cluster("workers")]);
    let static_plan = plan_in("tenant", vec![static_("workers")]);

    assert!(!plan_references_inventory(
        &cluster_plan,
        Some("tenant"),
        "workers",
        InventoryKind::Static
    ));
    assert!(!plan_references_inventory(
        &static_plan,
        Some("tenant"),
        "workers",
        InventoryKind::Cluster
    ));
    assert!(plan_references_inventory(
        &static_plan,
        Some("tenant"),
        "workers",
        InventoryKind::Static
    ));
}

#[test]
fn a_plan_matches_any_of_the_inventories_it_names() {
    let plan = plan_in(
        "tenant",
        vec![
            cluster("controlplanes"),
            cluster("workers"),
            static_("edge"),
        ],
    );

    for name in ["controlplanes", "workers"] {
        assert!(plan_references_inventory(
            &plan,
            Some("tenant"),
            name,
            InventoryKind::Cluster
        ));
    }
    assert!(plan_references_inventory(
        &plan,
        Some("tenant"),
        "edge",
        InventoryKind::Static
    ));
}

fn unreplaced_node() -> Node {
    Node::default()
}

#[test]
fn a_plan_awaits_a_host_whose_node_was_replaced_since_it_applied() {
    let mut converged = host("abc", HostOutcome::Succeeded);
    converged.applied_node_uid = Some("uid-1".into());
    let plan = plan_awaiting("node-a", converged);

    assert!(
        !plan_awaits_node(&plan, &unreplaced_node(), "node-a"),
        "on the machine the record was written about, this plan is converged"
    );
    assert!(
        !plan_awaits_node(&plan, &node_with_uid("uid-1"), "node-a"),
        "a Node with the recorded uid is that same machine"
    );
    assert!(plan_awaits_node(&plan, &node_with_uid("uid-2"), "node-a"));
}

#[test]
fn a_plan_awaits_a_targeted_host_it_has_never_applied_to() {
    let plan = plan_with_status(PlaybookPlanStatus {
        eligible_hosts: eligible(&["node-a", "node-b"]),
        current_hash: "abc".into(),
        hosts_status: None,
        ..Default::default()
    });

    assert!(plan_awaits_node(&plan, &unreplaced_node(), "node-a"));
    assert!(plan_awaits_node(&plan, &unreplaced_node(), "node-b"));
}

#[test]
fn a_plan_does_not_await_a_host_it_does_not_target() {
    let plan = plan_with_status(PlaybookPlanStatus {
        eligible_hosts: eligible(&["node-a"]),
        current_hash: "abc".into(),
        ..Default::default()
    });

    assert!(!plan_awaits_node(&plan, &unreplaced_node(), "node-b"));
}

#[test]
fn a_plan_does_not_await_a_host_already_on_the_current_revision() {
    let plan = plan_with_status(PlaybookPlanStatus {
        eligible_hosts: eligible(&["node-a", "node-b"]),
        current_hash: "abc".into(),
        hosts_status: Some(records(vec![
            (
                "node-a".to_string(),
                HostStatus {
                    last_applied_hash: "abc".into(),
                    ..Default::default()
                },
            ),
            (
                "node-b".to_string(),
                HostStatus {
                    last_applied_hash: "older".into(),
                    ..Default::default()
                },
            ),
        ])),
        ..Default::default()
    });

    assert!(!plan_awaits_node(&plan, &unreplaced_node(), "node-a"));
    assert!(
        plan_awaits_node(&plan, &unreplaced_node(), "node-b"),
        "a host left behind by the current revision is still owed a run"
    );
}

fn host(last_applied_hash: &str, last_outcome: HostOutcome) -> HostStatus {
    HostStatus {
        last_applied_hash: last_applied_hash.into(),
        last_outcome,
        ..Default::default()
    }
}

fn plan_awaiting(node: &str, host_status: HostStatus) -> PlaybookPlan {
    plan_with_status(PlaybookPlanStatus {
        eligible_hosts: eligible(&[node]),
        current_hash: "abc".into(),
        hosts_status: Some(records(vec![(
            node.to_string(),
            host_status,
        )])),
        ..Default::default()
    })
}

#[test]
fn a_plan_does_not_await_a_host_that_was_reached_and_failed() {
    let plan = plan_awaiting("node-a", host("", HostOutcome::Failed));

    assert!(!plan_awaits_node(&plan, &unreplaced_node(), "node-a"));
}

#[test]
fn a_plan_does_not_await_a_host_an_earlier_batch_stopped_the_play_for() {
    let plan = plan_awaiting("node-a", host("", HostOutcome::NotReached));

    assert!(!plan_awaits_node(&plan, &unreplaced_node(), "node-a"));
}

#[test]
fn a_plan_does_not_await_a_host_whose_proxy_failed_on_a_ready_node() {
    let plan = plan_awaiting("node-a", host("", HostOutcome::NotReached));

    assert!(!plan_awaits_node(&plan, &unreplaced_node(), "node-a"));
}

#[test]
fn a_plan_does_not_await_a_host_another_hosts_failure_cut_short() {
    let plan = plan_awaiting("node-a", host("", HostOutcome::Incomplete));

    assert!(!plan_awaits_node(&plan, &unreplaced_node(), "node-a"));
}

#[test]
fn a_plan_awaits_a_host_left_unreachable_by_a_node_that_was_down() {
    let plan = plan_awaiting("node-a", host("", HostOutcome::Unreachable));

    assert!(plan_awaits_node(&plan, &unreplaced_node(), "node-a"));
}

#[test]
fn a_plan_awaits_a_host_whose_recap_could_not_be_read() {
    let plan = plan_awaiting("node-a", host("", HostOutcome::Unknown));

    assert!(plan_awaits_node(&plan, &unreplaced_node(), "node-a"));
}

#[test]
fn a_plan_awaits_a_host_that_succeeded_on_an_older_revision() {
    let plan = plan_awaiting("node-a", host("older", HostOutcome::Succeeded));

    assert!(plan_awaits_node(&plan, &unreplaced_node(), "node-a"));
}

#[test]
fn a_suspended_plan_awaits_nothing() {
    let mut plan = plan_awaiting("node-a", host("", HostOutcome::Unreachable));
    assert!(
        plan_awaits_node(&plan, &unreplaced_node(), "node-a"),
        "the same plan unsuspended is one the watch exists for"
    );

    plan.spec.suspend = true;

    assert!(!plan_awaits_node(&plan, &unreplaced_node(), "node-a"));
}

fn plan_awaiting_with_attempts(
    node: &str,
    host_status: HostStatus,
    retry_count: u32,
) -> PlaybookPlan {
    let mut plan = plan_awaiting(node, host_status);
    plan.spec.max_attempts = Some(3);
    plan.status.as_mut().unwrap().retry_count = retry_count;
    plan
}

#[test]
fn a_plan_with_no_attempts_left_awaits_nothing() {
    for outcome in [HostOutcome::Unreachable, HostOutcome::Unknown] {
        let plan = plan_awaiting_with_attempts("node-a", host("", outcome), 3);

        assert!(
            !plan_awaits_node(&plan, &unreplaced_node(), "node-a"),
            "{outcome:?}: an exhausted budget is not something a Ready Node can restore"
        );
        assert!(
            plan_awaits_node(
                &plan_awaiting_with_attempts("node-a", host("", outcome), 2),
                &unreplaced_node(),
                "node-a"
            ),
            "{outcome:?}: a plan with a try left is exactly what the watch is for"
        );
    }
}

#[test]
fn a_recurring_plan_is_never_woken_by_a_node() {
    for outcome in [HostOutcome::Unreachable, HostOutcome::Unknown] {
        let oneshot = plan_awaiting("node-a", host("", outcome));
        assert!(
            plan_awaits_node(&oneshot, &unreplaced_node(), "node-a"),
            "{outcome:?}: the same plan as OneShot is one the watch exists for"
        );

        let mut recurring = oneshot;
        recurring.spec.mode = ExecutionMode::Recurring;

        assert!(!plan_awaits_node(&recurring, &unreplaced_node(), "node-a"));
    }
}

#[test]
fn a_recurring_plan_is_refused_whatever_its_retry_count() {
    for retry_count in [0, 9] {
        let mut plan = plan_awaiting_with_attempts(
            "node-a",
            host("", HostOutcome::Unreachable),
            retry_count,
        );
        plan.spec.mode = ExecutionMode::Recurring;

        assert!(
            !plan_awaits_node(&plan, &unreplaced_node(), "node-a"),
            "retryCount {retry_count}"
        );
    }
}

#[test]
fn a_plan_without_a_status_awaits_nothing() {
    let plan = plan_in("tenant", Vec::new());

    assert!(!plan_awaits_node(&plan, &unreplaced_node(), "node-a"));
}

#[test]
fn a_node_that_is_not_ready_maps_to_no_plans_without_consulting_the_store() {
    let plan = plan_awaiting("node-a", host("", HostOutcome::Unreachable));
    let plans = [plan];

    assert!(
        node_to_playbookplans(&plans, &node_named("node-a", false)).is_empty(),
        "a Node that is not Ready supplies nothing, whatever the plans want"
    );
    // The same plan and the same Node, so the emptiness above is the readiness check.
    assert_eq!(node_to_playbookplans(&plans, &node_named("node-a", true)).len(), 1);
}

#[test]
fn rotating_an_ssh_key_wakes_the_plan_it_may_have_broken() {
    let plans = vec![plan_using("web", "tenant", "ccu", Phase::Failed)];
    let inventories = vec![static_inventory("ccu", "tenant", "ssh-key")];

    assert_eq!(ssh_secret_to_playbookplans(&plans, &inventories, &secret_named("ssh-key", "tenant")).len(), 1);
}

#[test]
fn rotating_an_ssh_key_does_not_wake_a_plan_that_succeeded() {
    let plans = vec![plan_using("web", "tenant", "ccu", Phase::Succeeded)];
    let inventories = vec![static_inventory("ccu", "tenant", "ssh-key")];

    assert!(ssh_secret_to_playbookplans(&plans, &inventories, &secret_named("ssh-key", "tenant")).is_empty());
}

#[test]
fn an_ssh_key_rotation_stays_inside_its_namespace() {
    let plans = vec![
            plan_using("web", "tenant", "ccu", Phase::Failed),
            plan_using("web", "other", "ccu", Phase::Failed),
        ];
    let inventories = vec![
            static_inventory("ccu", "tenant", "ssh-key"),
            static_inventory("ccu", "other", "ssh-key"),
        ];

    let woken = ssh_secret_to_playbookplans(&plans, &inventories, &secret_named("ssh-key", "tenant"));
    assert_eq!(woken.len(), 1);
    assert_eq!(woken[0].namespace.as_deref(), Some("tenant"));
}

#[test]
fn a_secret_no_inventory_names_wakes_nothing_by_this_route() {
    let plans = vec![plan_using("web", "tenant", "ccu", Phase::Failed)];
    let inventories = vec![static_inventory("ccu", "tenant", "ssh-key")];

    assert!(ssh_secret_to_playbookplans(&plans, &inventories, &secret_named("unrelated", "tenant")).is_empty());
}

#[test]
fn the_secret_watch_asks_both_rules() {
    let mut by_variables = plan_in("tenant", Vec::new());
    by_variables.metadata.name = Some("vars".into());
    by_variables.spec.template.variables =
        Some(vec![PlaybookVariableSource::SecretRef {
            secret_ref: SecretRef {
                name: "ssh-key".into(),
            },
        }]);

    let plans = vec![
            by_variables,
            plan_using("web", "tenant", "ccu", Phase::Failed),
        ];
    let inventories = vec![static_inventory("ccu", "tenant", "ssh-key")];

    let mut woken: Vec<String> = secret_to_affected_playbookplans(&plans, &inventories, &secret_named("ssh-key", "tenant"))
        .into_iter()
        .map(|object_ref| object_ref.name)
        .collect();
    woken.sort();
    assert_eq!(woken, vec!["vars".to_string(), "web".to_string()]);
}

#[test]
fn a_plan_that_names_no_inventory_matches_nothing() {
    let plan = plan_in("tenant", Vec::new());

    assert!(!plan_references_inventory(
        &plan,
        Some("tenant"),
        "workers",
        InventoryKind::Cluster
    ));
}

#[test]
fn an_inventory_wakes_the_plans_that_name_it() {
    let plans = [
        plan_in("tenant", vec![cluster("workers")]),
        plan_in("tenant", vec![static_("workers")]),
        plan_in("other", vec![cluster("workers")]),
    ];
    let inventory = ClusterInventory {
        metadata: secret_named("workers", "tenant"),
        spec: ClusterInventorySpec {
            hosts: Vec::new(),
            tolerations: None,
        },
        status: None,
    };
    let woken = cluster_inventory_to_playbookplans(&plans, &inventory.metadata);
    assert_eq!(woken.len(), 1);
    assert_eq!(woken[0].namespace.as_deref(), Some("tenant"));
    assert_eq!(static_inventory_to_playbookplans(&plans, &inventory.metadata).len(), 1);
    assert_eq!(node_access_policy_to_playbookplans(&plans).len(), 3);
}

#[test]
fn a_secret_wakes_the_plans_that_apply_it() {
    let mut by_file = plan_in("tenant", Vec::new());
    by_file.spec.template.files = Some(vec![FilesSource::Secret {
        name: "configs".into(),
        secret_ref: SecretRef { name: "files".into() },
    }]);
    let plans = [by_file, plan_in("tenant", Vec::new())];
    assert_eq!(secret_to_playbookplans(&plans, &secret_named("files", "tenant")).len(), 1);
    assert!(secret_to_playbookplans(&plans, &secret_named("files", "other")).is_empty());
    assert!(secret_to_playbookplans(&plans, &secret_named("configs", "tenant")).is_empty());
}

#[test]
fn only_a_one_shot_plan_runs_out_of_attempts() {
    assert!(attempt_budget_available(ExecutionMode::OneShot, 2, Some(3)));
    assert!(!attempt_budget_available(ExecutionMode::OneShot, 3, Some(3)));
    assert!(attempt_budget_available(ExecutionMode::OneShot, u32::MAX, None));
    assert!(attempt_budget_available(ExecutionMode::Recurring, 9, Some(3)));
}
