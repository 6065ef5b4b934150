use ansible_operator::ansible_inventory::ResolvedHosts;
use ansible_operator::departed_hosts::{hosts_status_deletion_patch, prune_departed_hosts};
use ansible_operator::plans::{ActiveRun, HostOutcome, HostStatus, PlaybookPlanStatus};
use ansible_operator::resources::{Node, ObjectMeta};
use ansible_operator::textmap::TextMap;

fn node(name: &str) -> Node {
    Node {
        metadata: ObjectMeta {
            name: Some(name.to_string()),
            ..Default::default()
        },
        ..Default::default()
    }
}

fn status_with(eligible: &[&str], recorded: &[&str]) -> PlaybookPlanStatus {
    let mut hosts_status = TextMap::new();
    for host in recorded {
        hosts_status.insert(
            (*host).to_string(),
            HostStatus {
                last_applied_hash: "abc".into(),
                last_outcome: HostOutcome::Succeeded,
                ..Default::default()
            },
        );
    }
    PlaybookPlanStatus {
        eligible_hosts: vec![ResolvedHosts {
            name: "workers".into(),
            hosts: eligible.iter().map(|host| (*host).to_string()).collect(),
            ..Default::default()
        }],
        hosts_status: Some(hosts_status),
        ..Default::default()
    }
}

fn recorded_hosts(status: &PlaybookPlanStatus) -> Vec<String> {
    match &status.hosts_status {
        Some(hosts) => (0..hosts.len()).map(|i| hosts.entry(i).0.to_string()).collect(),
        None => Vec::new(),
    }
}

#[test]
fn a_host_that_left_the_inventory_and_the_cluster_is_pruned() {
    let mut status = status_with(&["node-w2"], &["node-w1", "node-w2"]);

    let departed = prune_departed_hosts(&[node("node-w2")], &mut status);

    assert_eq!(departed, vec!["node-w1".to_string()]);
    assert_eq!(recorded_hosts(&status), vec!["node-w2".to_string()]);
}

#[test]
fn a_host_clamped_out_of_the_inventory_keeps_its_record() {
    let mut status = status_with(&[], &["node-w1"]);

    let departed = prune_departed_hosts(&[node("node-w1")], &mut status);

    assert!(departed.is_empty());
    assert_eq!(
        status.hosts_status.unwrap().get("node-w1").unwrap().last_applied_hash,
        "abc",
        "the machine is still there, so it is still recorded as current"
    );
}

#[test]
fn a_host_still_in_the_inventory_is_kept_even_without_a_node() {
    let mut status = status_with(&["web.example.com"], &["web.example.com"]);

    let departed = prune_departed_hosts(&[], &mut status);

    assert!(
        departed.is_empty(),
        "a StaticInventory host has no Node and is not departed for want of one"
    );
    assert_eq!(recorded_hosts(&status), vec!["web.example.com".to_string()]);
}

#[test]
fn nothing_is_pruned_while_a_run_is_in_flight() {
    let mut status = status_with(&["node-w2"], &["node-w1", "node-w2"]);
    status.active_run = Some(ActiveRun {
        execution_hash: "abc".into(),
        run_id: "run-1".into(),
        job_name: "apply-web-abc123-1".into(),
        play_uid: "uid".into(),
        hosts: vec!["node-w1".into()],
        attempt: 1,
        triggered_slot: None,
    });

    let departed = prune_departed_hosts(&[], &mut status);

    assert!(departed.is_empty());
    assert_eq!(
        recorded_hosts(&status),
        vec!["node-w1".to_string(), "node-w2".into()]
    );
}

#[test]
fn a_plan_that_never_ran_has_nothing_to_prune() {
    let mut status = PlaybookPlanStatus::default();

    assert!(prune_departed_hosts(&[], &mut status).is_empty());
    assert!(status.hosts_status.is_none());
}

#[test]
fn the_deletion_patch_nulls_each_departed_key() {
    let patch = hosts_status_deletion_patch(&["node-w1".to_string(), "node-w3".to_string()]);

    assert_eq!(
        patch,
        r#"{"status":{"hostsStatus":{"node-w1":null,"node-w3":null}}}"#
    );
}

#[test]
fn the_deletion_patch_is_json_whatever_the_names() {
    let odd = "we\"ird\n";
    let patch = hosts_status_deletion_patch(&["b".into(), odd.to_string(), "b".into()]);
    let value: serde_json::Value = serde_json::from_str(&patch).unwrap();
    let hosts = value["status"]["hostsStatus"].as_object().unwrap();
    assert_eq!(hosts.len(), 2);
    assert!(hosts[odd].is_null());
    assert!(hosts["b"].is_null());
}
