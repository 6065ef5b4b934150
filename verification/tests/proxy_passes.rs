use ansible_operator::execution_evaluator::calculate_execution_hash;
use ansible_operator::job_names::job_network_policy_name;
use ansible_operator::json::member;
use ansible_operator::managed_ssh::{
    client_cert_secret_name, network_policy_name, proxy_pod_selector, resource_name, run_selector,
    ProxyGracePolicy, ProxyPodInfo, ProxyReadiness, PROXY_SSH_PORT,
};
use ansible_operator::proxy_pass::{
    cleanup_calls, ensure_proxies, reset_calls, CleanupCall, ProxyCall, ProxyPass, ResetCall,
};
use ansible_operator::resources::{Node, NodeCondition, ObjectMeta};
use ansible_operator::workloads::{ObservedPod, PodCondition, PodStatus};

const NOW: i64 = 10_000_000;
const DAY: i64 = 86_400;

fn pass(hosts: &[&str]) -> ProxyPass {
    let hosts: Vec<String> = hosts.iter().map(|h| h.to_string()).collect();
    ensure_proxies(
        &hosts,
        "run-a",
        ProxyGracePolicy::new(600, 2, [7, 14, 30]),
        NOW,
    )
}

fn pod(phase: &str, ready: bool, ip: Option<&str>, created: i64) -> ObservedPod {
    ObservedPod {
        metadata: ObjectMeta {
            creation_timestamp: Some(created),
            ..Default::default()
        },
        status: Some(PodStatus {
            phase: Some(phase.to_string()),
            pod_ip: ip.map(|s| s.to_string()),
            conditions: Some(vec![PodCondition {
                type_: "Ready".to_string(),
                status: if ready { "True" } else { "False" }.to_string(),
            }]),
            container_statuses: None,
        }),
    }
}

#[test]
fn a_run_without_nodes_creates_nothing() {
    let pass = pass(&[]);
    assert_eq!(pass.call(), None);
    assert_eq!(
        pass.outcome(),
        ProxyReadiness::Ready {
            ready: vec![],
            unreachable: vec![],
        }
    );
}

#[test]
fn a_first_pass_creates_everything_behind_the_policy() {
    let mut pass = pass(&["w-1"]);
    let secret = client_cert_secret_name("run-a");
    let name = resource_name("w-1", "run-a");
    assert_eq!(
        pass.call(),
        Some(ProxyCall::ApplyNetworkPolicy {
            name: network_policy_name("run-a"),
        })
    );
    pass.written();
    assert_eq!(
        pass.call(),
        Some(ProxyCall::ReadClientSecret {
            name: secret.clone(),
        })
    );
    pass.found_secret(false);
    assert_eq!(
        pass.call(),
        Some(ProxyCall::CreateClientSecret { name: secret })
    );
    pass.written();
    assert_eq!(
        pass.call(),
        Some(ProxyCall::ReadHostSecret { name: name.clone() })
    );
    pass.found_secret(false);
    assert_eq!(
        pass.call(),
        Some(ProxyCall::CreateHostSecret { name: name.clone() })
    );
    pass.written();
    assert_eq!(pass.call(), Some(ProxyCall::ReadPod { name: name.clone() }));
    pass.found_pod(None);
    assert_eq!(pass.call(), Some(ProxyCall::CreatePod { name }));
    pass.created_pod(pod("Pending", false, None, NOW));
    assert_eq!(
        pass.call(),
        Some(ProxyCall::ReadNode {
            name: "w-1".to_string(),
        })
    );
    pass.found_node(None);
    assert_eq!(pass.call(), None);
    assert_eq!(
        pass.outcome(),
        ProxyReadiness::Pending {
            waiting: vec!["w-1".to_string()],
        }
    );
}

#[test]
fn a_later_pass_reads_only_and_asks_for_the_node_of_a_silent_host() {
    let mut pass = pass(&["up", "down"]);
    pass.written();
    pass.found_secret(true);
    pass.found_secret(true);
    pass.found_pod(Some(pod("Running", true, Some("10.0.0.5"), NOW - 50)));
    assert_eq!(
        pass.call(),
        Some(ProxyCall::ReadHostSecret {
            name: resource_name("down", "run-a"),
        }),
        "a ready proxy needs no word from its Node"
    );
    pass.found_secret(true);
    pass.found_pod(Some(pod("Pending", false, None, NOW)));
    assert_eq!(
        pass.call(),
        Some(ProxyCall::ReadNode {
            name: "down".to_string(),
        })
    );
    pass.found_node(Some(&Node {
        conditions: Some(vec![NodeCondition {
            type_: "Ready".to_string(),
            status: "Unknown".to_string(),
            last_heartbeat_time: Some(NOW - 40 * DAY),
        }]),
        ..Default::default()
    }));
    assert_eq!(
        pass.outcome(),
        ProxyReadiness::Ready {
            ready: vec![ProxyPodInfo {
                host: "up".to_string(),
                pod_ip: "10.0.0.5".to_string(),
                port: PROXY_SSH_PORT,
            }],
            unreachable: vec!["down".to_string()],
        }
    );
}

#[test]
fn a_finished_pass_holds_each_host_once_and_in_order() {
    let mut pass = pass(&["r-1", "w-1", "u-1", "r-2", "w-2", "u-2"]);
    pass.written();
    pass.found_secret(true);
    for host in ["r-1", "w-1", "u-1", "r-2", "w-2", "u-2"] {
        pass.found_secret(true);
        match &host[..1] {
            "r" => pass.found_pod(Some(pod("Running", true, Some("10.0.0.5"), NOW))),
            "w" => pass.found_pod(Some(pod("Running", false, None, NOW))),
            _ => {
                pass.found_pod(Some(pod("Pending", false, None, NOW)));
                pass.found_node(Some(&Node {
                    conditions: Some(vec![NodeCondition {
                        type_: "Ready".to_string(),
                        status: "Unknown".to_string(),
                        last_heartbeat_time: Some(NOW - 40 * DAY),
                    }]),
                    ..Default::default()
                }));
            }
        }
    }
    assert_eq!(pass.call(), None);
    let ready: Vec<&str> = pass.survey.ready.iter().map(|info| info.host.as_str()).collect();
    assert_eq!(ready, ["r-1", "r-2"]);
    assert_eq!(pass.survey.waiting, ["w-1", "w-2"]);
    assert_eq!(pass.survey.unreachable, ["u-1", "u-2"]);
}

#[test]
fn a_running_proxy_is_waited_for_without_its_node() {
    let mut pass = pass(&["w-1"]);
    pass.written();
    pass.found_secret(true);
    pass.found_secret(true);
    pass.found_pod(Some(pod("Running", false, None, 0)));
    assert_eq!(pass.call(), None);
    assert_eq!(
        pass.outcome(),
        ProxyReadiness::Pending {
            waiting: vec!["w-1".to_string()],
        }
    );
}

#[test]
fn a_reset_ends_with_the_secret_that_shows_it_is_due() {
    let hosts = ["a".to_string(), "b".to_string()];
    assert_eq!(
        reset_calls(&hosts, "run-a"),
        [
            ResetCall::DeletePod {
                name: resource_name("a", "run-a"),
            },
            ResetCall::DeleteHostSecret {
                name: resource_name("a", "run-a"),
            },
            ResetCall::DeletePod {
                name: resource_name("b", "run-a"),
            },
            ResetCall::DeleteHostSecret {
                name: resource_name("b", "run-a"),
            },
            ResetCall::DeleteClientSecret {
                name: client_cert_secret_name("run-a"),
            },
        ]
    );
}

#[test]
fn a_runs_end_takes_its_pods_first_and_its_jobs_policy_by_name() {
    let hash = calculate_execution_hash("playbook", &[]);
    assert_eq!(
        cleanup_calls(&hash, "run-a", "web"),
        [
            CleanupCall::DeletePods {
                selector: proxy_pod_selector(&hash, "run-a"),
            },
            CleanupCall::DeleteHostSecrets {
                selector: run_selector(&hash, "run-a"),
            },
            CleanupCall::DeleteNetworkPolicies {
                selector: run_selector(&hash, "run-a"),
            },
            CleanupCall::DeleteJobNetworkPolicy {
                name: job_network_policy_name("web", &hash),
            },
            CleanupCall::DeleteClientSecret {
                name: client_cert_secret_name("run-a"),
            },
        ]
    );
}

#[test]
fn json_members_are_quoted_and_escaped() {
    assert_eq!(member("k", None), "\"k\":null");
    assert_eq!(
        member("a/b", Some("\"\\\u{8}\t\n\u{c}\r\u{1f}\u{7f}\u{e9}")),
        "\"a/b\":\"\\\"\\\\\\b\\t\\n\\f\\r\\u001f\u{7f}\u{e9}\""
    );
}
