use ansible_operator::ca::{client_principals, CertificateAuthority, KeyMaterial};
use ansible_operator::execution_evaluator::{calculate_execution_hash, ExecutionHash, SecretData};
use ansible_operator::job_builder::create_job_blueprint;
use ansible_operator::labels::{
    COMPONENT, MANAGED_SSH_PROXY_COMPONENT, PLAYBOOKPLAN_HASH, PLAYBOOKPLAN_HOST, RUN_ID,
};
use ansible_operator::managed_ssh::{
    client_cert_secret_name, effective_grace_secs, needs_reset, network_policy_name,
    node_ready_heartbeat_age_secs, proxy_pod_readiness, proxy_pod_selector, proxy_wait_age_secs,
    resource_name, run_selector, PodReadyState, ProxyGracePolicy, ProxyPodInfo, ProxyReadiness,
    ProxySurvey, PROXY_SSH_PORT,
};
use ansible_operator::paths::{
    MANAGED_SSH_CLIENT_CERT_FILENAME, MANAGED_SSH_CLIENT_KEY_FILENAME,
    MANAGED_SSH_KNOWN_HOSTS_FILENAME,
};
use ansible_operator::plans::PlaybookPlan;
use ansible_operator::proxy_objects::{
    build_client_cert_secret, build_network_policy, build_pod, build_secret, client_cert_files,
    merge_default_tolerations, render_enter_host_script, render_sshd_config, run_labels,
    AUTHORIZED_PRINCIPALS_FILENAME, ENTER_HOST_SCRIPT_FILENAME,
    HOST_CERT_FILENAME, HOST_KEY_FILENAME, HOST_PROC_MOUNT_PATH, NODE_NOT_READY_TAINT,
    NODE_UNREACHABLE_TAINT, SFTP_SUBSYSTEM_MARKER, SSHD_CONFIG_MOUNT_PATH,
};
use ansible_operator::resources::{
    LabelMap, Node, NodeCondition, ObjectMeta, OwnerReference, Toleration, MAX_DNS_LABEL_LEN,
    MAX_DNS_SUBDOMAIN_LEN,
};
use ansible_operator::run_identity::RUN_ID_LENGTH;
use ansible_operator::utils::generate_id_with_length;
use ansible_operator::workloads::{
    EgressRule, ObservedPod, PodCondition, PodStatus, SecurityContext,
};

fn label(labels: &LabelMap, key: &str) -> String {
    labels.get(key).cloned().unwrap()
}

fn pod_with(
    phase: Option<&str>,
    ready: bool,
    pod_ip: Option<&str>,
    created_secs: Option<i64>,
) -> ObservedPod {
    ObservedPod {
        metadata: ObjectMeta {
            creation_timestamp: created_secs,
            ..Default::default()
        },
        status: Some(PodStatus {
            phase: phase.map(|p| p.to_string()),
            pod_ip: pod_ip.map(|s| s.to_string()),
            conditions: Some(vec![PodCondition {
                type_: "Ready".to_string(),
                status: if ready { "True" } else { "False" }.to_string(),
            }]),
            container_statuses: None,
        }),
    }
}

fn node_with_ready_heartbeat(heartbeat_secs: Option<i64>) -> Node {
    Node {
        conditions: Some(vec![NodeCondition {
            type_: "Ready".to_string(),
            status: "Unknown".to_string(),
            last_heartbeat_time: heartbeat_secs,
        }]),
        ..Default::default()
    }
}

#[test]
fn attempt_scoped_resource_names_keep_their_shape_and_fit() {
    assert_eq!(
        resource_name("worker-1", "run-a"),
        "ansible-sshd-worker-1-run-a"
    );
    assert_eq!(client_cert_secret_name("run-a"), "managed-ssh-client-run-a");

    // The host is bounded by the label cap (it is also a label value), the whole name by the
    // subdomain cap (it names a Pod and a Secret).
    let run_id = generate_id_with_length(u64::MAX, RUN_ID_LENGTH);
    let name = resource_name(&"n".repeat(MAX_DNS_LABEL_LEN), &run_id);
    assert!(
        name.len() <= MAX_DNS_SUBDOMAIN_LEN,
        "worst-case proxy resource name is {} characters",
        name.len()
    );
}

#[test]
fn run_labels_carry_the_hash_run_id_host_and_component() {
    let hash = calculate_execution_hash("playbook", &[]);
    let labels = run_labels(&hash, "run-1", "worker-1");

    assert_eq!(label(&labels, PLAYBOOKPLAN_HASH), hash.to_text());
    assert_eq!(label(&labels, RUN_ID), "run-1");
    assert_eq!(label(&labels, PLAYBOOKPLAN_HOST), "worker-1");
    assert_eq!(
        label(&labels, COMPONENT),
        MANAGED_SSH_PROXY_COMPONENT
    );
}

#[test]
fn the_proxy_pod_sweep_selector_cannot_match_the_ansible_job_pod() {
    let hash = calculate_execution_hash("playbook", &[]);
    let run_id = "run-1";

    let plan = PlaybookPlan {
        metadata: ObjectMeta {
            name: Some("web".into()),
            namespace: Some("team".into()),
            uid: Some("plan-uid".into()),
            ..Default::default()
        },
        ..Default::default()
    };
    let job = create_job_blueprint(&hash, 1, run_id, &[], &plan).unwrap();
    let job_pod_labels = job.template.metadata.labels;

    // The Job pod does match the hash+run-id part of the selector — that is the whole risk.
    assert_eq!(label(&job_pod_labels, PLAYBOOKPLAN_HASH), hash.to_text());
    assert_eq!(label(&job_pod_labels, RUN_ID), run_id);

    // ...and is spared only because it carries no target-host label.
    assert!(
        job_pod_labels.get(PLAYBOOKPLAN_HOST).is_none(),
        "the ansible Job pod must never carry {}, or cleanup would sweep it",
        PLAYBOOKPLAN_HOST
    );

    // A proxy pod, by contrast, is matched by every part of the selector.
    let proxy = build_pod(
        "ansible-sshd-worker-1-run-1",
        "ansible-sshd-worker-1-run-1",
        &hash,
        run_id,
        "worker-1",
        None,
        "proxy:latest",
    );
    let proxy_labels = &proxy.metadata.labels;
    for key in [
        PLAYBOOKPLAN_HASH,
        RUN_ID,
        PLAYBOOKPLAN_HOST,
    ] {
        assert!(proxy_labels.get(key).is_some(), "proxy pod must carry {key}");
    }
}

#[test]
fn build_pod_pins_the_node_root_privileges_and_targets_its_own_node() {
    let hash = calculate_execution_hash("playbook", &[]);
    let pod = build_pod(
        "ansible-sshd-worker-1-run-1",
        "ansible-sshd-worker-1-run-1",
        &hash,
        "run-1",
        "worker-1",
        None,
        "proxy:latest",
    );
    let spec = &pod.spec;

    // Scheduled onto the exact node it proxies — the pod IS the node's access path. Pinned by
    // `nodeSelector` rather than `nodeName` so normal scheduling (taints, tolerations) still
    // applies; see `merge_default_tolerations`.
    assert_eq!(
        spec.node_selector.get("kubernetes.io/hostname").unwrap(),
        "worker-1"
    );

    // hostPID is required (nsenter needs a host process to enter); the rest must stay off.
    assert!(spec.host_pid);
    assert!(!spec.host_network);
    assert!(!spec.host_ipc);

    let container = &spec.containers[0];
    assert_eq!(container.image, "proxy:latest");
    let Some(SecurityContext::Granted {
        privileged,
        add_capabilities: added,
        ..
    }) = &container.security_context
    else {
        panic!("the proxy asks for its privileges one by one");
    };
    assert_ne!(
        *privileged,
        Some(true),
        "capabilities are granted explicitly, never via blanket privileged"
    );
    assert!(added.contains(&"SYS_ADMIN".to_string()));
    assert!(added.contains(&"SYS_PTRACE".to_string()));
}

#[test]
fn proxy_network_policy_adds_egress_only_when_configured() {
    let hash = calculate_execution_hash("playbook", &[]);
    let ingress_only = build_network_policy("proxy", &hash, "run-1", "plans", None);
    assert_eq!(
        ingress_only.policy_types,
        vec!["Ingress"]
    );

    let with_egress = build_network_policy(
        "proxy",
        &hash,
        "run-1",
        "plans",
        Some(vec![EgressRule::Configured { json: "{}".into() }]),
    );
    assert_eq!(with_egress.policy_types, vec!["Ingress", "Egress"]);
    assert_eq!(with_egress.egress.unwrap().len(), 1);
}

#[test]
fn build_secret_writes_the_run_id_as_the_sole_authorized_principal() {
    let ca = CertificateAuthority::generate().unwrap();
    let hash = calculate_execution_hash("playbook-a", &[]);

    let secret = build_secret(
        "ansible-sshd-worker-1-abc",
        &hash,
        "run-1",
        "worker-1",
        &ca,
        1_700_000_000,
    )
    .unwrap();
    let principals = secret
        .string_data
        .get(AUTHORIZED_PRINCIPALS_FILENAME)
        .expect("proxy secret must carry an authorized_principals file");

    // The file must name exactly this attempt's run ID and nothing else — in particular not "root",
    // which would make every run's client cert authenticate to every proxy.
    assert_eq!(principals.trim(), "run-1");
    assert!(
        !principals.contains("root"),
        "authorized_principals must not contain 'root', or cross-run isolation is void"
    );
}

#[test]
fn sshd_config_forces_the_enter_host_script_and_has_no_pam_directive() {
    let config = render_sshd_config();
    assert!(config.contains(&format!(
        "ForceCommand {SSHD_CONFIG_MOUNT_PATH}/{ENTER_HOST_SCRIPT_FILENAME}"
    )));
    assert!(config.contains("TrustedUserCAKeys"));
    // Per-run principal enforcement: without this line sshd falls back to accepting any cert
    // whose principals include the login user, defeating cross-run isolation.
    assert!(config.contains(&format!(
        "AuthorizedPrincipalsFile {SSHD_CONFIG_MOUNT_PATH}/{AUTHORIZED_PRINCIPALS_FILENAME}"
    )));
    // Required so sshd will actually READ the AuthorizedPrincipalsFile off the Kubernetes Secret
    // mount — under the default `StrictModes yes`, secure_filename refuses the tmpfs/symlinked
    // path and sshd discards the file, denying every login with `Permission denied (publickey)`.
    assert!(config.contains("StrictModes no"));
    // HostCertificate isn't auto-discovered from the HostKey filename — omitting it makes
    // sshd present a bare key, failing host-key verification for `@cert-authority` clients.
    assert!(config.contains(&format!(
        "HostCertificate {SSHD_CONFIG_MOUNT_PATH}/{HOST_CERT_FILENAME}"
    )));
    assert!(!config.contains("ChrootDirectory"));
    assert!(!config.contains("UsePAM"));
    // Without this line sshd rejects the sftp subsystem before ForceCommand ever runs.
    assert!(config.contains(&format!("Subsystem sftp {SFTP_SUBSYSTEM_MARKER}")));
}

#[test]
fn enter_host_script_nsenters_via_host_proc_and_handles_both_command_forms() {
    let script = render_enter_host_script();
    assert!(script.contains(&format!("{HOST_PROC_MOUNT_PATH}/1/ns")));
    // Glued short-option form, not `--mount=`/etc — BusyBox's nsenter doesn't parse the long form.
    assert!(script.contains("-m\"$NS/mnt\""));
    assert!(script.contains("-n\"$NS/net\""));
    assert!(script.contains("-i\"$NS/ipc\""));
    assert!(script.contains("-u\"$NS/uts\""));
    // No `-p`/pid join — hostPID: true on the PodSpec covers this instead.
    assert!(!script.contains("-p\""));
    assert!(script.contains("SSH_ORIGINAL_COMMAND"));
}

#[test]
fn enter_host_script_recognizes_sftp_marker_and_searches_common_server_paths() {
    let script = render_enter_host_script();
    assert!(script.contains(&format!(
        "\"$SSH_ORIGINAL_COMMAND\" = \"{SFTP_SUBSYSTEM_MARKER}\""
    )));
    for candidate in [
        "/usr/lib/openssh/sftp-server",
        "/usr/libexec/openssh/sftp-server",
        "/usr/lib/ssh/sftp-server",
        "/usr/lib/misc/sftp-server",
        "/usr/lib64/misc/sftp-server",
        "/usr/lib64/openssh/sftp-server",
    ] {
        assert!(
            script.contains(candidate),
            "missing candidate path {candidate}"
        );
    }
}

fn toleration(key: &str) -> Toleration {
    Toleration {
        key: Some(key.to_string()),
        operator: Some("Exists".to_string()),
        ..Default::default()
    }
}

#[test]
fn default_tolerations_cover_notready_taints_in_every_effect() {
    let merged = merge_default_tolerations(None);

    for key in [NODE_NOT_READY_TAINT, NODE_UNREACHABLE_TAINT] {
        let t = merged
            .iter()
            .find(|t| t.key.as_deref() == Some(key))
            .unwrap_or_else(|| panic!("missing default toleration for {key}"));
        assert_eq!(t.operator.as_deref(), Some("Exists"));
        // Empty effect is load-bearing: it matches BOTH NoSchedule (needed to *schedule onto* an
        // already-NotReady node) and NoExecute — not just NoExecute like a DaemonSet.
        assert_eq!(t.effect, None, "{key} toleration must not pin an effect");
        assert_eq!(
            t.toleration_seconds, None,
            "{key} must tolerate indefinitely"
        );
    }
}

#[test]
fn user_tolerations_are_merged_and_not_duplicated() {
    let user = vec![
        toleration("node-role.kubernetes.io/control-plane"),
        // A user-supplied not-ready toleration must win — no duplicate default for it.
        toleration(NODE_NOT_READY_TAINT),
    ];
    let merged = merge_default_tolerations(Some(&user));

    assert_eq!(
        merged
            .iter()
            .filter(|t| t.key.as_deref() == Some(NODE_NOT_READY_TAINT))
            .count(),
        1,
        "the user's not-ready toleration must not be duplicated"
    );
    assert!(
        merged
            .iter()
            .any(|t| t.key.as_deref() == Some("node-role.kubernetes.io/control-plane")),
        "user tolerations must be preserved"
    );
    assert!(
        merged
            .iter()
            .any(|t| t.key.as_deref() == Some(NODE_UNREACHABLE_TAINT)),
        "the unreachable default must still be added"
    );
}

#[test]
fn proxy_pod_readiness_classifies_by_ready_ip_and_phase() {
    assert_eq!(
        proxy_pod_readiness(&pod_with(Some("Running"), true, Some("10.0.0.5"), Some(0))),
        PodReadyState::ReadyWithIp("10.0.0.5".to_string())
    );
    // Ready condition true but no IP yet ⇒ not usable; falls through to phase (Running ⇒ wait).
    assert_eq!(
        proxy_pod_readiness(&pod_with(Some("Running"), true, None, Some(0))),
        PodReadyState::Running
    );
    assert_eq!(
        proxy_pod_readiness(&pod_with(Some("Running"), false, None, Some(0))),
        PodReadyState::Running
    );
    assert_eq!(
        proxy_pod_readiness(&pod_with(Some("Pending"), false, None, Some(0))),
        PodReadyState::PreRunning
    );
    assert_eq!(
        proxy_pod_readiness(&pod_with(Some("Unknown"), false, None, Some(0))),
        PodReadyState::PreRunning
    );
    assert_eq!(
        proxy_pod_readiness(&pod_with(None, false, None, Some(0))),
        PodReadyState::PreRunning
    );
}

#[test]
fn a_terminating_proxy_pod_is_never_adopted_even_while_it_still_looks_ready() {
    let mut pod = pod_with(Some("Running"), true, Some("10.0.0.5"), Some(0));
    pod.metadata.deletion_timestamp = Some(0);

    assert_eq!(proxy_pod_readiness(&pod), PodReadyState::Terminating);
}

#[test]
fn terminating_pod_wait_age_starts_at_deletion_not_creation() {
    let mut pod = pod_with(Some("Running"), true, Some("10.0.0.5"), Some(100));
    pod.metadata.deletion_timestamp = Some(900);

    assert_eq!(
        proxy_wait_age_secs(&pod, &PodReadyState::Terminating, 1_000),
        Some(100)
    );
    assert_eq!(
        proxy_wait_age_secs(&pod, &PodReadyState::PreRunning, 1_000),
        Some(900)
    );
    assert_eq!(
        proxy_wait_age_secs(&pod, &PodReadyState::Running, 1_000),
        None
    );
}

#[test]
fn node_heartbeat_age_is_now_minus_last_heartbeat_or_none() {
    let node = node_with_ready_heartbeat(Some(1_000));
    assert_eq!(node_ready_heartbeat_age_secs(&node, 1_300), Some(300));

    // No timestamp on the Ready condition ⇒ None.
    assert_eq!(
        node_ready_heartbeat_age_secs(&node_with_ready_heartbeat(None), 1_300),
        None
    );
    // No status/conditions ⇒ None.
    assert_eq!(node_ready_heartbeat_age_secs(&Node::default(), 1_300), None);
}

fn policy(aggressiveness: u32) -> ProxyGracePolicy {
    ProxyGracePolicy::new(600, aggressiveness, [3, 7, 30])
}

const DAY: i64 = 86_400;

#[test]
fn effective_grace_halves_per_tier_by_default_then_drops_to_zero() {
    let p = policy(2);
    assert_eq!(effective_grace_secs(Some(2 * DAY), &p), 600); // <=3d  → full
    assert_eq!(effective_grace_secs(Some(5 * DAY), &p), 300); // <=7d  → /2
    assert_eq!(effective_grace_secs(Some(20 * DAY), &p), 150); // <=30d → /4
    assert_eq!(effective_grace_secs(Some(40 * DAY), &p), 0); // older → 0
    // Boundary equality lands in the lower (earlier) tier.
    assert_eq!(effective_grace_secs(Some(3 * DAY), &p), 600);
    assert_eq!(effective_grace_secs(Some(7 * DAY), &p), 300);
    // Unknown heartbeat ⇒ conservative full grace.
    assert_eq!(effective_grace_secs(None, &p), 600);
}

#[test]
fn effective_grace_respects_aggressiveness_and_clamps_zero() {
    let p = policy(4);
    assert_eq!(effective_grace_secs(Some(2 * DAY), &p), 600);
    assert_eq!(effective_grace_secs(Some(5 * DAY), &p), 150); // /4
    assert_eq!(effective_grace_secs(Some(20 * DAY), &p), 37); // /16 (integer)

    // aggressiveness 0 is clamped to 1 in `new` — no divide-by-zero, no reduction.
    let flat = policy(0);
    assert_eq!(flat.aggressiveness, 1);
    assert_eq!(effective_grace_secs(Some(5 * DAY), &flat), 600);
    assert_eq!(effective_grace_secs(Some(20 * DAY), &flat), 600);
    assert_eq!(effective_grace_secs(Some(40 * DAY), &flat), 0);
}

#[test]
fn a_survey_waits_until_every_proxy_has_settled() {
    let p = policy(2);
    let now = 10_000;
    let ready = pod_with(Some("Running"), true, Some("10.0.0.5"), Some(now));
    let starting = pod_with(Some("Running"), false, None, Some(0));
    let pending = pod_with(Some("Pending"), false, None, Some(now - 700));
    let fresh = pod_with(Some("Pending"), false, None, Some(now - 10));

    let mut survey = ProxySurvey::new();
    survey.note("a", &ready, None, &p, now);
    survey.note("b", &pending, None, &p, now);
    assert_eq!(
        survey.clone().conclude(),
        ProxyReadiness::Ready {
            ready: vec![ProxyPodInfo {
                host: "a".into(),
                pod_ip: "10.0.0.5".into(),
                port: PROXY_SSH_PORT,
            }],
            unreachable: vec!["b".into()],
        },
        "a proxy that stays pending past its grace is given up"
    );
    survey.note("c", &starting, None, &p, now);
    survey.note("d", &fresh, None, &p, now);
    assert_eq!(
        survey.conclude(),
        ProxyReadiness::Pending {
            waiting: vec!["c".into(), "d".into()],
        },
        "a running proxy is waited for however long it takes"
    );
}

#[test]
fn a_node_silent_past_the_last_tier_is_given_up_at_once() {
    let p = policy(2);
    let now = 100 * DAY;
    let mut survey = ProxySurvey::new();
    survey.note(
        "gone",
        &pod_with(Some("Pending"), false, None, Some(now)),
        Some(&node_with_ready_heartbeat(Some(now - 40 * DAY))),
        &p,
        now,
    );
    assert_eq!(survey.unreachable, ["gone"]);
}

#[test]
fn client_files_are_reset_unless_they_trust_the_current_authority() {
    let files = |known_hosts: &[u8]| {
        let mut files = SecretData::new();
        files.insert(MANAGED_SSH_KNOWN_HOSTS_FILENAME.to_string(), known_hosts.to_vec());
        files
    };
    assert!(!needs_reset(None, "ssh-ed25519 AAAA"));
    assert!(!needs_reset(
        Some(&files(b"@cert-authority * ssh-ed25519 AAAA")),
        "ssh-ed25519 AAAA"
    ));
    assert!(needs_reset(
        Some(&files(b"@cert-authority * ssh-ed25519 BBBB")),
        "ssh-ed25519 AAAA"
    ));
    assert!(needs_reset(Some(&files(b"\xff ssh-ed25519 AAAA")), "ssh-ed25519 AAAA"));
    assert!(needs_reset(Some(&SecretData::new()), "ssh-ed25519 AAAA"));
}

#[test]
fn a_runs_objects_are_found_by_its_selectors() {
    let hash = ExecutionHash(26);
    assert_eq!(
        run_selector(&hash, "run-1"),
        format!("{PLAYBOOKPLAN_HASH}=1a,{RUN_ID}=run-1")
    );
    assert_eq!(
        proxy_pod_selector(&hash, "run-1"),
        format!("{PLAYBOOKPLAN_HASH}=1a,{RUN_ID}=run-1,{PLAYBOOKPLAN_HOST}")
    );
    assert_eq!(network_policy_name("run-1"), "managed-ssh-run-1");
}

#[test]
fn the_client_secret_is_the_runs_and_owned_by_its_plan() {
    assert_eq!(client_principals("run-1"), ["root", "run-1"]);
    let owner = OwnerReference {
        api_version: "v1".into(),
        kind: "PlaybookPlan".into(),
        name: "web".into(),
        uid: "plan-uid".into(),
        controller: None,
    };
    let keys = KeyMaterial {
        private_key: "client key".into(),
        certificate: "client certificate".into(),
        ca_public_key: "ssh-ed25519 AAAA".into(),
    };
    let secret = build_client_cert_secret(
        &ExecutionHash(26),
        "run-1",
        client_cert_files(&keys),
        owner.clone(),
    );
    assert_eq!(secret.metadata.name.unwrap(), client_cert_secret_name("run-1"));
    assert_eq!(secret.metadata.owner_references, [owner]);
    assert_eq!(label(&secret.string_data, MANAGED_SSH_CLIENT_KEY_FILENAME), "client key");
    assert_eq!(
        label(&secret.string_data, MANAGED_SSH_CLIENT_CERT_FILENAME),
        "client certificate"
    );
    assert_eq!(
        label(&secret.string_data, MANAGED_SSH_KNOWN_HOSTS_FILENAME),
        "@cert-authority * ssh-ed25519 AAAA"
    );
    assert!(!needs_reset_of(&secret.string_data));
}

fn needs_reset_of(files: &LabelMap) -> bool {
    let mut data = SecretData::new();
    for i in 0..files.len() {
        let (key, value) = files.entry(i);
        data.insert(key.to_string(), value.as_bytes().to_vec());
    }
    needs_reset(Some(&data), "ssh-ed25519 AAAA")
}

#[test]
fn the_sshd_configuration_is_written_out_in_full() {
    let config = render_sshd_config();
    assert!(config.starts_with("Port 22\n"));
    assert!(config.contains(&format!("HostKey {SSHD_CONFIG_MOUNT_PATH}/{HOST_KEY_FILENAME}\n")));
    assert!(config.ends_with('\n'));
}
