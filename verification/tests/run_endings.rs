use ansible_operator::ansible_inventory::{ResolvedHosts, ResolvedInventoryGroup};
use ansible_operator::execution_evaluator::ExecutionHash;
use ansible_operator::plans::{
    ActiveRun, ExecutionMode, Phase, PlayPhase, PlaybookPlan, PlaybookPlanStatus, Timestamp,
};
use ansible_operator::preparation::preparation_fingerprint;
use ansible_operator::reconciler::{cause_to_start, plan_run, RunContext};
use ansible_operator::recovery::{decide_resume, Resume, UnlaunchedRun};
use ansible_operator::resources::{GenericMap, SecretRef, SshConfig, Toleration};
use ansible_operator::run_finish::{abandon_run, finalize_finished_run, release_lost_run};
use ansible_operator::run_identity::RecordedRun;
use ansible_operator::timing::{delay_seconds, timing_of_slot, Timing};

fn at(seconds: i64) -> Timestamp {
    Timestamp {
        seconds,
        nanos: 0,
        offset_seconds: 0,
    }
}

fn mirror(uid: &str) -> ActiveRun {
    ActiveRun {
        execution_hash: "1a".into(),
        run_id: "abcdefghij".into(),
        job_name: "apply-web-abcdefghij-1".into(),
        play_uid: uid.into(),
        hosts: vec!["a".into()],
        attempt: 1,
        triggered_slot: None,
    }
}

fn run(uid: &str) -> RecordedRun {
    RecordedRun {
        mirror: mirror(uid),
        execution_hash: ExecutionHash(0x1a),
    }
}

fn applying(uid: &str) -> PlaybookPlanStatus {
    PlaybookPlanStatus {
        phase: Phase::Applying,
        current_job_name: Some("apply-web-abcdefghij-1".into()),
        active_run: Some(mirror(uid)),
        retry_count: 1,
        ..Default::default()
    }
}

#[test]
fn an_abandoned_run_is_let_go_of() {
    let mut status = applying("mine");
    abandon_run(&mut status, &run("mine"));
    assert_eq!(status.phase, Phase::Pending);
    assert_eq!(status.active_run, None);
    assert_eq!(status.current_job_name, None);
    assert_eq!(status.retry_count, 1);
    assert_eq!(
        status.summary.as_deref(),
        Some("released the abandoned run apply-web-abcdefghij-1")
    );

    let mut status = applying("another");
    abandon_run(&mut status, &run("mine"));
    assert_eq!(status.phase, Phase::Applying);
    assert_eq!(status.active_run, Some(mirror("another")));
    assert!(status.summary.is_some());
}

#[test]
fn a_lost_run_leaves_its_plan_pending() {
    let mut status = applying("mine");
    release_lost_run(&mut status);
    assert_eq!(
        status,
        PlaybookPlanStatus {
            retry_count: 1,
            phase: Phase::Pending,
            ..Default::default()
        }
    );
}

#[test]
fn a_plan_is_over_with_the_run_it_mirrors() {
    let mut status = applying("mine");
    let requeue = finalize_finished_run(
        &mut status,
        &ExecutionMode::Recurring,
        &run("mine"),
        false,
        Some(at(9)),
        at(5),
    );
    assert_eq!(requeue, Some(delay_seconds(4)));
    assert_eq!(status.phase, Phase::Scheduled);
    assert_eq!(status.active_run, None);
    assert_eq!(status.current_job_name, None);
    assert_eq!(status.summary.as_deref(), Some("0/0 up-to-date"));
}

#[test]
fn a_surviving_attempt_keeps_its_plan_going() {
    for (uid, survives) in [("mine", true), ("another", false)] {
        let mut status = applying(uid);
        let requeue = finalize_finished_run(
            &mut status,
            &ExecutionMode::OneShot,
            &run("mine"),
            survives,
            None,
            at(5),
        );
        assert_eq!(requeue, None);
        assert_eq!(status, applying(uid));
    }
}

#[test]
fn a_slot_is_waited_for_until_it_begins() {
    assert_eq!(timing_of_slot(at(10), at(9)), Timing::Delayed(at(10)));
    assert_eq!(timing_of_slot(at(10), at(10)), Timing::Now(Some(at(10))));
    assert_eq!(timing_of_slot(at(10), at(11)), Timing::Now(Some(at(10))));
}

fn unlaunched(phase: PlayPhase) -> UnlaunchedRun {
    UnlaunchedRun {
        run: run("mine"),
        phase,
        preparation_fingerprint: "f00d".into(),
    }
}

#[test]
fn a_run_is_gone_on_with_only_while_its_plan_wants_it() {
    for phase in [PlayPhase::Prepared, PlayPhase::Starting, PlayPhase::Launching] {
        let found = unlaunched(phase);
        assert_eq!(decide_resume(&found, "f00d", false, false), Resume::Drive);
        assert_eq!(decide_resume(&found, "f00d", true, false), Resume::Abort);
        assert_eq!(decide_resume(&found, "beef", false, false), Resume::Abort);
    }
}

#[test]
fn a_job_that_is_already_there_is_adopted() {
    let launching = unlaunched(PlayPhase::Launching);
    assert_eq!(decide_resume(&launching, "beef", true, true), Resume::Adopt);
    let prepared = unlaunched(PlayPhase::Prepared);
    assert_eq!(decide_resume(&prepared, "beef", false, true), Resume::Abort);
}

fn managed(hosts: &[&str], variables: Option<&str>) -> ResolvedInventoryGroup {
    ResolvedInventoryGroup::ManagedSsh {
        hosts: ResolvedHosts {
            name: "workers".into(),
            hosts: hosts.iter().map(|host| (*host).to_string()).collect(),
            connection: None,
        },
        tolerations: None,
        variables: variables.map(|json| GenericMap { json: json.into() }),
    }
}

#[test]
fn a_run_needs_a_host_an_attempt_and_a_reachable_node() {
    let mut plan = PlaybookPlan::default();
    plan.spec.max_attempts = Some(2);
    let mut status = PlaybookPlanStatus::default();
    let groups = [managed(&["a", "b"], None)];
    let run = plan_run(&mut status, plan.spec.mode, "team", "web", &groups, ExecutionHash(1));
    assert!(cause_to_start(&plan, &status, &run, &[]));
    assert!(cause_to_start(&plan, &status, &run, &["a".into()]));
    assert!(!cause_to_start(&plan, &status, &run, &["a".into(), "b".into()]));
    status.retry_count = 2;
    assert!(!cause_to_start(&plan, &status, &run, &[]));
    status.retry_count = 1;
    let idle = RunContext {
        hosts_to_trigger: Vec::new(),
        ..run
    };
    assert!(!cause_to_start(&plan, &status, &idle, &[]));
}

#[test]
fn the_fingerprint_follows_what_a_run_is_prepared_from() {
    let base = preparation_fingerprint("spec", &[managed(&["a"], None)]);
    assert_eq!(base, preparation_fingerprint("spec", &[managed(&["a"], None)]));
    for other in [
        preparation_fingerprint("another spec", &[managed(&["a"], None)]),
        preparation_fingerprint("spec", &[managed(&["a", "b"], None)]),
        preparation_fingerprint("spec", &[managed(&["b"], None)]),
        preparation_fingerprint("spec", &[managed(&["a"], Some(r#"{"k":1}"#))]),
        preparation_fingerprint("spec", &[]),
    ] {
        assert_ne!(base, other);
    }
}

#[test]
fn variables_no_host_sees_do_not_move_the_fingerprint() {
    let base = preparation_fingerprint("spec", &[managed(&["a"], None)]);
    assert_eq!(base, preparation_fingerprint("spec", &[managed(&["a"], Some("{}"))]));
    assert_eq!(
        preparation_fingerprint("spec", &[managed(&["a"], Some(r#"{"k":1,"l":2}"#))]),
        preparation_fingerprint("spec", &[managed(&["a"], Some(r#"{ "l": 2, "k": 1 }"#))])
    );
}

#[test]
fn how_hosts_are_reached_moves_the_fingerprint() {
    let ssh = |user: &str| ResolvedInventoryGroup::Ssh {
        hosts: ResolvedHosts {
            name: "workers".into(),
            hosts: vec!["a".into()],
            connection: None,
        },
        static_inventory_name: "lab".into(),
        config: SshConfig {
            user: user.into(),
            secret_ref: SecretRef { name: "keys".into() },
        },
        variables: None,
    };
    let tolerant = |seconds: Option<i64>| ResolvedInventoryGroup::ManagedSsh {
        hosts: ResolvedHosts {
            name: "workers".into(),
            hosts: vec!["a".into()],
            connection: None,
        },
        tolerations: Some(vec![Toleration {
            key: Some("taint".into()),
            operator: None,
            value: None,
            effect: None,
            toleration_seconds: seconds,
        }]),
        variables: None,
    };
    let all = [
        preparation_fingerprint("spec", &[ssh("root")]),
        preparation_fingerprint("spec", &[ssh("admin")]),
        preparation_fingerprint("spec", &[tolerant(None)]),
        preparation_fingerprint("spec", &[tolerant(Some(0))]),
        preparation_fingerprint("spec", &[managed(&["a"], None)]),
    ];
    for i in 0..all.len() {
        for j in 0..i {
            assert_ne!(all[i], all[j]);
        }
    }
}
