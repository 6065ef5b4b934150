use ansible_operator::ansible_inventory::{ResolvedHosts, ResolvedInventoryGroup};
use ansible_operator::execution_evaluator::ExecutionHash;
use ansible_operator::job_builder::{correlate_job_to_play, create_job_blueprint};
use ansible_operator::job_names::job_name;
use ansible_operator::locking::BlockedBy;
use ansible_operator::managed_ssh::{ProxyPodInfo, ProxyReadiness, UNREACHABLE_SENTINEL_IP};
use ansible_operator::plans::{
    ActiveRun, ExecutionMode, HostStatus, Phase, Play, PlayPhase, PlaySpec, PlayStatus,
    PlaybookPlan, PlaybookPlanStatus, ReconcileError, Timestamp,
};
use ansible_operator::reconciler::{
    check_admission, conclude, decide_start, note_started, observe_revision, plan_run,
    report_recovery_failure, report_refusal, starting_deadline_seconds, take_up,
    Admission, StartDecision,
};
use ansible_operator::recovery::{recover_active_run, RecoveredRun};
use ansible_operator::resources::ObjectMeta;
use ansible_operator::run_finish::{
    complete_run, decide_advance, decide_terminal, read_recap, termination_message, Advance,
};
use ansible_operator::run_identity::{
    run_id, select_job, terminal_record, RecordedRun, SelectedJob, TerminalRecord,
};
use ansible_operator::run_start::{
    begin_spawn, begin_start, managed_ssh_addresses, SpawnStep, StartStep,
};
use ansible_operator::textmap::TextMap;
use ansible_operator::timing::{delay_seconds, delay_until, Delay, Timing};
use ansible_operator::workloads::{ContainerStatus, ObservedPod, PodStatus};
use std::hash::{Hash as _, Hasher as _};

fn at(seconds: i64) -> Timestamp {
    Timestamp {
        seconds,
        nanos: 0,
        offset_seconds: 0,
    }
}

fn plan() -> PlaybookPlan {
    PlaybookPlan {
        metadata: ObjectMeta {
            name: Some("web".into()),
            namespace: Some("team".into()),
            uid: Some("plan-uid".into()),
            generation: Some(4),
            ..Default::default()
        },
        ..Default::default()
    }
}

fn recurring() -> PlaybookPlan {
    let mut plan = plan();
    plan.spec.mode = ExecutionMode::Recurring;
    plan.spec.schedule = Some("0 3 * * *".into());
    plan
}

fn enrolled() -> Vec<String> {
    vec!["team".into()]
}

fn reason(error: ReconcileError) -> &'static str {
    match error {
        ReconcileError::PreconditionFailed(reason) => reason,
        other => panic!("unexpected {other:?}"),
    }
}

fn group(name: &str, hosts: &[&str]) -> ResolvedInventoryGroup {
    ResolvedInventoryGroup::ManagedSsh {
        hosts: ResolvedHosts {
            name: name.into(),
            hosts: hosts.iter().map(|host| (*host).to_string()).collect(),
            ..Default::default()
        },
        tolerations: None,
        variables: None,
    }
}

fn record(name: &str, created: i64, phase: Option<PlayPhase>) -> Play {
    Play {
        metadata: ObjectMeta {
            name: Some(name.into()),
            uid: Some(format!("uid-of-{name}")),
            creation_timestamp: Some(created),
            ..Default::default()
        },
        spec: PlaySpec {
            playbook_plan: "web".into(),
            playbook_plan_uid: "plan-uid".into(),
            execution_hash: "1a".into(),
            run_id: "run-1".into(),
            preparation_fingerprint: "fingerprint".into(),
            run_number: 1,
            attempt: 2,
            inventory: Vec::new(),
            triggered_slot: Some(at(9)),
        },
        status: phase.map(|phase| PlayStatus {
            phase,
            ..Default::default()
        }),
    }
}

// --- admission -------------------------------------------------------------------------------

#[test]
fn a_plan_is_refused_before_anything_is_done_for_it() {
    assert_eq!(check_admission(&plan(), &enrolled()).unwrap(), Admission::Admitted);

    let mut deleted = plan();
    deleted.metadata.deletion_timestamp = Some(1);
    deleted.metadata.name = None;
    assert_eq!(check_admission(&deleted, &[]).unwrap(), Admission::Deleted);

    let mut unnamed = plan();
    unnamed.metadata.name = None;
    assert_eq!(reason(check_admission(&unnamed, &enrolled()).unwrap_err()), "name not set");
    unnamed.metadata.namespace = None;
    assert_eq!(reason(check_admission(&unnamed, &enrolled()).unwrap_err()), "namespace not set");

    let Admission::Refused(Some(refusal)) = check_admission(&plan(), &[]).unwrap() else {
        panic!("a namespace that is not enrolled is refused");
    };
    assert_eq!(refusal.phase, Phase::UnauthorizedNamespace);
    assert_eq!(
        refusal.summary,
        "namespace 'team' is not enrolled for ansible-operator (not in watchNamespaces); an administrator must enroll it"
    );
    let mut status = PlaybookPlanStatus {
        retry_count: 3,
        ..Default::default()
    };
    report_refusal(&mut status, refusal);
    assert_eq!(status.phase, Phase::UnauthorizedNamespace);
    assert_eq!(status.retry_count, 3);

    let mut reported = plan();
    reported.status = Some(status);
    assert_eq!(
        check_admission(&reported, &[]).unwrap(),
        Admission::Refused(None),
        "what the status already says is not written again"
    );

    let mut long = plan();
    long.metadata.name = Some("a".repeat(64));
    let Admission::Refused(Some(refusal)) = check_admission(&long, &enrolled()).unwrap() else {
        panic!("a name that fits no label is refused");
    };
    assert_eq!(refusal.phase, Phase::Failed);
    assert_eq!(
        refusal.summary,
        "name is 64 characters; a PlaybookPlan name must be at most 63 because it is used as a label value on the objects each run creates. Recreate the plan under a shorter name"
    );
}

#[test]
fn a_failed_recovery_is_put_on_the_plan() {
    let mut status = PlaybookPlanStatus::default();
    report_recovery_failure(&mut status, "no");
    assert_eq!(status.summary.as_deref(), Some("run recovery failed: no"));
    assert_eq!(status.phase, Phase::Pending);
}

// --- what would run --------------------------------------------------------------------------

#[test]
fn a_new_revision_starts_over_and_the_same_one_does_not() {
    let mut status = PlaybookPlanStatus {
        phase: Phase::Failed,
        current_hash: "1a".into(),
        retry_count: 3,
        last_triggered_run: Some(at(5)),
        next_run: Some(at(6)),
        ..Default::default()
    };
    let before = status.clone();
    observe_revision(&mut status, &ExecutionHash(0x1a));
    assert_eq!(status, before);
    observe_revision(&mut status, &ExecutionHash(0x1b));
    assert_eq!(status.phase, Phase::Pending);
    assert_eq!(status.current_hash, "1b");
    assert_eq!(status.retry_count, 0);
    assert_eq!(status.last_triggered_run, None);
    assert_eq!(status.next_run, Some(at(6)));
}

#[test]
fn a_run_targets_what_is_behind_or_everything_by_mode() {
    let mut hosts_status = TextMap::new();
    hosts_status.insert(
        "a".to_string(),
        HostStatus {
            last_applied_hash: "1a".into(),
            ..Default::default()
        },
    );
    let mut status = PlaybookPlanStatus {
        hosts_status: Some(hosts_status),
        ..Default::default()
    };
    let groups = [group("workers", &["a", "b"]), group("current", &["a"])];

    let run = plan_run(
        &mut status,
        ExecutionMode::OneShot,
        "team",
        "web",
        &groups,
        ExecutionHash(0x1a),
    );
    assert_eq!(run.hosts_to_trigger, ["b"]);
    assert_eq!(run.run_groups.len(), 1);
    assert_eq!(run.run_groups[0].hosts().hosts, ["b"]);
    assert_eq!(run.holder_identity, "team/web/1a");
    assert_eq!(status.eligible_hosts.len(), 2);
    assert_eq!(status.current_hash, "1a");

    let run = plan_run(
        &mut status,
        ExecutionMode::Recurring,
        "team",
        "web",
        &groups,
        ExecutionHash(0x1a),
    );
    assert_eq!(run.hosts_to_trigger, ["a", "b"]);
    assert_eq!(run.run_groups.len(), 2);
}

// --- when to start ---------------------------------------------------------------------------

#[test]
fn delays_end_where_the_instant_has_passed() {
    let half = Timestamp {
        nanos: 500_000_000,
        ..at(10)
    };
    assert_eq!(delay_until(at(4), at(10)), Some(delay_seconds(6)));
    assert_eq!(
        delay_until(half, at(12)),
        Some(Delay {
            seconds: 1,
            nanos: 500_000_000,
        })
    );
    assert_eq!(delay_until(at(10), at(10)), Some(delay_seconds(0)));
    assert_eq!(delay_until(half, at(10)), None);
}

#[test]
fn a_plan_starts_when_its_schedule_lets_it() {
    let plan = recurring();
    let mut status = PlaybookPlanStatus::default();
    assert_eq!(
        decide_start(&mut status, &plan, true, Timing::Delayed(at(90)), Some(at(90)), at(30)),
        StartDecision::Sleep(delay_seconds(60))
    );
    assert_eq!(status.phase, Phase::Scheduled);
    assert_eq!(status.next_run, Some(at(90)));

    assert_eq!(
        decide_start(&mut status, &plan, true, Timing::Now(Some(at(90))), Some(at(900)), at(91)),
        StartDecision::Start { slot: Some(at(90)) }
    );
    note_started(&mut status, Some(at(90)));
    assert_eq!(
        decide_start(&mut status, &plan, true, Timing::Now(Some(at(90))), Some(at(900)), at(100)),
        StartDecision::Sleep(delay_seconds(800)),
        "a slot has one run"
    );
    assert_eq!(status.next_run, Some(at(900)));
    assert_eq!(
        decide_start(&mut status, &plan, true, Timing::Now(Some(at(90))), Some(at(95)), at(100)),
        StartDecision::Sleep(delay_seconds(0))
    );
}

#[test]
fn a_plan_that_may_not_start_stays_as_it_is() {
    let now = Timing::Now(None);
    let mut status = PlaybookPlanStatus::default();
    let mut suspended = plan();
    suspended.spec.suspend = true;
    assert_eq!(
        decide_start(&mut status, &suspended, true, now, None, at(0)),
        StartDecision::Stay
    );
    assert_eq!(
        decide_start(&mut status, &plan(), false, now, None, at(0)),
        StartDecision::Stay
    );
    let mut applying = PlaybookPlanStatus {
        phase: Phase::Applying,
        ..Default::default()
    };
    assert_eq!(
        decide_start(&mut applying, &plan(), true, Timing::Delayed(at(5)), None, at(0)),
        StartDecision::Stay
    );
    assert_eq!(
        decide_start(&mut status, &plan(), true, now, None, at(0)),
        StartDecision::Start { slot: None }
    );

    status.next_run = Some(at(7));
    conclude(&mut status, &plan());
    assert_eq!(status.next_run, Some(at(7)));
    conclude(&mut status, &suspended);
    assert_eq!(status.next_run, None, "a suspended plan advertises no run");
}

#[test]
fn a_plan_may_say_how_late_a_run_may_start() {
    let mut plan = plan();
    assert_eq!(starting_deadline_seconds(&plan), 30);
    plan.spec.starting_deadline_seconds = Some(7);
    assert_eq!(starting_deadline_seconds(&plan), 7);
}

// --- recovery --------------------------------------------------------------------------------

#[test]
fn nothing_is_recovered_where_nothing_is_outstanding() {
    let mut told = record("told", 1, Some(PlayPhase::Succeeded));
    told.status.as_mut().unwrap().plan_status_recorded = true;
    let plays = [told];
    let recovery = recover_active_run(&plays, &plan());
    assert!(matches!(recovery.outcome, Ok(None)));
    assert!(recovery.live.is_empty() && recovery.uninitialized.is_empty());
}

#[test]
fn a_result_is_handed_over_before_anything_in_flight() {
    let plays = [
        record("running", 5, Some(PlayPhase::Running)),
        record("newer", 4, Some(PlayPhase::Failed)),
        record("older", 3, Some(PlayPhase::Unknown)),
        record("blank", 2, None),
    ];
    let recovery = recover_active_run(&plays, &plan());
    assert_eq!(recovery.uninitialized.len(), 1);
    assert_eq!(recovery.uninitialized[0].metadata.name.as_deref(), Some("blank"));
    let Ok(Some(RecoveredRun::Finished {
        finished,
        status,
        surviving,
    })) = recovery.outcome
    else {
        panic!("expected the oldest result");
    };
    assert_eq!(finished.mirror.job_name, "older");
    assert_eq!(status.phase, PlayPhase::Unknown);
    let surviving = surviving.unwrap();
    assert_eq!(surviving.execution_hash, "1a");
    assert_eq!(surviving.triggered_slot, Some(at(9)));
}

#[test]
fn a_run_is_taken_up_again_by_the_phase_it_was_found_in() {
    for (phase, adopted) in [
        (PlayPhase::Prepared, true),
        (PlayPhase::Starting, true),
        (PlayPhase::Launching, true),
        (PlayPhase::Running, true),
        (PlayPhase::Aborted, false),
    ] {
        let plays = [record("run", 1, Some(phase))];
        let recovered = recover_active_run(&plays, &plan()).outcome.unwrap().unwrap();
        match &recovered {
            RecoveredRun::Unlaunched(unlaunched) => {
                assert_eq!(unlaunched.phase, phase);
                assert_eq!(unlaunched.preparation_fingerprint, "fingerprint");
            }
            RecoveredRun::Active(_) => assert_eq!(phase, PlayPhase::Running),
            RecoveredRun::Aborted(run) => {
                assert_eq!(phase, PlayPhase::Aborted);
                assert_eq!(run.execution_hash, ExecutionHash(0x1a));
            }
            RecoveredRun::Finished { .. } => panic!("nothing is finished"),
        }
        let mut status = PlaybookPlanStatus {
            current_hash: "1a".into(),
            ..Default::default()
        };
        take_up(&mut status, &recovered);
        assert_eq!(status.phase == Phase::Applying, adopted, "{phase:?}");
        assert_eq!(status.retry_count, if adopted { 2 } else { 0 });
        assert_eq!(
            status.summary.as_deref(),
            if adopted { Some("applying run run") } else { None }
        );
    }
}

#[test]
fn two_runs_in_flight_are_refused_and_both_reported() {
    let plays = [
        record("one", 1, Some(PlayPhase::Running)),
        record("two", 2, Some(PlayPhase::Prepared)),
    ];
    let recovery = recover_active_run(&plays, &plan());
    assert_eq!(recovery.live.len(), 2, "the hosts of each stay locked");
    match recovery.outcome {
        Err(error) => assert_eq!(
            reason(error),
            "more than one Play claims to be this plan's active run"
        ),
        Ok(_) => panic!("neither may be picked"),
    }
}

#[test]
fn a_record_that_describes_no_run_is_an_error() {
    let expectations: [(&str, fn(&mut Play)); 3] = [
        ("active Play has an invalid execution hash", |play| {
            play.spec.execution_hash = "latest".into()
        }),
        ("active Play has no name", |play| play.metadata.name = None),
        ("active Play has no UID", |play| play.metadata.uid = None),
    ];
    for (expected, spoil) in expectations {
        let mut play = record("run", 1, Some(PlayPhase::Running));
        spoil(&mut play);
        let plays = [play];
        match recover_active_run(&plays, &plan()).outcome {
            Err(error) => assert_eq!(reason(error), expected),
            Ok(_) => panic!("{expected}"),
        }
    }
    let mut unplaced = plan();
    unplaced.metadata.namespace = None;
    assert!(recover_active_run(&[], &unplaced).outcome.is_err());
}

#[test]
fn a_mirror_that_was_edited_by_hand_is_refused() {
    let mirror = |hash: &str| ActiveRun {
        execution_hash: hash.into(),
        run_id: "run-1".into(),
        job_name: "apply-web-abc-1".into(),
        play_uid: "play-uid".into(),
        hosts: Vec::new(),
        attempt: 1,
        triggered_slot: None,
    };
    assert_eq!(
        RecordedRun::from_mirror(mirror("1a")).unwrap().execution_hash,
        ExecutionHash(0x1a)
    );
    match RecordedRun::from_mirror(mirror("x")) {
        Err(error) => assert_eq!(reason(error), "run has an invalid execution hash"),
        Ok(_) => panic!("no revision is written there"),
    }
    let play = record("run", 1, Some(PlayPhase::Succeeded));
    assert_eq!(terminal_record(Some(&play), "uid-of-run"), TerminalRecord::Present);
    assert_eq!(terminal_record(Some(&play), "other"), TerminalRecord::Lost);
    assert_eq!(terminal_record(None, "other"), TerminalRecord::Lost);
}

// --- starting --------------------------------------------------------------------------------

#[test]
fn a_run_id_is_the_digest_of_what_it_was_minted_from() {
    let hash = ExecutionHash(0x1a);
    let mut hasher = twox_hash::XxHash3_64::new();
    "plan-uid".to_string().hash(&mut hasher);
    "1a".to_string().hash(&mut hasher);
    7u64.hash(&mut hasher);
    1_786_000_000_123_456_789u128.hash(&mut hasher);
    assert_eq!(
        run_id(&plan(), &hash, 7, 1_786_000_000_123_456_789).unwrap(),
        ansible_operator::utils::generate_id_with_length(hasher.finish(), 10)
    );
    let mut unidentified = plan();
    unidentified.metadata.uid = None;
    assert_eq!(reason(run_id(&unidentified, &hash, 0, 0).unwrap_err()), "uid not set");
}

#[test]
fn the_next_attempt_is_past_every_claim_of_its_plan() {
    let hash = ExecutionHash(0x1a);
    let job = create_job_blueprint(&hash, 5, "run-1", &[], &plan()).unwrap();
    let mut foreign = record("foreign", 1, None);
    foreign.spec.playbook_plan_uid = "other".into();
    foreign.spec.attempt = 90;
    let plays = [record("own", 1, None), foreign];

    let select = |jobs: &[_], retries| select_job(jobs, &plays, hash, &plan(), retries);
    assert_eq!(
        select(&[job.clone()], 0).unwrap(),
        SelectedJob {
            job_name: job_name("web", "plan-uid", &hash, 6),
            attempt: 6,
        }
    );
    assert_eq!(select(&[], 0).unwrap().attempt, 3, "a record reserves its number");
    assert_eq!(select(&[], 8).unwrap().attempt, 9);
    assert_eq!(
        reason(select(&[], u32::MAX).unwrap_err()),
        "run attempt number overflowed"
    );

    for (expected, spoil) in [
        ("name not set", 0),
        ("uid not set", 1),
        ("namespace not set", 2),
    ] {
        let mut plan = plan();
        match spoil {
            0 => plan.metadata.name = None,
            1 => plan.metadata.uid = None,
            _ => plan.metadata.namespace = None,
        }
        assert_eq!(reason(select_job(&[], &[], hash, &plan, 0).unwrap_err()), expected);
    }
}

#[test]
fn unreachable_hosts_are_pointed_nowhere() {
    let ready = [ProxyPodInfo {
        host: "a".into(),
        pod_ip: "10.0.0.5".into(),
        port: 22,
    }];
    let map = managed_ssh_addresses(&ready, &["b".to_string()]);
    assert_eq!(map.len(), 2);
    let a = map.get("a").unwrap();
    assert_eq!((a.pod_ip.as_str(), a.port, a.unreachable), ("10.0.0.5", 22, false));
    let b = map.get("b").unwrap();
    assert_eq!((b.pod_ip.as_str(), b.port, b.unreachable), (UNREACHABLE_SENTINEL_IP, 22, true));
}

#[test]
fn a_start_waits_at_each_step_that_is_not_done() {
    let blocked = BlockedBy {
        host: "a".into(),
        holder: None,
    };
    assert!(matches!(
        begin_start(true, PlayPhase::Prepared).locked(Some(&blocked)),
        Err(delay) if delay == delay_seconds(15)
    ));
    let locked = |phase| begin_start(true, phase).locked(None).ok().unwrap();
    let pass = locked(PlayPhase::Prepared);
    assert_eq!(pass.step, StartStep::CommitStarting);
    let pass = pass.committed_starting();
    assert_eq!((pass.step, pass.phase), (StartStep::EnsureProxies, PlayPhase::Starting));
    let pending = ProxyReadiness::Pending {
        waiting: vec!["a".into()],
    };
    assert!(matches!(pass.proxied(&pending), Err(delay) if delay == delay_seconds(5)));

    let ready = ProxyReadiness::Ready {
        ready: Vec::new(),
        unreachable: vec!["a".into()],
    };
    let mut status = PlaybookPlanStatus::default();
    let pass = locked(PlayPhase::Starting).proxied(&ready).ok().unwrap();
    let pass = pass.checked_workspace(false, true);
    assert_eq!(pass.step, StartStep::RenderWorkspace);
    let pass = pass.rendered(&mut status, &plan());
    assert_eq!(status.last_rendered_generation, Some(4));
    assert_eq!(pass.step, StartStep::ApplyNetworkPolicy);
    let pass = pass.limited();
    assert_eq!(pass.step, StartStep::CommitLaunching);
    let pass = pass.committed_launching();
    assert_eq!((pass.step, pass.phase), (StartStep::SpawnJob, PlayPhase::Launching));
    let pass = pass.spawned().recorded();
    assert_eq!(pass.step, StartStep::Started);
    assert!(pass.addresses.get("a").unwrap().unreachable);

    let open = begin_start(false, PlayPhase::Launching).locked(None).ok().unwrap();
    let open = open.proxied(&ready).ok().unwrap();
    assert_eq!(
        open.checked_workspace(false, false).step,
        StartStep::SpawnJob,
        "a record that has committed to its Job does not commit again"
    );
}

#[test]
fn a_job_is_created_once_and_found_otherwise() {
    let hash = ExecutionHash(0x1a);
    let mut job = create_job_blueprint(&hash, 1, "run-1", &[], &plan()).unwrap();
    correlate_job_to_play(&mut job, "play-uid");
    let begin = || begin_spawn(&job, 1, "play-uid").ok().unwrap();

    let found = begin().found(Some(&job), &plan()).ok().unwrap();
    assert_eq!(found.step, SpawnStep::Spawned);
    let missing = begin().found(None, &plan()).ok().unwrap();
    assert_eq!(missing.step, SpawnStep::Create);
    let raced = missing.created(true);
    assert_eq!(raced.step, SpawnStep::FindAgain);
    assert_eq!(raced.found(Some(&job), &plan()).ok().unwrap().step, SpawnStep::Spawned);
    let created = begin().found(None, &plan()).ok().unwrap().created(false);
    assert_eq!(created.step, SpawnStep::Spawned);

    let mut foreign = job.clone();
    foreign.metadata.owner_references[0].uid = "other".into();
    match begin().found(Some(&foreign), &plan()) {
        Err(error) => assert_eq!(reason(error), "existing Job does not belong to the selected run"),
        Ok(_) => panic!("another plan's Job is not taken"),
    }

    let mut unlabelled = job.clone();
    unlabelled.metadata.labels.remove(ansible_operator::labels::RUN_ID);
    match begin_spawn(&unlabelled, 1, "play-uid") {
        Err(error) => assert_eq!(reason(error), "active Job has no run ID"),
        Ok(_) => panic!("a Job that says no run is not created"),
    }
}

// --- finishing -------------------------------------------------------------------------------

fn pod(statuses: &[(&str, Option<Option<&str>>)]) -> ObservedPod {
    ObservedPod {
        metadata: ObjectMeta::default(),
        status: Some(PodStatus {
            phase: None,
            pod_ip: None,
            conditions: None,
            container_statuses: Some(
                statuses
                    .iter()
                    .map(|(name, terminated)| ContainerStatus {
                        name: (*name).to_string(),
                        terminated: terminated.map(|message| message.map(String::from)),
                    })
                    .collect(),
            ),
        }),
    }
}

#[test]
fn the_recap_is_the_first_message_a_playbook_left() {
    let recap = r#"{"a":[1,0,0,0,0,0,0,1]}"#;
    let sidecar = pod(&[("sidecar", Some(Some("noise")))]);
    let running = pod(&[("ansible-playbook", None)]);
    let silent = pod(&[("ansible-playbook", Some(None)), ("ansible-playbook", Some(Some(recap)))]);
    let done = pod(&[("sidecar", None), ("ansible-playbook", Some(Some(recap)))]);
    let broken = pod(&[("ansible-playbook", Some(Some("{")))]);

    assert_eq!(termination_message(&sidecar), None);
    assert_eq!(termination_message(&silent), None, "the first container of the name decides");
    assert_eq!(termination_message(&done).as_deref(), Some(recap));

    let parsed = read_recap(&[sidecar, running, silent, done.clone()]).unwrap();
    assert!(parsed.processed.get("a").unwrap().completed);
    assert_eq!(read_recap(&[broken, done]), None, "the first message decides");
    assert_eq!(read_recap(&[]), None);
}

#[test]
fn a_run_is_over_when_its_job_is_done_or_gone() {
    let job = create_job_blueprint(&ExecutionHash(1), 1, "run-1", &[], &plan()).unwrap();
    let mut status = PlaybookPlanStatus::default();
    assert_eq!(decide_advance(&status, Some(&job), true), Advance::Stay);
    status.current_job_name = Some("apply".into());
    assert_eq!(
        decide_advance(&status, Some(&job), false),
        Advance::Renew(delay_seconds(15))
    );
    assert_eq!(
        decide_advance(&status, Some(&job), true),
        Advance::Finish {
            job_present: true,
            run_id: "run-1".into(),
        }
    );
    assert_eq!(
        decide_advance(&status, None, false),
        Advance::Finish {
            job_present: false,
            run_id: String::new(),
        }
    );
}

#[test]
fn the_plan_goes_on_by_what_its_hosts_have_reached() {
    let mut hosts_status = TextMap::new();
    hosts_status.insert(
        "a".to_string(),
        HostStatus {
            last_applied_hash: "1a".into(),
            ..Default::default()
        },
    );
    let mut status = PlaybookPlanStatus {
        phase: Phase::Applying,
        eligible_hosts: vec![
            ResolvedHosts {
                name: "one".into(),
                hosts: vec!["a".into(), "b".into()],
                ..Default::default()
            },
            ResolvedHosts {
                name: "two".into(),
                hosts: vec!["b".into()],
                ..Default::default()
            },
        ],
        hosts_status: Some(hosts_status),
        ..Default::default()
    };
    let requeue = complete_run(
        &mut status,
        &ExecutionMode::OneShot,
        &ExecutionHash(0x1a),
        Some(at(9)),
        at(5),
    );
    assert_eq!(requeue, None);
    assert_eq!(status.phase, Phase::Failed);
    assert_eq!(status.summary.as_deref(), Some("1/2 outdated"));
    assert_eq!(status.next_run, None);

    let requeue = complete_run(
        &mut status,
        &ExecutionMode::Recurring,
        &ExecutionHash(0x1a),
        Some(at(9)),
        at(5),
    );
    assert_eq!(requeue, Some(delay_seconds(4)));
    assert_eq!(status.phase, Phase::Scheduled);
    assert_eq!(status.next_run, Some(at(9)));

    let late = decide_terminal(&ExecutionMode::Recurring, Some(at(4)), 0, 2, at(5));
    assert_eq!(late.requeue, None, "a slot that has passed asks for no delay");
    assert_eq!(late.summary, "2/2 up-to-date");
}

#[test]
fn a_host_of_several_groups_counts_once_towards_the_total() {
    let mut hosts_status = TextMap::new();
    for host in ["a", "b", "c"] {
        hosts_status.insert(
            host.to_string(),
            HostStatus {
                last_applied_hash: "1a".into(),
                ..Default::default()
            },
        );
    }
    let listed = |name: &str, hosts: &[&str]| ResolvedHosts {
        name: name.into(),
        hosts: hosts.iter().map(|host| host.to_string()).collect(),
        ..Default::default()
    };
    let mut status = PlaybookPlanStatus {
        phase: Phase::Applying,
        eligible_hosts: vec![listed("workers", &["a", "b"]), listed("storage", &["b", "c"])],
        hosts_status: Some(hosts_status),
        ..Default::default()
    };
    complete_run(
        &mut status,
        &ExecutionMode::OneShot,
        &ExecutionHash(0x1a),
        None,
        at(5),
    );
    assert_eq!(status.phase, Phase::Succeeded);
    assert_eq!(status.summary.as_deref(), Some("3/3 up-to-date"));
}
