use ansible_operator::ansible_inventory::{ResolvedHosts, ResolvedInventoryGroup};
use ansible_operator::execution_evaluator::ExecutionHash;
use ansible_operator::job_builder::{correlate_job_to_play, create_job_blueprint};
use ansible_operator::plans::{
    ActiveRun, ExecutionMode, HostOutcome, HostStatus, Phase, Play, PlayHostResult, PlayPhase,
    PlaySpec, PlayStatus, PlaybookPlan, PlaybookPlanStatus, Timestamp,
};
use ansible_operator::reconcile_pass::{
    begin_reconcile, Again, Holding, ReconcilePass, ReconcileStep,
};
use ansible_operator::reconciler::{check_admission, Admission};
use ansible_operator::recovery::recover_active_run;
use ansible_operator::resources::{ObjectMeta, OwnerReference, SecretRef, SshConfig};
use ansible_operator::run_finish::trusted_recap;
use ansible_operator::run_identity::RecordedRun;
use ansible_operator::textmap::TextMap;
use ansible_operator::timing::{delay_seconds, Timing};
use ansible_operator::workloads::{ContainerStatus, ObservedPod, PodStatus};

const HASH: ExecutionHash = ExecutionHash(0x1a);

fn at(seconds: i64) -> Timestamp {
    Timestamp {
        seconds,
        nanos: 0,
        offset_seconds: 0,
    }
}

fn plan() -> PlaybookPlan {
    let mut plan = PlaybookPlan {
        metadata: ObjectMeta {
            name: Some("web".into()),
            namespace: Some("team".into()),
            uid: Some("plan-uid".into()),
            ..Default::default()
        },
        ..Default::default()
    };
    plan.spec.mode = ExecutionMode::OneShot;
    plan
}

fn record(name: &str, created: i64, phase: PlayPhase) -> Play {
    Play {
        metadata: ObjectMeta {
            name: Some(name.into()),
            uid: Some(format!("uid-of-{name}")),
            creation_timestamp: Some(created),
            ..Default::default()
        },
        spec: PlaySpec {
            playbook_plan: "web".into(),
            playbook_plan_uid: "plan-uid".into(),
            execution_hash: "1a".into(),
            run_id: "run-1".into(),
            preparation_fingerprint: "fingerprint".into(),
            run_number: 1,
            attempt: 2,
            inventory: Vec::new(),
            triggered_slot: Some(at(created)),
        },
        status: Some(PlayStatus {
            phase,
            ..Default::default()
        }),
    }
}

fn groups(hosts: &[&str]) -> Vec<ResolvedInventoryGroup> {
    vec![ResolvedInventoryGroup::Ssh {
        hosts: ResolvedHosts {
            name: "lab".into(),
            hosts: hosts.iter().map(|host| host.to_string()).collect(),
            connection: None,
        },
        static_inventory_name: "lab".into(),
        config: SshConfig {
            user: "root".into(),
            secret_ref: SecretRef { name: "keys".into() },
        },
        variables: None,
    }]
}

/// A look that has read these records, and pruned what it may.
fn recovered(plan: &PlaybookPlan, plays: &[Play], status: PlaybookPlanStatus) -> ReconcilePass {
    let pass = begin_reconcile(Admission::Admitted, status);
    assert_eq!(pass.step, ReconcileStep::Recover);
    let found = recover_active_run(plays, plan).outcome.unwrap();
    let pass = pass.recovered(found.as_ref(), &[], &None, None);
    if pass.step == ReconcileStep::Prune {
        pass.pruned(true)
    } else {
        pass
    }
}

/// A look that has resolved a plan's inputs, with these hosts.
fn resolved(pass: ReconcilePass, plan: &PlaybookPlan, hosts: &[&str]) -> ReconcilePass {
    pass.resolved(plan, "team", "web", &groups(hosts), HASH, &[])
}

#[test]
fn a_plan_that_is_refused_is_told_so_and_left_alone() {
    let mut gone = plan();
    gone.metadata.deletion_timestamp = Some(1);
    let admission = check_admission(&gone, &[]).unwrap();
    let pass = begin_reconcile(admission, PlaybookPlanStatus::default());
    assert_eq!((pass.step, pass.again), (ReconcileStep::Done, Again::OnChange));

    let admission = check_admission(&plan(), &[]).unwrap();
    let pass = begin_reconcile(admission, PlaybookPlanStatus::default());
    assert_eq!(pass.step, ReconcileStep::Refuse);
    assert_eq!(pass.status.phase, Phase::UnauthorizedNamespace);
    let pass = pass.refused();
    assert_eq!((pass.step, pass.again), (ReconcileStep::Done, Again::OnChange));

    let pass = begin_reconcile(Admission::Refused(None), PlaybookPlanStatus::default());
    assert_eq!(pass.step, ReconcileStep::Done, "it has been told already");
}

#[test]
fn records_that_cannot_be_made_out_fail_the_look_with_every_lock_kept() {
    let pass = begin_reconcile(Admission::Admitted, PlaybookPlanStatus::default());
    let pass = pass.unrecovered("two of them");
    assert_eq!(pass.step, ReconcileStep::KeepContested);
    assert_eq!(pass.status.summary.as_deref(), Some("run recovery failed: two of them"));
    let pass = pass.kept();
    assert_eq!(pass.step, ReconcileStep::ReportFailure);
    assert_eq!(pass.failure_reported().step, ReconcileStep::Failed);
}

#[test]
fn inputs_that_cannot_be_resolved_fail_the_look_with_every_lock_kept() {
    let idle = recovered(&plan(), &[], PlaybookPlanStatus::default());
    assert_eq!(idle.holding, Holding::Nothing);
    assert_eq!(idle.unresolved().step, ReconcileStep::Failed);

    for phase in [PlayPhase::Prepared, PlayPhase::Launching, PlayPhase::Running] {
        let plays = [record("run", 1, phase)];
        let held = recovered(&plan(), &plays, PlaybookPlanStatus::default());
        let held = held.unresolved();
        assert_eq!(held.step, ReconcileStep::KeepLocks);
        assert_eq!(held.kept().step, ReconcileStep::Failed);
    }
}

#[test]
fn an_idle_plan_starts_a_run_and_goes_on_to_look_after_it() {
    let pass = recovered(&plan(), &[], PlaybookPlanStatus::default());
    assert_eq!(pass.step, ReconcileStep::ResolveInputs);
    let pass = resolved(pass, &plan(), &["a", "b"]);
    assert_eq!(pass.step, ReconcileStep::Decide);
    assert_eq!(pass.status.current_hash, "1a");
    assert_eq!(pass.run.as_ref().unwrap().hosts_to_trigger, ["a", "b"]);
    assert_eq!(pass.run.as_ref().unwrap().holder_identity, "team/web/1a");

    let slot = Some(at(60));
    let mut pass = pass.decide(&plan(), &[], Timing::Now(slot), Some(at(120)), at(61));
    assert_eq!(pass.step, ReconcileStep::Start { slot });
    pass.status.phase = Phase::Applying;
    let pass = pass.started(None, &plan());
    assert_eq!(pass.status.last_triggered_run, slot);
    assert_eq!(pass.step, ReconcileStep::Advance);
    let pass = pass.advanced(Some(delay_seconds(15)), &plan());
    assert_eq!(pass.step, ReconcileStep::Report);
    let pass = pass.reported();
    assert_eq!(pass.step, ReconcileStep::Publish);
    let pass = pass.published(0);
    assert_eq!(pass.step, ReconcileStep::Done);
    assert_eq!(pass.again, Again::After(delay_seconds(15)));
}

#[test]
fn a_start_that_waits_uses_no_slot() {
    let pass = resolved(recovered(&plan(), &[], PlaybookPlanStatus::default()), &plan(), &["a"]);
    let pass = pass.decide(&plan(), &[], Timing::Now(Some(at(60))), None, at(61));
    let pass = pass.started(Some(delay_seconds(15)), &plan());
    assert_eq!(pass.step, ReconcileStep::Report, "there is no Job to look after");
    assert_eq!(pass.status.last_triggered_run, None);
    assert_eq!(pass.again, Again::After(delay_seconds(15)));
}

#[test]
fn a_plan_sleeps_until_its_slot() {
    let mut scheduled = plan();
    scheduled.spec.schedule = Some("* * * * *".into());
    let pass = recovered(&scheduled, &[], PlaybookPlanStatus::default());
    let pass = resolved(pass, &scheduled, &["a"]);
    let pass = pass.decide(&scheduled, &[], Timing::Delayed(at(90)), Some(at(90)), at(30));
    assert_eq!(pass.step, ReconcileStep::Report);
    assert_eq!(pass.status.phase, Phase::Scheduled);
    assert_eq!(pass.again, Again::After(delay_seconds(60)));
    let pass = pass.reported().published(3);
    assert_eq!(
        pass.again,
        Again::After(delay_seconds(30)),
        "a label is worth coming back for earlier"
    );
}

#[test]
fn a_label_never_delays_a_look() {
    let pass = resolved(recovered(&plan(), &[], PlaybookPlanStatus::default()), &plan(), &["a"]);
    let pass = pass.decide(&plan(), &[], Timing::Now(None), None, at(0));
    let pass = pass.started(Some(delay_seconds(5)), &plan()).reported().published(1);
    assert_eq!(pass.again, Again::After(delay_seconds(5)));
}

#[test]
fn a_run_in_flight_is_driven_and_no_other_started() {
    for (phase, step, holding) in [
        (PlayPhase::Prepared, ReconcileStep::Resume, Holding::Unlaunched),
        (PlayPhase::Starting, ReconcileStep::Resume, Holding::Unlaunched),
        (PlayPhase::Running, ReconcileStep::Advance, Holding::Active),
    ] {
        let plays = [record("run", 1, phase)];
        // The plan desires another revision by now.
        let status = PlaybookPlanStatus {
            current_hash: "2b".into(),
            ..Default::default()
        };
        let pass = recovered(&plan(), &plays, status);
        assert_eq!(pass.holding, holding);
        assert_eq!(pass.status.phase, Phase::Applying);
        assert_eq!(pass.status.active_run.as_ref().unwrap().job_name, "run");
        let pass = resolved(pass, &plan(), &["a"]);
        let pass = pass.decide(&plan(), &[], Timing::Now(None), None, at(0));
        assert_eq!(pass.step, step);
    }
}

#[test]
fn an_attempt_that_was_gone_on_with_is_looked_after() {
    let plays = [record("run", 1, PlayPhase::Starting)];
    let begin = || {
        let status = PlaybookPlanStatus {
            current_hash: "1a".into(),
            ..Default::default()
        };
        let pass = resolved(recovered(&plan(), &plays, status), &plan(), &["a"]);
        pass.decide(&plan(), &[], Timing::Now(None), None, at(0))
    };
    assert_eq!(begin().resumed(None, &plan()).step, ReconcileStep::Advance);
    let waits = begin().resumed(Some(delay_seconds(5)), &plan());
    assert_eq!(waits.step, ReconcileStep::Report);
    assert_eq!(waits.again, Again::After(delay_seconds(5)));
}

#[test]
fn a_result_is_on_the_plan_before_its_record_is_told() {
    let mut play = record("done", 60, PlayPhase::Succeeded);
    let mut hosts = TextMap::new();
    hosts.insert(
        "a".to_string(),
        PlayHostResult {
            outcome: HostOutcome::Succeeded,
            ..Default::default()
        },
    );
    play.status.as_mut().unwrap().hosts = hosts;
    let plays = [play];
    let status = PlaybookPlanStatus {
        current_hash: "1a".into(),
        phase: Phase::Applying,
        active_run: Some(ActiveRun {
            execution_hash: "1a".into(),
            run_id: "run-1".into(),
            job_name: "done".into(),
            play_uid: "uid-of-done".into(),
            hosts: vec!["a".into()],
            attempt: 2,
            triggered_slot: Some(at(60)),
        }),
        ..Default::default()
    };
    let pass = recovered(&plan(), &plays, status);
    assert_eq!(pass.step, ReconcileStep::Release);
    let kept = pass.status.hosts_status.as_ref().unwrap().get("a").unwrap();
    assert_eq!(kept.last_applied_hash, "1a");

    let found = recover_active_run(&plays, &plan()).outcome.unwrap().unwrap();
    let pass = pass.released(&found, &plan(), None, at(70));
    assert_eq!(pass.step, ReconcileStep::Persist);
    assert_eq!(pass.status.active_run, None);
    assert_eq!(pass.status.phase, Phase::Succeeded);
    let pass = pass.persisted();
    assert_eq!(pass.step, ReconcileStep::Settle);
    let pass = pass.settled();
    assert_eq!(pass.step, ReconcileStep::Prune);
    let pass = pass.pruned(true);
    assert_eq!(pass.step, ReconcileStep::ResolveInputs);

    // The slot of the run is used, so the hosts it left out wait for the next one.
    let pass = resolved(pass, &plan(), &["a", "b"]);
    assert_eq!(pass.status.last_triggered_run, Some(at(60)));
    let pass = pass.decide(&plan(), &[], Timing::Now(Some(at(60))), Some(at(120)), at(71));
    assert_eq!(pass.step, ReconcileStep::Report);
    assert_eq!(pass.again, Again::After(delay_seconds(49)));
}

#[test]
fn a_new_revision_may_use_the_slot_of_a_finished_run() {
    let mut play = record("done", 60, PlayPhase::Failed);
    play.spec.execution_hash = "2b".into();
    let plays = [play];
    let pass = recovered(&plan(), &plays, PlaybookPlanStatus::default());
    let found = recover_active_run(&plays, &plan()).outcome.unwrap().unwrap();
    let pass = pass.released(&found, &plan(), None, at(70)).persisted().settled().pruned(true);
    let pass = resolved(pass, &plan(), &["a"]);
    assert_eq!(pass.status.last_triggered_run, None);
    let slot = Some(at(60));
    let pass = pass.decide(&plan(), &[], Timing::Now(slot), Some(at(120)), at(71));
    assert_eq!(pass.step, ReconcileStep::Start { slot });
}

#[test]
fn an_attempt_behind_a_result_keeps_its_plan_and_its_slot() {
    let plays = [
        record("done", 1, PlayPhase::Failed),
        record("running", 2, PlayPhase::Running),
    ];
    let pass = recovered(&plan(), &plays, PlaybookPlanStatus::default());
    assert_eq!((pass.step, pass.holding), (ReconcileStep::Release, Holding::Survivor));
    let found = recover_active_run(&plays, &plan()).outcome.unwrap().unwrap();
    let pass = pass.released(&found, &plan(), None, at(5));
    assert_eq!(pass.status.phase, Phase::default(), "the plan is not finished");
    let pass = resolved(pass.persisted().settled().pruned(true), &plan(), &["a"]);
    assert_eq!(pass.status.last_triggered_run, Some(at(2)));
    let pass = pass.decide(&plan(), &[], Timing::Now(None), None, at(6));
    assert_eq!(pass.step, ReconcileStep::Report);
    assert_eq!(pass.again, Again::After(delay_seconds(1)));
}

#[test]
fn an_abandoned_run_is_off_the_plan_before_its_record_is_gone() {
    let plays = [record("given-up", 1, PlayPhase::Aborted)];
    let pass = recovered(&plan(), &plays, PlaybookPlanStatus::default());
    assert_eq!(pass.step, ReconcileStep::Release);
    let found = recover_active_run(&plays, &plan()).outcome.unwrap().unwrap();
    let pass = pass.released(&found, &plan(), None, at(5));
    assert_eq!(pass.step, ReconcileStep::Persist);
    assert_eq!(
        pass.status.summary.as_deref(),
        Some("released the abandoned run given-up")
    );
    assert_eq!(pass.persisted().step, ReconcileStep::Settle);
}

#[test]
fn a_result_that_cannot_be_handed_over_is_told_of_on_the_plan() {
    let plays = [record("done", 1, PlayPhase::Failed)];
    let pass = recovered(&plan(), &plays, PlaybookPlanStatus::default());
    let found = recover_active_run(&plays, &plan()).outcome.unwrap().unwrap();
    let pass = pass.unreleased(&found, "the pods are still there");
    assert_eq!(pass.step, ReconcileStep::ReportFailure);
    assert_eq!(
        pass.status.summary.as_deref(),
        Some("run finalization failed: the pods are still there")
    );
    assert_eq!(pass.failure_reported().step, ReconcileStep::Failed);

    let plays = [record("given-up", 1, PlayPhase::Aborted)];
    let pass = recovered(&plan(), &plays, PlaybookPlanStatus::default());
    let found = recover_active_run(&plays, &plan()).outcome.unwrap().unwrap();
    let pass = pass.unreleased(&found, "the pods are still there");
    assert_eq!(pass.step, ReconcileStep::Failed);
    assert_eq!(pass.status.summary, None);
}

#[test]
fn records_that_cannot_be_pruned_are_tried_again_soon() {
    for (complete, seconds) in [(true, 60), (false, 30)] {
        let mut scheduled = plan();
        scheduled.spec.schedule = Some("* * * * *".into());
        let pass = begin_reconcile(Admission::Admitted, PlaybookPlanStatus::default());
        let pass = pass.recovered(None, &[], &None, None);
        assert_eq!(pass.step, ReconcileStep::Prune);
        let pass = pass.pruned(complete);
        assert_eq!(pass.step, ReconcileStep::ResolveInputs, "the look goes on");
        let pass = resolved(pass, &scheduled, &["a"]);
        let pass = pass.decide(&scheduled, &[], Timing::Delayed(at(90)), Some(at(90)), at(30));
        let pass = pass.reported().published(0);
        assert_eq!(pass.again, Again::After(delay_seconds(seconds)));
    }
}

#[test]
fn a_plan_that_says_it_is_applying_is_never_left_alone() {
    let status = PlaybookPlanStatus {
        current_hash: "1a".into(),
        phase: Phase::Applying,
        current_job_name: Some("lost".into()),
        ..Default::default()
    };
    let pass = resolved(recovered(&plan(), &[], status), &plan(), &["a"]);
    let pass = pass.decide(&plan(), &[], Timing::Now(None), None, at(0));
    assert_eq!(pass.step, ReconcileStep::Advance);
    let pass = pass.advanced(None, &plan());
    assert_eq!(pass.again, Again::After(delay_seconds(3600)));
}

#[test]
fn a_suspended_plan_starts_nothing_and_advertises_nothing() {
    let mut suspended = plan();
    suspended.spec.suspend = true;
    let status = PlaybookPlanStatus {
        next_run: Some(at(9)),
        ..Default::default()
    };
    let pass = resolved(recovered(&suspended, &[], status), &suspended, &["a"]);
    let pass = pass.decide(&suspended, &[], Timing::Now(None), None, at(0));
    assert_eq!(pass.step, ReconcileStep::Report);
    assert_eq!(pass.status.next_run, None);
}

#[test]
fn departed_hosts_are_forgotten_behind_the_report() {
    let mut records = TextMap::new();
    records.insert("gone".to_string(), HostStatus::default());
    records.insert("a".to_string(), HostStatus::default());
    let status = PlaybookPlanStatus {
        hosts_status: Some(records),
        ..Default::default()
    };
    let pass = resolved(recovered(&plan(), &[], status), &plan(), &["a"]);
    assert_eq!(pass.departed, ["gone"]);
    assert_eq!(pass.status.hosts_status.as_ref().unwrap().len(), 1);
    let pass = pass.decide(&plan(), &[], Timing::Now(None), None, at(0));
    let pass = pass.started(Some(delay_seconds(5)), &plan()).reported();
    assert_eq!(pass.step, ReconcileStep::ForgetDeparted);
    assert_eq!(pass.forgotten().step, ReconcileStep::Publish);
}

fn pod_of(job_name: &str, job_uid: &str, message: &str) -> ObservedPod {
    ObservedPod {
        metadata: ObjectMeta {
            owner_references: vec![OwnerReference {
                api_version: "batch/v1".into(),
                kind: "Job".into(),
                name: job_name.into(),
                uid: job_uid.into(),
                controller: None,
            }],
            ..Default::default()
        },
        status: Some(PodStatus {
            phase: None,
            pod_ip: None,
            conditions: None,
            container_statuses: Some(vec![ContainerStatus {
                name: "ansible-playbook".into(),
                terminated: Some(Some(message.into())),
            }]),
        }),
    }
}

#[test]
fn only_what_the_runs_own_job_left_is_trusted() {
    let mut job = create_job_blueprint(&HASH, 2, "run-1", &[], &plan()).unwrap();
    correlate_job_to_play(&mut job, "uid-of-run");
    job.metadata.uid = Some("job-uid".into());
    let name = job.metadata.name.clone().unwrap();
    let run = |attempt: u32| RecordedRun {
        mirror: ActiveRun {
            execution_hash: "1a".into(),
            run_id: "run-1".into(),
            job_name: name.clone(),
            play_uid: "uid-of-run".into(),
            hosts: vec!["a".into()],
            attempt,
            triggered_slot: None,
        },
        execution_hash: HASH,
    };
    let own = pod_of(&name, "job-uid", r#"{"a":[1,0,0,0,0,0,0,1]}"#);
    let other = pod_of(&name, "an-earlier-uid", r#"{"a":[0,0,0,1,0,0,0,0]}"#);
    let pods = [other.clone(), own];

    let recap = trusted_recap(Some(&job), &pods, &plan(), &run(2)).unwrap();
    assert!(recap.processed.get("a").unwrap().completed);
    assert_eq!(trusted_recap(Some(&job), &[other], &plan(), &run(2)), None);
    assert_eq!(trusted_recap(Some(&job), &pods, &plan(), &run(3)), None);
    assert_eq!(trusted_recap(None, &pods, &plan(), &run(2)), None);
}
