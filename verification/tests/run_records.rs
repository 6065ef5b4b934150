use ansible_operator::ansible_inventory::ResolvedHosts;
use ansible_operator::callback_output::{CallbackOutput, HostStats};
use ansible_operator::execution_evaluator::ExecutionHash;
use ansible_operator::labels::PLAYBOOKPLAN_NAME;
use ansible_operator::plans::{
    HostOutcome, Play, PlayPhase, PlayRecap, PlaySpec, PlayStatus, PlaybookPlan, ReconcileError,
    Timestamp,
};
use ansible_operator::play_history::{
    abort_unlaunched, acknowledge_finished, build_play, claim_record, commit_launching,
    commit_starting, decide_transition, delete_aborted, delete_uninitialized, effective_limits,
    existing_owner_matches, is_unlaunched, lost_run_status, needs_recovery, play_is_terminal,
    plays_to_prune, prepared_status, recap_fits, record_finished, record_prepared, record_running,
    retries_after_conflict, same_run_record, sum_recap, terminal_status, verify_play_uid,
    GuardedDelete, PlayRef,
};
use ansible_operator::resources::ObjectMeta;

fn at(seconds: i64) -> Timestamp {
    Timestamp {
        seconds,
        nanos: 0,
        offset_seconds: 0,
    }
}

fn named(name: &str) -> Play {
    Play {
        metadata: ObjectMeta {
            name: Some(name.into()),
            ..Default::default()
        },
        spec: PlaySpec::default(),
        status: None,
    }
}

fn output(entries: &[(&str, HostStats)]) -> CallbackOutput {
    let mut output = CallbackOutput::default();
    for (host, stats) in entries {
        output.processed.insert((*host).to_string(), *stats);
    }
    output
}

fn plan(name: &str, uid: &str) -> PlaybookPlan {
    PlaybookPlan {
        metadata: ObjectMeta {
            name: Some(name.into()),
            namespace: Some("team".into()),
            uid: Some(uid.into()),
            ..Default::default()
        },
        ..Default::default()
    }
}

fn hash() -> ExecutionHash {
    ExecutionHash(1)
}

fn recorded_play(name: &str, created: i64, phase: PlayPhase) -> Play {
    let mut play = named(name);
    play.metadata.creation_timestamp = Some(created);
    play.status = Some(PlayStatus {
        phase,
        plan_status_recorded: true,
        ..Default::default()
    });
    play
}

fn play_ref<'a>(
    plan: &'a PlaybookPlan,
    hash: &'a ExecutionHash,
    run_id: &'a str,
    fingerprint: &'a str,
    run_number: u32,
    inventory: &'a [ResolvedHosts],
) -> PlayRef<'a> {
    PlayRef {
        plan,
        job_name: "apply-web-abc-1",
        hash,
        run_id,
        preparation_fingerprint: fingerprint,
        run_number,
        attempt: 1,
        inventory,
        triggered_slot: None,
    }
}

#[test]
fn build_play_records_the_identity_recovery_reads_back() {
    let plan = plan("web", "plan-uid");
    let hash = hash();
    let inventory = vec![ResolvedHosts {
        name: "nodes".into(),
        hosts: vec!["a".into(), "b".into()],
        ..Default::default()
    }];
    let built = build_play(&play_ref(&plan, &hash, "run-1", "fp-1", 3, &inventory)).unwrap();

    assert_eq!(built.metadata.name.as_deref(), Some("apply-web-abc-1"));
    assert_eq!(built.spec.playbook_plan, "web");
    assert_eq!(built.spec.playbook_plan_uid, "plan-uid");
    assert_eq!(built.spec.run_id, "run-1");
    assert_eq!(built.spec.preparation_fingerprint, "fp-1");
    assert_eq!(built.spec.run_number, 3);
    assert_eq!(built.spec.attempt, 1);
    assert_eq!(built.spec.inventory, inventory);

    // The plan-name label is what `prune` and the recovery scan list on.
    assert_eq!(built.metadata.labels.get(PLAYBOOKPLAN_NAME).unwrap(), "web");

    // The owner reference is what makes the record cascade with its plan.
    let owner = &built.metadata.owner_references[0];
    assert_eq!(owner.kind, "PlaybookPlan");
    assert_eq!(owner.uid, "plan-uid");

    // A create never persists a status; `record_prepared` initializes it separately.
    assert!(built.status.is_none());
}

#[test]
fn same_run_record_accepts_only_this_runs_identity() {
    let hash = hash();
    let inventory = vec![ResolvedHosts {
        name: "nodes".into(),
        hosts: vec!["a".into()],
        ..Default::default()
    }];
    let build = |run_id: &str, fp: &str, run_number: u32, uid: &str| {
        let plan = plan("web", uid);
        build_play(&play_ref(&plan, &hash, run_id, fp, run_number, &inventory)).unwrap()
    };

    let desired = build("run-1", "fp-1", 1, "plan-uid");
    assert!(same_run_record(
        &build("run-1", "fp-1", 1, "plan-uid"),
        &desired
    ));

    // A different run of the same plan: same name is possible after an abort freed the
    // number, but the run ID never repeats.
    assert!(!same_run_record(
        &build("run-2", "fp-1", 1, "plan-uid"),
        &desired
    ));
    // A different revision that happens to reuse the run number.
    assert!(!same_run_record(
        &build("run-1", "fp-2", 1, "plan-uid"),
        &desired
    ));
    assert!(!same_run_record(
        &build("run-1", "fp-1", 2, "plan-uid"),
        &desired
    ));
    // A plan deleted and recreated under the same name must not adopt the old record.
    assert!(!same_run_record(
        &build("run-1", "fp-1", 1, "other-uid"),
        &desired
    ));

    // Fields outside the identity do not take part in it.
    let mut normalized = build("run-1", "fp-1", 1, "plan-uid");
    normalized.spec.inventory = Vec::new();
    assert!(
        same_run_record(&normalized, &desired),
        "identity, not the whole spec, decides adoption"
    );
}

#[test]
fn existing_owner_matches_requires_the_same_owning_plan_instance() {
    let plan_a = plan("web", "uid-a");
    let plan_b = plan("web", "uid-b");
    let hash = hash();
    let make =
        |p: &PlaybookPlan| build_play(&play_ref(p, &hash, "run-1", "fp", 1, &[])).unwrap();

    let desired = make(&plan_a);
    assert!(existing_owner_matches(&make(&plan_a), &desired));
    assert!(
        !existing_owner_matches(&make(&plan_b), &desired),
        "same plan name, recreated with a new UID, is a different owner"
    );

    let mut ownerless = make(&plan_a);
    ownerless.metadata.owner_references = Vec::new();
    assert!(!existing_owner_matches(&ownerless, &desired));
}

#[test]
fn prepared_status_starts_a_record_at_prepared_with_its_host_count() {
    let plan = plan("web", "uid");
    let hash = hash();
    let inventory = vec![ResolvedHosts {
        name: "nodes".into(),
        hosts: vec!["a".into(), "b".into(), "c".into()],
        ..Default::default()
    }];

    let status = prepared_status(&play_ref(&plan, &hash, "run-1", "fp", 1, &inventory));

    assert_eq!(status.phase, PlayPhase::Prepared);
    assert_eq!(status.job_name.as_deref(), Some("apply-web-abc-1"));
    assert_eq!(status.host_count, 3);
    assert!(
        !status.plan_status_recorded,
        "a prepared run has no result to acknowledge"
    );
}

#[test]
fn lost_run_status_reports_every_targeted_host_unknown() {
    let hosts = vec!["a".to_string(), "b".to_string()];

    let status = lost_run_status("apply-web-abc-1", &hosts, at(0));

    assert_eq!(status.phase, PlayPhase::Unknown);
    assert_eq!(status.host_count, 2);
    assert_eq!(status.failed_host_count, 2);
    assert_eq!(status.hosts.get("a").unwrap().outcome, HostOutcome::Unknown);
    assert_eq!(status.hosts.get("b").unwrap().outcome, HostOutcome::Unknown);
    assert!(
        !status.plan_status_recorded,
        "the plan has not been told about this yet"
    );
}

#[test]
fn play_is_terminal_covers_finished_results_but_not_aborted_or_in_flight() {
    let in_phase = |phase: &PlayPhase| {
        let mut play = named("run");
        play.status = Some(PlayStatus {
            phase: *phase,
            ..Default::default()
        });
        play
    };

    for phase in [PlayPhase::Succeeded, PlayPhase::Failed, PlayPhase::Unknown] {
        assert!(play_is_terminal(&in_phase(&phase)), "{phase:?} is a result");
    }
    for phase in [
        PlayPhase::Prepared,
        PlayPhase::Starting,
        PlayPhase::Launching,
        PlayPhase::Running,
        PlayPhase::Aborted,
    ] {
        assert!(!play_is_terminal(&in_phase(&phase)), "{phase:?} is not a result");
    }

    assert!(!play_is_terminal(&named("run")));
}

#[test]
fn verify_play_uid_rejects_a_different_or_missing_object() {
    let mut play = named("run");
    play.metadata.uid = Some("uid-1".into());

    assert!(verify_play_uid(&play, "uid-1").is_ok());
    assert!(verify_play_uid(&play, "uid-2").is_err());

    play.metadata.uid = None;
    assert!(verify_play_uid(&play, "uid-1").is_err());
}

#[test]
fn sum_recap_totals_across_hosts_and_is_zero_without_a_recap() {
    let out = output(&[
        (
            "a",
            HostStats {
                ok: 2,
                changed: 1,
                ..Default::default()
            },
        ),
        (
            "b",
            HostStats {
                ok: 3,
                failed: 1,
                ..Default::default()
            },
        ),
    ]);

    let recap = sum_recap(Some(&out));
    assert_eq!(recap.ok, 5);
    assert_eq!(recap.changed, 1);
    assert_eq!(recap.failed, 1);

    assert_eq!(sum_recap(None), PlayRecap::default());
}

#[test]
fn terminal_status_phase_reflects_host_outcomes() {
    let hosts = vec!["a".to_string(), "b".to_string()];

    // All present and clean -> Succeeded.
    let clean = output(&[
        (
            "a",
            HostStats {
                ok: 1,
                ..Default::default()
            },
        ),
        (
            "b",
            HostStats {
                ok: 1,
                ..Default::default()
            },
        ),
    ]);
    let s = terminal_status("job", &hosts, Some(&clean), at(0));
    assert_eq!(s.phase, PlayPhase::Succeeded);
    assert_eq!(s.failed_host_count, 0);

    // One failed host -> Failed.
    let bad = output(&[
        (
            "a",
            HostStats {
                ok: 1,
                ..Default::default()
            },
        ),
        (
            "b",
            HostStats {
                failed: 1,
                ..Default::default()
            },
        ),
    ]);
    let s = terminal_status("job", &hosts, Some(&bad), at(0));
    assert_eq!(s.phase, PlayPhase::Failed);
    assert_eq!(s.failed_host_count, 1);
    assert_eq!(s.hosts.get("b").unwrap().outcome, HostOutcome::Failed);

    // A targeted host missing from the recap -> NotReached, and the run is Failed.
    let partial = output(&[(
        "a",
        HostStats {
            ok: 1,
            ..Default::default()
        },
    )]);
    let s = terminal_status("job", &hosts, Some(&partial), at(0));
    assert_eq!(s.phase, PlayPhase::Failed);
    assert_eq!(s.hosts.get("b").unwrap().outcome, HostOutcome::NotReached);

    // No recap at all -> Unknown for the run and every host.
    let s = terminal_status("job", &hosts, None, at(0));
    assert_eq!(s.phase, PlayPhase::Unknown);
    assert_eq!(s.hosts.get("a").unwrap().outcome, HostOutcome::Unknown);
    assert_eq!(s.failed_host_count, 2);
}

#[test]
fn terminal_status_counts_a_host_listed_by_two_groups_once() {
    let hosts = vec!["a".to_string(), "a".to_string(), "b".to_string()];
    let clean = output(&[
        (
            "a",
            HostStats {
                ok: 1,
                ..Default::default()
            },
        ),
        (
            "b",
            HostStats {
                ok: 1,
                ..Default::default()
            },
        ),
    ]);

    let status = terminal_status("job", &hosts, Some(&clean), at(0));

    assert_eq!(status.phase, PlayPhase::Succeeded);
    assert_eq!(status.host_count, 2);
    assert_eq!(status.failed_host_count, 0);
}

#[test]
fn a_transition_is_idempotent_but_rejects_a_record_that_moved_elsewhere() {
    let in_phase = |phase: PlayPhase| PlayStatus {
        phase,
        ..Default::default()
    };

    // The expected phase -> advance.
    let advanced = decide_transition(
        &in_phase(PlayPhase::Prepared),
        &PlayPhase::Prepared,
        PlayPhase::Starting,
    )
    .unwrap()
    .expect("a pending transition must produce a status to write");
    assert_eq!(advanced.phase, PlayPhase::Starting);

    // Already there -> nothing to write, and not an error.
    assert!(
        decide_transition(
            &in_phase(PlayPhase::Starting),
            &PlayPhase::Prepared,
            PlayPhase::Starting
        )
        .unwrap()
        .is_none()
    );

    // Somewhere else entirely -> refuse.
    assert!(
        decide_transition(
            &in_phase(PlayPhase::Running),
            &PlayPhase::Prepared,
            PlayPhase::Starting
        )
        .is_err()
    );

    // An abort cannot resurrect a run that already finished.
    assert!(
        decide_transition(
            &in_phase(PlayPhase::Succeeded),
            &PlayPhase::Starting,
            PlayPhase::Aborted
        )
        .is_err()
    );
}

#[test]
fn only_a_phase_without_a_job_counts_as_unlaunched() {
    for phase in [
        PlayPhase::Prepared,
        PlayPhase::Starting,
        PlayPhase::Launching,
    ] {
        assert!(is_unlaunched(&phase), "{phase:?} has no Job yet");
    }
    for phase in [
        PlayPhase::Running,
        PlayPhase::Succeeded,
        PlayPhase::Failed,
        PlayPhase::Unknown,
        PlayPhase::Aborted,
    ] {
        assert!(!is_unlaunched(&phase), "{phase:?} must not be abortable");
    }
}

#[test]
fn plays_to_prune_keeps_newest_per_bucket_and_never_prunes_running() {
    let plays = vec![
        recorded_play("s-old", 100, PlayPhase::Succeeded),
        recorded_play("s-mid", 200, PlayPhase::Succeeded),
        recorded_play("s-new", 300, PlayPhase::Succeeded),
        recorded_play("f-old", 100, PlayPhase::Failed),
        recorded_play("u-mid", 150, PlayPhase::Unknown),
        recorded_play("running", 500, PlayPhase::Running),
    ];

    let names: Vec<String> = plays_to_prune(&plays, 1, 1)
        .iter()
        .map(|p| p.metadata.name.clone().unwrap())
        .collect();

    // Success bucket keeps s-new -> prunes s-mid, s-old. Failed bucket {f-old, u-mid} keeps the
    // newest (u-mid) -> prunes f-old. Running is never pruned.
    assert_eq!(
        names,
        vec![
            "s-mid".to_string(),
            "s-old".to_string(),
            "f-old".to_string()
        ]
    );

    // Within limits -> nothing pruned.
    assert!(plays_to_prune(&plays, 10, 10).is_empty());
}

#[test]
fn plays_to_prune_never_prunes_a_terminal_result_the_plan_has_not_recorded() {
    let mut unacknowledged = recorded_play("s-new", 300, PlayPhase::Succeeded);
    unacknowledged.status.as_mut().unwrap().plan_status_recorded = false;

    let plays = vec![
        recorded_play("s-old", 100, PlayPhase::Succeeded),
        unacknowledged,
    ];

    let names: Vec<String> = plays_to_prune(&plays, 0, 0)
        .iter()
        .map(|p| p.metadata.name.clone().unwrap())
        .collect();

    assert_eq!(
        names,
        vec!["s-old".to_string()],
        "only the acknowledged record may be pruned, even at a zero limit"
    );
}

#[test]
fn acknowledged_terminal_result_is_prunable_at_zero_limit() {
    let plays = vec![recorded_play("s-old", 100, PlayPhase::Succeeded)];

    let names: Vec<String> = plays_to_prune(&plays, 0, 0)
        .iter()
        .map(|play| play.metadata.name.clone().unwrap())
        .collect();

    assert_eq!(names, vec!["s-old"]);
}

#[test]
fn plays_to_prune_never_prunes_an_aborted_run_awaiting_cleanup() {
    let plays = vec![recorded_play("aborted", 100, PlayPhase::Aborted)];

    assert!(plays_to_prune(&plays, 0, 0).is_empty());
}

#[test]
fn terminal_recovery_uses_status_acknowledgement_and_retention_can_follow() {
    let mut play = named("run");
    play.status = Some(PlayStatus {
        phase: PlayPhase::Succeeded,
        plan_status_recorded: false,
        ..Default::default()
    });

    assert!(needs_recovery(&play));
    play.status.as_mut().unwrap().plan_status_recorded = true;
    assert!(!needs_recovery(&play));

    let names: Vec<String> = plays_to_prune(&[play], 0, 0)
        .iter()
        .map(|play| play.metadata.name.clone().unwrap())
        .collect();
    assert_eq!(names, vec!["run"]);
}

fn refused(error: ReconcileError) -> &'static str {
    match error {
        ReconcileError::PreconditionFailed(reason) => reason,
        other => panic!("unexpected {other:?}"),
    }
}

fn tracked_play(phase: PlayPhase) -> Play {
    let mut play = recorded_play("apply-web-abc-1", 100, phase);
    play.metadata.uid = Some("play-uid".into());
    play.metadata.resource_version = Some("7".into());
    play.status.as_mut().unwrap().plan_status_recorded = false;
    play
}

#[test]
fn a_run_walks_from_prepared_to_running_one_step_at_a_time() {
    let steps = [
        (PlayPhase::Prepared, PlayPhase::Starting),
        (PlayPhase::Starting, PlayPhase::Launching),
        (PlayPhase::Launching, PlayPhase::Running),
    ];
    for (from, to) in steps {
        let play = tracked_play(from);
        let written = match from {
            PlayPhase::Prepared => commit_starting(&play, "play-uid"),
            PlayPhase::Starting => commit_launching(&play, "play-uid"),
            _ => record_running(&play, "play-uid"),
        };
        assert_eq!(written.unwrap().unwrap().phase, to);
    }
    assert_eq!(
        refused(record_running(&tracked_play(PlayPhase::Prepared), "play-uid").unwrap_err()),
        "Play is not committed to start"
    );
    assert_eq!(
        refused(commit_starting(&tracked_play(PlayPhase::Running), "play-uid").unwrap_err()),
        "Play phase changed before transition"
    );
    assert_eq!(
        refused(commit_starting(&tracked_play(PlayPhase::Prepared), "other").unwrap_err()),
        "Play UID changed"
    );
    assert_eq!(refused(commit_starting(&{
        let mut play = tracked_play(PlayPhase::Prepared);
        play.status = None;
        play
    }, "play-uid").unwrap_err()), "Play has no status");
    assert_eq!(refused(record_running(&{
        let mut play = tracked_play(PlayPhase::Prepared);
        play.status = None;
        play
    }, "play-uid").unwrap_err()), "prepared Play has no status");
}

#[test]
fn a_launched_run_cannot_be_given_up() {
    let aborted = abort_unlaunched(&tracked_play(PlayPhase::Launching), "play-uid", PlayPhase::Launching);
    assert_eq!(aborted.unwrap().unwrap().phase, PlayPhase::Aborted);
    assert_eq!(
        refused(
            abort_unlaunched(&tracked_play(PlayPhase::Running), "play-uid", PlayPhase::Running)
                .unwrap_err()
        ),
        "only an unlaunched Play can be aborted"
    );
    assert!(
        abort_unlaunched(&tracked_play(PlayPhase::Running), "play-uid", PlayPhase::Prepared).is_err()
    );
}

#[test]
fn a_record_is_claimed_only_by_its_own_run() {
    let plan = plan("web", "plan-uid");
    let hash = hash();
    let reference = play_ref(&plan, &hash, "run-1", "fp", 1, &[]);
    let own = build_play(&reference).unwrap();
    let other = build_play(&play_ref(&plan, &hash, "run-2", "fp", 1, &[])).unwrap();
    assert!(claim_record(&own, &own, false).is_ok());
    assert_eq!(
        refused(claim_record(&other, &own, false).unwrap_err()),
        "existing Play does not belong to the selected run"
    );
    assert_eq!(
        refused(claim_record(&other, &own, true).unwrap_err()),
        "conflicting Play does not belong to the selected run"
    );

    let first = record_prepared(None, &reference).unwrap().unwrap();
    assert_eq!(first.phase, PlayPhase::Prepared);
    assert_eq!(record_prepared(Some(&first), &reference).unwrap(), None);
    let over = PlayStatus {
        phase: PlayPhase::Aborted,
        ..Default::default()
    };
    assert_eq!(
        refused(record_prepared(Some(&over), &reference).unwrap_err()),
        "selected Play is already terminal"
    );
    let mut unnamed = plan.clone();
    unnamed.metadata.name = None;
    assert_eq!(
        refused(build_play(&play_ref(&unnamed, &hash, "run-1", "fp", 1, &[])).unwrap_err()),
        "name not set"
    );
}

#[test]
fn the_first_result_of_a_run_stands() {
    let hosts = vec!["a".to_string()];
    let recap = output(&[("a", HostStats { ok: 1, completed: true, ..Default::default() })]);
    let running = tracked_play(PlayPhase::Running);
    let written = record_finished(&running, "play-uid", &hosts, Some(&recap), at(50))
        .unwrap()
        .unwrap();
    assert_eq!(written.phase, PlayPhase::Succeeded);
    assert_eq!(written.finished_at, Some(at(50)));
    assert_eq!(written.recap.ok, 1);
    let done = tracked_play(PlayPhase::Failed);
    assert_eq!(record_finished(&done, "play-uid", &hosts, Some(&recap), at(60)).unwrap(), None);
    assert!(record_finished(&tracked_play(PlayPhase::Prepared), "play-uid", &hosts, None, at(60)).is_err());
    assert!(record_finished(&running, "other", &hosts, None, at(60)).is_err());
}

#[test]
fn a_result_is_acknowledged_once() {
    let done = tracked_play(PlayPhase::Succeeded);
    let written = acknowledge_finished(Some(&done), "play-uid").unwrap().unwrap();
    assert!(written.plan_status_recorded);
    assert_eq!(written.phase, PlayPhase::Succeeded);
    let mut acknowledged = done;
    acknowledged.status = Some(written);
    assert_eq!(acknowledge_finished(Some(&acknowledged), "play-uid").unwrap(), None);
    assert_eq!(
        refused(acknowledge_finished(None, "play-uid").unwrap_err()),
        "finished Play disappeared before it could be acknowledged"
    );
    assert_eq!(
        refused(acknowledge_finished(Some(&tracked_play(PlayPhase::Running)), "play-uid").unwrap_err()),
        "cannot acknowledge a nonterminal Play"
    );
    assert_eq!(
        refused(acknowledge_finished(Some(&acknowledged), "other").unwrap_err()),
        "Play UID changed"
    );
    acknowledged.status = None;
    assert_eq!(
        refused(acknowledge_finished(Some(&acknowledged), "play-uid").unwrap_err()),
        "finished Play has no status"
    );
}

#[test]
fn a_delete_removes_only_the_record_that_was_read() {
    let aborted = tracked_play(PlayPhase::Aborted);
    let expected = GuardedDelete {
        name: "apply-web-abc-1".into(),
        uid: Some("play-uid".into()),
        resource_version: Some("7".into()),
    };
    assert_eq!(delete_uninitialized(&aborted).unwrap(), expected);
    assert_eq!(
        delete_aborted(Some(&aborted), "apply-web-abc-1", "play-uid").unwrap(),
        Some(expected)
    );
    assert_eq!(delete_aborted(None, "apply-web-abc-1", "play-uid").unwrap(), None);
    assert!(delete_aborted(Some(&aborted), "apply-web-abc-1", "other").is_err());
    assert!(
        delete_aborted(Some(&tracked_play(PlayPhase::Running)), "apply-web-abc-1", "play-uid").is_err()
    );
    let mut unnamed = aborted;
    unnamed.metadata.name = None;
    assert_eq!(refused(delete_uninitialized(&unnamed).unwrap_err()), "Play name not set");
}

#[test]
fn sums_that_do_not_fit_are_seen_before_they_are_taken() {
    let huge = HostStats {
        ok: u32::MAX,
        ..Default::default()
    };
    assert!(recap_fits(Some(&output(&[("a", huge)]))));
    assert!(!recap_fits(Some(&output(&[("a", huge), ("b", huge)]))));
    assert!(recap_fits(None));
}

#[test]
fn history_limits_fall_back_to_their_defaults() {
    let mut plan = plan("web", "uid");
    assert_eq!(effective_limits(&plan), (3, 10));
    plan.spec.successful_plays_history_limit = Some(0);
    plan.spec.failed_plays_history_limit = Some(9);
    assert_eq!(effective_limits(&plan), (0, 9));
    assert!(retries_after_conflict(0));
    assert!(!retries_after_conflict(usize::MAX));
}
