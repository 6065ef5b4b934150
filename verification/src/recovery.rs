//! Picking up the run a plan was driving: what a restarted operator finds in the plan's records.

use vstd::prelude::*;
use crate::order;
use crate::plans::{
    ActiveRun, Phase, Play, PlayPhase, PlayStatus, PlaybookPlan, PlaybookPlanStatus, ReconcileError,
    Timestamp,
};
use crate::play_history;
use crate::play_history::needs_recovery;
use crate::run_identity;
use crate::run_identity::{
    namespace_and_name, play_belongs_to_plan, recorded_run_from_play, RecordedRun,
};
use crate::seqs;
use crate::text::{concat, text_eq};

verus! {

// --- kinds of records ------------------------------------------------------------------------

/// What a record is to recovery.
#[derive(Debug, Clone, Copy, PartialEq, Eq, Structural)]
pub enum RecordKind {
    /// Nothing was ever reported on it, so it describes nothing.
    Uninitialized,
    /// It holds a result that its plan has not been told.
    Unacknowledged,
    /// It is of a run that still owns something.
    InFlight,
}

/// What a record is to recovery.
pub open spec fn kind_of(play: Play) -> RecordKind {
    if play.status is None {
        RecordKind::Uninitialized
    } else if play_history::unacknowledged(play) {
        RecordKind::Unacknowledged
    } else {
        RecordKind::InFlight
    }
}

/// What a record is to recovery.
pub fn classify_record(play: &Play) -> (res: RecordKind)
    ensures
        res == kind_of(*play),
{
    if play.status.is_none() {
        RecordKind::Uninitialized
    } else if needs_recovery(play) {
        RecordKind::Unacknowledged
    } else {
        RecordKind::InFlight
    }
}

/// The records of one kind.
pub open spec fn of_kind(kind: RecordKind) -> spec_fn(Play) -> bool {
    |play: Play| kind_of(play) == kind
}

/// The one record that may describe a plan's run, or none. Two of them are refused rather than
/// chosen between: whichever was passed over would own objects that nothing points at.
pub fn sole_active_record<'a>(live: &[&'a Play]) -> (res: Result<Option<&'a Play>, ReconcileError>)
    ensures
        match res {
            Ok(None) => live@.len() == 0,
            Ok(Some(play)) => live@.len() == 1 && play == live@[0],
            Err(error) => live@.len() > 1 && error == ReconcileError::PreconditionFailed(
                "more than one Play claims to be this plan's active run",
            ),
        },
{
    if live.len() == 0 {
        Ok(None)
    } else if live.len() == 1 {
        Ok(Some(live[0]))
    } else {
        Err(
            ReconcileError::PreconditionFailed(
                "more than one Play claims to be this plan's active run",
            ),
        )
    }
}

// --- which records matter --------------------------------------------------------------------

/// Whether a plan has something left to do about a record of its own: nothing was reported on it, its
/// run is not over or not cleaned up, or the plan has not been told its result.
pub open spec fn outstanding(play: Play) -> bool {
    match play.status {
        None => true,
        Some(status) => !play_history::is_result(status.phase) || !status.plan_status_recorded,
    }
}

/// The records a plan has something left to do about.
pub open spec fn outstanding_of(plan_name: Seq<char>, plan_uid: Seq<char>) -> spec_fn(Play) -> bool {
    |play: Play| run_identity::of_plan(play, plan_name, plan_uid) && outstanding(play)
}

/// Whether a record is older than another. One without a creation time is the oldest.
pub open spec fn older() -> spec_fn(Play, Play) -> bool {
    |a: Play, b: Play|
        match (a.metadata.creation_timestamp, b.metadata.creation_timestamp) {
            (Some(a), Some(b)) => a < b,
            (None, Some(_)) => true,
            (_, None) => false,
        }
}

/// The records a plan has something left to do about, oldest first. A plan that is not identified
/// has none.
pub open spec fn recoverable(plays: Seq<Play>, plan: PlaybookPlan) -> Seq<Play> {
    if plan.metadata.name is Some && plan.metadata.uid is Some {
        order::stable_sorted(
            plays.filter(outstanding_of(plan.metadata.name->0@, plan.metadata.uid->0@)),
            older(),
        )
    } else {
        Seq::empty()
    }
}

fn is_outstanding(play: &Play) -> (res: bool)
    ensures
        res == outstanding(*play),
{
    match &play.status {
        None => true,
        Some(status) => match status.phase {
            PlayPhase::Prepared
            | PlayPhase::Starting
            | PlayPhase::Launching
            | PlayPhase::Running
            | PlayPhase::Aborted => true,
            PlayPhase::Succeeded | PlayPhase::Failed | PlayPhase::Unknown => needs_recovery(play),
        },
    }
}

fn is_older(a: &Play, b: &Play) -> (res: bool)
    ensures
        res == older()(*a, *b),
{
    match (a.metadata.creation_timestamp, b.metadata.creation_timestamp) {
        (Some(a), Some(b)) => a < b,
        (None, Some(_)) => true,
        (_, None) => false,
    }
}

/// Puts a record behind everything it is not older than.
fn insert_by_age<'a>(out: &mut Vec<&'a Play>, record: &'a Play)
    ensures
        play_history::deref(final(out)@) == play_history::deref(old(out)@).insert(
            order::place(play_history::deref(old(out)@), *record, older()),
            *record,
        ),
{
    let ghost before = play_history::deref(out@);
    let mut k: usize = 0;
    while k < out.len() && !is_older(record, out[k])
        invariant
            k <= out@.len(),
            before == play_history::deref(out@),
            forall|j: int| 0 <= j < k ==> !older()(*record, #[trigger] before[j]),
        decreases out.len() - k,
    {
        assert(before[k as int] == *out@[k as int]);
        k = k + 1;
    }
    proof {
        if k < out@.len() {
            assert(before[k as int] == *out@[k as int]);
        }
        order::lemma_place(before, *record, older(), k as int);
    }
    out.insert(k, record);
    assert(play_history::deref(out@) =~= before.insert(k as int, *record));
}

/// The records a plan has something left to do about, oldest first.
pub fn recoverable_plays_for_plan<'a>(plays: &'a [Play], plan: &PlaybookPlan) -> (res: Vec<&'a Play>)
    ensures
        play_history::deref(res@) == recoverable(plays@, *plan),
{
    let mut out: Vec<&'a Play> = Vec::new();
    assert(play_history::deref(out@) =~= Seq::<Play>::empty());
    let (plan_name, plan_uid) = match (&plan.metadata.name, &plan.metadata.uid) {
        (Some(name), Some(uid)) => (name.as_str(), uid.as_str()),
        _ => {
            return out;
        },
    };
    let ghost wanted = outstanding_of(plan_name@, plan_uid@);
    let mut i: usize = 0;
    proof {
        seqs::lemma_filter_none(plays@, wanted);
    }
    while i < plays.len()
        invariant
            i <= plays@.len(),
            wanted == outstanding_of(plan_name@, plan_uid@),
            play_history::deref(out@) == order::stable_sorted(
                plays@.take(i as int).filter(wanted),
                older(),
            ),
        decreases plays.len() - i,
    {
        let play: &'a Play = &plays[i];
        proof {
            seqs::lemma_filter_take(plays@, i as int, wanted);
        }
        if play_belongs_to_plan(play, plan_name, plan_uid) && is_outstanding(play) {
            let ghost kept = plays@.take(i as int).filter(wanted);
            assert(kept.push(*play).drop_last() =~= kept);
            insert_by_age(&mut out, play);
        }
        i = i + 1;
    }
    proof {
        seqs::lemma_take_all(plays@);
    }
    out
}

// --- what to recover -------------------------------------------------------------------------

/// An attempt without a Job: its identity, where it was found, and the inputs it was prepared for.
pub struct UnlaunchedRun {
    pub run: RecordedRun,
    pub phase: PlayPhase,
    pub preparation_fingerprint: String,
}

/// The attempt that outlives a result, by its own record.
pub struct SurvivingAttempt {
    pub execution_hash: String,
    pub triggered_slot: Option<Timestamp>,
}

/// What was found of a plan's run.
pub enum RecoveredRun<'a> {
    /// It has a Job.
    Active(RecordedRun),
    /// It has no Job yet.
    Unlaunched(UnlaunchedRun),
    /// It was given up, and still owns what it was given.
    Aborted(RecordedRun),
    /// It is over, and the plan has not been told. The plan is not finished where another attempt
    /// survives.
    Finished {
        finished: RecordedRun,
        status: &'a PlayStatus,
        surviving: Option<SurvivingAttempt>,
    },
}

/// Whether this is what a record in flight is to its plan: what its phase says.
pub open spec fn is_resumed(res: RecoveredRun, play: Play) -> bool {
    match play.status->0.phase {
        PlayPhase::Prepared | PlayPhase::Starting | PlayPhase::Launching => {
            &&& res matches RecoveredRun::Unlaunched(found)
            &&& run_identity::is_recorded_run(found.run, play)
            &&& found.phase == play.status->0.phase
            &&& found.preparation_fingerprint@ == play.spec.preparation_fingerprint@
        },
        PlayPhase::Running => res matches RecoveredRun::Active(run) && run_identity::is_recorded_run(
            run,
            play,
        ),
        PlayPhase::Aborted => res matches RecoveredRun::Aborted(run)
            && run_identity::is_recorded_run(run, play),
        PlayPhase::Succeeded | PlayPhase::Failed | PlayPhase::Unknown => false,
    }
}

/// Whether a record describes its run.
pub open spec fn describes(play: Play) -> bool {
    &&& run_identity::hash_in(Some(play.spec.execution_hash@)) is Some
    &&& play.metadata.name is Some
    &&& play.metadata.uid is Some
}

/// What a record in flight is to its plan. A record that holds a result is not in flight.
pub fn resume_record<'a>(play: &'a Play) -> (res: Result<RecoveredRun<'a>, ReconcileError>)
    requires
        play.status is Some,
    ensures
        match res {
            Ok(found) => describes(*play) && is_resumed(found, *play),
            Err(error) => if describes(*play) {
                play_history::is_result(play.status->0.phase) && error
                    == ReconcileError::PreconditionFailed(
                    "a terminal Play was classified as in flight",
                )
            } else {
                run_identity::undescribed(error, *play)
            },
        },
{
    let run = match recorded_run_from_play(play) {
        Ok(run) => run,
        Err(error) => {
            return Err(error);
        },
    };
    let phase = match &play.status {
        Some(status) => status.phase,
        None => PlayPhase::Prepared,
    };
    match phase {
        PlayPhase::Prepared | PlayPhase::Starting | PlayPhase::Launching => Ok(
            RecoveredRun::Unlaunched(
                UnlaunchedRun {
                    run,
                    phase,
                    preparation_fingerprint: play.spec.preparation_fingerprint.clone(),
                },
            ),
        ),
        PlayPhase::Running => Ok(RecoveredRun::Active(run)),
        PlayPhase::Aborted => Ok(RecoveredRun::Aborted(run)),
        PlayPhase::Succeeded | PlayPhase::Failed | PlayPhase::Unknown => Err(
            ReconcileError::PreconditionFailed("a terminal Play was classified as in flight"),
        ),
    }
}

/// Whether this is the attempt that outlives a result: the oldest in flight.
pub open spec fn survives(surviving: Option<SurvivingAttempt>, live: Seq<Play>) -> bool {
    match surviving {
        Some(attempt) => live.len() > 0 && attempt.execution_hash@ == live[0].spec.execution_hash@
            && attempt.triggered_slot == live[0].spec.triggered_slot,
        None => live.len() == 0,
    }
}

/// Whether this is what is recovered from results that are waiting and runs that are in flight.
pub open spec fn is_recovered(
    res: Result<Option<RecoveredRun>, ReconcileError>,
    waiting: Seq<Play>,
    live: Seq<Play>,
) -> bool {
    if waiting.len() > 0 {
        match res {
            Ok(Some(RecoveredRun::Finished { finished, status, surviving })) => {
                &&& describes(waiting[0])
                &&& run_identity::is_recorded_run(finished, waiting[0])
                &&& waiting[0].status == Some(*status)
                &&& survives(surviving, live)
            },
            Ok(_) => false,
            Err(error) => !describes(waiting[0]) && run_identity::undescribed(error, waiting[0]),
        }
    } else if live.len() == 0 {
        res matches Ok(None)
    } else if live.len() == 1 {
        match res {
            Ok(Some(found)) => describes(live[0]) && is_resumed(found, live[0]),
            Ok(None) => false,
            Err(error) => !describes(live[0]) && run_identity::undescribed(error, live[0]),
        }
    } else {
        res matches Err(error) && error == ReconcileError::PreconditionFailed(
            "more than one Play claims to be this plan's active run",
        )
    }
}

/// What a plan's records come to.
pub struct Recovery<'a> {
    /// Records that describe nothing, to delete.
    pub uninitialized: Vec<&'a Play>,
    /// Records in flight. Where more than one is, the hosts of each stay locked.
    pub live: Vec<&'a Play>,
    pub outcome: Result<Option<RecoveredRun<'a>>, ReconcileError>,
}

/// Whether this is what a plan's records come to.
pub open spec fn is_recovery(res: Recovery, plays: Seq<Play>, plan: PlaybookPlan) -> bool {
    let records = recoverable(plays, plan);
    &&& play_history::deref(res.uninitialized@) == records.filter(of_kind(RecordKind::Uninitialized))
    &&& play_history::deref(res.live@) == records.filter(of_kind(RecordKind::InFlight))
    &&& if plan.metadata.namespace is None {
        res.outcome matches Err(error) && error == ReconcileError::PreconditionFailed(
            "namespace not set",
        )
    } else if plan.metadata.name is None {
        res.outcome matches Err(error) && error == ReconcileError::PreconditionFailed(
            "name not set",
        )
    } else {
        is_recovered(
            res.outcome,
            records.filter(of_kind(RecordKind::Unacknowledged)),
            records.filter(of_kind(RecordKind::InFlight)),
        )
    }
}

/// What a plan's records come to. A result that the plan has not been told comes before anything in
/// flight: it owns nothing any more, and the plan cannot move on without it.
pub fn recover_active_run<'a>(plays: &'a [Play], plan: &PlaybookPlan) -> (res: Recovery<'a>)
    ensures
        is_recovery(res, plays@, *plan),
{
    let records = recoverable_plays_for_plan(plays, plan);
    let ghost all = play_history::deref(records@);
    let mut uninitialized: Vec<&'a Play> = Vec::new();
    let mut waiting: Vec<&'a Play> = Vec::new();
    let mut live: Vec<&'a Play> = Vec::new();
    let mut i: usize = 0;
    proof {
        seqs::lemma_filter_none(all, of_kind(RecordKind::Uninitialized));
        seqs::lemma_filter_none(all, of_kind(RecordKind::Unacknowledged));
        seqs::lemma_filter_none(all, of_kind(RecordKind::InFlight));
        assert(play_history::deref(live@) =~= Seq::<Play>::empty());
    }
    while i < records.len()
        invariant
            i <= records@.len(),
            all == play_history::deref(records@),
            play_history::deref(uninitialized@) == all.take(i as int).filter(
                of_kind(RecordKind::Uninitialized),
            ),
            play_history::deref(waiting@) == all.take(i as int).filter(
                of_kind(RecordKind::Unacknowledged),
            ),
            play_history::deref(live@) == all.take(i as int).filter(of_kind(RecordKind::InFlight)),
        decreases records.len() - i,
    {
        let play: &'a Play = records[i];
        let ghost uninitialized_before = play_history::deref(uninitialized@);
        let ghost waiting_before = play_history::deref(waiting@);
        let ghost live_before = play_history::deref(live@);
        proof {
            assert(all[i as int] == *play);
            seqs::lemma_filter_take(all, i as int, of_kind(RecordKind::Uninitialized));
            seqs::lemma_filter_take(all, i as int, of_kind(RecordKind::Unacknowledged));
            seqs::lemma_filter_take(all, i as int, of_kind(RecordKind::InFlight));
        }
        match classify_record(play) {
            RecordKind::Uninitialized => {
                uninitialized.push(play);
                assert(play_history::deref(uninitialized@) =~= uninitialized_before.push(*play));
            },
            RecordKind::Unacknowledged => {
                waiting.push(play);
                assert(play_history::deref(waiting@) =~= waiting_before.push(*play));
            },
            RecordKind::InFlight => {
                live.push(play);
                assert(play_history::deref(live@) =~= live_before.push(*play));
            },
        }
        i = i + 1;
    }
    proof {
        seqs::lemma_take_all(all);
        lemma_live_are_unfinished(plays@, *plan);
        assert forall|i: int| 0 <= i < waiting@.len() implies (#[trigger] waiting@[i]).status
            is Some by {
            assert(*waiting@[i] == play_history::deref(waiting@)[i]);
        }
        assert forall|i: int| 0 <= i < live@.len() implies (#[trigger] live@[i]).status is Some
            && !play_history::is_result(live@[i].status->0.phase) by {
            assert(*live@[i] == play_history::deref(live@)[i]);
        }
    }
    let outcome = match namespace_and_name(plan) {
        Err(error) => Err(error),
        Ok(_) => recover_from(&waiting, &live),
    };
    Recovery { uninitialized, live, outcome }
}

fn recover_from<'a>(waiting: &[&'a Play], live: &[&'a Play]) -> (res: Result<
    Option<RecoveredRun<'a>>,
    ReconcileError,
>)
    requires
        forall|i: int| 0 <= i < waiting@.len() ==> (#[trigger] waiting@[i]).status is Some,
        forall|i: int|
            0 <= i < live@.len() ==> (#[trigger] live@[i]).status is Some
                && !play_history::is_result(live@[i].status->0.phase),
    ensures
        is_recovered(res, play_history::deref(waiting@), play_history::deref(live@)),
{
    if waiting.len() > 0 {
        let play: &'a Play = waiting[0];
        assert(play_history::deref(waiting@)[0] == *play);
        let finished = match recorded_run_from_play(play) {
            Ok(run) => run,
            Err(error) => {
                return Err(error);
            },
        };
        let surviving = if live.len() > 0 {
            assert(play_history::deref(live@)[0] == *live@[0]);
            Some(
                SurvivingAttempt {
                    execution_hash: live[0].spec.execution_hash.clone(),
                    triggered_slot: live[0].spec.triggered_slot,
                },
            )
        } else {
            None
        };
        if let Some(status) = &play.status {
            return Ok(Some(RecoveredRun::Finished { finished, status, surviving }));
        }
    }
    match sole_active_record(live) {
        Ok(None) => Ok(None),
        Err(error) => Err(error),
        Ok(Some(play)) => {
            assert(play_history::deref(live@)[0] == *play);
            match resume_record(play) {
                Ok(found) => Ok(Some(found)),
                Err(error) => Err(error),
            }
        },
    }
}

proof fn lemma_live_are_unfinished(plays: Seq<Play>, plan: PlaybookPlan)
    ensures
        forall|i: int|
            0 <= i < recoverable(plays, plan).filter(of_kind(RecordKind::InFlight)).len() ==> ({
                let play = #[trigger] recoverable(plays, plan).filter(
                    of_kind(RecordKind::InFlight),
                )[i];
                play.status is Some && !play_history::is_result(play.status->0.phase)
            }),
        forall|i: int|
            0 <= i < recoverable(plays, plan).filter(of_kind(RecordKind::Unacknowledged)).len()
                ==> (#[trigger] recoverable(plays, plan).filter(
                of_kind(RecordKind::Unacknowledged),
            )[i]).status is Some,
{
    let records = recoverable(plays, plan);
    let live = records.filter(of_kind(RecordKind::InFlight));
    assert forall|i: int| 0 <= i < live.len() implies ({
        let play = #[trigger] live[i];
        play.status is Some && !play_history::is_result(play.status->0.phase)
    }) by {
        assert(live.contains(live[i]));
        seqs::lemma_filter_contains(records, of_kind(RecordKind::InFlight), live[i]);
        only_the_plans_records_are_recovered(plays, plan, live[i]);
    }
    let waiting = records.filter(of_kind(RecordKind::Unacknowledged));
    assert forall|i: int| 0 <= i < waiting.len() implies (#[trigger] waiting[i]).status is Some by {
        assert(waiting.contains(waiting[i]));
        seqs::lemma_filter_contains(records, of_kind(RecordKind::Unacknowledged), waiting[i]);
    }
}

// --- taking a run up again -------------------------------------------------------------------

/// A plan's status once it drives a run again: the run, and the number it reached, which stops a later
/// attempt from taking its name. The number belongs to the run's own revision only.
pub open spec fn is_adopted(
    status: PlaybookPlanStatus,
    before: PlaybookPlanStatus,
    run: ActiveRun,
) -> bool {
    &&& status.retry_count == if before.current_hash@ == run.execution_hash@ && before.retry_count
        < run.attempt {
        run.attempt
    } else {
        before.retry_count
    }
    &&& status.current_job_name is Some
    &&& status.current_job_name->0@ == run.job_name@
    &&& status.phase is Applying
    &&& status.summary is Some
    &&& status.summary->0@ == "applying run "@ + run.job_name@
    &&& status.active_run is Some
    &&& status.active_run->0.same(&run)
    &&& status.current_hash == before.current_hash
    &&& status.last_triggered_run == before.last_triggered_run
    &&& status.next_run == before.next_run
    &&& status.eligible_hosts == before.eligible_hosts
    &&& status.hosts_status == before.hosts_status
    &&& status.last_rendered_generation == before.last_rendered_generation
}

/// Puts a run back onto the status of its plan.
pub fn adopt_recovered_attempt(status: &mut PlaybookPlanStatus, active_run: &ActiveRun)
    ensures
        is_adopted(*final(status), *old(status), *active_run),
{
    if status.current_hash == active_run.execution_hash {
        if status.retry_count < active_run.attempt {
            status.retry_count = active_run.attempt;
        }
    }
    status.current_job_name = Some(active_run.job_name.clone());
    status.phase = Phase::Applying;
    status.summary = Some(concat("applying run ", active_run.job_name.as_str()));
    status.active_run = Some(active_run.copy());
}

/// What to do about a run that has no Job on record.
#[derive(Debug, Clone, Copy, PartialEq, Eq, Structural)]
pub enum Resume {
    /// Its Job is there after all: record that it runs.
    Adopt,
    /// What it was prepared for is no longer wanted: give it up.
    Abort,
    /// Go on with it.
    Drive,
}

/// What to do about a run that has no Job on record. One that committed to its Job and has it is
/// allowed to finish; otherwise it is given up where the plan is suspended or would no longer prepare
/// the same run.
pub open spec fn resumed(
    phase: PlayPhase,
    prepared_for: Seq<char>,
    wanted: Seq<char>,
    suspended: bool,
    job_exists: bool,
) -> Resume {
    if phase is Launching && job_exists {
        Resume::Adopt
    } else if suspended || prepared_for != wanted {
        Resume::Abort
    } else {
        Resume::Drive
    }
}

/// Decides what to do about a run that has no Job on record. `wanted` is the fingerprint of what the
/// plan would prepare now, and `job_exists` whether there is a Job of the run's name.
pub fn decide_resume(run: &UnlaunchedRun, wanted: &str, suspended: bool, job_exists: bool) -> (res:
    Resume)
    ensures
        res == resumed(run.phase, run.preparation_fingerprint@, wanted@, suspended, job_exists),
{
    if run.phase == PlayPhase::Launching && job_exists {
        Resume::Adopt
    } else if suspended || !text_eq(run.preparation_fingerprint.as_str(), wanted) {
        Resume::Abort
    } else {
        Resume::Drive
    }
}

// --- laws ------------------------------------------------------------------------------------

/// A run whose Job is there is never given up, and one is gone on with only for what its plan still
/// wants.
pub proof fn a_job_that_exists_is_adopted(
    prepared_for: Seq<char>,
    wanted: Seq<char>,
    suspended: bool,
    phase: PlayPhase,
    job_exists: bool,
)
    ensures
        resumed(PlayPhase::Launching, prepared_for, wanted, suspended, true) == Resume::Adopt,
        resumed(phase, prepared_for, wanted, suspended, job_exists) == Resume::Drive ==> prepared_for
            == wanted && !suspended,
{
}

/// Recovery touches no record but the plan's own, and none whose result the plan has been told.
pub proof fn only_the_plans_records_are_recovered(plays: Seq<Play>, plan: PlaybookPlan, play: Play)
    requires
        recoverable(plays, plan).contains(play),
    ensures
        plays.contains(play),
        plan.metadata.name is Some && plan.metadata.uid is Some,
        run_identity::of_plan(play, plan.metadata.name->0@, plan.metadata.uid->0@),
        !(play_history::finished(play) && play.status->0.plan_status_recorded),
{
    broadcast use vstd::seq_lib::group_to_multiset_ensures;

    let wanted = outstanding_of(plan.metadata.name->0@, plan.metadata.uid->0@);
    let kept = plays.filter(wanted);
    order::stable_sorted_keeps_all(kept, older());
    assert(recoverable(plays, plan).to_multiset().count(play) > 0);
    assert(kept.contains(play));
    seqs::lemma_filter_contains(plays, wanted, play);
}

/// No record that recovery has something to do about is passed over.
pub proof fn nothing_outstanding_is_passed_over(plays: Seq<Play>, plan: PlaybookPlan, play: Play)
    requires
        plays.contains(play),
        plan.metadata.name is Some,
        plan.metadata.uid is Some,
        run_identity::of_plan(play, plan.metadata.name->0@, plan.metadata.uid->0@),
        outstanding(play),
    ensures
        recoverable(plays, plan).contains(play),
{
    broadcast use vstd::seq_lib::group_to_multiset_ensures;

    let wanted = outstanding_of(plan.metadata.name->0@, plan.metadata.uid->0@);
    let kept = plays.filter(wanted);
    seqs::lemma_filter_contains(plays, wanted, play);
    order::stable_sorted_keeps_all(kept, older());
    assert(kept.to_multiset().count(play) > 0);
}

/// Results reach the plan in the order the runs were recorded: none that is waiting is older than the
/// one that is handed over.
pub proof fn results_are_handed_over_oldest_first(plays: Seq<Play>, plan: PlaybookPlan, i: int)
    requires
        0 <= i < recoverable(plays, plan).filter(of_kind(RecordKind::Unacknowledged)).len(),
    ensures
        !older()(
            recoverable(plays, plan).filter(of_kind(RecordKind::Unacknowledged))[i],
            recoverable(plays, plan).filter(of_kind(RecordKind::Unacknowledged))[0],
        ),
{
    let waiting = of_kind(RecordKind::Unacknowledged);
    lemma_older_is_weak_order();
    if plan.metadata.name is Some && plan.metadata.uid is Some {
        let kept = plays.filter(
            outstanding_of(plan.metadata.name->0@, plan.metadata.uid->0@),
        );
        order::stable_sorted_is_ordered(kept, older());
        lemma_filter_keeps_order(recoverable(plays, plan), waiting);
    } else {
        Seq::<Play>::empty().lemma_filter_len(waiting);
    }
    if i > 0 {
        assert(order::ordered(recoverable(plays, plan).filter(waiting), older()));
    }
}

proof fn lemma_older_is_weak_order()
    ensures
        order::weak_order(older()),
{
}

proof fn lemma_filter_keeps_order(s: Seq<Play>, p: spec_fn(Play) -> bool)
    requires
        order::ordered(s, older()),
    ensures
        order::ordered(s.filter(p), older()),
    decreases s.len(),
{
    reveal(Seq::filter);
    if s.len() > 0 {
        let head = s.drop_last();
        lemma_filter_keeps_order(head, p);
        if p(s.last()) {
            let out = s.filter(p);
            let rest = head.filter(p);
            assert forall|i: int, j: int|
                #![trigger out[i], out[j]]
                0 <= i < j < out.len() implies !older()(out[j], out[i]) by {
                assert(out[i] == rest[i]);
                if j < rest.len() {
                    assert(out[j] == rest[j]);
                } else {
                    assert(rest.contains(rest[i]));
                    seqs::lemma_filter_contains(head, p, rest[i]);
                    let k = choose|k: int| 0 <= k < head.len() && head[k] == rest[i];
                    assert(s[k] == head[k] && s[s.len() - 1] == out[j]);
                }
            }
        }
    }
}

/// A result that is waiting never makes the run behind it look like a second one: a run alone in
/// flight is never refused for it.
pub proof fn a_waiting_result_is_not_in_flight(play: Play)
    requires
        play_history::unacknowledged(play),
    ensures
        !of_kind(RecordKind::InFlight)(play),
        of_kind(RecordKind::Unacknowledged)(play),
{
}

/// A run taken up again never lowers the number a plan's attempts have reached.
pub proof fn numbers_never_go_back(
    status: PlaybookPlanStatus,
    before: PlaybookPlanStatus,
    run: ActiveRun,
)
    requires
        is_adopted(status, before, run),
    ensures
        status.retry_count >= before.retry_count,
        before.current_hash@ == run.execution_hash@ ==> status.retry_count >= run.attempt,
{
}

/// A record is sorted by what it holds: nothing, a result its plan was not told, or a run that goes on.
pub proof fn records_are_sorted_by_what_they_hold(play: Play)
    ensures
        play.status is None ==> kind_of(play) == RecordKind::Uninitialized,
        play.status matches Some(status) ==> kind_of(play) == if (status.phase is Succeeded
            || status.phase is Failed || status.phase is Unknown) && !status.plan_status_recorded {
            RecordKind::Unacknowledged
        } else {
            RecordKind::InFlight
        },
        play.status matches Some(status) ==> (outstanding(play) <==> !((status.phase is Succeeded
            || status.phase is Failed || status.phase is Unknown) && status.plan_status_recorded)),
        play.status is None ==> outstanding(play),
{
}

/// A record is older where it was created earlier.
pub proof fn a_record_is_older_where_it_came_earlier(a: Play, b: Play, at: i64, then: i64)
    requires
        a.metadata.creation_timestamp == Some(at),
        b.metadata.creation_timestamp == Some(then),
    ensures
        older()(a, b) <==> at < then,
{
}

/// A run is taken up where its record left it: one that goes is watched, one that was given up is cleaned up,
/// and one that has no Job yet is gone on with from its very phase.
pub proof fn a_run_is_taken_up_where_it_stopped(res: RecoveredRun, play: Play)
    requires
        play.status is Some,
        is_resumed(res, play),
    ensures
        play.status->0.phase is Running <==> res is Active,
        play.status->0.phase is Aborted <==> res is Aborted,
        play.status->0.phase is Prepared || play.status->0.phase is Starting
            || play.status->0.phase is Launching <==> res is Unlaunched,
        res matches RecoveredRun::Unlaunched(found) ==> found.phase == play.status->0.phase
            && found.run.mirror.run_id@ == play.spec.run_id@ && found.preparation_fingerprint@
            == play.spec.preparation_fingerprint@,
        res matches RecoveredRun::Active(run) ==> run.mirror.run_id@ == play.spec.run_id@
            && run.mirror.attempt == play.spec.attempt,
        !(res is Finished),
{
}

/// A result that waits is passed on before anything goes on, together with what else goes on.
pub proof fn a_waiting_result_comes_first(
    res: Result<Option<RecoveredRun>, ReconcileError>,
    waiting: Seq<Play>,
    live: Seq<Play>,
)
    requires
        is_recovered(res, waiting, live),
    ensures
        waiting.len() > 0 && describes(waiting[0]) ==> res is Ok && res->Ok_0 is Some
            && res->Ok_0->0 is Finished && (res->Ok_0->0->surviving is Some <==> live.len() > 0),
        waiting.len() == 0 && live.len() == 0 ==> res is Ok && res->Ok_0 is None,
        waiting.len() == 0 && live.len() == 1 && describes(live[0]) ==> res is Ok && res->Ok_0
            is Some && !(res->Ok_0->0 is Finished),
        waiting.len() == 0 && live.len() > 1 ==> res is Err,
{
    if waiting.len() == 0 && live.len() == 1 && describes(live[0]) {
        assert(is_resumed(res->Ok_0->0, live[0]));
        if live[0].status is Some {
            a_run_is_taken_up_where_it_stopped(res->Ok_0->0, live[0]);
        } else {
            assert(!(res->Ok_0->0 is Finished));
        }
    }
}

/// A recovered run is what the plan is applying, and its attempt counts where it is of the plan's revision.
pub proof fn a_recovered_run_is_what_is_applied(
    status: PlaybookPlanStatus,
    before: PlaybookPlanStatus,
    run: ActiveRun,
)
    requires
        is_adopted(status, before, run),
    ensures
        status.phase is Applying,
        status.active_run is Some && status.active_run->0.run_id == run.run_id
            && status.active_run->0.job_name == run.job_name && status.active_run->0.play_uid
            == run.play_uid && status.active_run->0.attempt == run.attempt
            && status.active_run->0.execution_hash == run.execution_hash
            && status.active_run->0.hosts@ == run.hosts@,
        status.current_job_name is Some && status.current_job_name->0@ == run.job_name@,
        before.current_hash@ == run.execution_hash@ && before.retry_count < run.attempt
            ==> status.retry_count == run.attempt,
        before.current_hash@ == run.execution_hash@ && before.retry_count >= run.attempt
            ==> status.retry_count == before.retry_count,
        before.current_hash@ != run.execution_hash@ ==> status.retry_count == before.retry_count,
        status.current_hash == before.current_hash,
        status.hosts_status == before.hosts_status,
{
}

/// A run without a Job goes on where it is still wanted, and is given up where it is not.
pub proof fn an_unlaunched_run_goes_on_while_wanted(
    phase: PlayPhase,
    prepared_for: Seq<char>,
    wanted: Seq<char>,
    suspended: bool,
    job_exists: bool,
)
    requires
        !(phase is Launching) || !job_exists,
    ensures
        prepared_for == wanted && !suspended ==> resumed(
            phase,
            prepared_for,
            wanted,
            suspended,
            job_exists,
        ) == Resume::Drive,
        prepared_for != wanted || suspended ==> resumed(
            phase,
            prepared_for,
            wanted,
            suspended,
            job_exists,
        ) == Resume::Abort,
{
}

/// A record describes its run where it has a name, a UID and a revision that can be read.
pub proof fn a_record_describes_its_run(play: Play)
    ensures
        describes(play) <==> play.metadata.name is Some && play.metadata.uid is Some
            && run_identity::hash_in(Some(play.spec.execution_hash@)) is Some,
{
}

/// A result is handed over as its record has it, and one whose record does not describe it is an error.
pub proof fn a_result_is_handed_over_as_recorded(
    res: Result<Option<RecoveredRun>, ReconcileError>,
    waiting: Seq<Play>,
    live: Seq<Play>,
)
    requires
        is_recovered(res, waiting, live),
        waiting.len() > 0,
    ensures
        !describes(waiting[0]) ==> res is Err,
        describes(waiting[0]) ==> res is Ok && res->Ok_0 is Some && res->Ok_0->0 is Finished
            && waiting[0].status == Some(*res->Ok_0->0->status)
            && res->Ok_0->0->finished.mirror.run_id@ == waiting[0].spec.run_id@
            && res->Ok_0->0->finished.mirror.attempt == waiting[0].spec.attempt,
        res is Ok && live.len() > 0 ==> res->Ok_0->0->surviving is Some
            && res->Ok_0->0->surviving->0.execution_hash@ == live[0].spec.execution_hash@
            && res->Ok_0->0->surviving->0.triggered_slot == live[0].spec.triggered_slot,
{
}

/// A plan that is not named has nothing recovered, and says what it lacks.
pub proof fn a_nameless_plan_recovers_nothing(res: Recovery, plays: Seq<Play>, plan: PlaybookPlan)
    requires
        is_recovery(res, plays, plan),
    ensures
        plan.metadata.namespace is None ==> res.outcome is Err && res.outcome->Err_0
            == ReconcileError::PreconditionFailed("namespace not set"),
        plan.metadata.namespace is Some && plan.metadata.name is None ==> res.outcome is Err
            && res.outcome->Err_0 == ReconcileError::PreconditionFailed("name not set"),
{
}

/// Of what a plan left open, the records that describe nothing are to be deleted and those of runs that go on are
/// in flight, each where it belongs and nowhere else.
pub proof fn open_records_are_told_apart(
    res: Recovery,
    plays: Seq<Play>,
    plan: PlaybookPlan,
    play: Play,
)
    requires
        is_recovery(res, plays, plan),
        recoverable(plays, plan).contains(play),
    ensures
        play_history::deref(res.uninitialized@).contains(play) <==> play.status is None,
        play_history::deref(res.live@).contains(play) <==> play.status is Some && !(
        play.status->0.phase is Succeeded || play.status->0.phase is Failed || play.status->0.phase
            is Unknown),
{
    let records = recoverable(plays, plan);
    seqs::lemma_filter_contains(records, of_kind(RecordKind::Uninitialized), play);
    seqs::lemma_filter_contains(records, of_kind(RecordKind::InFlight), play);
    only_the_plans_records_are_recovered(plays, plan, play);
}

} // verus!
