//! The end of a run: when it is over, what became of it, and what its plan does next.

use vstd::prelude::*;
use crate::ansible_inventory;
use crate::ansible_inventory::distinct_host_count;
use crate::callback_output;
use crate::callback_output::{parse_callback_output, CallbackOutput};
use crate::execution_evaluator;
use crate::execution_evaluator::{find_outdated_hosts, ExecutionHash};
use crate::job_builder::ANSIBLE_CONTAINER_NAME;
use crate::labels::RUN_ID;
use crate::numerals;
use crate::numerals::decimal;
use crate::plans::{
    ExecutionMode, Phase, Play, PlaybookPlan, PlaybookPlanStatus, ReconcileError, Timestamp,
};
use crate::run_identity;
use crate::run_identity::{
    job_label, mirrors_run, play_is_running_attempt, pod_belongs_to_job, validate_selected_job,
    RecordedRun,
};
use crate::text;
use crate::text::{clone_optional, concat, concat3, text_eq};
use crate::timing;
use crate::timing::{delay_seconds, delay_until, Delay};
use crate::workloads::{ContainerStatus, Job, ObservedPod};

verus! {

/// When a run in progress is looked at again.
pub const RUNNING_POLL_SECONDS: u64 = 15;

// --- what a pod left behind ------------------------------------------------------------------

/// The message of the first container that ran the playbook, if it ended and left one.
pub open spec fn container_message(statuses: Seq<ContainerStatus>) -> Option<Seq<char>>
    decreases statuses.len(),
{
    if statuses.len() == 0 {
        None
    } else if statuses[0].name@ == ANSIBLE_CONTAINER_NAME@ {
        match statuses[0].terminated {
            Some(message) => text::text_of(message),
            None => None,
        }
    } else {
        container_message(statuses.drop_first())
    }
}

/// The message a pod left behind: that of its container that ran the playbook.
pub open spec fn message_of(pod: ObservedPod) -> Option<Seq<char>> {
    match pod.status {
        Some(status) => match status.container_statuses {
            Some(statuses) => container_message(statuses@),
            None => None,
        },
        None => None,
    }
}

/// The message a pod left behind, if the playbook ended there and left one.
pub fn termination_message(pod: &ObservedPod) -> (res: Option<String>)
    ensures
        text::text_of(res) == message_of(*pod),
{
    let status = match &pod.status {
        Some(status) => status,
        None => {
            return None;
        },
    };
    let statuses = match &status.container_statuses {
        Some(statuses) => statuses,
        None => {
            return None;
        },
    };
    let mut i: usize = 0;
    assert(statuses@.skip(0) =~= statuses@);
    while i < statuses.len()
        invariant
            i <= statuses@.len(),
            container_message(statuses@.skip(i as int)) == container_message(statuses@),
            message_of(*pod) == container_message(statuses@),
        decreases statuses.len() - i,
    {
        let ghost rest = statuses@.skip(i as int);
        assert(rest[0] == statuses@[i as int]);
        assert(rest.drop_first() =~= statuses@.skip(i + 1));
        if text_eq(statuses[i].name.as_str(), ANSIBLE_CONTAINER_NAME) {
            return match &statuses[i].terminated {
                Some(message) => clone_optional(message),
                None => None,
            };
        }
        i = i + 1;
    }
    assert(statuses@.skip(i as int).len() == 0);
    None
}

/// The message of the first pod that left one.
pub open spec fn first_message(pods: Seq<ObservedPod>) -> Option<Seq<char>>
    decreases pods.len(),
{
    if pods.len() == 0 {
        None
    } else if message_of(pods[0]) is Some {
        message_of(pods[0])
    } else {
        first_message(pods.drop_first())
    }
}

/// Whether this is what a message reads as. One that does not read leaves no recap.
pub open spec fn is_recap(res: Option<CallbackOutput>, message: Option<Seq<char>>) -> bool {
    match message {
        Some(message) => match callback_output::recap_bytes(message) {
            Some(bytes) => match callback_output::json_recap(bytes) {
                Some(entries) => res is Some && res->0.processed@ == callback_output::recap_of(
                    entries,
                ),
                None => res is None,
            },
            None => res is None,
        },
        None => res is None,
    }
}

/// The recap of a run whose Job left these pods: what the first message reads as.
pub fn read_recap(pods: &[ObservedPod]) -> (res: Option<CallbackOutput>)
    ensures
        is_recap(res, first_message(pods@)),
{
    let mut i: usize = 0;
    assert(pods@.skip(0) =~= pods@);
    while i < pods.len()
        invariant
            i <= pods@.len(),
            first_message(pods@.skip(i as int)) == first_message(pods@),
        decreases pods.len() - i,
    {
        let ghost rest = pods@.skip(i as int);
        assert(rest[0] == pods@[i as int]);
        assert(rest.drop_first() =~= pods@.skip(i + 1));
        if let Some(message) = termination_message(&pods[i]) {
            return parse_callback_output(message.as_str());
        }
        i = i + 1;
    }
    assert(pods@.skip(i as int).len() == 0);
    None
}

/// Whether a Job is the one a run created.
pub open spec fn is_own_job(job: Job, plan: PlaybookPlan, run: RecordedRun) -> bool {
    &&& plan.metadata.name is Some
    &&& plan.metadata.uid is Some
    &&& run_identity::is_selected(
        job,
        plan.metadata.name->0@,
        plan.metadata.uid->0@,
        run.execution_hash,
        run.mirror.attempt,
        run.mirror.run_id@,
        run.mirror.play_uid@,
    )
}

/// The message of the first pod of a Job that left one.
pub open spec fn first_own_message(pods: Seq<ObservedPod>, job: Job) -> Option<Seq<char>>
    decreases pods.len(),
{
    if pods.len() == 0 {
        None
    } else if run_identity::pod_of(pods[0], job) && message_of(pods[0]) is Some {
        message_of(pods[0])
    } else {
        first_own_message(pods.drop_first(), job)
    }
}

/// The message that is trusted to say what became of a run: none but what the run's own Job left in its
/// own pods.
pub open spec fn trusted_message(
    job: Option<&Job>,
    pods: Seq<ObservedPod>,
    plan: PlaybookPlan,
    run: RecordedRun,
) -> Option<Seq<char>> {
    match job {
        Some(job) => if is_own_job(*job, plan, run) {
            first_own_message(pods, *job)
        } else {
            None
        },
        None => None,
    }
}

/// The recap of a run, from what stands under the name of its Job and the pods found for it. A Job that
/// is not the run's own ends the run like one that is gone, and its recap is not trusted.
pub fn trusted_recap(
    job: Option<&Job>,
    pods: &[ObservedPod],
    plan: &PlaybookPlan,
    run: &RecordedRun,
) -> (res: Option<CallbackOutput>)
    ensures
        is_recap(res, trusted_message(job, pods@, *plan, *run)),
{
    let found = match job {
        Some(found) => found,
        None => {
            return None;
        },
    };
    let own = validate_selected_job(
        found,
        plan,
        run.execution_hash,
        run.mirror.attempt,
        run.mirror.run_id.as_str(),
        run.mirror.play_uid.as_str(),
    );
    if own.is_err() {
        return None;
    }
    let mut i: usize = 0;
    assert(pods@.skip(0) =~= pods@);
    while i < pods.len()
        invariant
            i <= pods@.len(),
            job == Some(found),
            is_own_job(*found, *plan, *run),
            first_own_message(pods@.skip(i as int), *found) == first_own_message(pods@, *found),
        decreases pods.len() - i,
    {
        let ghost rest = pods@.skip(i as int);
        assert(rest[0] == pods@[i as int]);
        assert(rest.drop_first() =~= pods@.skip(i + 1));
        if pod_belongs_to_job(&pods[i], found) {
            if let Some(message) = termination_message(&pods[i]) {
                return parse_callback_output(message.as_str());
            }
        }
        i = i + 1;
    }
    assert(pods@.skip(i as int).len() == 0);
    None
}

// --- whether a run is over -------------------------------------------------------------------

/// What to do about the run a plan drives.
#[derive(Debug, Clone, PartialEq, Eq)]
pub enum Advance {
    /// There is none.
    Stay,
    /// It is in progress: keep its hosts locked, and look again later.
    Renew(Delay),
    /// It is over. Its Job left a recap if there still is one, and says which attempt it was, by
    /// which what was created for it is found.
    Finish { job_present: bool, run_id: String },
}

/// Whether this is what to do about the run a plan drives. A Job that is gone ends its run as one that
/// finished does.
pub open spec fn is_advance(
    res: Advance,
    status: PlaybookPlanStatus,
    job: Option<&Job>,
    finished: bool,
) -> bool {
    if status.current_job_name is None {
        res == Advance::Stay
    } else {
        match job {
            Some(job) => if !finished {
                res == Advance::Renew(timing::seconds(RUNNING_POLL_SECONDS))
            } else {
                &&& res matches Advance::Finish { job_present, run_id }
                &&& job_present
                &&& run_id@ == match run_identity::text_under(job.metadata.labels, RUN_ID@) {
                    Some(id) => id,
                    None => Seq::<char>::empty(),
                }
            },
            None => {
                &&& res matches Advance::Finish { job_present, run_id }
                &&& !job_present
                &&& run_id@ == Seq::<char>::empty()
            },
        }
    }
}

/// Decides what to do about the run a plan drives, by what stands under the name of its Job.
pub fn decide_advance(status: &PlaybookPlanStatus, job: Option<&Job>, finished: bool) -> (res: Advance)
    ensures
        is_advance(res, *status, job, finished),
{
    if status.current_job_name.is_none() {
        return Advance::Stay;
    }
    proof {
        reveal_strlit("");
        assert(""@ =~= Seq::<char>::empty());
    }
    match job {
        Some(job) => {
            if !finished {
                return Advance::Renew(delay_seconds(RUNNING_POLL_SECONDS));
            }
            let run_id = match job_label(job, RUN_ID) {
                Some(id) => id.to_owned(),
                None => "".to_owned(),
            };
            Advance::Finish { job_present: true, run_id }
        },
        None => Advance::Finish { job_present: false, run_id: "".to_owned() },
    }
}

/// What to do with the result of a Job that is over.
#[derive(Debug, Clone, Copy, PartialEq, Eq)]
pub enum FinishStep {
    /// Put it on the run's record.
    Record,
    /// Leave it to the record, which has it already or is not the Job's.
    Wait,
    /// Take the run as lost: its record is gone, and with it the only place the result was kept.
    Lost,
}

/// What is done with the result of a Job that is over, by the run's own record.
pub open spec fn finish_step(own: Option<&Play>) -> Result<FinishStep, ReconcileError> {
    match own {
        None => Ok(FinishStep::Lost),
        Some(play) => match play.status {
            Some(status) => Ok(
                if status.phase is Running {
                    FinishStep::Record
                } else {
                    FinishStep::Wait
                },
            ),
            None => Err(ReconcileError::PreconditionFailed("active Play has no status")),
        },
    }
}

/// Decides what to do with the result of a Job that is over, by the run's own record.
pub fn decide_finish(own: Option<&Play>) -> (res: Result<FinishStep, ReconcileError>)
    ensures
        res == finish_step(own),
{
    match own {
        Some(play) => match play_is_running_attempt(play) {
            Ok(true) => Ok(FinishStep::Record),
            Ok(false) => Ok(FinishStep::Wait),
            Err(error) => Err(error),
        },
        None => Ok(FinishStep::Lost),
    }
}

// --- what comes next -------------------------------------------------------------------------

/// What a plan becomes when a run is over.
#[derive(Debug, Clone, PartialEq, Eq)]
pub struct TerminalOutcome {
    pub phase: Phase,
    pub next_run: Option<Timestamp>,
    pub summary: String,
    pub requeue: Option<Delay>,
}

/// How many of a plan's hosts are where they should be.
pub open spec fn progress(outdated: nat, total: nat) -> Seq<char> {
    let of_total = "/"@ + numerals::numeral(total, 10);
    if outdated == 0 {
        numerals::numeral(total, 10) + of_total + " up-to-date"@
    } else {
        numerals::numeral(outdated, 10) + of_total + " outdated"@
    }
}

/// The phase of a plan whose run is over.
pub open spec fn next_phase(mode: ExecutionMode, has_next: bool, outdated: nat) -> Phase {
    match mode {
        ExecutionMode::OneShot => if outdated == 0 {
            Phase::Succeeded
        } else {
            Phase::Failed
        },
        ExecutionMode::Recurring => if has_next {
            Phase::Scheduled
        } else {
            Phase::Applying
        },
    }
}

/// When a plan whose run is over is looked at again: at its next slot, if it recurs and has one.
pub open spec fn requeue_of(mode: ExecutionMode, next: Option<Timestamp>, now: Timestamp) -> Option<
    Delay,
> {
    match (mode, next) {
        (ExecutionMode::Recurring, Some(next)) => timing::delay(now, next),
        _ => None,
    }
}

/// Whether this is what a plan becomes: one that applies once has succeeded or failed by its hosts and
/// never runs again; one that recurs goes on to its next slot, or, without a schedule, nowhere.
pub open spec fn is_terminal(
    res: TerminalOutcome,
    mode: ExecutionMode,
    next: Option<Timestamp>,
    outdated: nat,
    total: nat,
    now: Timestamp,
) -> bool {
    &&& res.phase == next_phase(mode, next is Some, outdated)
    &&& res.summary@ == progress(outdated, total)
    &&& res.requeue == requeue_of(mode, next, now)
    &&& res.next_run == if mode is Recurring {
        next
    } else {
        None
    }
}

fn progress_text(outdated: usize, total: usize) -> (res: String)
    ensures
        res@ == progress(outdated as nat, total as nat),
{
    let total_text = decimal(total as u64);
    let of_total = concat("/", total_text.as_str());
    if outdated == 0 {
        concat3(total_text.as_str(), of_total.as_str(), " up-to-date")
    } else {
        let outdated_text = decimal(outdated as u64);
        concat3(outdated_text.as_str(), of_total.as_str(), " outdated")
    }
}

/// Decides what a plan becomes when a run is over. `next` is the next slot of a plan that has a
/// schedule.
pub fn decide_terminal(
    mode: &ExecutionMode,
    next: Option<Timestamp>,
    outdated_count: usize,
    total_count: usize,
    now: Timestamp,
) -> (res: TerminalOutcome)
    ensures
        is_terminal(res, *mode, next, outdated_count as nat, total_count as nat, now),
{
    let summary = progress_text(outdated_count, total_count);
    match mode {
        ExecutionMode::OneShot => TerminalOutcome {
            phase: if outdated_count == 0 {
                Phase::Succeeded
            } else {
                Phase::Failed
            },
            next_run: None,
            summary,
            requeue: None,
        },
        ExecutionMode::Recurring => match next {
            Some(next) => TerminalOutcome {
                phase: Phase::Scheduled,
                next_run: Some(next),
                summary,
                requeue: delay_until(now, next),
            },
            None => TerminalOutcome { phase: Phase::Applying, next_run: None, summary, requeue: None },
        },
    }
}

/// How many hosts a plan targets, each counted once.
pub open spec fn host_count(status: PlaybookPlanStatus) -> nat {
    ansible_inventory::distinct(ansible_inventory::all_hosts(status.eligible_hosts@)).len()
}

/// How many of a plan's hosts are not on a revision, each counted once.
pub open spec fn outdated_count(status: PlaybookPlanStatus, hash: ExecutionHash) -> nat {
    ansible_inventory::distinct(
        ansible_inventory::all_hosts(status.eligible_hosts@),
    ).filter(execution_evaluator::needs_run(status.hosts_status, hash)).len()
}

/// A summary counts the outdated hosts out of the same hosts it gives the number of.
pub proof fn no_more_hosts_are_outdated_than_targeted(
    status: PlaybookPlanStatus,
    hash: ExecutionHash,
)
    ensures
        outdated_count(status, hash) <= host_count(status),
{
    ansible_inventory::distinct(
        ansible_inventory::all_hosts(status.eligible_hosts@),
    ).lemma_filter_len(execution_evaluator::needs_run(status.hosts_status, hash));
}

/// Whether this is what a plan becomes, and when it is looked at again, once a run is over.
pub open spec fn is_completed(
    status: PlaybookPlanStatus,
    requeue: Option<Delay>,
    before: PlaybookPlanStatus,
    mode: ExecutionMode,
    hash: ExecutionHash,
    next: Option<Timestamp>,
    now: Timestamp,
) -> bool {
    &&& status.summary is Some
    &&& status == (PlaybookPlanStatus {
        summary: status.summary,
        phase: status.phase,
        next_run: status.next_run,
        ..before
    })
    &&& is_terminal(
        (TerminalOutcome {
            phase: status.phase,
            next_run: status.next_run,
            summary: status.summary->0,
            requeue,
        }),
        mode,
        next,
        outdated_count(before, hash),
        host_count(before),
        now,
    )
}

/// Notes on a plan's status that a run is over, once what became of its hosts is noted there.
pub fn complete_run(
    status: &mut PlaybookPlanStatus,
    mode: &ExecutionMode,
    execution_hash: &ExecutionHash,
    next: Option<Timestamp>,
    now: Timestamp,
) -> (res: Option<Delay>)
    ensures
        is_completed(*final(status), res, *old(status), *mode, *execution_hash, next, now),
{
    let total = distinct_host_count(&status.eligible_hosts);
    let outdated = find_outdated_hosts(status, execution_hash);
    assert(text::texts(outdated@).len() == outdated@.len());
    let outcome = decide_terminal(mode, next, outdated.len(), total, now);
    status.summary = Some(outcome.summary);
    status.phase = outcome.phase;
    status.next_run = outcome.next_run;
    outcome.requeue
}

// --- letting go of a run ---------------------------------------------------------------------

/// A status that mirrors no run.
pub open spec fn unmirrored(status: PlaybookPlanStatus) -> PlaybookPlanStatus {
    PlaybookPlanStatus { active_run: None, current_job_name: None, ..status }
}

/// Whether this is a plan's status once a run that was given up is let go of. A plan that mirrors it
/// starts afresh; one that mirrors another goes on with that.
pub open spec fn is_abandoned(
    status: PlaybookPlanStatus,
    before: PlaybookPlanStatus,
    run: RecordedRun,
) -> bool {
    &&& status.summary is Some
    &&& status.summary->0@ == "released the abandoned run "@ + run.mirror.job_name@
    &&& status == if run_identity::mirrors(before, run) {
        PlaybookPlanStatus {
            phase: Phase::Pending,
            summary: status.summary,
            ..unmirrored(before)
        }
    } else {
        PlaybookPlanStatus { summary: status.summary, ..before }
    }
}

/// Lets go of a run that was given up.
pub fn abandon_run(status: &mut PlaybookPlanStatus, run: &RecordedRun)
    ensures
        is_abandoned(*final(status), *old(status), *run),
{
    if mirrors_run(status, run) {
        status.active_run = None;
        status.current_job_name = None;
        status.phase = Phase::Pending;
    }
    status.summary = Some(concat("released the abandoned run ", run.mirror.job_name.as_str()));
}

/// Lets go of a run whose record is gone: nothing is left to tell the plan by.
pub fn release_lost_run(status: &mut PlaybookPlanStatus)
    ensures
        *final(status) == (PlaybookPlanStatus { phase: Phase::Pending, ..unmirrored(*old(status)) }),
{
    status.active_run = None;
    status.current_job_name = None;
    status.phase = Phase::Pending;
}

/// Whether this is a plan's status once a run that is over is let go of, and when the plan is looked
/// at again. The plan is over with it, unless another attempt survives or the plan mirrors another run.
pub open spec fn is_finalized(
    status: PlaybookPlanStatus,
    requeue: Option<Delay>,
    before: PlaybookPlanStatus,
    mode: ExecutionMode,
    run: RecordedRun,
    another_survives: bool,
    next: Option<Timestamp>,
    now: Timestamp,
) -> bool {
    if another_survives || !run_identity::mirrors(before, run) {
        status == before && requeue is None
    } else {
        is_completed(status, requeue, unmirrored(before), mode, run.execution_hash, next, now)
    }
}

/// Lets go of a run that is over, once what became of its hosts is on the status.
pub fn finalize_finished_run(
    status: &mut PlaybookPlanStatus,
    mode: &ExecutionMode,
    run: &RecordedRun,
    another_survives: bool,
    next: Option<Timestamp>,
    now: Timestamp,
) -> (res: Option<Delay>)
    ensures
        is_finalized(
            *final(status),
            res,
            *old(status),
            *mode,
            *run,
            another_survives,
            next,
            now,
        ),
{
    if another_survives || !mirrors_run(status, run) {
        return None;
    }
    status.active_run = None;
    status.current_job_name = None;
    complete_run(status, mode, &run.execution_hash, next, now)
}

// --- laws ------------------------------------------------------------------------------------

/// A plan that applies once is over when its run is, and never runs again by itself.
pub proof fn a_one_shot_plan_ends(
    res: TerminalOutcome,
    next: Option<Timestamp>,
    outdated: nat,
    total: nat,
    now: Timestamp,
)
    requires
        is_terminal(res, ExecutionMode::OneShot, next, outdated, total, now),
    ensures
        res.phase is Succeeded <==> outdated == 0,
        res.phase is Failed <==> outdated > 0,
        res.next_run is None,
        res.requeue is None,
{
}

/// Nothing that another run's Job left is taken for what became of a run.
pub proof fn a_foreign_recap_is_not_trusted(
    job: &Job,
    pods: Seq<ObservedPod>,
    plan: PlaybookPlan,
    run: RecordedRun,
)
    requires
        !is_own_job(*job, plan, run),
    ensures
        trusted_message(Some(job), pods, plan, run) is None,
{
}

/// A run whose Job is gone is over, so that a Job that was cleaned up does not keep its plan waiting.
pub proof fn a_reaped_job_ends_its_run(res: Advance, status: PlaybookPlanStatus, finished: bool)
    requires
        status.current_job_name is Some,
        is_advance(res, status, None, finished),
    ensures
        res is Finish,
{
}

// --- what a finished run leaves --------------------------------------------------------------

/// A recurring plan waits for its next run and wakes at that very instant; without one it stays as it was
/// applying. A plan that runs once is done exactly where no host is left to run on.
pub proof fn a_plan_ends_by_its_mode(
    res: TerminalOutcome,
    mode: ExecutionMode,
    next: Option<Timestamp>,
    outdated: nat,
    total: nat,
    now: Timestamp,
)
    requires
        is_terminal(res, mode, next, outdated, total, now),
    ensures
        mode is Recurring && next is Some ==> res.phase is Scheduled && res.next_run == next
            && res.requeue == timing::delay(now, next->0),
        mode is Recurring && next is None ==> res.phase is Applying && res.next_run is None
            && res.requeue is None,
        mode is OneShot && outdated == 0 ==> res.phase is Succeeded,
        mode is OneShot && outdated > 0 ==> res.phase is Failed,
        mode is OneShot ==> res.next_run is None && res.requeue is None,
        outdated == 0 ==> res.summary@ == numerals::numeral(total, 10) + ("/"@ + numerals::numeral(
            total,
            10,
        )) + " up-to-date"@,
        outdated > 0 ==> res.summary@ == numerals::numeral(outdated, 10) + ("/"@ + numerals::numeral(
            total,
            10,
        )) + " outdated"@,
{
}

/// A finished run is off its plan's status, which says how far the plan now is; everything else stays.
pub proof fn a_finished_run_leaves_its_plan(
    status: PlaybookPlanStatus,
    requeue: Option<Delay>,
    before: PlaybookPlanStatus,
    mode: ExecutionMode,
    run: RecordedRun,
    another_survives: bool,
    next: Option<Timestamp>,
    now: Timestamp,
)
    requires
        is_finalized(status, requeue, before, mode, run, another_survives, next, now),
    ensures
        another_survives ==> status == before && requeue is None,
        before.active_run is Some && before.active_run->0.play_uid@ != run.mirror.play_uid@ ==> status
            == before && requeue is None,
        !another_survives && (before.active_run is None || before.active_run->0.play_uid@
            == run.mirror.play_uid@) ==> status.active_run is None && status.current_job_name is None
            && status.summary is Some && status.hosts_status == before.hosts_status
            && status.retry_count == before.retry_count && status.current_hash == before.current_hash
            && status.eligible_hosts == before.eligible_hosts && (mode is OneShot ==> status.next_run
            is None && (status.phase is Succeeded || status.phase is Failed)) && (mode is Recurring
            ==> status.next_run == next),
{
}

/// A plan that runs once succeeded exactly where every target is recorded at the run's revision.
pub proof fn a_plan_succeeds_with_its_hosts(
    status: PlaybookPlanStatus,
    requeue: Option<Delay>,
    before: PlaybookPlanStatus,
    run: RecordedRun,
    next: Option<Timestamp>,
    now: Timestamp,
)
    requires
        is_finalized(status, requeue, before, ExecutionMode::OneShot, run, false, next, now),
        before.active_run is None || before.active_run->0.play_uid@ == run.mirror.play_uid@,
    ensures
        status.phase is Succeeded <==> forall|host: Seq<char>| #[trigger]
            ansible_inventory::all_hosts(before.eligible_hosts@).contains(host)
                ==> !execution_evaluator::needs_run(before.hosts_status, run.execution_hash)(host),
{
    let all = ansible_inventory::all_hosts(before.eligible_hosts@);
    let each = ansible_inventory::distinct(all);
    let p = execution_evaluator::needs_run(before.hosts_status, run.execution_hash);
    let left = each.filter(p);
    ansible_inventory::distinct_keeps_each_once(all);
    assert(status.phase is Succeeded <==> left.len() == 0);
    if left.len() > 0 {
        assert(left.contains(left[0]));
        crate::seqs::lemma_filter_contains(each, p, left[0]);
        assert(all.contains(left[0]));
    } else {
        assert forall|host: Seq<char>| #[trigger] all.contains(host) implies !p(host) by {
            crate::seqs::lemma_filter_contains(each, p, host);
        }
    }
}

/// A run that was given up is off its plan's status and leaves it to start anew, unless the plan has moved on
/// to another.
pub proof fn a_run_given_up_leaves_its_plan(
    status: PlaybookPlanStatus,
    before: PlaybookPlanStatus,
    run: RecordedRun,
)
    requires
        is_abandoned(status, before, run),
    ensures
        status.summary is Some && status.summary->0@ == "released the abandoned run "@
            + run.mirror.job_name@,
        before.active_run is None || before.active_run->0.play_uid@ == run.mirror.play_uid@
            ==> status.phase is Pending && status.active_run is None && status.current_job_name
            is None,
        before.active_run is Some && before.active_run->0.play_uid@ != run.mirror.play_uid@
            ==> status.phase == before.phase && status.active_run == before.active_run
            && status.current_job_name == before.current_job_name,
        status.hosts_status == before.hosts_status && status.retry_count == before.retry_count
            && status.current_hash == before.current_hash && status.last_triggered_run
            == before.last_triggered_run,
{
}

/// A run with a Job that goes on is looked at again after a quarter of a minute, and is over once its Job is.
pub proof fn a_run_goes_on_as_long_as_its_job(
    res: Advance,
    status: PlaybookPlanStatus,
    job: Job,
    finished: bool,
)
    requires
        is_advance(res, status, Some(&job), finished),
    ensures
        status.current_job_name is None ==> res is Stay,
        status.current_job_name is Some && !finished ==> res is Renew && res->Renew_0
            == timing::seconds(15),
        status.current_job_name is Some && finished ==> res is Finish && res->job_present,
        status.current_job_name is Some && finished && run_identity::text_under(
            job.metadata.labels,
            "ansible.cloudbending.dev/run-id"@,
        ) is Some ==> res->run_id@ == run_identity::text_under(
            job.metadata.labels,
            "ansible.cloudbending.dev/run-id"@,
        )->0,
{
}

// --- where the recap comes from --------------------------------------------------------------

/// The message of a Pod is that of its first container of the playbook's name, if that has ended.
pub proof fn a_pods_message_is_its_playbook_containers(statuses: Seq<ContainerStatus>, i: int)
    requires
        0 <= i < statuses.len(),
        statuses[i].name@ == ANSIBLE_CONTAINER_NAME@,
        forall|k: int| 0 <= k < i ==> (#[trigger] statuses[k]).name@ != ANSIBLE_CONTAINER_NAME@,
    ensures
        statuses[i].terminated matches Some(message) ==> container_message(statuses) == text::text_of(
            message,
        ),
        statuses[i].terminated is None ==> container_message(statuses) is None,
    decreases i,
{
    if i > 0 {
        assert(statuses[0].name@ != ANSIBLE_CONTAINER_NAME@);
        let rest = statuses.drop_first();
        assert forall|k: int| 0 <= k < i - 1 implies (#[trigger] rest[k]).name@
            != ANSIBLE_CONTAINER_NAME@ by {
            assert(rest[k] == statuses[k + 1]);
        }
        a_pods_message_is_its_playbook_containers(rest, i - 1);
    }
}

/// Other containers say nothing.
pub proof fn other_containers_say_nothing(statuses: Seq<ContainerStatus>)
    requires
        forall|k: int|
            0 <= k < statuses.len() ==> (#[trigger] statuses[k]).name@ != ANSIBLE_CONTAINER_NAME@,
    ensures
        container_message(statuses) is None,
    decreases statuses.len(),
{
    if statuses.len() > 0 {
        assert(statuses[0].name@ != ANSIBLE_CONTAINER_NAME@);
        let rest = statuses.drop_first();
        assert forall|k: int| 0 <= k < rest.len() implies (#[trigger] rest[k]).name@
            != ANSIBLE_CONTAINER_NAME@ by {
            assert(rest[k] == statuses[k + 1]);
        }
        other_containers_say_nothing(rest);
    }
}

/// The recap is trusted where the Job is the run's own, and is read from the first Pod of that Job that left
/// one, whatever other Pods there are.
pub proof fn a_recap_is_read_from_the_jobs_own_pod(
    job: &Job,
    pods: Seq<ObservedPod>,
    plan: PlaybookPlan,
    run: RecordedRun,
    i: int,
)
    requires
        is_own_job(*job, plan, run),
        0 <= i < pods.len(),
        run_identity::pod_of(pods[i], *job),
        message_of(pods[i]) is Some,
        forall|k: int|
            0 <= k < i ==> !run_identity::pod_of(#[trigger] pods[k], *job) || message_of(pods[k])
                is None,
    ensures
        trusted_message(Some(job), pods, plan, run) == message_of(pods[i]),
        trusted_message(None, pods, plan, run) is None,
{
    lemma_first_own(pods, *job, i);
}

proof fn lemma_first_own(pods: Seq<ObservedPod>, job: Job, i: int)
    requires
        0 <= i < pods.len(),
        run_identity::pod_of(pods[i], job),
        message_of(pods[i]) is Some,
        forall|k: int|
            0 <= k < i ==> !run_identity::pod_of(#[trigger] pods[k], job) || message_of(pods[k])
                is None,
    ensures
        first_own_message(pods, job) == message_of(pods[i]),
    decreases i,
{
    if i > 0 {
        let rest = pods.drop_first();
        assert(!run_identity::pod_of(pods[0], job) || message_of(pods[0]) is None);
        assert forall|k: int| 0 <= k < i - 1 implies !run_identity::pod_of(#[trigger] rest[k], job)
            || message_of(rest[k]) is None by {
            assert(rest[k] == pods[k + 1]);
        }
        lemma_first_own(rest, job, i - 1);
    }
}

/// Of several Pods the first that left a message is read.
pub proof fn the_first_message_is_read(pods: Seq<ObservedPod>, i: int)
    requires
        0 <= i < pods.len(),
        message_of(pods[i]) is Some,
        forall|k: int| 0 <= k < i ==> message_of(#[trigger] pods[k]) is None,
    ensures
        first_message(pods) == message_of(pods[i]),
    decreases i,
{
    if i > 0 {
        let rest = pods.drop_first();
        assert(message_of(pods[0]) is None);
        assert forall|k: int| 0 <= k < i - 1 implies message_of(#[trigger] rest[k]) is None by {
            assert(rest[k] == pods[k + 1]);
        }
        the_first_message_is_read(rest, i - 1);
    }
}

/// The result of a Job goes onto the run's record while that says the run goes on, is left to the record once
/// that says anything else, and is lost where the record is.
pub proof fn a_result_goes_onto_a_running_record(play: Play, status: crate::plans::PlayStatus)
    requires
        play.status == Some(status),
    ensures
        status.phase is Running ==> finish_step(Some(&play)) == Ok::<FinishStep, ReconcileError>(
            FinishStep::Record,
        ),
        !(status.phase is Running) ==> finish_step(Some(&play)) == Ok::<FinishStep, ReconcileError>(
            FinishStep::Wait,
        ),
        finish_step(None) == Ok::<FinishStep, ReconcileError>(FinishStep::Lost),
{
}

/// A run whose Job is gone is over, and nothing says which attempt it was.
pub proof fn a_gone_job_says_no_attempt(res: Advance, status: PlaybookPlanStatus, finished: bool)
    requires
        is_advance(res, status, None, finished),
    ensures
        status.current_job_name is None ==> res is Stay,
        status.current_job_name is Some ==> res is Finish && !res->job_present && res->run_id@.len()
            == 0,
{
}

/// A message is read as the recap it carries, host by host, and as none where it carries none.
pub proof fn a_message_is_read_as_its_recap(
    res: Option<CallbackOutput>,
    message: Seq<char>,
    bytes: Seq<u8>,
    entries: Seq<(Seq<char>, Seq<u32>)>,
)
    requires
        is_recap(res, Some(message)),
    ensures
        callback_output::recap_bytes(message) == Some(bytes) && callback_output::json_recap(bytes)
            == Some(entries) ==> res is Some && res->0.processed@ == callback_output::recap_of(
            entries,
        ),
        callback_output::recap_bytes(message) == Some(bytes) && callback_output::json_recap(bytes)
            is None ==> res is None,
        callback_output::recap_bytes(message) is None ==> res is None,
{
}

/// Without a message there is no recap.
pub proof fn no_message_no_recap(res: Option<CallbackOutput>)
    requires
        is_recap(res, None),
    ensures
        res is None,
{
}

} // verus!
