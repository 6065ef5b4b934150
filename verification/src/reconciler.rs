//! What one look at a plan comes to: whether it may run at all, what it would run, and when.

use vstd::prelude::*;
use crate::ansible_inventory;
use crate::ansible_inventory::{flatten_hosts, ResolvedHosts, ResolvedInventoryGroup};
use crate::execution_evaluator;
use crate::execution_evaluator::{find_all_hosts, find_outdated_hosts, ExecutionHash};
use crate::mappers;
use crate::mappers::attempt_budget_available;
use crate::node_readiness;
use crate::node_readiness::holds_for_unready_nodes;
use crate::numerals;
use crate::numerals::decimal;
use crate::plans::{
    ExecutionMode, Phase, PlaybookPlan, PlaybookPlanStatus, ReconcileError, Timestamp,
    MAX_PLAN_NAME_LEN,
};
use crate::recovery;
use crate::recovery::{adopt_recovered_attempt, RecoveredRun};
use crate::run_identity::{namespace_and_name, plan_name_within_label_limit};
use crate::run_inventory;
use crate::run_inventory::filter_groups_to_hosts;
use crate::text;
use crate::text::{concat, concat3, contains_text, text_eq, to_chars};
use crate::timing;
use crate::timing::{delay_seconds, delay_until, slot_already_triggered, Delay, Timing};
use crate::workloads::EgressRule;

verus! {

/// How long after a slot began its run may still start, where the plan does not say.
pub const DEFAULT_STARTING_DEADLINE_SECONDS: u32 = 30;

/// When a plan is looked at again, where nothing asks for it earlier.
pub const DEFAULT_REQUEUE_SECONDS: u64 = 3600;

/// What an administrator allows the pods of a run to reach. Where nothing is configured, no policy is
/// created.
pub struct WorkloadEgressPolicies {
    pub playbook: Option<Vec<EgressRule>>,
    pub managed_ssh: Option<Vec<EgressRule>>,
}

/// How long after a slot began its run may still start.
pub fn starting_deadline_seconds(plan: &PlaybookPlan) -> (res: u32)
    ensures
        res == match plan.spec.starting_deadline_seconds {
            Some(seconds) => seconds,
            None => DEFAULT_STARTING_DEADLINE_SECONDS,
        },
{
    match plan.spec.starting_deadline_seconds {
        Some(seconds) => seconds,
        None => DEFAULT_STARTING_DEADLINE_SECONDS,
    }
}

// --- admission -------------------------------------------------------------------------------

/// Why a plan is refused, as its status says it.
#[derive(Debug, Clone, PartialEq, Eq)]
pub struct Refusal {
    pub phase: Phase,
    pub summary: String,
}

/// Whether a plan is looked at further.
#[derive(Debug, Clone, PartialEq, Eq)]
pub enum Admission {
    /// It is being deleted.
    Deleted,
    /// It can never run, which is reported unless its status already has that phase. Nothing but a
    /// change of the plan or a restart makes a difference, so it is not looked at again.
    Refused(Option<Refusal>),
    Admitted,
}

/// The phase a plan reports.
pub open spec fn reported_phase(plan: PlaybookPlan) -> Option<Phase> {
    match plan.status {
        Some(status) => Some(status.phase),
        None => None,
    }
}

/// What a plan outside the enrolled namespaces says of itself.
pub open spec fn unenrolled_summary(namespace: Seq<char>) -> Seq<char> {
    "namespace '"@ + namespace
        + "' is not enrolled for ansible-operator (not in watchNamespaces); an administrator must enroll it"@
}

/// What a plan with too long a name says of itself.
pub open spec fn long_name_summary(name: Seq<char>) -> Seq<char> {
    "name is "@ + numerals::numeral(name.len(), 10)
        + " characters; a PlaybookPlan name must be at most "@ + numerals::numeral(
        MAX_PLAN_NAME_LEN as nat,
        10,
    )
        + " because it is used as a label value on the objects each run creates. Recreate the plan under a shorter name"@
}

/// Whether this is the report of a refusal: none where the phase is already reported.
pub open spec fn is_refusal(
    res: Option<Refusal>,
    reported: Option<Phase>,
    phase: Phase,
    summary: Seq<char>,
) -> bool {
    if reported == Some(phase) {
        res is None
    } else {
        res is Some && res->0.phase == phase && res->0.summary@ == summary
    }
}

fn is_reported(plan: &PlaybookPlan, phase: Phase) -> (res: bool)
    ensures
        res == (reported_phase(*plan) == Some(phase)),
{
    match &plan.status {
        Some(status) => status.phase == phase,
        None => false,
    }
}

fn long_name_text(name: &str) -> (res: String)
    ensures
        res@ == long_name_summary(name@),
{
    let length = decimal(to_chars(name).len() as u64);
    let limit = decimal(MAX_PLAN_NAME_LEN as u64);
    let head = concat3(
        "name is ",
        length.as_str(),
        " characters; a PlaybookPlan name must be at most ",
    );
    concat3(
        head.as_str(),
        limit.as_str(),
        " because it is used as a label value on the objects each run creates. Recreate the plan under a shorter name",
    )
}

/// Whether a plan is looked at further. One outside the enrolled namespaces, or whose name fits no
/// label, is refused before anything is read or created for it.
pub fn check_admission(plan: &PlaybookPlan, enrolled_namespaces: &[String]) -> (res: Result<
    Admission,
    ReconcileError,
>)
    ensures
        plan.metadata.deletion_timestamp is Some ==> res == Ok::<Admission, ReconcileError>(
            Admission::Deleted,
        ),
        plan.metadata.deletion_timestamp is None ==> match res {
            Err(error) => if plan.metadata.namespace is None {
                error == ReconcileError::PreconditionFailed("namespace not set")
            } else {
                plan.metadata.name is None && error == ReconcileError::PreconditionFailed(
                    "name not set",
                )
            },
            Ok(admission) => {
                let namespace = plan.metadata.namespace->0@;
                let name = plan.metadata.name->0@;
                &&& plan.metadata.namespace is Some
                &&& plan.metadata.name is Some
                &&& if !text::texts(enrolled_namespaces@).contains(namespace) {
                    admission matches Admission::Refused(refusal) && is_refusal(
                        refusal,
                        reported_phase(*plan),
                        Phase::UnauthorizedNamespace,
                        unenrolled_summary(namespace),
                    )
                } else if name.len() > MAX_PLAN_NAME_LEN {
                    admission matches Admission::Refused(refusal) && is_refusal(
                        refusal,
                        reported_phase(*plan),
                        Phase::Failed,
                        long_name_summary(name),
                    )
                } else {
                    admission is Admitted
                }
            },
        },
{
    if plan.metadata.deletion_timestamp.is_some() {
        return Ok(Admission::Deleted);
    }
    let (namespace, name) = match namespace_and_name(plan) {
        Ok(names) => names,
        Err(error) => {
            return Err(error);
        },
    };
    if !contains_text(enrolled_namespaces, namespace) {
        if is_reported(plan, Phase::UnauthorizedNamespace) {
            return Ok(Admission::Refused(None));
        }
        let summary = concat3(
            "namespace '",
            namespace,
            "' is not enrolled for ansible-operator (not in watchNamespaces); an administrator must enroll it",
        );
        return Ok(
            Admission::Refused(Some(Refusal { phase: Phase::UnauthorizedNamespace, summary })),
        );
    }
    if !plan_name_within_label_limit(name) {
        if is_reported(plan, Phase::Failed) {
            return Ok(Admission::Refused(None));
        }
        return Ok(
            Admission::Refused(
                Some(Refusal { phase: Phase::Failed, summary: long_name_text(name) }),
            ),
        );
    }
    Ok(Admission::Admitted)
}

/// Puts a refusal onto the status of its plan, which otherwise stays what it is.
pub fn report_refusal(status: &mut PlaybookPlanStatus, refusal: Refusal)
    ensures
        *final(status) == (PlaybookPlanStatus {
            phase: refusal.phase,
            summary: Some(refusal.summary),
            ..*old(status)
        }),
{
    status.phase = refusal.phase;
    status.summary = Some(refusal.summary);
}

/// Puts a failed recovery onto the status of its plan, where it would otherwise be seen nowhere.
pub fn report_recovery_failure(status: &mut PlaybookPlanStatus, error: &str)
    ensures
        final(status).summary is Some,
        final(status).summary->0@ == "run recovery failed: "@ + error@,
        *final(status) == (PlaybookPlanStatus { summary: final(status).summary, ..*old(status) }),
{
    status.summary = Some(concat("run recovery failed: ", error));
}

/// Puts a failure to give back what a finished run was given onto the status of its plan, where it
/// would otherwise be seen nowhere.
pub fn report_failed_finalization(status: &mut PlaybookPlanStatus, error: &str)
    ensures
        final(status).summary is Some,
        final(status).summary->0@ == "run finalization failed: "@ + error@,
        *final(status) == (PlaybookPlanStatus { summary: final(status).summary, ..*old(status) }),
{
    status.summary = Some(concat("run finalization failed: ", error));
}

/// Puts what was found of a plan's run back onto its status: a run that is still to be driven is
/// driven again, and one that is over or given up leaves the status alone.
pub fn take_up(status: &mut PlaybookPlanStatus, recovered: &RecoveredRun)
    ensures
        match *recovered {
            RecoveredRun::Active(run) => recovery::is_adopted(
                *final(status),
                *old(status),
                run.mirror,
            ),
            RecoveredRun::Unlaunched(unlaunched) => recovery::is_adopted(
                *final(status),
                *old(status),
                unlaunched.run.mirror,
            ),
            _ => *final(status) == *old(status),
        },
{
    match recovered {
        RecoveredRun::Active(run) => {
            adopt_recovered_attempt(status, &run.mirror);
        },
        RecoveredRun::Unlaunched(unlaunched) => {
            adopt_recovered_attempt(status, &unlaunched.run.mirror);
        },
        _ => {},
    }
}

// --- what a plan would run -------------------------------------------------------------------

/// Whether a status is what another becomes when a revision is desired: a new one starts over, with
/// its attempts uncounted and no slot used.
pub open spec fn observes(
    status: PlaybookPlanStatus,
    before: PlaybookPlanStatus,
    hash: ExecutionHash,
) -> bool {
    let revision = numerals::numeral(hash.0 as nat, 16);
    if before.current_hash@ == revision {
        status == before
    } else {
        &&& status.current_hash@ == revision
        &&& status == (PlaybookPlanStatus {
            phase: Phase::Pending,
            current_hash: status.current_hash,
            retry_count: 0,
            last_triggered_run: None,
            ..before
        })
    }
}

/// Notes the revision a plan desires.
pub fn observe_revision(status: &mut PlaybookPlanStatus, execution_hash: &ExecutionHash)
    ensures
        observes(*final(status), *old(status), *execution_hash),
{
    let revision = execution_hash.to_text();
    if !text_eq(status.current_hash.as_str(), revision.as_str()) {
        status.phase = Phase::Pending;
        status.current_hash = revision;
        status.retry_count = 0;
        status.last_triggered_run = None;
    }
}

/// What a run would be, as of one look at its plan.
pub struct RunContext {
    pub execution_hash: ExecutionHash,
    pub hosts_to_trigger: Vec<String>,
    /// The inventory of those hosts, by the groups its author made.
    pub run_groups: Vec<ResolvedInventoryGroup>,
    /// Who holds the locks of the run's hosts.
    pub holder_identity: String,
}

/// Whether host lists are those of the groups, each with how it is reached.
pub open spec fn is_flattened(hosts: Seq<ResolvedHosts>, groups: Seq<ResolvedInventoryGroup>) -> bool {
    &&& hosts.len() == groups.len()
    &&& forall|i: int|
        0 <= i < groups.len() ==> (#[trigger] hosts[i]).name == groups[i].hosts_of().name
            && hosts[i].hosts@ == groups[i].hosts_of().hosts@ && hosts[i].connection == Some(
            groups[i].connection_of(),
        )
}

/// The hosts a run triggers: those that are not on the revision, or all of them in a recurring plan.
pub open spec fn triggers(mode: ExecutionMode, status: PlaybookPlanStatus, hash: ExecutionHash) -> Seq<
    Seq<char>,
> {
    let all = ansible_inventory::distinct(ansible_inventory::all_hosts(status.eligible_hosts@));
    match mode {
        ExecutionMode::OneShot => all.filter(
            execution_evaluator::needs_run(status.hosts_status, hash),
        ),
        ExecutionMode::Recurring => all,
    }
}

/// Who holds the locks of a run's hosts: its plan, at its revision.
pub open spec fn holder(namespace: Seq<char>, name: Seq<char>, hash: ExecutionHash) -> Seq<char> {
    namespace + "/"@ + name + "/"@ + numerals::numeral(hash.0 as nat, 16)
}

/// Who holds the locks of a run's hosts.
pub fn holder_identity(namespace: &str, name: &str, execution_hash: &ExecutionHash) -> (res: String)
    ensures
        res@ == holder(namespace@, name@, *execution_hash),
{
    let plan = concat3(namespace, "/", name);
    let revision = execution_hash.to_text();
    concat3(plan.as_str(), "/", revision.as_str())
}

/// Whether this is what a plan would run on its resolved inventory, and its status once it targets the
/// hosts of that and desires the revision.
pub open spec fn is_planned(
    status: PlaybookPlanStatus,
    run: RunContext,
    before: PlaybookPlanStatus,
    mode: ExecutionMode,
    namespace: Seq<char>,
    name: Seq<char>,
    target_groups: Seq<ResolvedInventoryGroup>,
    execution_hash: ExecutionHash,
) -> bool {
    &&& is_flattened(status.eligible_hosts@, target_groups)
    &&& observes(
        status,
        (PlaybookPlanStatus { eligible_hosts: status.eligible_hosts, ..before }),
        execution_hash,
    )
    &&& run.execution_hash == execution_hash
    &&& text::texts(run.hosts_to_trigger@) == triggers(mode, status, execution_hash)
    &&& run_inventory::narrowed_groups(
        run.run_groups@,
        target_groups,
        text::texts(run.hosts_to_trigger@),
    )
    &&& run.holder_identity@ == holder(namespace, name, execution_hash)
}

/// Works out what a plan would run on its resolved inventory, and notes on its status the hosts it
/// targets and the revision it desires.
pub fn plan_run(
    status: &mut PlaybookPlanStatus,
    mode: ExecutionMode,
    namespace: &str,
    name: &str,
    target_groups: &[ResolvedInventoryGroup],
    execution_hash: ExecutionHash,
) -> (res: RunContext)
    ensures
        is_planned(
            *final(status),
            res,
            *old(status),
            mode,
            namespace@,
            name@,
            target_groups@,
            execution_hash,
        ),
{
    status.eligible_hosts = flatten_hosts(target_groups);
    observe_revision(status, &execution_hash);
    let hosts_to_trigger = match mode {
        ExecutionMode::OneShot => find_outdated_hosts(status, &execution_hash),
        ExecutionMode::Recurring => find_all_hosts(status),
    };
    let run_groups = filter_groups_to_hosts(target_groups, &hosts_to_trigger);
    let holder_identity = holder_identity(namespace, name, &execution_hash);
    RunContext { execution_hash, hosts_to_trigger, run_groups, holder_identity }
}

// --- whether to start ------------------------------------------------------------------------

/// Whether a plan may start a run.
pub open spec fn eligible(suspended: bool, mode: ExecutionMode, has_schedule: bool, has_hosts: bool) -> bool {
    !suspended && has_hosts && (mode is Recurring ==> has_schedule)
}

/// Whether a plan may start a run: it is not suspended and has hosts to trigger, and it has a
/// schedule if it recurs, since nothing else would keep its runs apart.
pub fn is_eligible_to_start(
    suspended: bool,
    mode: &ExecutionMode,
    has_schedule: bool,
    has_hosts_to_trigger: bool,
) -> (res: bool)
    ensures
        res == eligible(suspended, *mode, has_schedule, has_hosts_to_trigger),
{
    !suspended && has_hosts_to_trigger && match mode {
        ExecutionMode::OneShot => true,
        ExecutionMode::Recurring => has_schedule,
    }
}

/// Whether a run has a cause: a host to trigger, an attempt left to make, and, in a plan that applies
/// once, a host that is not a Node which is not ready.
pub open spec fn has_cause(
    plan: PlaybookPlan,
    status: PlaybookPlanStatus,
    run: RunContext,
    unready: Seq<Seq<char>>,
) -> bool {
    &&& run.hosts_to_trigger@.len() > 0
    &&& mappers::budget_left(plan.spec.mode, status.retry_count, plan.spec.max_attempts)
    &&& !(plan.spec.mode is OneShot && unready.len() > 0 && node_readiness::all_unready(
        run.run_groups@,
        unready,
    ))
}

/// Whether a run has a cause.
pub fn cause_to_start(
    plan: &PlaybookPlan,
    status: &PlaybookPlanStatus,
    run: &RunContext,
    unready: &[String],
) -> (res: bool)
    ensures
        res == has_cause(*plan, *status, *run, text::texts(unready@)),
{
    run.hosts_to_trigger.len() > 0 && attempt_budget_available(
        plan.spec.mode,
        status.retry_count,
        plan.spec.max_attempts,
    ) && !holds_for_unready_nodes(&plan.spec.mode, &run.run_groups, unready)
}

/// What to do about starting a run.
#[derive(Debug, Clone, Copy, PartialEq, Eq)]
pub enum StartDecision {
    /// Nothing.
    Stay,
    /// Look again later.
    Sleep(Delay),
    /// Start a run, in this slot if there is one.
    Start { slot: Option<Timestamp> },
}

/// Whether a plan is about to start a run as soon as its schedule lets it.
pub open spec fn startable(plan: PlaybookPlan, status: PlaybookPlanStatus, has_hosts: bool) -> bool {
    eligible(plan.spec.suspend, plan.spec.mode, plan.spec.schedule is Some, has_hosts)
        && !(status.phase is Applying)
}

/// What to do about starting a run. A run starts where the schedule lets it, unless its slot has had
/// one; until then the plan sleeps.
pub open spec fn start_decision(
    before: PlaybookPlanStatus,
    plan: PlaybookPlan,
    has_hosts: bool,
    timing: Timing,
    next: Option<Timestamp>,
    now: Timestamp,
) -> StartDecision {
    if !startable(plan, before, has_hosts) {
        StartDecision::Stay
    } else {
        match timing {
            Timing::Delayed(until) => StartDecision::Sleep(timing::delay(now, until)->0),
            Timing::Now(slot) => if !timing::triggered(slot, before.last_triggered_run) {
                StartDecision::Start { slot }
            } else {
                match next {
                    Some(next) => StartDecision::Sleep(
                        match timing::delay(now, next) {
                            Some(delay) => delay,
                            None => timing::seconds(0),
                        },
                    ),
                    None => StartDecision::Stay,
                }
            },
        }
    }
}

/// What deciding about starting a run does to a plan's status: one that sleeps says until when.
pub open spec fn start_status(
    before: PlaybookPlanStatus,
    plan: PlaybookPlan,
    has_hosts: bool,
    timing: Timing,
    next: Option<Timestamp>,
) -> PlaybookPlanStatus {
    if !startable(plan, before, has_hosts) {
        before
    } else {
        match timing {
            Timing::Delayed(until) => PlaybookPlanStatus {
                phase: Phase::Scheduled,
                next_run: Some(until),
                ..before
            },
            Timing::Now(slot) => if timing::triggered(slot, before.last_triggered_run) && next
                is Some {
                PlaybookPlanStatus { next_run: next, ..before }
            } else {
                before
            },
        }
    }
}

/// Whether the schedule's answer can be waited for: what it delays to is not past.
pub open spec fn can_wait(timing: Timing, now: Timestamp) -> bool {
    timing matches Timing::Delayed(until) ==> timing::delay(now, until) is Some
}

/// Decides whether to start a run. `timing` is what the plan's schedule says about `now`, and `next`
/// the slot behind the current one, of a plan that has a schedule.
pub fn decide_start(
    status: &mut PlaybookPlanStatus,
    plan: &PlaybookPlan,
    has_hosts_to_trigger: bool,
    timing: Timing,
    next: Option<Timestamp>,
    now: Timestamp,
) -> (res: StartDecision)
    requires
        startable(*plan, *old(status), has_hosts_to_trigger) ==> can_wait(timing, now),
    ensures
        res == start_decision(*old(status), *plan, has_hosts_to_trigger, timing, next, now),
        *final(status) == start_status(*old(status), *plan, has_hosts_to_trigger, timing, next),
{
    if !is_eligible_to_start(
        plan.spec.suspend,
        &plan.spec.mode,
        plan.spec.schedule.is_some(),
        has_hosts_to_trigger,
    ) || status.phase == Phase::Applying {
        return StartDecision::Stay;
    }
    match timing {
        Timing::Delayed(until) => {
            status.phase = Phase::Scheduled;
            status.next_run = Some(until);
            match delay_until(now, until) {
                Some(delay) => StartDecision::Sleep(delay),
                None => StartDecision::Stay,
            }
        },
        Timing::Now(slot) => {
            if !slot_already_triggered(slot, status.last_triggered_run) {
                return StartDecision::Start { slot };
            }
            match next {
                Some(next) => {
                    status.next_run = Some(next);
                    match delay_until(now, next) {
                        Some(delay) => StartDecision::Sleep(delay),
                        None => StartDecision::Sleep(delay_seconds(0)),
                    }
                },
                None => StartDecision::Stay,
            }
        },
    }
}

/// Notes the slot in which a run has started.
pub fn note_started(status: &mut PlaybookPlanStatus, slot: Option<Timestamp>)
    ensures
        *final(status) == (PlaybookPlanStatus { last_triggered_run: slot, ..*old(status) }),
{
    status.last_triggered_run = slot;
}

/// A status as its plan shows it: a suspended plan advertises no next run.
pub open spec fn concluded(status: PlaybookPlanStatus, plan: PlaybookPlan) -> PlaybookPlanStatus {
    if plan.spec.suspend {
        PlaybookPlanStatus { next_run: None, ..status }
    } else {
        status
    }
}

/// Takes back the next run a suspended plan would advertise.
pub fn conclude(status: &mut PlaybookPlanStatus, plan: &PlaybookPlan)
    ensures
        *final(status) == concluded(*old(status), *plan),
{
    if plan.spec.suspend {
        status.next_run = None;
    }
}

// --- laws ------------------------------------------------------------------------------------

/// A plan that applies once and has spent its attempts starts nothing more.
pub proof fn a_spent_budget_starts_nothing(
    plan: PlaybookPlan,
    before: PlaybookPlanStatus,
    run: RunContext,
    unready: Seq<Seq<char>>,
    timing: Timing,
    next: Option<Timestamp>,
    now: Timestamp,
)
    requires
        plan.spec.mode is OneShot,
        plan.spec.max_attempts matches Some(max) && before.retry_count >= max,
    ensures
        start_decision(before, plan, has_cause(plan, before, run, unready), timing, next, now)
            == StartDecision::Stay,
        start_status(before, plan, has_cause(plan, before, run, unready), timing, next) == before,
{
}

/// A slot has one run: once a run has started in it, no later look at the same revision starts
/// another, however the instant is written.
pub proof fn a_slot_has_one_run(
    started: PlaybookPlanStatus,
    slot: Timestamp,
    again: Timestamp,
    plan: PlaybookPlan,
    has_hosts: bool,
    next: Option<Timestamp>,
    now: Timestamp,
)
    requires
        started.last_triggered_run == Some(slot),
        slot.same_instant(again),
    ensures
        !(start_decision(started, plan, has_hosts, Timing::Now(Some(again)), next, now) is Start),
        start_status(started, plan, has_hosts, Timing::Now(Some(again)), next).last_triggered_run
            == started.last_triggered_run,
{
}

/// A new revision may run in a slot that the old one used.
pub proof fn a_new_revision_may_use_the_slot(
    before: PlaybookPlanStatus,
    status: PlaybookPlanStatus,
    hash: ExecutionHash,
    slot: Option<Timestamp>,
)
    requires
        observes(status, before, hash),
        before.current_hash@ != numerals::numeral(hash.0 as nat, 16),
    ensures
        !timing::triggered(slot, status.last_triggered_run),
        status.retry_count == 0,
{
}

/// Looking again at the same revision changes nothing.
pub proof fn a_revision_is_observed_once(
    before: PlaybookPlanStatus,
    first: PlaybookPlanStatus,
    second: PlaybookPlanStatus,
    hash: ExecutionHash,
)
    requires
        observes(first, before, hash),
        observes(second, first, hash),
    ensures
        second == first,
{
}

/// A suspended plan starts nothing, whatever its schedule says.
pub proof fn a_suspended_plan_starts_nothing(
    before: PlaybookPlanStatus,
    plan: PlaybookPlan,
    has_hosts: bool,
    timing: Timing,
    next: Option<Timestamp>,
    now: Timestamp,
)
    requires
        plan.spec.suspend,
    ensures
        start_decision(before, plan, has_hosts, timing, next, now) == StartDecision::Stay,
        start_status(before, plan, has_hosts, timing, next) == before,
{
}

/// A recurring plan without a schedule starts nothing, and neither does one that is running or has no
/// host to trigger.
pub proof fn nothing_starts_without_cause(
    before: PlaybookPlanStatus,
    plan: PlaybookPlan,
    has_hosts: bool,
    timing: Timing,
    next: Option<Timestamp>,
    now: Timestamp,
)
    requires
        (plan.spec.mode is Recurring && plan.spec.schedule is None) || before.phase is Applying
            || !has_hosts,
    ensures
        start_decision(before, plan, has_hosts, timing, next, now) == StartDecision::Stay,
        start_status(before, plan, has_hosts, timing, next) == before,
{
}

/// A run in the current revision of a plan that applies once triggers no host that is on it already.
pub proof fn a_current_host_is_not_triggered(
    status: PlaybookPlanStatus,
    hash: ExecutionHash,
    host: Seq<char>,
)
    requires
        execution_evaluator::is_current(status.hosts_status, host, hash),
    ensures
        !triggers(ExecutionMode::OneShot, status, hash).contains(host),
{
    let all = ansible_inventory::distinct(ansible_inventory::all_hosts(status.eligible_hosts@));
    crate::seqs::lemma_filter_contains(
        all,
        execution_evaluator::needs_run(status.hosts_status, hash),
        host,
    );
}

/// A plan that may run does run: one that is not suspended, has a host to trigger, is not running and has
/// a schedule if it recurs starts as soon as its schedule lets it, in that very slot unless the slot has
/// had a run, whatever became of its earlier runs.
pub proof fn a_plan_that_may_run_starts(
    before: PlaybookPlanStatus,
    plan: PlaybookPlan,
    slot: Option<Timestamp>,
    next: Option<Timestamp>,
    now: Timestamp,
)
    requires
        !plan.spec.suspend,
        plan.spec.mode is Recurring ==> plan.spec.schedule is Some,
        before.phase != Phase::Applying,
        slot matches Some(at) ==> (before.last_triggered_run matches Some(last) ==> at.seconds
            != last.seconds || at.nanos != last.nanos),
    ensures
        start_decision(before, plan, true, Timing::Now(slot), next, now) == (StartDecision::Start {
            slot,
        }),
        start_status(before, plan, true, Timing::Now(slot), next) == before,
{
}

/// A plan that may run but has to wait for its slot sleeps exactly until then, and says so: nothing else
/// of its status changes.
pub proof fn a_plan_sleeps_until_its_slot(
    before: PlaybookPlanStatus,
    plan: PlaybookPlan,
    until: Timestamp,
    next: Option<Timestamp>,
    now: Timestamp,
)
    requires
        !plan.spec.suspend,
        plan.spec.mode is Recurring ==> plan.spec.schedule is Some,
        before.phase != Phase::Applying,
        now.nanos < 1_000_000_000,
        until.nanos < 1_000_000_000,
        now.seconds < until.seconds || (now.seconds == until.seconds && now.nanos <= until.nanos),
    ensures
        start_decision(before, plan, true, Timing::Delayed(until), next, now) matches StartDecision::Sleep(
            wait,
        ) && (now.seconds + wait.seconds) * 1_000_000_000 + now.nanos + wait.nanos == until.seconds
            * 1_000_000_000 + until.nanos,
        start_status(before, plan, true, Timing::Delayed(until), next) == (PlaybookPlanStatus {
            phase: Phase::Scheduled,
            next_run: Some(until),
            ..before
        }),
{
    timing::a_delay_reaches_its_instant(now, until);
}

/// A plan whose slot has had its run sleeps exactly until the next one, and says so; one that has no next
/// slot stays as it is.
pub proof fn a_used_slot_sends_the_plan_to_the_next(
    before: PlaybookPlanStatus,
    plan: PlaybookPlan,
    slot: Timestamp,
    last: Timestamp,
    next: Timestamp,
    now: Timestamp,
)
    requires
        !plan.spec.suspend,
        plan.spec.mode is Recurring ==> plan.spec.schedule is Some,
        before.phase != Phase::Applying,
        before.last_triggered_run == Some(last),
        slot.seconds == last.seconds,
        slot.nanos == last.nanos,
        now.nanos < 1_000_000_000,
        next.nanos < 1_000_000_000,
        now.seconds < next.seconds || (now.seconds == next.seconds && now.nanos <= next.nanos),
    ensures
        start_decision(
            before,
            plan,
            true,
            Timing::Now(Some(slot)),
            Some(next),
            now,
        ) matches StartDecision::Sleep(wait) && (now.seconds + wait.seconds) * 1_000_000_000
            + now.nanos + wait.nanos == next.seconds * 1_000_000_000 + next.nanos,
        start_status(before, plan, true, Timing::Now(Some(slot)), Some(next)) == (
        PlaybookPlanStatus { next_run: Some(next), ..before }),
        start_decision(before, plan, true, Timing::Now(Some(slot)), None, now)
            == StartDecision::Stay,
        start_status(before, plan, true, Timing::Now(Some(slot)), None) == before,
{
    timing::a_delay_reaches_its_instant(now, next);
}

/// A run starts only from a plan that is not suspended and not running, has a host to trigger, has a
/// schedule if it recurs, and only in the slot its schedule is in.
pub proof fn what_starts_was_due(
    before: PlaybookPlanStatus,
    plan: PlaybookPlan,
    has_hosts: bool,
    timing: Timing,
    next: Option<Timestamp>,
    now: Timestamp,
    slot: Option<Timestamp>,
)
    requires
        start_decision(before, plan, has_hosts, timing, next, now) == (StartDecision::Start { slot }),
    ensures
        !plan.spec.suspend,
        has_hosts,
        before.phase != Phase::Applying,
        plan.spec.mode is Recurring ==> plan.spec.schedule is Some,
        timing == Timing::Now(slot),
        slot matches Some(at) ==> (before.last_triggered_run matches Some(last) ==> at.seconds
            != last.seconds || at.nanos != last.nanos),
{
}

/// A run has no cause without a host to trigger, nor where a plan that applies once has made all the attempts
/// it may; a recurring run with a host always has one, and so has any other with an attempt left and no Node
/// that is not ready.
pub proof fn a_cause_is_a_host_and_an_attempt(
    plan: PlaybookPlan,
    status: PlaybookPlanStatus,
    run: RunContext,
    unready: Seq<Seq<char>>,
)
    ensures
        run.hosts_to_trigger@.len() == 0 ==> !has_cause(plan, status, run, unready),
        plan.spec.mode is OneShot && (plan.spec.max_attempts matches Some(max)
            && status.retry_count >= max) ==> !has_cause(plan, status, run, unready),
        run.hosts_to_trigger@.len() > 0 && plan.spec.mode is Recurring ==> has_cause(
            plan,
            status,
            run,
            unready,
        ),
        run.hosts_to_trigger@.len() > 0 && (plan.spec.max_attempts matches Some(max)
            ==> status.retry_count < max) && unready.len() == 0 ==> has_cause(
            plan,
            status,
            run,
            unready,
        ),
{
}

/// A run with an attempt left has a cause as soon as one machine it would reach is external, or a Node that
/// is not among the unready.
pub proof fn a_reachable_machine_is_a_cause(
    plan: PlaybookPlan,
    status: PlaybookPlanStatus,
    run: RunContext,
    unready: Seq<Seq<char>>,
    g: int,
    h: int,
)
    requires
        run.hosts_to_trigger@.len() > 0,
        plan.spec.max_attempts matches Some(max) ==> status.retry_count < max,
        0 <= g < run.run_groups@.len(),
        0 <= h < run.run_groups@[g].hosts_of().hosts@.len(),
        run.run_groups@[g] is Ssh || !unready.contains(run.run_groups@[g].hosts_of().hosts@[h]@),
    ensures
        has_cause(plan, status, run, unready),
{
    let group = run.run_groups@[g];
    ansible_inventory::a_group_is_what_its_inventory_made_it(group);
    assert(group.names()[h] == group.hosts_of().hosts@[h]@);
    if group is Ssh {
        node_readiness::an_external_host_keeps_the_run_going(run.run_groups@, unready, g);
    } else {
        node_readiness::a_reachable_host_keeps_the_run_going(run.run_groups@, unready, g, h);
    }
}

/// A run waits for its Nodes only where every host it would reach is one that is not ready.
pub proof fn a_run_waits_where_no_node_is_ready(
    plan: PlaybookPlan,
    status: PlaybookPlanStatus,
    run: RunContext,
    unready: Seq<Seq<char>>,
)
    requires
        plan.spec.mode is OneShot,
        unready.len() > 0,
        forall|g: int, h: int|
            0 <= g < run.run_groups@.len() && 0 <= h < run.run_groups@[g].names().len()
                ==> run.run_groups@[g] is ManagedSsh && unready.contains(
                #[trigger] run.run_groups@[g].names()[h],
            ),
    ensures
        !has_cause(plan, status, run, unready),
{
    assert forall|g: int|
        0 <= g < run.run_groups@.len() && run.run_groups@[g].names().len() > 0 implies (
    #[trigger] run.run_groups@[g]) is ManagedSsh by {
        assert(unready.contains(run.run_groups@[g].names()[0]));
    }
}

/// A recurring run triggers every targeted host and a run of a plan that applies once every one that is
/// not recorded on the revision, each once.
pub proof fn a_run_triggers_who_is_owed_one(
    mode: ExecutionMode,
    status: PlaybookPlanStatus,
    hash: ExecutionHash,
    host: Seq<char>,
)
    ensures
        triggers(mode, status, hash).contains(host) <==> ansible_inventory::all_hosts(
            status.eligible_hosts@,
        ).contains(host) && (mode is Recurring || !(status.hosts_status is Some
            && status.hosts_status->0@.contains_key(host)
            && status.hosts_status->0@[host].last_applied_hash@ == numerals::numeral(
            hash.0 as nat,
            16,
        ))),
{
    ansible_inventory::distinct_keeps_each_once(
        ansible_inventory::all_hosts(status.eligible_hosts@),
    );
    execution_evaluator::a_host_is_outdated_until_it_is_recorded(status, hash, host);
}

/// A revision that is desired is the plan's: a new one starts over, with nothing counted and no slot used,
/// and the hosts, their records and the run in flight stay what they are; the one that is desired already
/// changes nothing.
pub proof fn a_new_revision_starts_over(
    status: PlaybookPlanStatus,
    before: PlaybookPlanStatus,
    hash: ExecutionHash,
)
    requires
        observes(status, before, hash),
    ensures
        status.current_hash@ == numerals::numeral(hash.0 as nat, 16),
        before.current_hash@ == numerals::numeral(hash.0 as nat, 16) ==> status == before,
        before.current_hash@ != numerals::numeral(hash.0 as nat, 16) ==> status.phase is Pending
            && status.retry_count == 0 && status.last_triggered_run is None,
        status.hosts_status == before.hosts_status,
        status.eligible_hosts == before.eligible_hosts,
        status.active_run == before.active_run,
        status.current_job_name == before.current_job_name,
        status.next_run == before.next_run,
        status.summary == before.summary,
        status.last_rendered_generation == before.last_rendered_generation,
{
}

/// A plan that is looked at targets the hosts of its groups and no others, each as its group reaches it,
/// and a run's groups hold none but the hosts it triggers.
pub proof fn a_plan_targets_what_its_groups_list(
    status: PlaybookPlanStatus,
    run: RunContext,
    before: PlaybookPlanStatus,
    mode: ExecutionMode,
    namespace: Seq<char>,
    name: Seq<char>,
    groups: Seq<ResolvedInventoryGroup>,
    hash: ExecutionHash,
    host: Seq<char>,
)
    requires
        is_planned(status, run, before, mode, namespace, name, groups, hash),
    ensures
        status.eligible_hosts@.len() == groups.len(),
        forall|g: int|
            0 <= g < groups.len() ==> (#[trigger] status.eligible_hosts@[g]).hosts@
                == groups[g].hosts_of().hosts@ && status.eligible_hosts@[g].connection == Some(
                if groups[g] is ManagedSsh {
                    ansible_inventory::HostConnection::ManagedSsh
                } else {
                    ansible_inventory::HostConnection::Ssh
                },
            ),
        text::texts(run.hosts_to_trigger@).contains(host) ==> ansible_inventory::all_hosts(
            status.eligible_hosts@,
        ).contains(host),
        run.execution_hash == hash,
        status.hosts_status == before.hosts_status,
        status.active_run == before.active_run,
{
    a_run_triggers_who_is_owed_one(mode, status, hash, host);
}

/// The locks of two runs have one holder exactly where the runs are of one plan at one revision.
pub proof fn holders_are_told_apart(
    namespace: Seq<char>,
    name: Seq<char>,
    hash: ExecutionHash,
    other_namespace: Seq<char>,
    other_name: Seq<char>,
    other_hash: ExecutionHash,
)
    requires
        !namespace.contains('/'),
        !name.contains('/'),
        !other_namespace.contains('/'),
        !other_name.contains('/'),
    ensures
        holder(namespace, name, hash) == holder(other_namespace, other_name, other_hash) <==>
            namespace == other_namespace && name == other_name && hash.0 == other_hash.0,
{
    reveal_strlit("/");
    let a = holder(namespace, name, hash);
    let b = holder(other_namespace, other_name, other_hash);
    let x = name + "/"@ + numerals::numeral(hash.0 as nat, 16);
    let y = other_name + "/"@ + numerals::numeral(other_hash.0 as nat, 16);
    assert(a =~= namespace + "/"@ + x);
    assert(b =~= other_namespace + "/"@ + y);
    if a == b {
        lemma_cut_at_slash(namespace, other_namespace, x, y);
        lemma_cut_at_slash(
            name,
            other_name,
            numerals::numeral(hash.0 as nat, 16),
            numerals::numeral(other_hash.0 as nat, 16),
        );
        execution_evaluator::revisions_are_told_apart(hash, other_hash);
    }
}

proof fn lemma_cut_at_slash(a: Seq<char>, b: Seq<char>, x: Seq<char>, y: Seq<char>)
    requires
        !a.contains('/'),
        !b.contains('/'),
        a + "/"@ + x == b + "/"@ + y,
    ensures
        a == b,
        x == y,
{
    reveal_strlit("/");
    let l = a + "/"@ + x;
    let r = b + "/"@ + y;
    assert("/"@.len() == 1);
    assert("/"@[0] == '/');
    assert(l[a.len() as int] == '/');
    assert(r[b.len() as int] == '/');
    if a.len() < b.len() {
        assert(r[a.len() as int] == b[a.len() as int]);
        assert(b.contains('/'));
    }
    if b.len() < a.len() {
        assert(l[b.len() as int] == a[b.len() as int]);
        assert(a.contains('/'));
    }
    assert forall|i: int| 0 <= i < a.len() implies a[i] == b[i] by {
        assert(l[i] == a[i]);
        assert(r[i] == b[i]);
    }
    assert(a =~= b);
    assert(x =~= l.skip((a.len() + 1) as int));
    assert(y =~= r.skip((b.len() + 1) as int));
}

/// A refusal is reported once: where its phase is reported already nothing is, and otherwise the phase is,
/// with why.
pub proof fn a_refusal_is_reported_once(
    res: Option<Refusal>,
    reported: Option<Phase>,
    phase: Phase,
    summary: Seq<char>,
)
    requires
        is_refusal(res, reported, phase, summary),
    ensures
        res is None <==> reported == Some(phase),
        res matches Some(refusal) ==> refusal.phase == phase && refusal.summary@ == summary,
{
}

/// A suspended plan shows no next run, and nothing else about a plan is hidden.
pub proof fn only_a_suspended_plans_next_run_is_hidden(
    status: PlaybookPlanStatus,
    plan: PlaybookPlan,
)
    ensures
        concluded(status, plan) == (PlaybookPlanStatus {
            next_run: if plan.spec.suspend {
                None
            } else {
                status.next_run
            },
            ..status
        }),
{
}

/// A run may start up to half a minute after its slot began where its plan says nothing else, and a plan is looked
/// at again within the hour.
pub proof fn a_plan_has_its_times()
    ensures
        DEFAULT_STARTING_DEADLINE_SECONDS == 30,
        DEFAULT_REQUEUE_SECONDS == 3600,
{
}

} // verus!
