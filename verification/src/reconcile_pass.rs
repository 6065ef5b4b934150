//! One look at a plan: what is done about it, in which order, and when it is looked at again.
//!
//! A look first settles what earlier runs left, then works out what the plan would run, and then
//! starts a run or looks after the one in progress. What the plan's status says is put onto it before
//! anything that rests on it: a record is settled, and a label published, only once the plan says so
//! itself.

use vstd::prelude::*;
use crate::ansible_inventory::ResolvedInventoryGroup;
use crate::departed_hosts;
use crate::departed_hosts::prune_departed_hosts;
use crate::execution_evaluator::ExecutionHash;
use crate::host_records;
use crate::host_records::apply_terminal_play_status;
use crate::node_recreation;
use crate::node_recreation::drop_records_for_recreated_nodes;
use crate::plans::{ExecutionMode, Phase, PlaybookPlan, PlaybookPlanStatus, Timestamp};
use crate::reconciler;
use crate::reconciler::{
    cause_to_start, conclude, decide_start, note_started, plan_run, report_failed_finalization,
    report_recovery_failure, report_refusal, take_up, Admission, RunContext, StartDecision,
    DEFAULT_REQUEUE_SECONDS,
};
use crate::recovery;
use crate::recovery::{RecoveredRun, SurvivingAttempt};
use crate::resources::Node;
use crate::run_finish;
use crate::run_finish::{abandon_run, finalize_finished_run};
use crate::run_identity;
use crate::run_identity::RecordedRun;
use crate::text;
use crate::text::text_eq;
use crate::timing;
use crate::timing::{delay_seconds, Delay, Timing};

verus! {

/// When a plan is looked at again that has just moved and has more to do.
pub const SOON_SECONDS: u64 = 1;

/// When a label that could not be written, or a record that could not be pruned, is tried again.
pub const RETRY_SECONDS: u64 = 30;

// --- the steps -------------------------------------------------------------------------------

/// What to do next in a look at a plan.
#[derive(Debug, Clone, Copy, PartialEq, Eq)]
pub enum ReconcileStep {
    /// Put the status onto the plan, which is refused.
    Refuse,
    /// Read the plan's records, to see what earlier runs left.
    Recover,
    /// Keep the hosts of every run in flight locked, though none can be told from the others.
    KeepContested,
    /// Put the status onto the plan, which says what failed.
    ReportFailure,
    /// Give back what a run was given that is over or given up.
    Release,
    /// Put the status onto the plan, which has let go of that run.
    Persist,
    /// Note on that run's record that the plan knows, or delete it.
    Settle,
    /// Delete the oldest records beyond the plan's history limits.
    Prune,
    /// Resolve the inventory the plan targets and the revision it desires.
    ResolveInputs,
    /// Keep the hosts of every run in flight locked, since this look goes no further.
    KeepLocks,
    /// Look at the schedule, and at the Nodes.
    Decide,
    /// Go on with an attempt that has no Job yet.
    Resume,
    /// Start a run, in this slot if there is one.
    Start { slot: Option<Timestamp> },
    /// Look after the run in progress.
    Advance,
    /// Put the status onto the plan.
    Report,
    /// Delete the records of departed hosts from the plan, where leaving them out does not.
    ForgetDeparted,
    /// Publish the labels that are due.
    Publish,
    Done,
    Failed,
}

/// Whether a step may follow another.
pub open spec fn may_follow(a: ReconcileStep, b: ReconcileStep) -> bool {
    match a {
        ReconcileStep::Refuse => b is Done,
        ReconcileStep::Recover => b is Prune || b is Release || b is KeepContested,
        ReconcileStep::KeepContested => b is ReportFailure,
        ReconcileStep::ReportFailure => b is Failed,
        ReconcileStep::Release => b is Persist || b is ReportFailure || b is Failed,
        ReconcileStep::Persist => b is Settle,
        ReconcileStep::Settle => b is Prune,
        ReconcileStep::Prune => b is ResolveInputs,
        ReconcileStep::ResolveInputs => b is Decide || b is KeepLocks || b is Failed,
        ReconcileStep::KeepLocks => b is Failed,
        ReconcileStep::Decide => b is Resume || b is Start || b is Advance || b is Report,
        ReconcileStep::Resume => b is Advance || b is Report,
        ReconcileStep::Start { .. } => b is Advance || b is Report,
        ReconcileStep::Advance => b is Report,
        ReconcileStep::Report => b is ForgetDeparted || b is Publish,
        ReconcileStep::ForgetDeparted => b is Publish,
        ReconcileStep::Publish => b is Done,
        ReconcileStep::Done => false,
        ReconcileStep::Failed => false,
    }
}

/// How many steps may follow a step, at most.
pub open spec fn steps_left(step: ReconcileStep) -> nat {
    match step {
        ReconcileStep::Recover => 13,
        ReconcileStep::Release => 12,
        ReconcileStep::Persist => 11,
        ReconcileStep::Settle => 10,
        ReconcileStep::Prune => 9,
        ReconcileStep::ResolveInputs => 8,
        ReconcileStep::Decide => 7,
        ReconcileStep::Resume => 5,
        ReconcileStep::Start { .. } => 5,
        ReconcileStep::Advance => 4,
        ReconcileStep::Report => 3,
        ReconcileStep::ForgetDeparted => 2,
        ReconcileStep::Publish => 1,
        ReconcileStep::Refuse => 1,
        ReconcileStep::KeepContested => 2,
        ReconcileStep::ReportFailure => 1,
        ReconcileStep::KeepLocks => 1,
        ReconcileStep::Done => 0,
        ReconcileStep::Failed => 0,
    }
}

/// What a plan has in flight.
#[derive(Debug, Clone, Copy, PartialEq, Eq, Structural)]
pub enum Holding {
    Nothing,
    /// A run with a Job.
    Active,
    /// An attempt without one.
    Unlaunched,
    /// An attempt behind a result that was just handed over.
    Survivor,
}

/// The slot an attempt was started in, and the revision it applies.
#[derive(Debug, Clone, PartialEq, Eq)]
pub struct Window {
    pub execution_hash: String,
    pub slot: Option<Timestamp>,
}

/// When a plan is looked at again.
#[derive(Debug, Clone, Copy, PartialEq, Eq)]
pub enum Again {
    /// When it changes.
    OnChange,
    /// Then, or earlier when it changes.
    After(Delay),
}

/// A look at a plan.
pub struct ReconcilePass {
    pub step: ReconcileStep,
    /// What the plan's status is becoming.
    pub status: PlaybookPlanStatus,
    pub holding: Holding,
    /// Whose slot the plan records as used, where a result was handed over.
    pub window: Option<Window>,
    /// What the plan would run, once that is known.
    pub run: Option<RunContext>,
    /// The hosts whose records were dropped.
    pub departed: Vec<String>,
    /// Whether a record that was due to be pruned is still there.
    pub unpruned: bool,
    pub again: Again,
}

/// A look that has got as far as putting the status onto the plan.
pub open spec fn reporting(pass: ReconcilePass, plan: PlaybookPlan) -> ReconcilePass {
    ReconcilePass {
        step: ReconcileStep::Report,
        status: reconciler::concluded(pass.status, plan),
        ..pass
    }
}

/// A look at a plan that may have a run in progress: it is looked after, and otherwise the look is
/// over.
pub open spec fn driving(pass: ReconcilePass, plan: PlaybookPlan) -> ReconcilePass {
    if pass.status.phase is Applying {
        ReconcilePass { step: ReconcileStep::Advance, ..pass }
    } else {
        reporting(pass, plan)
    }
}

/// A look that comes back in this time.
pub open spec fn coming_back(pass: ReconcilePass, delay: Delay) -> ReconcilePass {
    ReconcilePass { again: Again::After(delay), ..pass }
}

/// When a plan is looked at again where something is left to be tried again: no later than after half a minute.
pub open spec fn no_later(again: Again, left: bool) -> Again {
    match again {
        Again::After(delay) if left && delay.seconds >= RETRY_SECONDS => Again::After(
            timing::seconds(RETRY_SECONDS),
        ),
        again => again,
    }
}

/// What follows where the plan's inputs cannot be resolved: what is held stays locked.
pub open spec fn after_failure(holding: Holding) -> ReconcileStep {
    if holding is Nothing {
        ReconcileStep::Failed
    } else {
        ReconcileStep::KeepLocks
    }
}

/// Begins a look at a plan, whose status is `status`.
pub fn begin_reconcile(admission: Admission, status: PlaybookPlanStatus) -> (res: ReconcilePass)
    ensures
        res.holding is Nothing,
        res.window is None,
        res.run is None,
        res.departed@.len() == 0,
        !res.unpruned,
        match admission {
            Admission::Deleted | Admission::Refused(None) => res.step is Done && res.again
                is OnChange && res.status == status,
            Admission::Refused(Some(refusal)) => res.step is Refuse && res.again is OnChange
                && res.status == (PlaybookPlanStatus {
                phase: refusal.phase,
                summary: Some(refusal.summary),
                ..status
            }),
            Admission::Admitted => res.step is Recover && res.again == Again::After(
                timing::seconds(DEFAULT_REQUEUE_SECONDS),
            ) && res.status == status,
        },
{
    let mut pass = ReconcilePass {
        step: ReconcileStep::Done,
        status,
        holding: Holding::Nothing,
        window: None,
        run: None,
        departed: Vec::new(),
        unpruned: false,
        again: Again::OnChange,
    };
    match admission {
        Admission::Deleted => {},
        Admission::Refused(None) => {},
        Admission::Refused(Some(refusal)) => {
            report_refusal(&mut pass.status, refusal);
            pass.step = ReconcileStep::Refuse;
        },
        Admission::Admitted => {
            pass.step = ReconcileStep::Recover;
            pass.again = Again::After(delay_seconds(DEFAULT_REQUEUE_SECONDS));
        },
    }
    pass
}

// --- what earlier runs left ------------------------------------------------------------------

/// Whether this is whose slot a plan records as used when a result is handed over: that of the attempt
/// that survives, or else that of the run that is over.
pub open spec fn is_window(
    window: Option<Window>,
    finished: RecordedRun,
    surviving: Option<SurvivingAttempt>,
) -> bool {
    &&& window is Some
    &&& match surviving {
        Some(attempt) => window->0.execution_hash@ == attempt.execution_hash@ && window->0.slot
            == attempt.triggered_slot,
        None => window->0.execution_hash@ == finished.mirror.execution_hash@ && window->0.slot
            == finished.mirror.triggered_slot,
    }
}

/// Whether this is a look once it is known what earlier runs left. A run in flight is taken up; one
/// that is over or given up is let go of first, and its result put onto the plan.
pub open spec fn is_taken_up(
    res: ReconcilePass,
    pass: ReconcilePass,
    recovered: Option<&RecoveredRun>,
    nodes: Seq<Node>,
    version: Option<Seq<char>>,
    prepared_at: Option<Timestamp>,
) -> bool {
    match recovered {
        None => res == (ReconcilePass { step: ReconcileStep::Prune, ..pass }),
        Some(RecoveredRun::Active(run)) => {
            &&& res == (ReconcilePass {
                step: ReconcileStep::Prune,
                holding: Holding::Active,
                status: res.status,
                ..pass
            })
            &&& recovery::is_adopted(res.status, pass.status, run.mirror)
        },
        Some(RecoveredRun::Unlaunched(unlaunched)) => {
            &&& res == (ReconcilePass {
                step: ReconcileStep::Prune,
                holding: Holding::Unlaunched,
                status: res.status,
                ..pass
            })
            &&& recovery::is_adopted(res.status, pass.status, unlaunched.run.mirror)
        },
        Some(RecoveredRun::Aborted(_)) => res == (ReconcilePass {
            step: ReconcileStep::Release,
            ..pass
        }),
        Some(RecoveredRun::Finished { finished, status, surviving }) => {
            &&& res == (ReconcilePass {
                step: ReconcileStep::Release,
                holding: if surviving is Some {
                    Holding::Survivor
                } else {
                    Holding::Nothing
                },
                window: res.window,
                status: res.status,
                ..pass
            })
            &&& is_window(res.window, *finished, *surviving)
            &&& host_records::is_applied(
                res.status,
                pass.status,
                **status,
                nodes,
                (host_records::ClaimView { hash: finished.execution_hash, version, prepared_at }),
            )
        },
    }
}

/// Whether this is a plan's status once it has let go of a run that is over or given up.
pub open spec fn is_let_go(
    status: PlaybookPlanStatus,
    before: PlaybookPlanStatus,
    recovered: RecoveredRun,
    plan: PlaybookPlan,
    next: Option<Timestamp>,
    now: Timestamp,
) -> bool {
    exists|released: PlaybookPlanStatus|
        status == #[trigger] reconciler::concluded(released, plan) && match recovered {
            RecoveredRun::Aborted(run) => run_finish::is_abandoned(released, before, run),
            RecoveredRun::Finished { finished, surviving, .. } => run_finish::is_finalized(
                released,
                if surviving is Some || !run_identity::mirrors(before, finished) {
                    None
                } else {
                    run_finish::requeue_of(plan.spec.mode, next, now)
                },
                before,
                plan.spec.mode,
                finished,
                surviving is Some,
                next,
                now,
            ),
            _ => false,
        }
}

// --- what a plan would run -------------------------------------------------------------------

/// A status on which the slot of an attempt is recorded as used. The slot of another revision is not:
/// the desired one may still run in it.
pub open spec fn with_window(status: PlaybookPlanStatus, window: Option<Window>) -> PlaybookPlanStatus {
    match window {
        Some(window) => if window.execution_hash@ == status.current_hash@ {
            PlaybookPlanStatus { last_triggered_run: window.slot, ..status }
        } else {
            status
        },
        None => status,
    }
}

/// Whether this is what a plan would run on its resolved inventory and desired revision, and what that
/// makes of its status: claims about machines that were replaced are dropped, and so are the records
/// of hosts that departed.
pub open spec fn is_worked_out(
    status: PlaybookPlanStatus,
    run: RunContext,
    departed: Seq<Seq<char>>,
    before: PlaybookPlanStatus,
    window: Option<Window>,
    mode: ExecutionMode,
    namespace: Seq<char>,
    name: Seq<char>,
    groups: Seq<ResolvedInventoryGroup>,
    execution_hash: ExecutionHash,
    nodes: Seq<Node>,
) -> bool {
    exists|replaced: Seq<Seq<char>>, dropped: PlaybookPlanStatus, planned: PlaybookPlanStatus|
        #[trigger] node_recreation::are_dropped(dropped, replaced, before, nodes, groups)
            && #[trigger] reconciler::is_planned(
            planned,
            run,
            dropped,
            mode,
            namespace,
            name,
            groups,
            execution_hash,
        ) && departed_hosts::are_pruned(status, departed, with_window(planned, window), nodes)
}

/// A look once it is decided what to do about the plan's runs: the one in flight is driven, and only a
/// plan that has none may start one.
pub open spec fn decided(
    pass: ReconcilePass,
    plan: PlaybookPlan,
    has_cause: bool,
    timing: Timing,
    next: Option<Timestamp>,
    now: Timestamp,
) -> ReconcilePass {
    match pass.holding {
        Holding::Unlaunched => ReconcilePass { step: ReconcileStep::Resume, ..pass },
        Holding::Active => ReconcilePass { step: ReconcileStep::Advance, ..pass },
        Holding::Survivor => reporting(coming_back(pass, timing::seconds(SOON_SECONDS)), plan),
        Holding::Nothing => {
            let looked = ReconcilePass {
                status: reconciler::start_status(pass.status, plan, has_cause, timing, next),
                ..pass
            };
            match reconciler::start_decision(pass.status, plan, has_cause, timing, next, now) {
                StartDecision::Start { slot } => ReconcilePass {
                    step: ReconcileStep::Start { slot },
                    ..looked
                },
                StartDecision::Sleep(delay) => reporting(coming_back(looked, delay), plan),
                StartDecision::Stay => driving(looked, plan),
            }
        },
    }
}

impl ReconcilePass {
    fn to_report(self, plan: &PlaybookPlan) -> (res: Self)
        ensures
            res == reporting(self, *plan),
    {
        let mut pass = self;
        conclude(&mut pass.status, plan);
        pass.step = ReconcileStep::Report;
        pass
    }

    fn to_drive(self, plan: &PlaybookPlan) -> (res: Self)
        ensures
            res == driving(self, *plan),
    {
        if self.status.phase == Phase::Applying {
            let mut pass = self;
            pass.step = ReconcileStep::Advance;
            pass
        } else {
            self.to_report(plan)
        }
    }

    fn back_in(self, delay: Delay) -> (res: Self)
        ensures
            res == coming_back(self, delay),
    {
        let mut pass = self;
        pass.again = Again::After(delay);
        pass
    }

    /// The refusal was put onto the plan.
    pub fn refused(self) -> (res: Self)
        requires
            self.step is Refuse,
        ensures
            res == (ReconcilePass { step: ReconcileStep::Done, ..self }),
            may_follow(self.step, res.step),
    {
        let mut pass = self;
        pass.step = ReconcileStep::Done;
        pass
    }

    /// The plan's records were read, and this is what they come to. `prepared_at` is when the record
    /// of a result was created, and `version` what the plan provides.
    pub fn recovered(
        self,
        recovered: Option<&RecoveredRun<'_>>,
        nodes: &[Node],
        version: &Option<String>,
        prepared_at: Option<Timestamp>,
    ) -> (res: Self)
        requires
            self.step is Recover,
            self.holding is Nothing,
        ensures
            is_taken_up(res, self, recovered, nodes@, text::text_of(*version), prepared_at),
            may_follow(self.step, res.step),
    {
        let mut pass = self;
        pass.step = ReconcileStep::Prune;
        if let Some(found) = recovered {
            take_up(&mut pass.status, found);
            match found {
                RecoveredRun::Active(_) => {
                    pass.holding = Holding::Active;
                },
                RecoveredRun::Unlaunched(_) => {
                    pass.holding = Holding::Unlaunched;
                },
                RecoveredRun::Aborted(_) => {
                    pass.step = ReconcileStep::Release;
                },
                RecoveredRun::Finished { finished, status, surviving } => {
                    apply_terminal_play_status(
                        &finished.execution_hash,
                        status,
                        prepared_at,
                        version,
                        nodes,
                        &mut pass.status,
                    );
                    match surviving {
                        Some(attempt) => {
                            pass.holding = Holding::Survivor;
                            pass.window = Some(
                                Window {
                                    execution_hash: attempt.execution_hash.clone(),
                                    slot: attempt.triggered_slot,
                                },
                            );
                        },
                        None => {
                            pass.window = Some(
                                Window {
                                    execution_hash: finished.mirror.execution_hash.clone(),
                                    slot: finished.mirror.triggered_slot,
                                },
                            );
                        },
                    }
                    pass.step = ReconcileStep::Release;
                },
            }
        }
        pass
    }

    /// The plan's records cannot be made out, for this reason.
    pub fn unrecovered(self, error: &str) -> (res: Self)
        requires
            self.step is Recover,
        ensures
            res == (ReconcilePass {
                step: ReconcileStep::KeepContested,
                status: res.status,
                ..self
            }),
            res.status.summary is Some,
            res.status.summary->0@ == "run recovery failed: "@ + error@,
            res.status == (PlaybookPlanStatus { summary: res.status.summary, ..self.status }),
            may_follow(self.step, res.step),
    {
        let mut pass = self;
        report_recovery_failure(&mut pass.status, error);
        pass.step = ReconcileStep::KeepContested;
        pass
    }

    /// The hosts of every run in flight were kept locked.
    pub fn kept(self) -> (res: Self)
        requires
            self.step is KeepContested || self.step is KeepLocks,
        ensures
            res == (ReconcilePass {
                step: if self.step is KeepContested {
                    ReconcileStep::ReportFailure
                } else {
                    ReconcileStep::Failed
                },
                ..self
            }),
            may_follow(self.step, res.step),
    {
        let mut pass = self;
        pass.step = match pass.step {
            ReconcileStep::KeepContested => ReconcileStep::ReportFailure,
            _ => ReconcileStep::Failed,
        };
        pass
    }

    /// The failure was put onto the plan.
    pub fn failure_reported(self) -> (res: Self)
        requires
            self.step is ReportFailure,
        ensures
            res == (ReconcilePass { step: ReconcileStep::Failed, ..self }),
            may_follow(self.step, res.step),
    {
        let mut pass = self;
        pass.step = ReconcileStep::Failed;
        pass
    }

    /// What the run was given that is over or given up was given back. `next` is the next slot of a
    /// plan that has a schedule.
    pub fn released(
        self,
        recovered: &RecoveredRun<'_>,
        plan: &PlaybookPlan,
        next: Option<Timestamp>,
        now: Timestamp,
    ) -> (res: Self)
        requires
            self.step is Release,
            recovered is Aborted || recovered is Finished,
        ensures
            res == (ReconcilePass { step: ReconcileStep::Persist, status: res.status, ..self }),
            is_let_go(res.status, self.status, *recovered, *plan, next, now),
            may_follow(self.step, res.step),
    {
        let mut pass = self;
        match recovered {
            RecoveredRun::Aborted(run) => {
                abandon_run(&mut pass.status, run);
            },
            RecoveredRun::Finished { finished, surviving, .. } => {
                let _requeue = finalize_finished_run(
                    &mut pass.status,
                    &plan.spec.mode,
                    finished,
                    surviving.is_some(),
                    next,
                    now,
                );
            },
            _ => {},
        }
        let ghost released = pass.status;
        conclude(&mut pass.status, plan);
        assert(pass.status == reconciler::concluded(released, *plan));
        pass.step = ReconcileStep::Persist;
        pass
    }

    /// What the run was given that is over or given up could not be given back, for this reason. A
    /// result that is not handed over is told of on the plan; a run that was given up is found again.
    pub fn unreleased(self, recovered: &RecoveredRun<'_>, error: &str) -> (res: Self)
        requires
            self.step is Release,
        ensures
            if recovered is Finished {
                &&& res == (ReconcilePass {
                    step: ReconcileStep::ReportFailure,
                    status: res.status,
                    ..self
                })
                &&& res.status.summary is Some
                &&& res.status.summary->0@ == "run finalization failed: "@ + error@
                &&& res.status == (PlaybookPlanStatus {
                    summary: res.status.summary,
                    ..self.status
                })
            } else {
                res == (ReconcilePass { step: ReconcileStep::Failed, ..self })
            },
            may_follow(self.step, res.step),
    {
        let mut pass = self;
        match recovered {
            RecoveredRun::Finished { .. } => {
                report_failed_finalization(&mut pass.status, error);
                pass.step = ReconcileStep::ReportFailure;
            },
            _ => {
                pass.step = ReconcileStep::Failed;
            },
        }
        pass
    }

    /// The status was put onto the plan, which has let go of the run.
    pub fn persisted(self) -> (res: Self)
        requires
            self.step is Persist,
        ensures
            res == (ReconcilePass { step: ReconcileStep::Settle, ..self }),
            may_follow(self.step, res.step),
    {
        let mut pass = self;
        pass.step = ReconcileStep::Settle;
        pass
    }

    /// The run's record was told, or deleted.
    pub fn settled(self) -> (res: Self)
        requires
            self.step is Settle,
        ensures
            res == (ReconcilePass { step: ReconcileStep::Prune, ..self }),
            may_follow(self.step, res.step),
    {
        let mut pass = self;
        pass.step = ReconcileStep::Prune;
        pass
    }

    /// The oldest records were deleted, or not all of them: the look goes on, and is taken again soon.
    pub fn pruned(self, complete: bool) -> (res: Self)
        requires
            self.step is Prune,
        ensures
            res == (ReconcilePass {
                step: ReconcileStep::ResolveInputs,
                unpruned: !complete,
                ..self
            }),
            may_follow(self.step, res.step),
    {
        let mut pass = self;
        pass.unpruned = !complete;
        pass.step = ReconcileStep::ResolveInputs;
        pass
    }

    /// The inventory the plan targets and the revision it desires were resolved.
    pub fn resolved(
        self,
        plan: &PlaybookPlan,
        namespace: &str,
        name: &str,
        groups: &[ResolvedInventoryGroup],
        execution_hash: ExecutionHash,
        nodes: &[Node],
    ) -> (res: Self)
        requires
            self.step is ResolveInputs,
        ensures
            res == (ReconcilePass {
                step: ReconcileStep::Decide,
                status: res.status,
                run: res.run,
                departed: res.departed,
                ..self
            }),
            res.run is Some,
            is_worked_out(
                res.status,
                res.run->0,
                text::texts(res.departed@),
                self.status,
                self.window,
                plan.spec.mode,
                namespace@,
                name@,
                groups@,
                execution_hash,
                nodes@,
            ),
            may_follow(self.step, res.step),
    {
        let mut pass = self;
        let _replaced = drop_records_for_recreated_nodes(nodes, groups, &mut pass.status);
        let ghost dropped = pass.status;
        let run = plan_run(
            &mut pass.status,
            plan.spec.mode,
            namespace,
            name,
            groups,
            execution_hash,
        );
        let ghost planned = pass.status;
        if let Some(window) = &pass.window {
            if text_eq(window.execution_hash.as_str(), pass.status.current_hash.as_str()) {
                let slot = window.slot;
                note_started(&mut pass.status, slot);
            }
        }
        assert(pass.status == with_window(planned, self.window));
        pass.departed = prune_departed_hosts(nodes, &mut pass.status);
        pass.step = ReconcileStep::Decide;
        assert(node_recreation::are_dropped(
            dropped,
            text::texts(_replaced@),
            self.status,
            nodes@,
            groups@,
        ));
        pass.run = Some(run);
        pass
    }

    /// What the plan targets or desires cannot be resolved.
    pub fn unresolved(self) -> (res: Self)
        requires
            self.step is ResolveInputs,
        ensures
            res == (ReconcilePass {
                step: after_failure(self.holding),
                ..self
            }),
            may_follow(self.step, res.step),
    {
        let mut pass = self;
        pass.step = if pass.holding == Holding::Nothing {
            ReconcileStep::Failed
        } else {
            ReconcileStep::KeepLocks
        };
        pass
    }

    /// The schedule and the Nodes were looked at. `timing` is what the schedule says about `now`,
    /// `next` the slot behind the current one of a plan that has a schedule, and `unready` the Nodes
    /// among those the plan would run on that are not ready.
    pub fn decide(
        self,
        plan: &PlaybookPlan,
        unready: &[String],
        timing: Timing,
        next: Option<Timestamp>,
        now: Timestamp,
    ) -> (res: Self)
        requires
            self.step is Decide,
            self.run is Some,
            self.holding is Nothing && reconciler::startable(
                *plan,
                self.status,
                reconciler::has_cause(*plan, self.status, self.run->0, text::texts(unready@)),
            ) ==> reconciler::can_wait(timing, now),
        ensures
            res == decided(
                self,
                *plan,
                reconciler::has_cause(*plan, self.status, self.run->0, text::texts(unready@)),
                timing,
                next,
                now,
            ),
            may_follow(self.step, res.step),
    {
        let mut pass = self;
        match pass.holding {
            Holding::Unlaunched => {
                pass.step = ReconcileStep::Resume;
                pass
            },
            Holding::Active => {
                pass.step = ReconcileStep::Advance;
                pass
            },
            Holding::Survivor => pass.back_in(delay_seconds(SOON_SECONDS)).to_report(plan),
            Holding::Nothing => {
                let has_cause = match &pass.run {
                    Some(run) => cause_to_start(plan, &pass.status, run, unready),
                    None => false,
                };
                match decide_start(&mut pass.status, plan, has_cause, timing, next, now) {
                    StartDecision::Start { slot } => {
                        pass.step = ReconcileStep::Start { slot };
                        pass
                    },
                    StartDecision::Sleep(delay) => pass.back_in(delay).to_report(plan),
                    StartDecision::Stay => pass.to_drive(plan),
                }
            },
        }
    }

    /// The run was started, or has to wait this long before it is tried again. The slot is used once
    /// the run has started.
    pub fn started(self, waiting: Option<Delay>, plan: &PlaybookPlan) -> (res: Self)
        requires
            self.step is Start,
        ensures
            res == match waiting {
                Some(delay) => reporting(coming_back(self, delay), *plan),
                None => driving(
                    ReconcilePass {
                        status: PlaybookPlanStatus {
                            last_triggered_run: self.step->slot,
                            ..self.status
                        },
                        ..self
                    },
                    *plan,
                ),
            },
            may_follow(self.step, res.step),
    {
        match waiting {
            Some(delay) => self.back_in(delay).to_report(plan),
            None => {
                let mut pass = self;
                if let ReconcileStep::Start { slot } = pass.step {
                    note_started(&mut pass.status, slot);
                }
                pass.to_drive(plan)
            },
        }
    }

    /// The attempt without a Job was gone on with, or has to wait this long.
    pub fn resumed(self, waiting: Option<Delay>, plan: &PlaybookPlan) -> (res: Self)
        requires
            self.step is Resume,
        ensures
            res == match waiting {
                Some(delay) => reporting(coming_back(self, delay), *plan),
                None => driving(self, *plan),
            },
            may_follow(self.step, res.step),
    {
        match waiting {
            Some(delay) => self.back_in(delay).to_report(plan),
            None => self.to_drive(plan),
        }
    }

    /// The run in progress was looked after, and asks to be looked at again in this time.
    pub fn advanced(self, waiting: Option<Delay>, plan: &PlaybookPlan) -> (res: Self)
        requires
            self.step is Advance,
        ensures
            res == match waiting {
                Some(delay) => reporting(coming_back(self, delay), *plan),
                None => reporting(self, *plan),
            },
            may_follow(self.step, res.step),
    {
        match waiting {
            Some(delay) => self.back_in(delay).to_report(plan),
            None => self.to_report(plan),
        }
    }

    /// The status was put onto the plan.
    pub fn reported(self) -> (res: Self)
        requires
            self.step is Report,
        ensures
            res == (ReconcilePass {
                step: if self.departed@.len() > 0 {
                    ReconcileStep::ForgetDeparted
                } else {
                    ReconcileStep::Publish
                },
                ..self
            }),
            may_follow(self.step, res.step),
    {
        let mut pass = self;
        pass.step = if pass.departed.len() > 0 {
            ReconcileStep::ForgetDeparted
        } else {
            ReconcileStep::Publish
        };
        pass
    }

    /// The records of departed hosts were deleted from the plan.
    pub fn forgotten(self) -> (res: Self)
        requires
            self.step is ForgetDeparted,
        ensures
            res == (ReconcilePass { step: ReconcileStep::Publish, ..self }),
            may_follow(self.step, res.step),
    {
        let mut pass = self;
        pass.step = ReconcileStep::Publish;
        pass
    }

    /// The labels that are due were published, except those worth another try soon. Records that could
    /// not be pruned are worth one too.
    pub fn published(self, retryable: usize) -> (res: Self)
        requires
            self.step is Publish,
        ensures
            res == (ReconcilePass {
                step: ReconcileStep::Done,
                again: no_later(self.again, retryable > 0 || self.unpruned),
                ..self
            }),
            may_follow(self.step, res.step),
    {
        let mut pass = self;
        pass.step = ReconcileStep::Done;
        if let Again::After(delay) = pass.again {
            if (retryable > 0 || pass.unpruned) && delay.seconds >= RETRY_SECONDS {
                pass.again = Again::After(delay_seconds(RETRY_SECONDS));
            }
        }
        pass
    }
}

// --- laws ------------------------------------------------------------------------------------

/// A look at a plan ends: each step leaves fewer to come.
pub proof fn a_look_ends(a: ReconcileStep, b: ReconcileStep)
    requires
        may_follow(a, b),
    ensures
        steps_left(b) < steps_left(a),
{
}

/// Labels may lag the status they are derived from and never get ahead of it: they are published only
/// once the status is on the plan.
pub proof fn labels_follow_the_status(a: ReconcileStep, b: ReconcileStep)
    requires
        may_follow(a, b),
    ensures
        b is Publish ==> a is Report || a is ForgetDeparted,
        b is ForgetDeparted ==> a is Report,
{
}

/// A run is let go of only once what it was given was given back: where that failed, the look ends
/// without a word to the run's record, so the next look finds the run again.
pub proof fn a_run_is_let_go_only_when_released(a: ReconcileStep, b: ReconcileStep)
    requires
        may_follow(a, b),
    ensures
        b is Persist ==> a is Release,
        a is ReportFailure ==> b is Failed,
{
}

/// A run's record is told that its plan knows, or deleted, only once the plan's status says so.
pub proof fn a_record_is_settled_after_its_plan(a: ReconcileStep, b: ReconcileStep)
    requires
        may_follow(a, b),
    ensures
        b is Settle ==> a is Persist,
{
}

/// A plan that has a run in flight starts no other, whatever its schedule says and whatever revision
/// it desires by now.
pub proof fn a_run_in_flight_is_the_only_one(
    pass: ReconcilePass,
    plan: PlaybookPlan,
    has_cause: bool,
    timing: Timing,
    next: Option<Timestamp>,
    now: Timestamp,
)
    requires
        !(pass.holding is Nothing),
    ensures
        !(decided(pass, plan, has_cause, timing, next, now).step is Start),
{
}

/// A run that is taken up again is held, and so is the attempt behind a result that is handed over.
pub proof fn what_is_taken_up_is_held(
    res: ReconcilePass,
    pass: ReconcilePass,
    recovered: &RecoveredRun,
    nodes: Seq<Node>,
    version: Option<Seq<char>>,
    prepared_at: Option<Timestamp>,
)
    requires
        is_taken_up(res, pass, Some(recovered), nodes, version, prepared_at),
        recovered is Active || recovered is Unlaunched || (recovered is Finished
            && recovered->surviving is Some),
    ensures
        !(res.holding is Nothing),
{
}

/// A suspended plan starts nothing and advertises no next run, and the run it has in flight is left to
/// finish.
pub proof fn a_suspended_plan_only_finishes(
    pass: ReconcilePass,
    plan: PlaybookPlan,
    has_cause: bool,
    timing: Timing,
    next: Option<Timestamp>,
    now: Timestamp,
)
    requires
        plan.spec.suspend,
    ensures
        !(decided(pass, plan, has_cause, timing, next, now).step is Start),
        reporting(pass, plan).status.next_run is None,
        pass.holding is Active ==> decided(pass, plan, has_cause, timing, next, now).step is Advance,
{
}

/// A plan whose status says it is applying is never left alone, even where no record of its run is
/// left: the run is looked after, which ends it where it is gone.
pub proof fn an_applying_plan_is_looked_after(
    pass: ReconcilePass,
    plan: PlaybookPlan,
    has_cause: bool,
    timing: Timing,
    next: Option<Timestamp>,
    now: Timestamp,
)
    requires
        pass.holding is Nothing,
        pass.status.phase is Applying,
    ensures
        decided(pass, plan, has_cause, timing, next, now).step is Advance,
{
}

/// A run that is over does not run again in its slot, at its revision.
pub proof fn a_finished_run_used_its_slot(
    planned: PlaybookPlanStatus,
    window: Window,
    slot: Timestamp,
    again: Timestamp,
    plan: PlaybookPlan,
    has_hosts: bool,
    next: Option<Timestamp>,
    now: Timestamp,
)
    requires
        window.execution_hash@ == planned.current_hash@,
        window.slot == Some(slot),
        slot.same_instant(again),
    ensures
        !(reconciler::start_decision(
            with_window(planned, Some(window)),
            plan,
            has_hosts,
            Timing::Now(Some(again)),
            next,
            now,
        ) is Start),
{
}

// --- how one look follows another ------------------------------------------------------------

/// What was left of earlier runs is dealt with for what it is: a run that goes is held as active, one without a
/// Job as unlaunched, and one that is over or was given up is released first.
pub proof fn what_was_left_is_dealt_with(
    res: ReconcilePass,
    pass: ReconcilePass,
    recovered: Option<&RecoveredRun>,
    nodes: Seq<Node>,
    version: Option<Seq<char>>,
    prepared_at: Option<Timestamp>,
)
    requires
        is_taken_up(res, pass, recovered, nodes, version, prepared_at),
    ensures
        recovered is None ==> res.step is Prune && res.holding == pass.holding && res.status
            == pass.status,
        recovered is Some && recovered->0 is Active ==> res.step is Prune && res.holding is Active
            && res.status.phase is Applying,
        recovered is Some && recovered->0 is Unlaunched ==> res.step is Prune && res.holding
            is Unlaunched && res.status.phase is Applying,
        recovered is Some && recovered->0 is Aborted ==> res.step is Release && res.status
            == pass.status,
        recovered is Some && recovered->0 is Finished ==> res.step is Release && res.window is Some
            && (res.holding is Survivor <==> recovered->0->surviving is Some),
{
}

/// What is held is gone on with before anything new: a run with a Job is looked after, one without is gone on
/// with, and one behind a result that was just handed over is looked at in a second.
pub proof fn what_is_held_is_gone_on_with(
    pass: ReconcilePass,
    plan: PlaybookPlan,
    has_cause: bool,
    timing: Timing,
    next: Option<Timestamp>,
    now: Timestamp,
)
    ensures
        pass.holding is Active ==> decided(pass, plan, has_cause, timing, next, now).step is Advance,
        pass.holding is Unlaunched ==> decided(pass, plan, has_cause, timing, next, now).step
            is Resume,
        pass.holding is Survivor ==> decided(pass, plan, has_cause, timing, next, now).step is Report
            && decided(pass, plan, has_cause, timing, next, now).again == Again::After(
            timing::seconds(1),
        ),
{
}

/// Where nothing is held, what was decided is done: a run is started in its slot, a plan that is to wait is
/// looked at again then, and a plan that is applying is looked after.
pub proof fn what_was_decided_is_done(
    pass: ReconcilePass,
    plan: PlaybookPlan,
    has_cause: bool,
    timing: Timing,
    next: Option<Timestamp>,
    now: Timestamp,
)
    requires
        pass.holding is Nothing,
    ensures
        reconciler::start_decision(pass.status, plan, has_cause, timing, next, now) matches StartDecision::Start {
            slot,
        } ==> decided(pass, plan, has_cause, timing, next, now).step == (ReconcileStep::Start {
            slot,
        }) && decided(pass, plan, has_cause, timing, next, now).again == pass.again,
        reconciler::start_decision(pass.status, plan, has_cause, timing, next, now) matches StartDecision::Sleep(
            delay,
        ) ==> decided(pass, plan, has_cause, timing, next, now).step is Report && decided(
            pass,
            plan,
            has_cause,
            timing,
            next,
            now,
        ).again == Again::After(delay),
        reconciler::start_decision(pass.status, plan, has_cause, timing, next, now)
            == StartDecision::Stay && reconciler::start_status(
            pass.status,
            plan,
            has_cause,
            timing,
            next,
        ).phase is Applying ==> decided(pass, plan, has_cause, timing, next, now).step is Advance,
        reconciler::start_decision(pass.status, plan, has_cause, timing, next, now)
            == StartDecision::Stay && !(reconciler::start_status(
            pass.status,
            plan,
            has_cause,
            timing,
            next,
        ).phase is Applying) ==> decided(pass, plan, has_cause, timing, next, now).step is Report,
{
}

/// The slot of a run that was just handed over counts as used exactly where the plan still desires its revision.
pub proof fn a_slot_counts_for_the_revision_it_was_used_by(
    status: PlaybookPlanStatus,
    window: Window,
)
    ensures
        window.execution_hash@ == status.current_hash@ ==> with_window(
            status,
            Some(window),
        ).last_triggered_run == window.slot,
        window.execution_hash@ != status.current_hash@ ==> with_window(status, Some(window)) == status,
        with_window(status, None) == status,
        with_window(status, Some(window)).phase == status.phase,
        with_window(status, Some(window)).hosts_status == status.hosts_status,
{
}

/// Whose slot counts is the run that still goes on, or else the one that was handed over.
pub proof fn the_slot_of_what_goes_on_counts(
    window: Option<Window>,
    finished: RecordedRun,
    surviving: Option<SurvivingAttempt>,
)
    requires
        is_window(window, finished, surviving),
    ensures
        window is Some,
        surviving is None ==> window->0.execution_hash@ == finished.mirror.execution_hash@
            && window->0.slot == finished.mirror.triggered_slot,
        surviving is Some ==> window->0.execution_hash@ == surviving->0.execution_hash@
            && window->0.slot == surviving->0.triggered_slot,
{
}

/// A run that was let go is off its plan's status where the status is about it.
pub proof fn a_run_let_go_is_off_its_plan(
    status: PlaybookPlanStatus,
    before: PlaybookPlanStatus,
    recovered: RecoveredRun,
    plan: PlaybookPlan,
    next: Option<Timestamp>,
    now: Timestamp,
)
    requires
        is_let_go(status, before, recovered, plan, next, now),
    ensures
        recovered matches RecoveredRun::Aborted(run) ==> (before.active_run is None
            || before.active_run->0.play_uid@ == run.mirror.play_uid@ ==> status.active_run is None
            && status.phase is Pending && status.current_job_name is None),
        recovered matches RecoveredRun::Finished { finished, surviving, .. } ==> (surviving is None
            && (before.active_run is None || before.active_run->0.play_uid@
            == finished.mirror.play_uid@) ==> status.active_run is None && status.current_job_name
            is None),
        recovered matches RecoveredRun::Finished { surviving, .. } ==> (surviving is Some
            ==> status.active_run == before.active_run && status.phase == before.phase),
        recovered is Aborted || recovered is Finished,
{
}

/// A look that found another attempt comes back in a second, and one that could not write everything in half a
/// minute.
pub proof fn a_look_comes_back_in_time()
    ensures
        SOON_SECONDS == 1,
        RETRY_SECONDS == 30,
        DEFAULT_REQUEUE_SECONDS == 3600,
{
}

/// What is left to be tried again brings the next look forward to half a minute from now, and never puts it off.
pub proof fn what_is_left_is_tried_again_soon(delay: Delay, left: bool)
    ensures
        left && delay.seconds >= 30 ==> no_later(Again::After(delay), left) == Again::After(
            timing::seconds(30),
        ),
        delay.seconds < 30 ==> no_later(Again::After(delay), left) == Again::After(delay),
        !left ==> no_later(Again::After(delay), left) == Again::After(delay),
        no_later(Again::OnChange, left) == Again::OnChange,
{
}

/// What a plan holds stays locked where the look at it goes no further.
pub proof fn what_is_held_stays_locked(holding: Holding)
    ensures
        holding is Nothing ==> after_failure(holding) is Failed,
        !(holding is Nothing) ==> after_failure(holding) is KeepLocks,
{
}

} // verus!
