//! The record of a run, from before anything exists for it until it is history.
//!
//! A record moves through its phases one step at a time, each written down before the thing it
//! describes is created:
//!
//! ```text
//! record_prepared  -> Prepared    nothing exists for the run yet
//! commit_starting  -> Starting    host locks held, node access being built
//! commit_launching -> Launching   creating the Job is committed
//! record_running   -> Running     the Job exists
//! record_finished  -> Succeeded | Failed | Unknown
//! abort_unlaunched -> Aborted     given up before its Job existed
//! ```
//!
//! Every step decides on the record as it was read: it names the status to write, or that there is
//! nothing to write, or why it refuses.

use vstd::prelude::*;
use crate::ansible_inventory;
use crate::ansible_inventory::{copy_groups, distinct_host_count, ResolvedHosts};
use crate::callback_output::{CallbackOutput, HostStats};
use crate::execution_evaluator::ExecutionHash;
use crate::labels::{PLAYBOOKPLAN_HASH, PLAYBOOKPLAN_NAME};
use crate::numerals;
use crate::order;
use crate::plans::{
    HostOutcome, Play, PlayHostResult, PlayPhase, PlayRecap, PlaySpec, PlayStatus, PlaybookPlan,
    ReconcileError, Timestamp, PLAN_API_VERSION, PLAN_KIND,
};
use crate::resources::{ObjectMeta, OwnerReference};
use crate::seqs;
use crate::text;
use crate::text::{clone_optional, optional_is};
use crate::textmap;
use crate::textmap::{no_texts, set_text, TextMap};

verus! {

/// How many successful runs are kept where a plan does not say.
pub const DEFAULT_SUCCESSFUL_PLAYS_HISTORY_LIMIT: u32 = 3;

/// How many other runs are kept where a plan does not say.
pub const DEFAULT_FAILED_PLAYS_HISTORY_LIMIT: u32 = 10;

/// How often a step is decided again after it lost a write race.
pub const TRANSITION_CONFLICT_RETRIES: usize = 1;

/// One run: its plan, the name it shares with its Job, and what identifies it.
pub struct PlayRef<'a> {
    pub plan: &'a PlaybookPlan,
    pub job_name: &'a str,
    pub hash: &'a ExecutionHash,
    pub run_id: &'a str,
    pub preparation_fingerprint: &'a str,
    pub run_number: u32,
    pub attempt: u32,
    pub inventory: &'a [ResolvedHosts],
    pub triggered_slot: Option<Timestamp>,
}

// --- the record ------------------------------------------------------------------------------

/// Whether a reference names a plan as its owner.
pub open spec fn owned_by_plan(owner: OwnerReference, plan: PlaybookPlan) -> bool {
    &&& owner.api_version@ == PLAN_API_VERSION@
    &&& owner.kind@ == PLAN_KIND@
    &&& owner.name@ == plan.metadata.name->0@
    &&& owner.uid@ == plan.metadata.uid->0@
    &&& owner.controller is None
}

/// What refuses a plan that cannot be referred to.
pub open spec fn unidentified(plan: PlaybookPlan, error: ReconcileError) -> bool {
    if plan.metadata.name is None {
        error == ReconcileError::PreconditionFailed("name not set")
    } else {
        plan.metadata.uid is None && error == ReconcileError::PreconditionFailed("uid not set")
    }
}

/// The reference by which an object is owned by a plan.
pub fn playbookplan_owner_ref(object: &PlaybookPlan) -> (res: Result<OwnerReference, ReconcileError>)
    ensures
        match res {
            Ok(owner) => {
                &&& object.metadata.name is Some
                &&& object.metadata.uid is Some
                &&& owned_by_plan(owner, *object)
            },
            Err(error) => unidentified(*object, error),
        },
{
    let name = match &object.metadata.name {
        Some(name) => name,
        None => {
            return Err(ReconcileError::PreconditionFailed("name not set"));
        },
    };
    let uid = match &object.metadata.uid {
        Some(uid) => uid,
        None => {
            return Err(ReconcileError::PreconditionFailed("uid not set"));
        },
    };
    Ok(
        OwnerReference {
            api_version: PLAN_API_VERSION.to_owned(),
            kind: PLAN_KIND.to_owned(),
            name: name.clone(),
            uid: uid.clone(),
            controller: None,
        },
    )
}

/// Whether a record is the one a run starts with: everything recovery reads back, owned by the plan,
/// and no status yet.
pub open spec fn is_record(record: Play, play: PlayRef) -> bool {
    &&& text::text_of(record.metadata.name) == Some(play.job_name@)
    &&& textmap::label_texts(record.metadata.labels@) == Map::<Seq<char>, Seq<char>>::empty().insert(
        PLAYBOOKPLAN_NAME@,
        play.plan.metadata.name->0@,
    ).insert(PLAYBOOKPLAN_HASH@, numerals::numeral(play.hash.0 as nat, 16))
    &&& record.metadata.owner_references@.len() == 1
    &&& owned_by_plan(record.metadata.owner_references@[0], *play.plan)
    &&& record.metadata.namespace is None
    &&& record.metadata.unstamped()
    &&& record.metadata.resource_version is None
    &&& record.metadata.annotations@ == Map::<Seq<char>, String>::empty()
    &&& record.spec.playbook_plan@ == play.plan.metadata.name->0@
    &&& record.spec.playbook_plan_uid@ == play.plan.metadata.uid->0@
    &&& record.spec.execution_hash@ == numerals::numeral(play.hash.0 as nat, 16)
    &&& record.spec.run_id@ == play.run_id@
    &&& record.spec.preparation_fingerprint@ == play.preparation_fingerprint@
    &&& record.spec.run_number == play.run_number
    &&& record.spec.attempt == play.attempt
    &&& same_groups(record.spec.inventory@, play.inventory@)
    &&& record.spec.triggered_slot == play.triggered_slot
    &&& record.status is None
}

/// Whether two inventories list the same hosts under the same names.
pub open spec fn same_groups(a: Seq<ResolvedHosts>, b: Seq<ResolvedHosts>) -> bool {
    &&& a.len() == b.len()
    &&& forall|i: int| 0 <= i < a.len() ==> (#[trigger] a[i]).same(&b[i])
}

/// The record a run starts with.
pub fn build_play(play: &PlayRef) -> (res: Result<Play, ReconcileError>)
    ensures
        match res {
            Ok(record) => {
                &&& play.plan.metadata.name is Some
                &&& play.plan.metadata.uid is Some
                &&& is_record(record, *play)
            },
            Err(error) => unidentified(*play.plan, error),
        },
{
    let owner = match playbookplan_owner_ref(play.plan) {
        Ok(owner) => owner,
        Err(error) => {
            return Err(error);
        },
    };
    let hash_text = play.hash.to_text();
    let mut labels = no_texts();
    set_text(&mut labels, PLAYBOOKPLAN_NAME, owner.name.as_str());
    set_text(&mut labels, PLAYBOOKPLAN_HASH, hash_text.as_str());
    let spec = PlaySpec {
        playbook_plan: owner.name.clone(),
        playbook_plan_uid: owner.uid.clone(),
        execution_hash: hash_text,
        run_id: play.run_id.to_owned(),
        preparation_fingerprint: play.preparation_fingerprint.to_owned(),
        run_number: play.run_number,
        attempt: play.attempt,
        inventory: copy_groups(play.inventory),
        triggered_slot: play.triggered_slot,
    };
    let mut metadata = ObjectMeta::default();
    metadata.name = Some(play.job_name.to_owned());
    metadata.labels = labels;
    metadata.owner_references = vec![owner];
    Ok(Play { metadata, spec, status: None })
}

/// Whether two owner references name the same object.
pub open spec fn same_owner(a: OwnerReference, b: OwnerReference) -> bool {
    &&& a.api_version@ == b.api_version@
    &&& a.kind@ == b.kind@
    &&& a.name@ == b.name@
    &&& a.uid@ == b.uid@
}

/// Whether an existing record has the owner a wanted one has.
pub open spec fn owner_matches(existing: Play, desired: Play) -> bool {
    &&& desired.metadata.owner_references@.len() > 0
    &&& exists|i: int|
        0 <= i < existing.metadata.owner_references@.len() && same_owner(
            #[trigger] existing.metadata.owner_references@[i],
            desired.metadata.owner_references@[0],
        )
}

/// Whether an existing record has the owner a wanted one has.
pub fn existing_owner_matches(existing: &Play, desired: &Play) -> (res: bool)
    ensures
        res == owner_matches(*existing, *desired),
{
    if desired.metadata.owner_references.len() == 0 {
        return false;
    }
    let wanted = &desired.metadata.owner_references[0];
    let owners = &existing.metadata.owner_references;
    let mut i: usize = 0;
    while i < owners.len()
        invariant
            i <= owners@.len(),
            owners@ == existing.metadata.owner_references@,
            desired.metadata.owner_references@.len() > 0,
            *wanted == desired.metadata.owner_references@[0],
            forall|j: int| 0 <= j < i ==> !same_owner(#[trigger] owners@[j], *wanted),
        decreases owners.len() - i,
    {
        let owner = &owners[i];
        if owner.api_version == wanted.api_version && owner.kind == wanted.kind && owner.name
            == wanted.name && owner.uid == wanted.uid {
            assert(same_owner(existing.metadata.owner_references@[i as int], *wanted));
            return true;
        }
        i = i + 1;
    }
    false
}

/// Whether an existing record is the record of a run, by what identifies the run: its owner, the
/// plan, the revision, the run and what it was prepared from. The rest of the record does not take
/// part.
pub open spec fn same_run(existing: Play, desired: Play) -> bool {
    &&& owner_matches(existing, desired)
    &&& existing.spec.playbook_plan@ == desired.spec.playbook_plan@
    &&& existing.spec.playbook_plan_uid@ == desired.spec.playbook_plan_uid@
    &&& existing.spec.execution_hash@ == desired.spec.execution_hash@
    &&& existing.spec.run_id@ == desired.spec.run_id@
    &&& existing.spec.run_number == desired.spec.run_number
    &&& existing.spec.preparation_fingerprint@ == desired.spec.preparation_fingerprint@
}

/// Whether an existing record is the record of a run.
pub fn same_run_record(existing: &Play, desired: &Play) -> (res: bool)
    ensures
        res == same_run(*existing, *desired),
{
    existing_owner_matches(existing, desired) && existing.spec.playbook_plan
        == desired.spec.playbook_plan && existing.spec.playbook_plan_uid
        == desired.spec.playbook_plan_uid && existing.spec.execution_hash
        == desired.spec.execution_hash && existing.spec.run_id == desired.spec.run_id
        && existing.spec.run_number == desired.spec.run_number
        && existing.spec.preparation_fingerprint == desired.spec.preparation_fingerprint
}

// --- statuses --------------------------------------------------------------------------------

/// Whether two statuses differ at most in their phases.
pub open spec fn same_but_phase(a: PlayStatus, b: PlayStatus) -> bool {
    &&& a.plan_status_recorded == b.plan_status_recorded
    &&& a.job_name == b.job_name
    &&& a.finished_at == b.finished_at
    &&& a.host_count == b.host_count
    &&& a.failed_host_count == b.failed_host_count
    &&& a.recap == b.recap
    &&& a.hosts@ == b.hosts@
}

fn copy_results(hosts: &TextMap<PlayHostResult>) -> (res: TextMap<PlayHostResult>)
    ensures
        res@ == hosts@,
{
    let res = hosts.clone();
    proof {
        let a = res.pairs();
        let b = hosts.pairs();
        assert(a.len() == textmap::pair_keys(a).len() && b.len() == textmap::pair_keys(b).len());
        assert forall|i: int| 0 <= i < a.len() implies a[i] == b[i] by {
            assert(textmap::pair_keys(a)[i] == a[i].0 && textmap::pair_keys(b)[i] == b[i].0);
            assert(cloned::<PlayHostResult>(b[i].1, a[i].1));
        }
        assert(a =~= b);
    }
    res
}

/// A status in another phase.
fn with_phase(status: &PlayStatus, phase: PlayPhase) -> (res: PlayStatus)
    ensures
        res.phase == phase,
        same_but_phase(res, *status),
{
    PlayStatus {
        phase,
        plan_status_recorded: status.plan_status_recorded,
        job_name: clone_optional(&status.job_name),
        finished_at: status.finished_at,
        host_count: status.host_count,
        failed_host_count: status.failed_host_count,
        recap: status.recap,
        hosts: copy_results(&status.hosts),
    }
}

/// Whether a phase is one whose run has no Job yet.
pub open spec fn unlaunched(phase: PlayPhase) -> bool {
    phase is Prepared || phase is Starting || phase is Launching
}

/// Whether a phase is a result.
pub open spec fn is_result(phase: PlayPhase) -> bool {
    phase is Succeeded || phase is Failed || phase is Unknown
}

/// Whether a phase is one whose run has no Job yet.
pub fn is_unlaunched(phase: &PlayPhase) -> (res: bool)
    ensures
        res == unlaunched(*phase),
{
    match phase {
        PlayPhase::Prepared | PlayPhase::Starting | PlayPhase::Launching => true,
        PlayPhase::Running
        | PlayPhase::Succeeded
        | PlayPhase::Failed
        | PlayPhase::Unknown
        | PlayPhase::Aborted => false,
    }
}

fn has_result(phase: PlayPhase) -> (res: bool)
    ensures
        res == is_result(phase),
{
    match phase {
        PlayPhase::Succeeded | PlayPhase::Failed | PlayPhase::Unknown => true,
        PlayPhase::Prepared
        | PlayPhase::Starting
        | PlayPhase::Launching
        | PlayPhase::Running
        | PlayPhase::Aborted => false,
    }
}

/// Whether a record holds a result.
pub open spec fn finished(play: Play) -> bool {
    play.status matches Some(status) && is_result(status.phase)
}

/// Whether a record holds a result.
pub fn play_is_terminal(play: &Play) -> (res: bool)
    ensures
        res == finished(*play),
{
    match &play.status {
        Some(status) => has_result(status.phase),
        None => false,
    }
}

/// Whether a record holds a result that its plan has not been told.
pub open spec fn unacknowledged(play: Play) -> bool {
    finished(play) && !play.status->0.plan_status_recorded
}

/// Whether a record holds a result that its plan has not been told.
pub fn needs_recovery(play: &Play) -> (res: bool)
    ensures
        res == unacknowledged(*play),
{
    play_is_terminal(play) && match &play.status {
        Some(status) => !status.plan_status_recorded,
        None => false,
    }
}

/// Whether a record is the object it is expected to be.
pub open spec fn is_object(play: Play, uid: Seq<char>) -> bool {
    text::text_of(play.metadata.uid) == Some(uid)
}

/// Refuses a record that is not the object it is expected to be: a name alone can be reused.
pub fn verify_play_uid(play: &Play, expected_uid: &str) -> (res: Result<(), ReconcileError>)
    ensures
        match res {
            Ok(_) => is_object(*play, expected_uid@),
            Err(error) => !is_object(*play, expected_uid@) && error
                == ReconcileError::PreconditionFailed("Play UID changed"),
        },
{
    if optional_is(&play.metadata.uid, expected_uid) {
        Ok(())
    } else {
        Err(ReconcileError::PreconditionFailed("Play UID changed"))
    }
}

// --- the steps -------------------------------------------------------------------------------

/// The status a run starts with.
pub fn prepared_status(play: &PlayRef) -> (res: PlayStatus)
    ensures
        is_prepared_status(res, *play),
{
    PlayStatus {
        phase: PlayPhase::Prepared,
        plan_status_recorded: false,
        job_name: Some(play.job_name.to_owned()),
        finished_at: None,
        host_count: distinct_host_count(play.inventory) as u32,
        failed_host_count: 0,
        recap: no_recap(),
        hosts: TextMap::new(),
    }
}

/// The status a run starts with: prepared, with as many hosts as its inventory lists distinct ones,
/// and no result.
pub open spec fn is_prepared_status(status: PlayStatus, play: PlayRef) -> bool {
    &&& status.phase is Prepared
    &&& !status.plan_status_recorded
    &&& text::text_of(status.job_name) == Some(play.job_name@)
    &&& status.finished_at is None
    &&& status.host_count == ansible_inventory::distinct(
        ansible_inventory::all_hosts(play.inventory@),
    ).len() as usize as u32
    &&& status.failed_host_count == 0
    &&& status.recap == zero_recap()
    &&& status.hosts@ == Map::<Seq<char>, PlayHostResult>::empty()
}

/// Counters that counted nothing.
pub open spec fn zero_recap() -> PlayRecap {
    PlayRecap {
        ok: 0,
        changed: 0,
        unreachable: 0,
        failed: 0,
        skipped: 0,
        rescued: 0,
        ignored: 0,
    }
}

fn no_recap() -> (res: PlayRecap)
    ensures
        res == zero_recap(),
{
    PlayRecap {
        ok: 0,
        changed: 0,
        unreachable: 0,
        failed: 0,
        skipped: 0,
        rescued: 0,
        ignored: 0,
    }
}

/// Accepts a record found under a run's name only if it is the run's. `conflicting` says it was
/// found after creating it lost a race.
pub fn claim_record(existing: &Play, desired: &Play, conflicting: bool) -> (res: Result<
    (),
    ReconcileError,
>)
    ensures
        match res {
            Ok(_) => same_run(*existing, *desired),
            Err(error) => !same_run(*existing, *desired) && error
                == ReconcileError::PreconditionFailed(
                if conflicting {
                    "conflicting Play does not belong to the selected run"
                } else {
                    "existing Play does not belong to the selected run"
                },
            ),
        },
{
    if same_run_record(existing, desired) {
        return Ok(());
    }
    Err(
        ReconcileError::PreconditionFailed(
            if conflicting {
                "conflicting Play does not belong to the selected run"
            } else {
                "existing Play does not belong to the selected run"
            },
        ),
    )
}

/// Whether a decision is to write nothing.
pub open spec fn keeps(decision: Result<Option<PlayStatus>, ReconcileError>) -> bool {
    decision matches Ok(None)
}

/// Whether a decision is a refusal for this reason.
pub open spec fn refuses(decision: Result<Option<PlayStatus>, ReconcileError>, reason: &'static str) -> bool {
    decision matches Err(error) && error == ReconcileError::PreconditionFailed(reason)
}

/// Whether a decision is to move a status into a phase and change nothing else.
pub open spec fn moves(
    decision: Result<Option<PlayStatus>, ReconcileError>,
    status: PlayStatus,
    phase: PlayPhase,
) -> bool {
    decision matches Ok(Some(next)) && next.phase == phase && same_but_phase(next, status)
}

/// Whether a decision about a record is the one that its run is prepared.
pub open spec fn prepares(
    decision: Result<Option<PlayStatus>, ReconcileError>,
    status: Option<&PlayStatus>,
    play: PlayRef,
) -> bool {
    match status {
        None => decision matches Ok(Some(first)) && is_prepared_status(first, play),
        Some(status) => if unlaunched(status.phase) || status.phase is Running {
            keeps(decision)
        } else {
            refuses(decision, "selected Play is already terminal")
        },
    }
}

/// Records that a run is prepared: a record without a status gets its first one, one that is under
/// way is left alone, and one that is over is refused.
pub fn record_prepared(status: Option<&PlayStatus>, play: &PlayRef) -> (res: Result<
    Option<PlayStatus>,
    ReconcileError,
>)
    ensures
        prepares(res, status, *play),
{
    match status {
        None => Ok(Some(prepared_status(play))),
        Some(status) => match status.phase {
            PlayPhase::Prepared
            | PlayPhase::Starting
            | PlayPhase::Launching
            | PlayPhase::Running => Ok(None),
            PlayPhase::Succeeded
            | PlayPhase::Failed
            | PlayPhase::Unknown
            | PlayPhase::Aborted => Err(
                ReconcileError::PreconditionFailed("selected Play is already terminal"),
            ),
        },
    }
}

/// Whether a decision about a record is the one that its run's Job exists: taken by a run that
/// committed to creating it, done where the Job is known already or the run is over, and refused
/// before that.
pub open spec fn runs(
    decision: Result<Option<PlayStatus>, ReconcileError>,
    object: Play,
    play_uid: Seq<char>,
) -> bool {
    match object.status {
        None => refuses(decision, "prepared Play has no status"),
        Some(status) => if !is_object(object, play_uid) {
            refuses(decision, "Play UID changed")
        } else if status.phase is Launching {
            moves(decision, status, PlayPhase::Running)
        } else if status.phase is Running || is_result(status.phase) {
            keeps(decision)
        } else {
            refuses(decision, "Play is not committed to start")
        },
    }
}

/// Records that a run's Job exists. Only a run that committed to creating it can be running; a
/// result is never taken back.
pub fn record_running(object: &Play, play_uid: &str) -> (res: Result<
    Option<PlayStatus>,
    ReconcileError,
>)
    ensures
        runs(res, *object, play_uid@),
{
    let status = match &object.status {
        Some(status) => status,
        None => {
            return Err(ReconcileError::PreconditionFailed("prepared Play has no status"));
        },
    };
    match verify_play_uid(object, play_uid) {
        Ok(_) => {},
        Err(error) => {
            return Err(error);
        },
    }
    match status.phase {
        PlayPhase::Launching => Ok(Some(with_phase(status, PlayPhase::Running))),
        PlayPhase::Running | PlayPhase::Succeeded | PlayPhase::Failed | PlayPhase::Unknown => Ok(
            None,
        ),
        PlayPhase::Prepared | PlayPhase::Starting | PlayPhase::Aborted => Err(
            ReconcileError::PreconditionFailed("Play is not committed to start"),
        ),
    }
}

/// Whether a decision about a status is a step from one phase to the next: taken where the record is
/// in the first, done where it is in the second, and refused anywhere else.
pub open spec fn steps(
    decision: Result<Option<PlayStatus>, ReconcileError>,
    status: PlayStatus,
    expected: PlayPhase,
    next: PlayPhase,
) -> bool {
    if status.phase == next {
        keeps(decision)
    } else if status.phase != expected {
        refuses(decision, "Play phase changed before transition")
    } else {
        moves(decision, status, next)
    }
}

/// Decides a step from one phase to the next.
pub fn decide_transition(status: &PlayStatus, expected: &PlayPhase, next: PlayPhase) -> (res: Result<
    Option<PlayStatus>,
    ReconcileError,
>)
    ensures
        steps(res, *status, *expected, next),
{
    if status.phase == next {
        return Ok(None);
    }
    if status.phase != *expected {
        return Err(ReconcileError::PreconditionFailed("Play phase changed before transition"));
    }
    Ok(Some(with_phase(status, next)))
}

/// Whether a decision about a record is a step from one phase to the next.
pub open spec fn transitions(
    decision: Result<Option<PlayStatus>, ReconcileError>,
    object: Play,
    play_uid: Seq<char>,
    expected: PlayPhase,
    next: PlayPhase,
) -> bool {
    if !is_object(object, play_uid) {
        refuses(decision, "Play UID changed")
    } else {
        match object.status {
            None => refuses(decision, "Play has no status"),
            Some(status) => steps(decision, status, expected, next),
        }
    }
}

/// Decides a step of a record that was read.
pub fn transition_phase(object: &Play, play_uid: &str, expected: PlayPhase, next: PlayPhase) -> (res:
    Result<Option<PlayStatus>, ReconcileError>)
    ensures
        transitions(res, *object, play_uid@, expected, next),
{
    match verify_play_uid(object, play_uid) {
        Ok(_) => {},
        Err(error) => {
            return Err(error);
        },
    }
    match &object.status {
        Some(status) => decide_transition(status, &expected, next),
        None => Err(ReconcileError::PreconditionFailed("Play has no status")),
    }
}

/// Whether a step that lost its write race is decided again: once.
pub fn retries_after_conflict(run: usize) -> (res: bool)
    ensures
        res == (run < TRANSITION_CONFLICT_RETRIES),
{
    run < TRANSITION_CONFLICT_RETRIES
}

/// Commits to building what a run needs.
pub fn commit_starting(object: &Play, play_uid: &str) -> (res: Result<
    Option<PlayStatus>,
    ReconcileError,
>)
    ensures
        transitions(res, *object, play_uid@, PlayPhase::Prepared, PlayPhase::Starting),
{
    transition_phase(object, play_uid, PlayPhase::Prepared, PlayPhase::Starting)
}

/// Commits to creating a run's Job.
pub fn commit_launching(object: &Play, play_uid: &str) -> (res: Result<
    Option<PlayStatus>,
    ReconcileError,
>)
    ensures
        transitions(res, *object, play_uid@, PlayPhase::Starting, PlayPhase::Launching),
{
    transition_phase(object, play_uid, PlayPhase::Starting, PlayPhase::Launching)
}

/// Gives up a run that has no Job, from the phase it was seen in.
pub fn abort_unlaunched(object: &Play, play_uid: &str, from: PlayPhase) -> (res: Result<
    Option<PlayStatus>,
    ReconcileError,
>)
    ensures
        if unlaunched(from) {
            transitions(res, *object, play_uid@, from, PlayPhase::Aborted)
        } else {
            refuses(res, "only an unlaunched Play can be aborted")
        },
{
    if !is_unlaunched(&from) {
        return Err(ReconcileError::PreconditionFailed("only an unlaunched Play can be aborted"));
    }
    transition_phase(object, play_uid, from, PlayPhase::Aborted)
}

/// Whether a decision about a record is the one that its plan knows its result.
pub open spec fn acknowledges(
    decision: Result<Option<PlayStatus>, ReconcileError>,
    object: Option<&Play>,
    play_uid: Seq<char>,
) -> bool {
    match object {
        None => refuses(decision, "finished Play disappeared before it could be acknowledged"),
        Some(object) => if !is_object(*object, play_uid) {
            refuses(decision, "Play UID changed")
        } else {
            match object.status {
                None => refuses(decision, "finished Play has no status"),
                Some(status) => if !is_result(status.phase) {
                    refuses(decision, "cannot acknowledge a nonterminal Play")
                } else if status.plan_status_recorded {
                    keeps(decision)
                } else {
                    decision matches Ok(Some(next)) && next.plan_status_recorded && next.phase
                        == status.phase && same_but_phase(
                        (PlayStatus { plan_status_recorded: false, ..next }),
                        status,
                    )
                },
            }
        },
    }
}

/// Marks a result as told to the plan. The record must still be there.
pub fn acknowledge_finished(object: Option<&Play>, play_uid: &str) -> (res: Result<
    Option<PlayStatus>,
    ReconcileError,
>)
    ensures
        acknowledges(res, object, play_uid@),
{
    let object = match object {
        Some(object) => object,
        None => {
            return Err(
                ReconcileError::PreconditionFailed(
                    "finished Play disappeared before it could be acknowledged",
                ),
            );
        },
    };
    match verify_play_uid(object, play_uid) {
        Ok(_) => {},
        Err(error) => {
            return Err(error);
        },
    }
    let status = match &object.status {
        Some(status) => status,
        None => {
            return Err(ReconcileError::PreconditionFailed("finished Play has no status"));
        },
    };
    if !has_result(status.phase) {
        return Err(ReconcileError::PreconditionFailed("cannot acknowledge a nonterminal Play"));
    }
    if status.plan_status_recorded {
        return Ok(None);
    }
    let mut next = with_phase(status, status.phase);
    next.plan_status_recorded = true;
    Ok(Some(next))
}

/// A delete that only removes the object it was decided about.
#[derive(Debug, Clone, PartialEq, Eq)]
pub struct GuardedDelete {
    pub name: String,
    pub uid: Option<String>,
    pub resource_version: Option<String>,
}

/// Whether a delete removes exactly the record that was read.
pub open spec fn deletes(delete: GuardedDelete, name: Seq<char>, play: Play) -> bool {
    &&& delete.name@ == name
    &&& delete.uid == play.metadata.uid
    &&& delete.resource_version == play.metadata.resource_version
}

/// How a record without a status is removed.
pub fn delete_uninitialized(play: &Play) -> (res: Result<GuardedDelete, ReconcileError>)
    ensures
        match res {
            Ok(delete) => play.metadata.name is Some && deletes(delete, play.metadata.name->0@, *play),
            Err(error) => play.metadata.name is None && error == ReconcileError::PreconditionFailed(
                "Play name not set",
            ),
        },
{
    match &play.metadata.name {
        Some(name) => Ok(
            GuardedDelete {
                name: name.clone(),
                uid: clone_optional(&play.metadata.uid),
                resource_version: clone_optional(&play.metadata.resource_version),
            },
        ),
        None => Err(ReconcileError::PreconditionFailed("Play name not set")),
    }
}

/// Whether a decision about a record is the one that it is removed as aborted.
pub open spec fn removes_aborted(
    decision: Result<Option<GuardedDelete>, ReconcileError>,
    object: Option<&Play>,
    play_name: Seq<char>,
    play_uid: Seq<char>,
) -> bool {
    match object {
        None => decision matches Ok(None),
        Some(object) => if !is_object(*object, play_uid) {
            decision matches Err(error) && error == ReconcileError::PreconditionFailed(
                "Play UID changed",
            )
        } else if object.status is Some && object.status->0.phase is Aborted {
            decision matches Ok(Some(delete)) && deletes(delete, play_name, *object)
        } else {
            decision matches Err(error) && error == ReconcileError::PreconditionFailed(
                "aborted Play changed before it could be deleted",
            )
        },
    }
}

/// How an aborted record is removed once its cleanup is done: not at all where it is gone already,
/// and never where it has become something else.
pub fn delete_aborted(object: Option<&Play>, play_name: &str, play_uid: &str) -> (res: Result<
    Option<GuardedDelete>,
    ReconcileError,
>)
    ensures
        removes_aborted(res, object, play_name@, play_uid@),
{
    let object = match object {
        Some(object) => object,
        None => {
            return Ok(None);
        },
    };
    match verify_play_uid(object, play_uid) {
        Ok(_) => {},
        Err(error) => {
            return Err(error);
        },
    }
    let aborted = match &object.status {
        Some(status) => status.phase == PlayPhase::Aborted,
        None => false,
    };
    if !aborted {
        return Err(
            ReconcileError::PreconditionFailed("aborted Play changed before it could be deleted"),
        );
    }
    Ok(
        Some(
            GuardedDelete {
                name: play_name.to_owned(),
                uid: clone_optional(&object.metadata.uid),
                resource_version: clone_optional(&object.metadata.resource_version),
            },
        ),
    )
}

// --- results ---------------------------------------------------------------------------------

/// The counters of one host.
pub open spec fn recap_of(s: HostStats) -> PlayRecap {
    PlayRecap {
        ok: s.ok,
        changed: s.changed,
        unreachable: s.unreachable,
        failed: s.failed,
        skipped: s.skipped,
        rescued: s.rescued,
        ignored: s.ignored,
    }
}

/// The counters of one host.
pub fn recap_from_stats(s: &HostStats) -> (res: PlayRecap)
    ensures
        res == recap_of(*s),
{
    PlayRecap {
        ok: s.ok,
        changed: s.changed,
        unreachable: s.unreachable,
        failed: s.failed,
        skipped: s.skipped,
        rescued: s.rescued,
        ignored: s.ignored,
    }
}

/// What became of one host: unknown without a recap, not reached where the recap does not mention
/// it, and otherwise by whether it failed.
pub open spec fn result_of(parsed: Option<CallbackOutput>, host: Seq<char>) -> PlayHostResult {
    match parsed {
        None => PlayHostResult { recap: zero_recap(), outcome: HostOutcome::Unknown },
        Some(output) => if output.processed@.contains_key(host) {
            let stats = output.processed@[host];
            PlayHostResult {
                recap: recap_of(stats),
                outcome: if stats.failure() {
                    HostOutcome::Failed
                } else {
                    HostOutcome::Succeeded
                },
            }
        } else {
            PlayHostResult { recap: zero_recap(), outcome: HostOutcome::NotReached }
        },
    }
}

/// A recap, if there is one.
pub open spec fn recap_read(parsed: Option<&CallbackOutput>) -> Option<CallbackOutput> {
    match parsed {
        Some(output) => Some(*output),
        None => None,
    }
}

fn host_result(parsed: Option<&CallbackOutput>, host: &str) -> (res: PlayHostResult)
    ensures
        res == result_of(recap_read(parsed), host@),
{
    let output = match parsed {
        Some(output) => output,
        None => {
            return PlayHostResult { recap: no_recap(), outcome: HostOutcome::Unknown };
        },
    };
    match output.processed.get(host) {
        Some(stats) => PlayHostResult {
            recap: recap_from_stats(stats),
            outcome: if stats.is_failure() {
                HostOutcome::Failed
            } else {
                HostOutcome::Succeeded
            },
        },
        None => PlayHostResult { recap: no_recap(), outcome: HostOutcome::NotReached },
    }
}

/// The results of these hosts, each under its name.
pub open spec fn results_of(parsed: Option<CallbackOutput>, hosts: Seq<Seq<char>>) -> Map<
    Seq<char>,
    PlayHostResult,
> {
    Map::new(|host: Seq<char>| hosts.contains(host), |host: Seq<char>| result_of(parsed, host))
}

/// What became of every targeted host.
pub fn host_results(parsed: Option<&CallbackOutput>, hosts: &[String]) -> (res: TextMap<
    PlayHostResult,
>)
    ensures
        res@ == results_of(recap_read(parsed), text::texts(hosts@)),
{
    let ghost names = text::texts(hosts@);
    let ghost output = recap_read(parsed);
    let mut results: TextMap<PlayHostResult> = TextMap::new();
    let mut i: usize = 0;
    assert(results@ =~= results_of(output, names.take(0)));
    while i < hosts.len()
        invariant
            i <= hosts@.len(),
            names == text::texts(hosts@),
            output == recap_read(parsed),
            results@ == results_of(output, names.take(i as int)),
        decreases hosts.len() - i,
    {
        let result = host_result(parsed, hosts[i].as_str());
        results.insert(hosts[i].clone(), result);
        proof {
            let wanted = results_of(output, names.take(i + 1));
            assert forall|host: Seq<char>| #[trigger]
                results@.dom().contains(host) <==> wanted.dom().contains(host) by {
                text::lemma_take_contains(names, i as int, host);
            }
            assert forall|host: Seq<char>| #[trigger]
                results@.dom().contains(host) implies results@[host] == wanted[host] by {
                text::lemma_take_contains(names, i as int, host);
            }
            assert(results@ =~= results_of(output, names.take(i + 1)));
        }
        i = i + 1;
    }
    assert(names.take(i as int) =~= names);
    results
}

/// One of the seven counters.
pub ghost enum Counter {
    Fine,
    Changed,
    Unreachable,
    Failed,
    Skipped,
    Rescued,
    Ignored,
}

/// One counter of a host.
pub open spec fn counted(s: HostStats, counter: Counter) -> nat {
    match counter {
        Counter::Fine => s.ok as nat,
        Counter::Changed => s.changed as nat,
        Counter::Unreachable => s.unreachable as nat,
        Counter::Failed => s.failed as nat,
        Counter::Skipped => s.skipped as nat,
        Counter::Rescued => s.rescued as nat,
        Counter::Ignored => s.ignored as nat,
    }
}

/// One counter, summed over hosts.
pub open spec fn total(stats: Seq<(Seq<char>, HostStats)>, counter: Counter) -> nat
    decreases stats.len(),
{
    if stats.len() == 0 {
        0
    } else {
        total(stats.drop_last(), counter) + counted(stats.last().1, counter)
    }
}

/// Whether every counter of a recap can be summed.
pub open spec fn totals_fit(parsed: Option<CallbackOutput>) -> bool {
    parsed matches Some(output) ==> {
        let stats = output.processed.pairs();
        &&& total(stats, Counter::Fine) <= u32::MAX
        &&& total(stats, Counter::Changed) <= u32::MAX
        &&& total(stats, Counter::Unreachable) <= u32::MAX
        &&& total(stats, Counter::Failed) <= u32::MAX
        &&& total(stats, Counter::Skipped) <= u32::MAX
        &&& total(stats, Counter::Rescued) <= u32::MAX
        &&& total(stats, Counter::Ignored) <= u32::MAX
    }
}

/// The counters of a recap, summed over its hosts; nothing without a recap.
pub open spec fn is_sum(recap: PlayRecap, parsed: Option<CallbackOutput>) -> bool {
    match parsed {
        None => recap == zero_recap(),
        Some(output) => {
            let stats = output.processed.pairs();
            &&& recap.ok == total(stats, Counter::Fine)
            &&& recap.changed == total(stats, Counter::Changed)
            &&& recap.unreachable == total(stats, Counter::Unreachable)
            &&& recap.failed == total(stats, Counter::Failed)
            &&& recap.skipped == total(stats, Counter::Skipped)
            &&& recap.rescued == total(stats, Counter::Rescued)
            &&& recap.ignored == total(stats, Counter::Ignored)
        },
    }
}

fn checked_totals(parsed: Option<&CallbackOutput>) -> (res: Option<PlayRecap>)
    ensures
        match res {
            Some(recap) => totals_fit(recap_read(parsed)) && is_sum(recap, recap_read(parsed)),
            None => !totals_fit(recap_read(parsed)),
        },
{
    let output = match parsed {
        Some(output) => output,
        None => {
            return Some(no_recap());
        },
    };
    let ghost stats = output.processed.pairs();
    let count = output.processed.len();
    let mut sum = no_recap();
    let mut i: usize = 0;
    assert(stats.take(0) =~= Seq::<(Seq<char>, HostStats)>::empty());
    while i < count
        invariant
            i <= count,
            count == stats.len(),
            recap_read(parsed) == Some(*output),
            stats == output.processed.pairs(),
            sum.ok == total(stats.take(i as int), Counter::Fine),
            sum.changed == total(stats.take(i as int), Counter::Changed),
            sum.unreachable == total(stats.take(i as int), Counter::Unreachable),
            sum.failed == total(stats.take(i as int), Counter::Failed),
            sum.skipped == total(stats.take(i as int), Counter::Skipped),
            sum.rescued == total(stats.take(i as int), Counter::Rescued),
            sum.ignored == total(stats.take(i as int), Counter::Ignored),
        decreases count - i,
    {
        let (_, s) = output.processed.entry(i);
        proof {
            assert(stats.take(i + 1).drop_last() =~= stats.take(i as int));
            assert(stats.take(i + 1).last() == stats[i as int]);
            lemma_total_grows(stats, i + 1, Counter::Fine);
            lemma_total_grows(stats, i + 1, Counter::Changed);
            lemma_total_grows(stats, i + 1, Counter::Unreachable);
            lemma_total_grows(stats, i + 1, Counter::Failed);
            lemma_total_grows(stats, i + 1, Counter::Skipped);
            lemma_total_grows(stats, i + 1, Counter::Rescued);
            lemma_total_grows(stats, i + 1, Counter::Ignored);
        }
        sum = match (
            sum.ok.checked_add(s.ok),
            sum.changed.checked_add(s.changed),
            sum.unreachable.checked_add(s.unreachable),
            sum.failed.checked_add(s.failed),
            sum.skipped.checked_add(s.skipped),
            sum.rescued.checked_add(s.rescued),
            sum.ignored.checked_add(s.ignored),
        ) {
            (
                Some(ok),
                Some(changed),
                Some(unreachable),
                Some(failed),
                Some(skipped),
                Some(rescued),
                Some(ignored),
            ) => PlayRecap { ok, changed, unreachable, failed, skipped, rescued, ignored },
            _ => {
                return None;
            },
        };
        i = i + 1;
    }
    assert(stats.take(i as int) =~= stats);
    Some(sum)
}

proof fn lemma_total_grows(stats: Seq<(Seq<char>, HostStats)>, n: int, counter: Counter)
    requires
        0 <= n <= stats.len(),
    ensures
        total(stats.take(n), counter) <= total(stats, counter),
    decreases stats.len() - n,
{
    if n < stats.len() {
        lemma_total_grows(stats, n + 1, counter);
        assert(stats.take(n + 1).drop_last() =~= stats.take(n));
    } else {
        assert(stats.take(n) =~= stats);
    }
}

/// Whether every counter of a recap can be summed.
pub fn recap_fits(parsed: Option<&CallbackOutput>) -> (res: bool)
    ensures
        res == totals_fit(recap_read(parsed)),
{
    checked_totals(parsed).is_some()
}

/// The counters of a recap, summed over its hosts.
pub fn sum_recap(parsed: Option<&CallbackOutput>) -> (res: PlayRecap)
    requires
        totals_fit(recap_read(parsed)),
    ensures
        is_sum(res, recap_read(parsed)),
{
    match checked_totals(parsed) {
        Some(recap) => recap,
        None => no_recap(),
    }
}

/// Whether a host did not succeed.
pub open spec fn did_not_succeed(parsed: Option<CallbackOutput>) -> spec_fn(Seq<char>) -> bool {
    |host: Seq<char>| !(result_of(parsed, host).outcome is Succeeded)
}

/// The phase a finished run is in: unknown without a recap, succeeded where every one of its hosts
/// did and there is at least one, and failed otherwise.
pub open spec fn result_phase(parsed: Option<CallbackOutput>, hosts: Seq<Seq<char>>) -> PlayPhase {
    if parsed is None {
        PlayPhase::Unknown
    } else if hosts.len() > 0 && forall|i: int|
        0 <= i < hosts.len() ==> result_of(parsed, #[trigger] hosts[i]).outcome is Succeeded {
        PlayPhase::Succeeded
    } else {
        PlayPhase::Failed
    }
}

/// The status of a finished run. Every host counts once, however often it is listed.
pub open spec fn is_terminal_status(
    status: PlayStatus,
    job_name: Seq<char>,
    hosts: Seq<Seq<char>>,
    parsed: Option<CallbackOutput>,
    finished_at: Timestamp,
) -> bool {
    let distinct = ansible_inventory::distinct(hosts);
    &&& status.phase == result_phase(parsed, hosts)
    &&& !status.plan_status_recorded
    &&& text::text_of(status.job_name) == Some(job_name)
    &&& status.finished_at == Some(finished_at)
    &&& status.host_count == distinct.len() as usize as u32
    &&& status.failed_host_count == distinct.filter(did_not_succeed(parsed)).len() as usize as u32
    &&& is_sum(status.recap, parsed)
    &&& status.hosts@ == results_of(parsed, hosts)
}

/// How many distinct hosts there are, and how many of them did not succeed.
fn count_hosts(parsed: Option<&CallbackOutput>, hosts: &[String]) -> (res: (usize, usize))
    ensures
        res.0 == ansible_inventory::distinct(text::texts(hosts@)).len(),
        res.1 == ansible_inventory::distinct(text::texts(hosts@)).filter(
            did_not_succeed(recap_read(parsed)),
        ).len(),
        res.1 <= res.0,
{
    let ghost names = text::texts(hosts@);
    let ghost pred = did_not_succeed(recap_read(parsed));
    let mut seen: TextMap<bool> = TextMap::new();
    let mut count: usize = 0;
    let mut failed: usize = 0;
    let mut i: usize = 0;
    proof {
        reveal(Seq::filter);
        assert(names.take(0) =~= Seq::<Seq<char>>::empty());
    }
    while i < hosts.len()
        invariant
            failed <= count <= i <= hosts@.len(),
            names == text::texts(hosts@),
            pred == did_not_succeed(recap_read(parsed)),
            forall|host: Seq<char>| #[trigger]
                seen@.dom().contains(host) <==> ansible_inventory::distinct(
                    names.take(i as int),
                ).contains(host),
            count == ansible_inventory::distinct(names.take(i as int)).len(),
            failed == ansible_inventory::distinct(names.take(i as int)).filter(pred).len(),
        decreases hosts.len() - i,
    {
        let host = hosts[i].as_str();
        let ghost before = ansible_inventory::distinct(names.take(i as int));
        let ghost after = ansible_inventory::distinct(names.take(i + 1));
        assert(names.take(i + 1).drop_last() =~= names.take(i as int));
        assert(names.take(i + 1).last() == host@);
        if !seen.contains_key(host) {
            assert(!before.contains(host@));
            assert(after == before.push(host@));
            count = count + 1;
            let result = host_result(parsed, host);
            proof {
                reveal(Seq::filter);
                assert(before.push(host@).drop_last() =~= before);
            }
            if result.outcome != HostOutcome::Succeeded {
                failed = failed + 1;
            }
            seen.insert(hosts[i].clone(), true);
            proof {
                assert forall|h: Seq<char>| #[trigger] seen@.dom().contains(h) <==> after.contains(
                    h,
                ) by {
                    if before.contains(h) {
                        let k = choose|k: int| 0 <= k < before.len() && before[k] == h;
                        assert(after[k] == h);
                    }
                    if h == host@ {
                        assert(after[after.len() - 1] == h);
                    }
                    if after.contains(h) && h != host@ {
                        let k = choose|k: int| 0 <= k < after.len() && after[k] == h;
                        assert(before[k] == h);
                    }
                }
            }
        }
        i = i + 1;
    }
    assert(names.take(i as int) =~= names);
    (count, failed)
}

proof fn lemma_all_succeeded(parsed: Option<CallbackOutput>, hosts: Seq<Seq<char>>)
    ensures
        ansible_inventory::distinct(hosts).filter(did_not_succeed(parsed)).len() == 0
            <==> forall|i: int|
            0 <= i < hosts.len() ==> result_of(parsed, #[trigger] hosts[i]).outcome is Succeeded,
        ansible_inventory::distinct(hosts).len() == 0 <==> hosts.len() == 0,
{
    let distinct = ansible_inventory::distinct(hosts);
    let pred = did_not_succeed(parsed);
    let bad = distinct.filter(pred);
    ansible_inventory::distinct_keeps_each_once(hosts);
    if bad.len() == 0 {
        assert forall|i: int| 0 <= i < hosts.len() implies result_of(
            parsed,
            #[trigger] hosts[i],
        ).outcome is Succeeded by {
            assert(hosts.contains(hosts[i]));
            seqs::lemma_filter_contains(distinct, pred, hosts[i]);
            if pred(hosts[i]) {
                assert(bad.contains(hosts[i]));
            }
        }
    } else {
        let h = bad[0];
        assert(bad.contains(h));
        seqs::lemma_filter_contains(distinct, pred, h);
        assert(hosts.contains(h));
        let i = choose|i: int| 0 <= i < hosts.len() && hosts[i] == h;
        assert(!(result_of(parsed, hosts[i]).outcome is Succeeded));
    }
    if hosts.len() > 0 {
        assert(hosts.contains(hosts[0]));
        assert(distinct.contains(hosts[0]));
    } else if distinct.len() > 0 {
        assert(distinct.contains(distinct[0]));
    }
}

/// The status of a finished run.
pub fn terminal_status(
    job_name: &str,
    hosts: &[String],
    parsed: Option<&CallbackOutput>,
    finished_at: Timestamp,
) -> (res: PlayStatus)
    requires
        totals_fit(recap_read(parsed)),
    ensures
        is_terminal_status(res, job_name@, text::texts(hosts@), recap_read(parsed), finished_at),
{
    let (host_count, failed) = count_hosts(parsed, hosts);
    proof {
        lemma_all_succeeded(recap_read(parsed), text::texts(hosts@));
    }
    let phase = match parsed {
        None => PlayPhase::Unknown,
        Some(_) => if failed == 0 && host_count != 0 {
            PlayPhase::Succeeded
        } else {
            PlayPhase::Failed
        },
    };
    PlayStatus {
        phase,
        plan_status_recorded: false,
        job_name: Some(job_name.to_owned()),
        finished_at: Some(finished_at),
        host_count: host_count as u32,
        failed_host_count: failed as u32,
        recap: sum_recap(parsed),
        hosts: host_results(parsed, hosts),
    }
}

/// The status of a run whose record was lost: no recap can be read for it any more.
pub fn lost_run_status(job_name: &str, hosts: &[String], finished_at: Timestamp) -> (res: PlayStatus)
    ensures
        is_terminal_status(res, job_name@, text::texts(hosts@), None, finished_at),
{
    terminal_status(job_name, hosts, None, finished_at)
}

/// Whether a decision about a record is that its run is over with this recap: taken by a run that
/// committed to its Job, done where there is a result already, and refused before that.
pub open spec fn finishes(
    decision: Result<Option<PlayStatus>, ReconcileError>,
    object: Play,
    play_uid: Seq<char>,
    hosts: Seq<Seq<char>>,
    parsed: Option<CallbackOutput>,
    finished_at: Timestamp,
) -> bool {
    if !is_object(object, play_uid) {
        refuses(decision, "Play UID changed")
    } else if object.metadata.name is None {
        refuses(decision, "Play name not set")
    } else {
        match object.status {
            None => refuses(decision, "cannot finish an uninitialized Play"),
            Some(status) => if status.phase is Launching || status.phase is Running {
                decision matches Ok(Some(next)) && is_terminal_status(
                    next,
                    object.metadata.name->0@,
                    hosts,
                    parsed,
                    finished_at,
                )
            } else if is_result(status.phase) {
                keeps(decision)
            } else {
                refuses(decision, "cannot finish a run that did not start")
            },
        }
    }
}

/// Records a run's result. Only a run that committed to its Job can have one, and the first result
/// stands.
pub fn record_finished(
    object: &Play,
    play_uid: &str,
    hosts: &[String],
    parsed: Option<&CallbackOutput>,
    finished_at: Timestamp,
) -> (res: Result<Option<PlayStatus>, ReconcileError>)
    requires
        totals_fit(recap_read(parsed)),
    ensures
        finishes(
            res,
            *object,
            play_uid@,
            text::texts(hosts@),
            recap_read(parsed),
            finished_at,
        ),
{
    match verify_play_uid(object, play_uid) {
        Ok(_) => {},
        Err(error) => {
            return Err(error);
        },
    }
    let job_name = match &object.metadata.name {
        Some(name) => name,
        None => {
            return Err(ReconcileError::PreconditionFailed("Play name not set"));
        },
    };
    match &object.status {
        Some(status) => match status.phase {
            PlayPhase::Launching | PlayPhase::Running => Ok(
                Some(terminal_status(job_name.as_str(), hosts, parsed, finished_at)),
            ),
            PlayPhase::Succeeded | PlayPhase::Failed | PlayPhase::Unknown => Ok(None),
            PlayPhase::Prepared | PlayPhase::Starting | PlayPhase::Aborted => Err(
                ReconcileError::PreconditionFailed("cannot finish a run that did not start"),
            ),
        },
        None => Err(ReconcileError::PreconditionFailed("cannot finish an uninitialized Play")),
    }
}

// --- retention -------------------------------------------------------------------------------

/// How many of some runs of a plan are kept, where it may say so itself.
pub open spec fn limit_or(limit: Option<u32>, default: u32) -> u32 {
    match limit {
        Some(limit) => limit,
        None => default,
    }
}

/// How many successful and how many other runs of a plan are kept.
pub fn effective_limits(plan: &PlaybookPlan) -> (res: (u32, u32))
    ensures
        res.0 == limit_or(
            plan.spec.successful_plays_history_limit,
            DEFAULT_SUCCESSFUL_PLAYS_HISTORY_LIMIT,
        ),
        res.1 == limit_or(plan.spec.failed_plays_history_limit, DEFAULT_FAILED_PLAYS_HISTORY_LIMIT),
{
    let successful: u32 = match plan.spec.successful_plays_history_limit {
        Some(limit) => limit,
        None => DEFAULT_SUCCESSFUL_PLAYS_HISTORY_LIMIT,
    };
    let failed: u32 = match plan.spec.failed_plays_history_limit {
        Some(limit) => limit,
        None => DEFAULT_FAILED_PLAYS_HISTORY_LIMIT,
    };
    (successful, failed)
}

/// Whether a record is history of a successful run: one whose plan has been told.
pub open spec fn past_success() -> spec_fn(Play) -> bool {
    |play: Play| play.status matches Some(status) && status.phase is Succeeded
        && status.plan_status_recorded
}

/// Whether a record is history of another finished run: one whose plan has been told.
pub open spec fn past_failure() -> spec_fn(Play) -> bool {
    |play: Play| play.status matches Some(status) && (status.phase is Failed || status.phase
        is Unknown) && status.plan_status_recorded
}

/// Whether a record is newer than another. One without a creation time is the oldest.
pub open spec fn newer() -> spec_fn(Play, Play) -> bool {
    |a: Play, b: Play|
        match (a.metadata.creation_timestamp, b.metadata.creation_timestamp) {
            (Some(a), Some(b)) => a > b,
            (Some(_), None) => true,
            (None, _) => false,
        }
}

/// The oldest of these records, beyond the newest `limit`; the newest of them first.
pub open spec fn beyond(records: Seq<Play>, limit: u32) -> Seq<Play> {
    if limit <= records.len() {
        order::stable_sorted(records, newer()).skip(limit as int)
    } else {
        Seq::empty()
    }
}

/// The records to delete so that a plan keeps no more history than its limits.
pub open spec fn pruned(plays: Seq<Play>, successful_limit: u32, failed_limit: u32) -> Seq<Play> {
    beyond(plays.filter(past_success()), successful_limit) + beyond(
        plays.filter(past_failure()),
        failed_limit,
    )
}

/// The records behind references.
pub open spec fn deref(plays: Seq<&Play>) -> Seq<Play> {
    plays.map_values(|p: &Play| *p)
}

fn is_newer(a: &Play, b: &Play) -> (res: bool)
    ensures
        res == newer()(*a, *b),
{
    match (a.metadata.creation_timestamp, b.metadata.creation_timestamp) {
        (Some(a), Some(b)) => a > b,
        (Some(_), None) => true,
        (None, _) => false,
    }
}

/// The records, newest first; those of the same age in their order.
fn newest_first<'a>(records: &[&'a Play]) -> (res: Vec<&'a Play>)
    ensures
        deref(res@) == order::stable_sorted(deref(records@), newer()),
{
    let ghost all = deref(records@);
    let mut out: Vec<&'a Play> = Vec::new();
    let mut i: usize = 0;
    assert(all.take(0) =~= Seq::<Play>::empty());
    assert(deref(out@) =~= order::stable_sorted(all.take(0), newer()));
    while i < records.len()
        invariant
            i <= records@.len(),
            all == deref(records@),
            deref(out@) == order::stable_sorted(all.take(i as int), newer()),
        decreases records.len() - i,
    {
        let record: &'a Play = records[i];
        let ghost before = deref(out@);
        let mut k: usize = 0;
        while k < out.len() && !is_newer(record, out[k])
            invariant
                k <= out@.len(),
                before == deref(out@),
                forall|j: int| 0 <= j < k ==> !newer()(*record, #[trigger] before[j]),
            decreases out.len() - k,
        {
            assert(before[k as int] == *out@[k as int]);
            k = k + 1;
        }
        proof {
            if k < out@.len() {
                assert(before[k as int] == *out@[k as int]);
            }
            order::lemma_place(before, *record, newer(), k as int);
            assert(all.take(i + 1).drop_last() =~= all.take(i as int));
            assert(all.take(i + 1).last() == *record);
        }
        out.insert(k, record);
        assert(deref(out@) =~= before.insert(k as int, *record));
        i = i + 1;
    }
    assert(all.take(i as int) =~= all);
    out
}

fn push_beyond<'a>(to_prune: &mut Vec<&'a Play>, bucket: &[&'a Play], limit: u32)
    ensures
        deref(final(to_prune)@) == deref(old(to_prune)@) + beyond(deref(bucket@), limit),
{
    let ghost before = deref(to_prune@);
    let sorted = newest_first(bucket);
    proof {
        order::stable_sorted_keeps_all(deref(bucket@), newer());
    }
    assert(sorted@.len() == deref(sorted@).len());
    let mut i: usize = limit as usize;
    if i > sorted.len() {
        assert(before + Seq::<Play>::empty() =~= before);
        return;
    }
    let ghost all = deref(sorted@);
    assert(before + all.subrange(limit as int, i as int) =~= before);
    while i < sorted.len()
        invariant
            limit <= i <= sorted@.len(),
            all == deref(sorted@),
            deref(to_prune@) == before + all.subrange(limit as int, i as int),
        decreases sorted.len() - i,
    {
        let ghost shorter = deref(to_prune@);
        to_prune.push(sorted[i]);
        assert(deref(to_prune@) =~= shorter.push(all[i as int]));
        assert(shorter.push(all[i as int]) =~= before + all.subrange(limit as int, i + 1));
        i = i + 1;
    }
    assert(all.subrange(limit as int, i as int) =~= all.skip(limit as int));
}

/// The records to delete so that a plan keeps no more history than its limits.
pub fn plays_to_prune<'a>(plays: &'a [Play], successful_limit: u32, failed_limit: u32) -> (res: Vec<
    &'a Play,
>)
    ensures
        deref(res@) == pruned(plays@, successful_limit, failed_limit),
{
    let mut succeeded: Vec<&'a Play> = Vec::new();
    let mut failed: Vec<&'a Play> = Vec::new();
    let mut i: usize = 0;
    proof {
        seqs::lemma_filter_none(plays@, past_success());
        seqs::lemma_filter_none(plays@, past_failure());
        assert(deref(succeeded@) =~= Seq::<Play>::empty());
        assert(deref(failed@) =~= Seq::<Play>::empty());
    }
    while i < plays.len()
        invariant
            i <= plays@.len(),
            deref(succeeded@) == plays@.take(i as int).filter(past_success()),
            deref(failed@) == plays@.take(i as int).filter(past_failure()),
        decreases plays.len() - i,
    {
        let play: &'a Play = &plays[i];
        let ghost succeeded_before = deref(succeeded@);
        let ghost failed_before = deref(failed@);
        proof {
            seqs::lemma_filter_take(plays@, i as int, past_success());
            seqs::lemma_filter_take(plays@, i as int, past_failure());
        }
        if !needs_recovery(play) {
            if let Some(status) = &play.status {
                match status.phase {
                    PlayPhase::Succeeded => {
                        succeeded.push(play);
                        assert(deref(succeeded@) =~= succeeded_before.push(*play));
                    },
                    PlayPhase::Failed | PlayPhase::Unknown => {
                        failed.push(play);
                        assert(deref(failed@) =~= failed_before.push(*play));
                    },
                    _ => {},
                }
            }
        }
        i = i + 1;
    }
    proof {
        seqs::lemma_take_all(plays@);
    }
    let mut to_prune: Vec<&'a Play> = Vec::new();
    assert(deref(to_prune@) =~= Seq::<Play>::empty());
    push_beyond(&mut to_prune, &succeeded, successful_limit);
    push_beyond(&mut to_prune, &failed, failed_limit);
    assert(deref(to_prune@) =~= pruned(plays@, successful_limit, failed_limit));
    to_prune
}

// --- laws ------------------------------------------------------------------------------------

/// A step that was taken is done: deciding it again on what it wrote writes nothing.
pub proof fn steps_are_idempotent(
    first: Result<Option<PlayStatus>, ReconcileError>,
    again: Result<Option<PlayStatus>, ReconcileError>,
    status: PlayStatus,
    expected: PlayPhase,
    next: PlayPhase,
)
    requires
        steps(first, status, expected, next),
        first matches Ok(Some(written)) && steps(again, written, expected, next),
    ensures
        keeps(again),
{
}

/// A run that has a Job or a result is never given up.
pub proof fn a_launched_run_is_never_aborted(
    decision: Result<Option<PlayStatus>, ReconcileError>,
    object: Play,
    play_uid: Seq<char>,
    from: PlayPhase,
)
    requires
        unlaunched(from),
        transitions(decision, object, play_uid, from, PlayPhase::Aborted),
        object.status matches Some(status) && (status.phase is Running || is_result(status.phase)),
    ensures
        decision is Err,
{
}

/// A result is never taken back: whatever step is decided about the record of a finished run, nothing
/// is written.
pub proof fn a_result_is_never_taken_back(
    decision: Result<Option<PlayStatus>, ReconcileError>,
    object: Play,
    play_uid: Seq<char>,
    from: PlayPhase,
    next: PlayPhase,
    hosts: Seq<Seq<char>>,
    parsed: Option<CallbackOutput>,
    finished_at: Timestamp,
)
    requires
        finished(object),
        !is_result(from),
        !is_result(next),
        transitions(decision, object, play_uid, from, next) || runs(decision, object, play_uid)
            || finishes(decision, object, play_uid, hosts, parsed, finished_at),
    ensures
        decision is Err || keeps(decision),
{
}

/// Retention only ever removes history: never a run in flight, never one that was given up and may
/// still need cleaning up, and never a result its plan has not been told.
pub proof fn only_history_is_pruned(plays: Seq<Play>, successful_limit: u32, failed_limit: u32, play: Play)
    requires
        pruned(plays, successful_limit, failed_limit).contains(play),
    ensures
        plays.contains(play),
        finished(play),
        !unacknowledged(play),
{
    let successes = plays.filter(past_success());
    let failures = plays.filter(past_failure());
    let a = beyond(successes, successful_limit);
    let b = beyond(failures, failed_limit);
    let k = choose|k: int| 0 <= k < (a + b).len() && (a + b)[k] == play;
    if k < a.len() {
        lemma_beyond(successes, successful_limit, k);
        seqs::lemma_filter_contains(plays, past_success(), play);
    } else {
        lemma_beyond(failures, failed_limit, k - a.len());
        seqs::lemma_filter_contains(plays, past_failure(), play);
    }
}

proof fn lemma_beyond(records: Seq<Play>, limit: u32, k: int)
    requires
        0 <= k < beyond(records, limit).len(),
    ensures
        records.contains(beyond(records, limit)[k]),
{
    broadcast use vstd::multiset::group_multiset_axioms;
    broadcast use vstd::seq_lib::group_to_multiset_ensures;

    let sorted = order::stable_sorted(records, newer());
    let play = beyond(records, limit)[k];
    order::stable_sorted_keeps_all(records, newer());
    assert(sorted[limit + k] == play);
    assert(sorted.contains(play));
    assert(sorted.to_multiset().count(play) > 0);
    assert(records.to_multiset().count(play) > 0);
}

proof fn lemma_newer_is_weak_order()
    ensures
        order::weak_order(newer()),
{
}

/// Of each kind of history the newest are kept: what is kept is as many as the limit allows, and
/// nothing that is removed is newer than anything that is kept.
pub proof fn the_newest_history_is_kept(records: Seq<Play>, limit: u32, kept: int, removed: int)
    requires
        limit <= records.len(),
        0 <= kept < limit,
        0 <= removed < beyond(records, limit).len(),
    ensures
        beyond(records, limit).len() == records.len() - limit,
        !newer()(beyond(records, limit)[removed], order::stable_sorted(records, newer())[kept]),
{
    lemma_newer_is_weak_order();
    order::stable_sorted_keeps_all(records, newer());
    order::stable_sorted_is_ordered(records, newer());
    let sorted = order::stable_sorted(records, newer());
    assert(beyond(records, limit)[removed] == sorted[limit + removed]);
}

/// A run whose record was lost is reported unknown, for the run and for every host it targeted.
pub proof fn a_lost_run_is_unknown(
    status: PlayStatus,
    job_name: Seq<char>,
    hosts: Seq<Seq<char>>,
    finished_at: Timestamp,
    host: Seq<char>,
)
    requires
        is_terminal_status(status, job_name, hosts, None, finished_at),
        hosts.contains(host),
    ensures
        status.phase is Unknown,
        status.hosts@.contains_key(host),
        status.hosts@[host].outcome is Unknown,
{
}

// --- what a record says ----------------------------------------------------------------------

/// A host's result is what the recap says of it: it succeeded where nothing failed and it could be reached,
/// however much was changed, skipped, rescued or ignored; it was not reached where the recap does not name it;
/// and nothing is known of it without a recap.
pub proof fn a_hosts_result_is_what_its_recap_says(output: CallbackOutput, host: Seq<char>)
    ensures
        output.processed@.contains_key(host) && output.processed@[host].failed == 0
            && output.processed@[host].unreachable == 0 ==> result_of(Some(output), host).outcome
            is Succeeded,
        output.processed@.contains_key(host) && (output.processed@[host].failed > 0
            || output.processed@[host].unreachable > 0) ==> result_of(Some(output), host).outcome
            is Failed,
        output.processed@.contains_key(host) ==> {
            let recap = result_of(Some(output), host).recap;
            let stats = output.processed@[host];
            recap.ok == stats.ok && recap.changed == stats.changed && recap.unreachable
                == stats.unreachable && recap.failed == stats.failed && recap.skipped == stats.skipped
                && recap.rescued == stats.rescued && recap.ignored == stats.ignored
        },
        !output.processed@.contains_key(host) ==> result_of(Some(output), host).outcome is NotReached
            && result_of(Some(output), host).recap == (PlayRecap {
            ok: 0,
            changed: 0,
            unreachable: 0,
            failed: 0,
            skipped: 0,
            rescued: 0,
            ignored: 0,
        }),
        result_of(None, host).outcome is Unknown,
{
}

/// A finished record says of every host what the recap says of it, and names no other host.
pub proof fn every_host_has_its_result(
    status: PlayStatus,
    job_name: Seq<char>,
    hosts: Seq<Seq<char>>,
    parsed: Option<CallbackOutput>,
    finished_at: Timestamp,
    host: Seq<char>,
)
    requires
        is_terminal_status(status, job_name, hosts, parsed, finished_at),
    ensures
        status.hosts@.contains_key(host) <==> hosts.contains(host),
        hosts.contains(host) ==> status.hosts@[host] == result_of(parsed, host),
        status.finished_at == Some(finished_at),
        !status.plan_status_recorded,
        text::text_of(status.job_name) == Some(job_name),
{
}

/// A run succeeded exactly where it had hosts and each of them succeeded; one whose recap is lost is unknown;
/// every other failed.
pub proof fn a_run_succeeds_with_its_hosts(
    status: PlayStatus,
    job_name: Seq<char>,
    hosts: Seq<Seq<char>>,
    output: CallbackOutput,
    finished_at: Timestamp,
    i: int,
)
    requires
        is_terminal_status(status, job_name, hosts, Some(output), finished_at),
    ensures
        hosts.len() == 0 ==> status.phase is Failed,
        hosts.len() > 0 && (forall|k: int|
            0 <= k < hosts.len() ==> output.processed@.contains_key(#[trigger] hosts[k])
                && output.processed@[hosts[k]].failed == 0 && output.processed@[hosts[k]].unreachable
                == 0) ==> status.phase is Succeeded,
        0 <= i < hosts.len() && (!output.processed@.contains_key(hosts[i])
            || output.processed@[hosts[i]].failed > 0 || output.processed@[hosts[i]].unreachable > 0)
            ==> status.phase is Failed,
{
    if 0 <= i < hosts.len() && (!output.processed@.contains_key(hosts[i])
        || output.processed@[hosts[i]].failed > 0 || output.processed@[hosts[i]].unreachable > 0) {
        assert(!(result_of(Some(output), hosts[i]).outcome is Succeeded));
    }
}

/// The totals of a run are the sums over its hosts, each counter on its own.
pub proof fn totals_are_sums(
    stats: Seq<(Seq<char>, HostStats)>,
    host: Seq<char>,
    one: HostStats,
    counter: Counter,
)
    ensures
        total(Seq::<(Seq<char>, HostStats)>::empty(), counter) == 0,
        total(stats.push((host, one)), Counter::Fine) == total(stats, Counter::Fine) + one.ok,
        total(stats.push((host, one)), Counter::Changed) == total(stats, Counter::Changed)
            + one.changed,
        total(stats.push((host, one)), Counter::Unreachable) == total(stats, Counter::Unreachable)
            + one.unreachable,
        total(stats.push((host, one)), Counter::Failed) == total(stats, Counter::Failed) + one.failed,
        total(stats.push((host, one)), Counter::Skipped) == total(stats, Counter::Skipped)
            + one.skipped,
        total(stats.push((host, one)), Counter::Rescued) == total(stats, Counter::Rescued)
            + one.rescued,
        total(stats.push((host, one)), Counter::Ignored) == total(stats, Counter::Ignored)
            + one.ignored,
{
    assert(stats.push((host, one)).drop_last() =~= stats);
}

/// A run of one host has that host's counters as its totals.
pub proof fn one_hosts_counters_are_the_totals(
    recap: PlayRecap,
    output: CallbackOutput,
    host: Seq<char>,
    one: HostStats,
)
    requires
        is_sum(recap, Some(output)),
        output.processed.pairs() == seq![(host, one)],
    ensures
        recap.ok == one.ok,
        recap.changed == one.changed,
        recap.unreachable == one.unreachable,
        recap.failed == one.failed,
        recap.skipped == one.skipped,
        recap.rescued == one.rescued,
        recap.ignored == one.ignored,
{
    let none = Seq::<(Seq<char>, HostStats)>::empty();
    assert(seq![(host, one)] =~= none.push((host, one)));
    totals_are_sums(none, host, one, Counter::Fine);
    totals_are_sums(none, host, one, Counter::Changed);
    totals_are_sums(none, host, one, Counter::Unreachable);
    totals_are_sums(none, host, one, Counter::Failed);
    totals_are_sums(none, host, one, Counter::Skipped);
    totals_are_sums(none, host, one, Counter::Rescued);
    totals_are_sums(none, host, one, Counter::Ignored);
}

/// Each host counts once, and as failed exactly where it did not succeed.
pub proof fn a_host_that_did_not_succeed_is_counted(
    status: PlayStatus,
    job_name: Seq<char>,
    hosts: Seq<Seq<char>>,
    output: CallbackOutput,
    finished_at: Timestamp,
    host: Seq<char>,
)
    requires
        is_terminal_status(status, job_name, hosts, Some(output), finished_at),
        hosts == seq![host],
    ensures
        status.host_count == 1,
        status.failed_host_count == if output.processed@.contains_key(host)
            && output.processed@[host].failed == 0 && output.processed@[host].unreachable == 0 {
            0int
        } else {
            1
        },
{
    let none = Seq::<Seq<char>>::empty();
    assert(seq![host] =~= none.push(host));
    ansible_inventory::first_listed_comes_first(none, host);
    a_new_host_is_counted_by_its_result(none, output, host);
    assert(ansible_inventory::distinct(none) =~= none);
    none.lemma_filter_len(did_not_succeed(Some(output)));
}

/// A new host adds to the count of those that did not succeed exactly where it did not, and a repeated one adds
/// nothing.
pub proof fn a_new_host_is_counted_by_its_result(
    hosts: Seq<Seq<char>>,
    output: CallbackOutput,
    host: Seq<char>,
)
    ensures
        ansible_inventory::distinct(hosts.push(host)).filter(did_not_succeed(Some(output))).len()
            == ansible_inventory::distinct(hosts).filter(did_not_succeed(Some(output))).len() + if hosts.contains(
            host,
        ) || (output.processed@.contains_key(host) && output.processed@[host].failed == 0
            && output.processed@[host].unreachable == 0) {
            0int
        } else {
            1
        },
{
    reveal(Seq::filter);
    ansible_inventory::first_listed_comes_first(hosts, host);
    assert(ansible_inventory::distinct(hosts).push(host).drop_last() =~= ansible_inventory::distinct(
        hosts,
    ));
}

// --- how a record moves ----------------------------------------------------------------------

/// A record moves where it is the very one and stands where it is expected to; it keeps everything but its
/// phase. It stays where it already arrived, and anything else is refused.
pub proof fn a_record_moves_from_where_it_is_expected(
    decision: Result<Option<PlayStatus>, ReconcileError>,
    object: Play,
    play_uid: Seq<char>,
    expected: PlayPhase,
    next: PlayPhase,
)
    requires
        transitions(decision, object, play_uid, expected, next),
        object.status is Some,
    ensures
        text::text_of(object.metadata.uid) != Some(play_uid) ==> decision is Err,
        text::text_of(object.metadata.uid) == Some(play_uid) && object.status->0.phase == expected
            && expected != next ==> decision is Ok && decision->Ok_0 is Some && {
            let written = decision->Ok_0->0;
            let before = object.status->0;
            written.phase == next && written.job_name == before.job_name && written.finished_at
                == before.finished_at && written.host_count == before.host_count && written.hosts@
                == before.hosts@ && written.recap == before.recap && written.plan_status_recorded
                == before.plan_status_recorded
        },
        text::text_of(object.metadata.uid) == Some(play_uid) && object.status->0.phase == next
            ==> decision is Ok && decision->Ok_0 is None,
        object.status->0.phase != expected && object.status->0.phase != next ==> decision is Err,
{
}

/// A record says that its run goes once it was to be launched, and is left alone from then on.
pub proof fn a_launched_run_is_recorded_as_running(
    decision: Result<Option<PlayStatus>, ReconcileError>,
    object: Play,
    play_uid: Seq<char>,
)
    requires
        runs(decision, object, play_uid),
        object.status is Some,
    ensures
        text::text_of(object.metadata.uid) != Some(play_uid) ==> decision is Err,
        text::text_of(object.metadata.uid) == Some(play_uid) && object.status->0.phase is Launching
            ==> decision is Ok && decision->Ok_0 is Some && decision->Ok_0->0.phase is Running,
        text::text_of(object.metadata.uid) == Some(play_uid) && (object.status->0.phase is Running
            || object.status->0.phase is Succeeded || object.status->0.phase is Failed
            || object.status->0.phase is Unknown) ==> decision is Ok && decision->Ok_0 is None,
        object.status->0.phase is Prepared || object.status->0.phase is Starting
            || object.status->0.phase is Aborted ==> decision is Err,
{
}

/// A run that was launched is recorded with its result, whether or not it was ever seen running; a result that
/// is there stays, and a run that never started has none.
pub proof fn a_launched_run_gets_its_result(
    decision: Result<Option<PlayStatus>, ReconcileError>,
    object: Play,
    play_uid: Seq<char>,
    hosts: Seq<Seq<char>>,
    parsed: Option<CallbackOutput>,
    finished_at: Timestamp,
)
    requires
        finishes(decision, object, play_uid, hosts, parsed, finished_at),
        object.status is Some,
        object.metadata.name is Some,
    ensures
        text::text_of(object.metadata.uid) != Some(play_uid) ==> decision is Err,
        text::text_of(object.metadata.uid) == Some(play_uid) && (object.status->0.phase is Launching
            || object.status->0.phase is Running) ==> decision is Ok && decision->Ok_0 is Some
            && is_terminal_status(
            decision->Ok_0->0,
            object.metadata.name->0@,
            hosts,
            parsed,
            finished_at,
        ),
        text::text_of(object.metadata.uid) == Some(play_uid) && (object.status->0.phase is Succeeded
            || object.status->0.phase is Failed || object.status->0.phase is Unknown) ==> decision
            is Ok && decision->Ok_0 is None,
        object.status->0.phase is Prepared || object.status->0.phase is Starting
            || object.status->0.phase is Aborted ==> decision is Err,
{
}

/// A record waits to be passed on exactly where it has a result that its plan was not told.
pub proof fn a_result_waits_until_it_is_told(play: Play, status: PlayStatus)
    requires
        play.status == Some(status),
    ensures
        unacknowledged(play) <==> (status.phase is Succeeded || status.phase is Failed
            || status.phase is Unknown) && !status.plan_status_recorded,
        finished(play) <==> status.phase is Succeeded || status.phase is Failed || status.phase
            is Unknown,
        unlaunched(status.phase) <==> status.phase is Prepared || status.phase is Starting
            || status.phase is Launching,
{
}

/// A record is of one run only: whatever tells two runs apart tells their records apart.
pub proof fn records_of_different_runs_differ(existing: Play, desired: Play)
    ensures
        same_run(existing, desired) ==> existing.spec.run_id@ == desired.spec.run_id@
            && existing.spec.execution_hash@ == desired.spec.execution_hash@
            && existing.spec.playbook_plan@ == desired.spec.playbook_plan@
            && existing.spec.playbook_plan_uid@ == desired.spec.playbook_plan_uid@
            && existing.spec.preparation_fingerprint@ == desired.spec.preparation_fingerprint@
            && existing.spec.run_number == desired.spec.run_number,
        desired.metadata.owner_references@.len() > 0 && desired == existing ==> same_run(
            existing,
            desired,
        ),
{
    if desired.metadata.owner_references@.len() > 0 && desired == existing {
        assert(same_owner(
            existing.metadata.owner_references@[0],
            desired.metadata.owner_references@[0],
        ));
    }
}

/// The record of a run is the run's own: another call for the same run finds it.
pub proof fn a_record_is_of_the_run_it_was_made_for(first: Play, again: Play, play: PlayRef)
    requires
        is_record(first, play),
        is_record(again, play),
    ensures
        same_run(first, again),
{
    assert(same_owner(first.metadata.owner_references@[0], again.metadata.owner_references@[0]));
}

/// A record says which run it is of, and carries the plan and the revision as labels.
pub proof fn a_record_says_its_run(record: Play, play: PlayRef)
    requires
        is_record(record, play),
    ensures
        record.metadata.name is Some && record.metadata.name->0@ == play.job_name@,
        textmap::label_texts(record.metadata.labels@).contains_key(
            "ansible.cloudbending.dev/playbookplan"@,
        ) && textmap::label_texts(
            record.metadata.labels@,
        )["ansible.cloudbending.dev/playbookplan"@] == play.plan.metadata.name->0@,
        textmap::label_texts(record.metadata.labels@).contains_key("ansible.cloudbending.dev/hash"@)
            && textmap::label_texts(record.metadata.labels@)["ansible.cloudbending.dev/hash"@]
            == numerals::numeral(play.hash.0 as nat, 16),
        record.metadata.owner_references@[0].kind@ == "PlaybookPlan"@,
        record.metadata.owner_references@[0].name@ == play.plan.metadata.name->0@,
        record.metadata.owner_references@[0].uid@ == play.plan.metadata.uid->0@,
        record.spec.execution_hash@ == numerals::numeral(play.hash.0 as nat, 16),
        record.spec.run_id@ == play.run_id@,
        record.spec.attempt == play.attempt,
        record.spec.run_number == play.run_number,
        record.spec.triggered_slot == play.triggered_slot,
        record.spec.inventory@.len() == play.inventory@.len(),
        record.status is None,
{
    crate::labels::labels_are_distinct();
}

// --- what history is kept --------------------------------------------------------------------

/// Of the records of one outcome exactly the surplus over the limit goes, and none where there is none.
pub proof fn only_the_surplus_of_history_goes(records: Seq<Play>, limit: u32)
    ensures
        records.len() <= limit ==> beyond(records, limit).len() == 0,
        records.len() > limit ==> beyond(records, limit).len() == records.len() - limit,
{
    order::stable_sorted_keeps_all(records, newer());
}

/// Successes and failures are counted apart, a lost run among the failures, and only what was told to the plan.
pub proof fn history_is_counted_by_outcome(play: Play, status: PlayStatus)
    requires
        play.status == Some(status),
    ensures
        past_success()(play) <==> status.phase is Succeeded && status.plan_status_recorded,
        past_failure()(play) <==> (status.phase is Failed || status.phase is Unknown)
            && status.plan_status_recorded,
{
}

/// A record is newer where it was created later.
pub proof fn a_record_is_newer_where_it_came_later(a: Play, b: Play, at: i64, then: i64)
    requires
        a.metadata.creation_timestamp == Some(at),
        b.metadata.creation_timestamp == Some(then),
    ensures
        newer()(a, b) <==> at > then,
{
}

/// A plan keeps as much history as it says, and three successes and ten failures where it does not.
pub proof fn history_has_its_limits(limit: u32, default: u32)
    ensures
        limit_or(Some(limit), default) == limit,
        limit_or(None, default) == default,
        DEFAULT_SUCCESSFUL_PLAYS_HISTORY_LIMIT == 3,
        DEFAULT_FAILED_PLAYS_HISTORY_LIMIT == 10,
        TRANSITION_CONFLICT_RETRIES == 1,
{
}

/// A record without a status gets its first one, which says that the run is prepared and nothing else; one that
/// is under way is left alone, and one that is over is refused.
pub proof fn a_run_is_prepared_once(
    decision: Result<Option<PlayStatus>, ReconcileError>,
    status: Option<&PlayStatus>,
    play: PlayRef,
)
    requires
        prepares(decision, status, play),
    ensures
        status is None ==> decision is Ok && decision->Ok_0 is Some && {
            let first = decision->Ok_0->0;
            first.phase is Prepared && !first.plan_status_recorded && first.job_name is Some
                && first.job_name->0@ == play.job_name@ && first.finished_at is None
                && first.failed_host_count == 0 && first.hosts@ == Map::<
                Seq<char>,
                PlayHostResult,
            >::empty() && first.recap.ok == 0 && first.recap.failed == 0
        },
        status is Some && (status->0.phase is Prepared || status->0.phase is Starting
            || status->0.phase is Launching || status->0.phase is Running) ==> decision is Ok
            && decision->Ok_0 is None,
        status is Some && (status->0.phase is Succeeded || status->0.phase is Failed
            || status->0.phase is Unknown || status->0.phase is Aborted) ==> decision is Err,
{
}

/// A result counts as told once, on the very record, and stays what it is.
pub proof fn a_result_is_told_once(
    decision: Result<Option<PlayStatus>, ReconcileError>,
    object: Play,
    play_uid: Seq<char>,
    status: PlayStatus,
)
    requires
        acknowledges(decision, Some(&object), play_uid),
        object.status == Some(status),
    ensures
        text::text_of(object.metadata.uid) != Some(play_uid) ==> decision is Err,
        text::text_of(object.metadata.uid) == Some(play_uid) && (status.phase is Succeeded
            || status.phase is Failed || status.phase is Unknown) && !status.plan_status_recorded
            ==> decision is Ok && decision->Ok_0 is Some && decision->Ok_0->0.plan_status_recorded
            && decision->Ok_0->0.phase == status.phase && decision->Ok_0->0.hosts@ == status.hosts@
            && decision->Ok_0->0.recap == status.recap && decision->Ok_0->0.finished_at
            == status.finished_at,
        text::text_of(object.metadata.uid) == Some(play_uid) && (status.phase is Succeeded
            || status.phase is Failed || status.phase is Unknown) && status.plan_status_recorded
            ==> decision is Ok && decision->Ok_0 is None,
        !(status.phase is Succeeded || status.phase is Failed || status.phase is Unknown) ==> decision
            is Err,
{
}

/// A record is removed as aborted where it is the very one and says so, and is left where it is not.
pub proof fn only_an_aborted_record_is_removed(
    decision: Result<Option<GuardedDelete>, ReconcileError>,
    object: Play,
    play_name: Seq<char>,
    play_uid: Seq<char>,
)
    requires
        removes_aborted(decision, Some(&object), play_name, play_uid),
    ensures
        text::text_of(object.metadata.uid) == Some(play_uid) && object.status is Some
            && object.status->0.phase is Aborted ==> decision is Ok && decision->Ok_0 is Some
            && decision->Ok_0->0.name@ == play_name && decision->Ok_0->0.uid == object.metadata.uid
            && decision->Ok_0->0.resource_version == object.metadata.resource_version,
        text::text_of(object.metadata.uid) != Some(play_uid) ==> decision is Err,
        object.status is None || !(object.status->0.phase is Aborted) ==> decision is Err,
{
}

/// What is decided about a record is to leave it, to refuse it with a reason, or to move it to a phase with
/// everything else as it was.
pub proof fn a_decision_is_what_it_says(
    decision: Result<Option<PlayStatus>, ReconcileError>,
    reason: &'static str,
    status: PlayStatus,
    phase: PlayPhase,
)
    ensures
        keeps(decision) <==> decision is Ok && decision->Ok_0 is None,
        refuses(decision, reason) <==> decision == Err::<Option<PlayStatus>, ReconcileError>(
            ReconcileError::PreconditionFailed(reason),
        ),
        moves(decision, status, phase) ==> decision is Ok && decision->Ok_0 is Some
            && decision->Ok_0->0.phase == phase && decision->Ok_0->0.hosts@ == status.hosts@
            && decision->Ok_0->0.plan_status_recorded == status.plan_status_recorded
            && decision->Ok_0->0.failed_host_count == status.failed_host_count
            && decision->Ok_0->0.host_count == status.host_count,
{
}

/// A plan that cannot own a record is told what it lacks.
pub proof fn a_nameless_plan_owns_nothing(plan: PlaybookPlan, error: ReconcileError)
    requires
        unidentified(plan, error),
    ensures
        plan.metadata.name is None ==> error == ReconcileError::PreconditionFailed("name not set"),
        plan.metadata.name is Some ==> plan.metadata.uid is None && error
            == ReconcileError::PreconditionFailed("uid not set"),
{
}

} // verus!
