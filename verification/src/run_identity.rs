//! Which objects are part of which attempt: by UID, run and record, never by name alone.

use vstd::prelude::*;
use crate::ansible_inventory;
use crate::digests;
use crate::digests::{add_number, add_text, add_wide_number, digest};
use crate::execution_evaluator::ExecutionHash;
use crate::job_builder;
use crate::job_names;
use crate::job_names::{job_name, retry_count_from_job_name};
use crate::labels::{
    COMPONENT, PLAYBOOKPLAN_HASH, PLAYBOOKPLAN_NAME, PLAYBOOK_COMPONENT, PLAY_UID_ANNOTATION, RUN_ID,
};
use crate::numerals;
use crate::plans::{
    ActiveRun, Play, PlayPhase, PlaybookPlan, PlaybookPlanStatus, ReconcileError, MAX_PLAN_NAME_LEN,
    PLAN_KIND,
};
use crate::resources::{LabelMap, ObjectMeta, OwnerReference};
use crate::run_inventory::host_names;
use crate::text;
use crate::text::{optional_is, text_eq, to_chars};
use crate::textmap;
use crate::utils;
use crate::utils::generate_id_with_length;
use crate::workloads::{Job, ObservedPod};

verus! {

// --- the plan --------------------------------------------------------------------------------

/// A plan's namespace and name.
pub fn namespace_and_name(object: &PlaybookPlan) -> (res: Result<(&str, &str), ReconcileError>)
    ensures
        match res {
            Ok((namespace, name)) => text::text_of(object.metadata.namespace) == Some(namespace@)
                && text::text_of(object.metadata.name) == Some(name@),
            Err(error) => if object.metadata.namespace is None {
                error == ReconcileError::PreconditionFailed("namespace not set")
            } else {
                object.metadata.name is None && error == ReconcileError::PreconditionFailed(
                    "name not set",
                )
            },
        },
{
    let namespace = match &object.metadata.namespace {
        Some(namespace) => namespace.as_str(),
        None => {
            return Err(ReconcileError::PreconditionFailed("namespace not set"));
        },
    };
    let name = match &object.metadata.name {
        Some(name) => name.as_str(),
        None => {
            return Err(ReconcileError::PreconditionFailed("name not set"));
        },
    };
    Ok((namespace, name))
}

/// Whether a plan's name fits where a run has to put it: a label value.
pub fn plan_name_within_label_limit(name: &str) -> (res: bool)
    ensures
        res == (name@.len() <= MAX_PLAN_NAME_LEN),
{
    to_chars(name).len() <= MAX_PLAN_NAME_LEN
}

// --- run IDs ---------------------------------------------------------------------------------

/// How many characters identify an attempt.
pub const RUN_ID_LENGTH: usize = 10;

/// The ID of an attempt: a digest of the plan, the revision, how many IDs the process has minted and
/// the time in nanoseconds. It is minted afresh for every attempt, so that a retry never shares an
/// identity with an attempt whose pods are still going away.
pub open spec fn minted_id(plan_uid: Seq<char>, hash: ExecutionHash, minted: u64, nanos: u128) -> Seq<
    char,
> {
    utils::id_of(
        digests::xxh3_64(
            digests::text_item(plan_uid) + digests::text_item(
                numerals::numeral(hash.0 as nat, 16),
            ) + digests::number_item(minted as nat) + digests::low_bytes(nanos as nat, 16),
        ) as nat,
        RUN_ID_LENGTH as nat,
    )
}

/// The ID of an attempt.
pub fn run_id(plan: &PlaybookPlan, execution_hash: &ExecutionHash, minted: u64, nanos: u128) -> (res:
    Result<String, ReconcileError>)
    ensures
        match res {
            Ok(id) => plan.metadata.uid is Some && id@ == minted_id(
                plan.metadata.uid->0@,
                *execution_hash,
                minted,
                nanos,
            ),
            Err(error) => plan.metadata.uid is None && error == ReconcileError::PreconditionFailed(
                "uid not set",
            ),
        },
{
    let uid = match &plan.metadata.uid {
        Some(uid) => uid,
        None => {
            return Err(ReconcileError::PreconditionFailed("uid not set"));
        },
    };
    let hash_text = execution_hash.to_text();
    let mut bytes: Vec<u8> = Vec::new();
    add_text(&mut bytes, uid.as_str());
    add_text(&mut bytes, hash_text.as_str());
    add_number(&mut bytes, minted);
    add_wide_number(&mut bytes, nanos);
    assert(bytes@ =~= digests::text_item(uid@) + digests::text_item(hash_text@)
        + digests::number_item(minted as nat) + digests::low_bytes(nanos as nat, 16));
    Ok(generate_id_with_length(digest(&bytes), RUN_ID_LENGTH))
}

/// A run ID is short and made of letters and digits, so it fits every name it is put into.
pub proof fn run_ids_fit_names(plan_uid: Seq<char>, hash: ExecutionHash, minted: u64, nanos: u128)
    ensures
        minted_id(plan_uid, hash, minted, nanos).len() == RUN_ID_LENGTH,
        forall|i: int|
            0 <= i < RUN_ID_LENGTH ==> utils::is_id_char(
                #[trigger] minted_id(plan_uid, hash, minted, nanos)[i],
            ),
{
    let n = digests::xxh3_64(
        digests::text_item(plan_uid) + digests::text_item(numerals::numeral(hash.0 as nat, 16))
            + digests::number_item(minted as nat) + digests::low_bytes(nanos as nat, 16),
    ) as nat;
    utils::ids_fit_names(n, RUN_ID_LENGTH as nat);
}

// --- ownership -------------------------------------------------------------------------------

/// Whether some owner is an object of this kind, name and UID.
pub open spec fn owned_by(
    owners: Seq<OwnerReference>,
    kind: Seq<char>,
    name: Seq<char>,
    uid: Seq<char>,
) -> bool {
    exists|i: int|
        0 <= i < owners.len() && (#[trigger] owners[i]).kind@ == kind && owners[i].name@ == name
            && owners[i].uid@ == uid
}

fn is_owned_by(owners: &[OwnerReference], kind: &str, name: &str, uid: &str) -> (res: bool)
    ensures
        res == owned_by(owners@, kind@, name@, uid@),
{
    let mut i: usize = 0;
    while i < owners.len()
        invariant
            i <= owners@.len(),
            forall|j: int|
                0 <= j < i ==> !((#[trigger] owners@[j]).kind@ == kind@ && owners@[j].name@ == name@
                    && owners@[j].uid@ == uid@),
        decreases owners.len() - i,
    {
        if text_eq(owners[i].kind.as_str(), kind) && text_eq(owners[i].name.as_str(), name)
            && text_eq(owners[i].uid.as_str(), uid) {
            return true;
        }
        i = i + 1;
    }
    false
}

/// Whether some owner is this very plan, not just one of its name.
pub fn owner_references_plan(owners: &[OwnerReference], plan_name: &str, plan_uid: &str) -> (res: bool)
    ensures
        res == owned_by(owners@, PLAN_KIND@, plan_name@, plan_uid@),
{
    is_owned_by(owners, PLAN_KIND, plan_name, plan_uid)
}

/// Whether a record is of this very plan, by what it was created with.
pub open spec fn of_plan(play: Play, plan_name: Seq<char>, plan_uid: Seq<char>) -> bool {
    play.spec.playbook_plan@ == plan_name && play.spec.playbook_plan_uid@ == plan_uid
}

/// Whether a record is of this very plan.
pub fn play_belongs_to_plan(play: &Play, plan_name: &str, plan_uid: &str) -> (res: bool)
    ensures
        res == of_plan(*play, plan_name@, plan_uid@),
{
    text_eq(play.spec.playbook_plan.as_str(), plan_name) && text_eq(
        play.spec.playbook_plan_uid.as_str(),
        plan_uid,
    )
}

/// Whether a Job is of this very plan.
pub fn job_belongs_to_plan(job: &Job, plan_name: &str, plan_uid: &str) -> (res: bool)
    ensures
        res == owned_by(job.metadata.owner_references@, PLAN_KIND@, plan_name@, plan_uid@),
{
    owner_references_plan(&job.metadata.owner_references, plan_name, plan_uid)
}

/// Whether a pod is of this very Job. A Job that has not been created yet has no pods.
pub open spec fn pod_of(pod: ObservedPod, job: Job) -> bool {
    &&& job.metadata.name is Some
    &&& job.metadata.uid is Some
    &&& owned_by(
        pod.metadata.owner_references@,
        "Job"@,
        job.metadata.name->0@,
        job.metadata.uid->0@,
    )
}

/// Whether a pod is of this very Job.
pub fn pod_belongs_to_job(pod: &ObservedPod, job: &Job) -> (res: bool)
    ensures
        res == pod_of(*pod, *job),
{
    match (&job.metadata.name, &job.metadata.uid) {
        (Some(name), Some(uid)) => is_owned_by(
            &pod.metadata.owner_references,
            "Job",
            name.as_str(),
            uid.as_str(),
        ),
        _ => false,
    }
}

// --- what a Job says about itself ------------------------------------------------------------

/// The text under a key.
pub open spec fn text_under(map: LabelMap, key: Seq<char>) -> Option<Seq<char>> {
    if map@.contains_key(key) {
        Some(map@[key]@)
    } else {
        None
    }
}

fn value_under<'a>(map: &'a LabelMap, key: &str) -> (res: Option<&'a str>)
    ensures
        text::str_of(res) == text_under(*map, key@),
{
    match map.get(key) {
        Some(value) => Some(value.as_str()),
        None => None,
    }
}

/// A label of a Job.
pub fn job_label<'a>(job: &'a Job, key: &str) -> (res: Option<&'a str>)
    ensures
        text::str_of(res) == text_under(job.metadata.labels, key@),
{
    value_under(&job.metadata.labels, key)
}

/// A label of a Job's pod.
pub fn job_template_label<'a>(job: &'a Job, key: &str) -> (res: Option<&'a str>)
    ensures
        text::str_of(res) == text_under(job.template.metadata.labels, key@),
{
    value_under(&job.template.metadata.labels, key)
}

/// An annotation of an object.
pub fn annotation_value<'a>(metadata: &'a ObjectMeta, key: &str) -> (res: Option<&'a str>)
    ensures
        text::str_of(res) == text_under(metadata.annotations, key@),
{
    value_under(&metadata.annotations, key)
}

/// An annotation of a Job's pod.
pub fn job_template_annotation<'a>(job: &'a Job, key: &str) -> (res: Option<&'a str>)
    ensures
        text::str_of(res) == text_under(job.template.metadata.annotations, key@),
{
    annotation_value(&job.template.metadata, key)
}

/// The revision that a text writes down, in whichever form.
pub open spec fn hash_in(value: Option<Seq<char>>) -> Option<ExecutionHash> {
    match value {
        Some(value) => match numerals::numeral_value(value, 16) {
            Some(n) => if n <= u64::MAX {
                Some(ExecutionHash(n as u64))
            } else {
                None
            },
            None => None,
        },
        None => None,
    }
}

/// The revision a Job applies.
pub fn job_execution_hash(job: &Job) -> (res: Result<ExecutionHash, ReconcileError>)
    ensures
        match res {
            Ok(hash) => hash_in(text_under(job.metadata.labels, PLAYBOOKPLAN_HASH@)) == Some(hash),
            Err(error) => hash_in(text_under(job.metadata.labels, PLAYBOOKPLAN_HASH@)) is None
                && error == ReconcileError::PreconditionFailed(
                "active Job has no valid execution hash",
            ),
        },
{
    let hash = match job_label(job, PLAYBOOKPLAN_HASH) {
        Some(value) => ExecutionHash::from_hex(value),
        None => None,
    };
    match hash {
        Some(hash) => Ok(hash),
        None => Err(ReconcileError::PreconditionFailed("active Job has no valid execution hash")),
    }
}

/// The attempt a Job belongs to.
pub fn job_run_id(job: &Job) -> (res: Result<&str, ReconcileError>)
    ensures
        match res {
            Ok(id) => text_under(job.metadata.labels, RUN_ID@) == Some(id@),
            Err(error) => text_under(job.metadata.labels, RUN_ID@) is None && error
                == ReconcileError::PreconditionFailed("active Job has no run ID"),
        },
{
    match job_label(job, RUN_ID) {
        Some(id) => Ok(id),
        None => Err(ReconcileError::PreconditionFailed("active Job has no run ID")),
    }
}

// --- whether a Job is a run's ----------------------------------------------------------------

/// Whether a Job is the one an attempt committed to, by everything that identifies the attempt, on
/// the Job and on the pod that does the work.
pub open spec fn is_selected(
    job: Job,
    plan_name: Seq<char>,
    plan_uid: Seq<char>,
    hash: ExecutionHash,
    attempt: u32,
    run_id: Seq<char>,
    play_uid: Seq<char>,
) -> bool {
    let own = job.metadata;
    let pod = job.template.metadata;
    &&& owned_by(own.owner_references@, PLAN_KIND@, plan_name, plan_uid)
    &&& text_under(own.labels, PLAYBOOKPLAN_NAME@) == Some(plan_name)
    &&& text_under(own.labels, COMPONENT@) == Some(PLAYBOOK_COMPONENT@)
    &&& hash_in(text_under(own.labels, PLAYBOOKPLAN_HASH@)) == Some(hash)
    &&& own.name is Some
    &&& job_names::attempt_in(own.name->0@) == Some(attempt)
    &&& text_under(own.labels, RUN_ID@) == Some(run_id)
    &&& text_under(pod.labels, RUN_ID@) == Some(run_id)
    &&& text_under(own.annotations, PLAY_UID_ANNOTATION@) == Some(play_uid)
    &&& text_under(pod.annotations, PLAY_UID_ANNOTATION@) == Some(play_uid)
    &&& text_under(pod.labels, PLAYBOOKPLAN_HASH@) == Some(numerals::numeral(hash.0 as nat, 16))
    &&& text_under(pod.labels, PLAYBOOKPLAN_NAME@) == Some(plan_name)
    &&& text_under(pod.labels, COMPONENT@) == Some(PLAYBOOK_COMPONENT@)
}

/// Why a Job is not accepted as an attempt's: its plan is unidentified, or the Job is not the one.
/// A Job of the plan that has the plan's labels and no revision at all is refused for that.
pub open spec fn job_refused(
    error: ReconcileError,
    job: Job,
    plan: PlaybookPlan,
    hash: ExecutionHash,
    attempt: u32,
    run_id: Seq<char>,
    play_uid: Seq<char>,
) -> bool {
    if plan.metadata.name is None {
        error == ReconcileError::PreconditionFailed("name not set")
    } else if plan.metadata.uid is None {
        error == ReconcileError::PreconditionFailed("uid not set")
    } else {
        let name = plan.metadata.name->0@;
        let uid = plan.metadata.uid->0@;
        &&& !is_selected(job, name, uid, hash, attempt, run_id, play_uid)
        &&& error == ReconcileError::PreconditionFailed(
            if owned_by(job.metadata.owner_references@, PLAN_KIND@, name, uid) && text_under(
                job.metadata.labels,
                PLAYBOOKPLAN_NAME@,
            ) == Some(name) && text_under(job.metadata.labels, COMPONENT@) == Some(
                PLAYBOOK_COMPONENT@,
            ) && hash_in(text_under(job.metadata.labels, PLAYBOOKPLAN_HASH@)) is None {
                "active Job has no valid execution hash"
            } else {
                "existing Job does not belong to the selected run"
            },
        )
    }
}

fn text_is(value: Option<&str>, expected: &str) -> (res: bool)
    ensures
        res == (text::str_of(value) == Some(expected@)),
{
    match value {
        Some(value) => text_eq(value, expected),
        None => false,
    }
}

/// Accepts a Job only if it is the one an attempt committed to. Its content is not compared: a Job's
/// pod never changes once it exists, so its identity says what it was created from.
pub fn validate_selected_job(
    job: &Job,
    plan: &PlaybookPlan,
    expected_hash: ExecutionHash,
    expected_attempt: u32,
    expected_run_id: &str,
    expected_play_uid: &str,
) -> (res: Result<(), ReconcileError>)
    ensures
        match res {
            Ok(_) => {
                &&& plan.metadata.name is Some
                &&& plan.metadata.uid is Some
                &&& is_selected(
                    *job,
                    plan.metadata.name->0@,
                    plan.metadata.uid->0@,
                    expected_hash,
                    expected_attempt,
                    expected_run_id@,
                    expected_play_uid@,
                )
            },
            Err(error) => job_refused(
                error,
                *job,
                *plan,
                expected_hash,
                expected_attempt,
                expected_run_id@,
                expected_play_uid@,
            ),
        },
{
    let plan_name = match &plan.metadata.name {
        Some(name) => name.as_str(),
        None => {
            return Err(ReconcileError::PreconditionFailed("name not set"));
        },
    };
    let plan_uid = match &plan.metadata.uid {
        Some(uid) => uid.as_str(),
        None => {
            return Err(ReconcileError::PreconditionFailed("uid not set"));
        },
    };
    let foreign = Err(
        ReconcileError::PreconditionFailed("existing Job does not belong to the selected run"),
    );
    if !job_belongs_to_plan(job, plan_name, plan_uid) || !text_is(
        job_label(job, PLAYBOOKPLAN_NAME),
        plan_name,
    ) || !text_is(job_label(job, COMPONENT), PLAYBOOK_COMPONENT) {
        return foreign;
    }
    match job_execution_hash(job) {
        Ok(hash) => {
            if hash != expected_hash {
                return foreign;
            }
        },
        Err(error) => {
            return Err(error);
        },
    }
    let actual_attempt = match &job.metadata.name {
        Some(name) => retry_count_from_job_name(name.as_str()),
        None => None,
    };
    let right_attempt = match actual_attempt {
        Some(attempt) => attempt == expected_attempt,
        None => false,
    };
    let hash_text = expected_hash.to_text();
    if !right_attempt || !text_is(job_label(job, RUN_ID), expected_run_id) || !text_is(
        job_template_label(job, RUN_ID),
        expected_run_id,
    ) || !text_is(annotation_value(&job.metadata, PLAY_UID_ANNOTATION), expected_play_uid)
        || !text_is(job_template_annotation(job, PLAY_UID_ANNOTATION), expected_play_uid)
        || !text_is(job_template_label(job, PLAYBOOKPLAN_HASH), hash_text.as_str()) || !text_is(
        job_template_label(job, PLAYBOOKPLAN_NAME),
        plan_name,
    ) || !text_is(job_template_label(job, COMPONENT), PLAYBOOK_COMPONENT) {
        return foreign;
    }
    Ok(())
}

/// A run's own Job is recognised: what an attempt's Job is built as and tied to its record is
/// accepted as that attempt's.
pub proof fn a_runs_own_job_is_recognised(
    blueprint: Job,
    job: Job,
    plan: PlaybookPlan,
    hash: ExecutionHash,
    attempt: u32,
    run_id: Seq<char>,
    groups: Seq<ansible_inventory::ResolvedInventoryGroup>,
    play_uid: Seq<char>,
)
    requires
        plan.metadata.name is Some,
        plan.metadata.uid is Some,
        job_builder::is_blueprint(blueprint, hash, attempt, run_id, groups, plan),
        job_builder::same_but_annotations(job.metadata, blueprint.metadata),
        job_builder::same_but_annotations(job.template.metadata, blueprint.template.metadata),
        textmap::label_texts(job.metadata.annotations@) == textmap::label_texts(
            blueprint.metadata.annotations@,
        ).insert(PLAY_UID_ANNOTATION@, play_uid),
        textmap::label_texts(job.template.metadata.annotations@) == textmap::label_texts(
            blueprint.template.metadata.annotations@,
        ).insert(PLAY_UID_ANNOTATION@, play_uid),
    ensures
        is_selected(
            job,
            plan.metadata.name->0@,
            plan.metadata.uid->0@,
            hash,
            attempt,
            run_id,
            play_uid,
        ),
{
    crate::labels::labels_are_distinct();
    let name = plan.metadata.name->0@;
    let uid = plan.metadata.uid->0@;
    job_names::attempts_read_back_from_names(name, uid, hash, attempt);
    numerals::numeral_round_trip(hash.0 as nat, 16);
    lemma_text_under(job.metadata.labels);
    lemma_text_under(job.template.metadata.labels);
    lemma_text_under(job.metadata.annotations);
    lemma_text_under(job.template.metadata.annotations);
    let owner = job.metadata.owner_references@[0];
    assert(owner.kind@ == PLAN_KIND@ && owner.name@ == name && owner.uid@ == uid);
}

proof fn lemma_text_under(map: LabelMap)
    ensures
        forall|key: Seq<char>| #[trigger]
            text_under(map, key) == if textmap::label_texts(map@).contains_key(key) {
                Some(textmap::label_texts(map@)[key])
            } else {
                None
            },
{
}

/// No other attempt's Job is accepted: another revision, attempt, run or record is enough to refuse
/// it.
pub proof fn a_foreign_job_is_refused(
    job: Job,
    plan_name: Seq<char>,
    plan_uid: Seq<char>,
    hash: ExecutionHash,
    attempt: u32,
    run_id: Seq<char>,
    play_uid: Seq<char>,
    other_hash: ExecutionHash,
    other_attempt: u32,
    other_run: Seq<char>,
    other_play: Seq<char>,
)
    requires
        is_selected(job, plan_name, plan_uid, hash, attempt, run_id, play_uid),
        other_hash != hash || other_attempt != attempt || other_run != run_id || other_play
            != play_uid,
    ensures
        !is_selected(
            job,
            plan_name,
            plan_uid,
            other_hash,
            other_attempt,
            other_run,
            other_play,
        ),
{
}

// --- attempts --------------------------------------------------------------------------------

/// The largest of some numbers; zero where there are none.
pub open spec fn largest(claimed: Seq<u32>) -> u32
    decreases claimed.len(),
{
    if claimed.len() == 0 {
        0
    } else {
        let rest = largest(claimed.drop_last());
        if rest < claimed.last() {
            claimed.last()
        } else {
            rest
        }
    }
}

/// One past the largest number anything claims.
pub fn next_attempt_number(claimed: &[u32]) -> (res: Result<u32, ReconcileError>)
    ensures
        match res {
            Ok(next) => next == largest(claimed@) + 1,
            Err(error) => largest(claimed@) == u32::MAX && error
                == ReconcileError::PreconditionFailed("run attempt number overflowed"),
        },
{
    let mut most: u32 = 0;
    let mut i: usize = 0;
    assert(claimed@.take(0) =~= Seq::<u32>::empty());
    while i < claimed.len()
        invariant
            i <= claimed@.len(),
            most == largest(claimed@.take(i as int)),
        decreases claimed.len() - i,
    {
        assert(claimed@.take(i + 1).drop_last() =~= claimed@.take(i as int));
        assert(claimed@.take(i + 1).last() == claimed@[i as int]);
        if most < claimed[i] {
            most = claimed[i];
        }
        i = i + 1;
    }
    assert(claimed@.take(i as int) =~= claimed@);
    if most == u32::MAX {
        Err(ReconcileError::PreconditionFailed("run attempt number overflowed"))
    } else {
        Ok(most + 1)
    }
}

/// The next attempt is past every number that is claimed.
pub proof fn the_next_attempt_is_unclaimed(claimed: Seq<u32>, i: int)
    requires
        0 <= i < claimed.len(),
    ensures
        claimed[i] <= largest(claimed),
    decreases claimed.len(),
{
    if i < claimed.len() - 1 {
        the_next_attempt_is_unclaimed(claimed.drop_last(), i);
    }
}

/// The attempts that a plan's Jobs claim by their names.
pub open spec fn job_attempts(jobs: Seq<Job>, plan_name: Seq<char>, plan_uid: Seq<char>) -> Seq<u32>
    decreases jobs.len(),
{
    if jobs.len() == 0 {
        Seq::empty()
    } else {
        let rest = job_attempts(jobs.drop_last(), plan_name, plan_uid);
        let job = jobs.last();
        if owned_by(job.metadata.owner_references@, PLAN_KIND@, plan_name, plan_uid)
            && job.metadata.name is Some && job_names::attempt_in(
            job.metadata.name->0@,
        ) is Some {
            rest.push(job_names::attempt_in(job.metadata.name->0@)->0)
        } else {
            rest
        }
    }
}

/// The attempts that a plan's records claim, finished or not.
pub open spec fn play_attempts(plays: Seq<Play>, plan_name: Seq<char>, plan_uid: Seq<char>) -> Seq<u32>
    decreases plays.len(),
{
    if plays.len() == 0 {
        Seq::empty()
    } else {
        let rest = play_attempts(plays.drop_last(), plan_name, plan_uid);
        if of_plan(plays.last(), plan_name, plan_uid) {
            rest.push(plays.last().spec.attempt)
        } else {
            rest
        }
    }
}

/// The attempt to make next, and the name its Job and record share.
#[derive(Debug, Clone, PartialEq, Eq)]
pub struct SelectedJob {
    pub job_name: String,
    pub attempt: u32,
}

/// The largest attempt anything still on the cluster claims, or that the plan has counted.
pub open spec fn most_claimed(
    jobs: Seq<Job>,
    plays: Seq<Play>,
    plan_name: Seq<char>,
    plan_uid: Seq<char>,
    retry_count: u32,
) -> u32 {
    largest(
        seq![
            retry_count,
            largest(job_attempts(jobs, plan_name, plan_uid)),
            largest(play_attempts(plays, plan_name, plan_uid)),
        ],
    )
}

fn most_job_attempts(jobs: &[Job], plan_name: &str, plan_uid: &str) -> (res: u32)
    ensures
        res == largest(job_attempts(jobs@, plan_name@, plan_uid@)),
{
    let mut most: u32 = 0;
    let mut i: usize = 0;
    assert(jobs@.take(0) =~= Seq::<Job>::empty());
    while i < jobs.len()
        invariant
            i <= jobs@.len(),
            most == largest(job_attempts(jobs@.take(i as int), plan_name@, plan_uid@)),
        decreases jobs.len() - i,
    {
        let ghost before = job_attempts(jobs@.take(i as int), plan_name@, plan_uid@);
        assert(jobs@.take(i + 1).drop_last() =~= jobs@.take(i as int));
        assert(jobs@.take(i + 1).last() == jobs@[i as int]);
        let job = &jobs[i];
        if job_belongs_to_plan(job, plan_name, plan_uid) {
            if let Some(name) = &job.metadata.name {
                if let Some(attempt) = retry_count_from_job_name(name.as_str()) {
                    assert(before.push(attempt).drop_last() =~= before);
                    if most < attempt {
                        most = attempt;
                    }
                }
            }
        }
        i = i + 1;
    }
    assert(jobs@.take(i as int) =~= jobs@);
    most
}

fn most_play_attempts(plays: &[Play], plan_name: &str, plan_uid: &str) -> (res: u32)
    ensures
        res == largest(play_attempts(plays@, plan_name@, plan_uid@)),
{
    let mut most: u32 = 0;
    let mut i: usize = 0;
    assert(plays@.take(0) =~= Seq::<Play>::empty());
    while i < plays.len()
        invariant
            i <= plays@.len(),
            most == largest(play_attempts(plays@.take(i as int), plan_name@, plan_uid@)),
        decreases plays.len() - i,
    {
        let ghost before = play_attempts(plays@.take(i as int), plan_name@, plan_uid@);
        assert(plays@.take(i + 1).drop_last() =~= plays@.take(i as int));
        assert(plays@.take(i + 1).last() == plays@[i as int]);
        if play_belongs_to_plan(&plays[i], plan_name, plan_uid) {
            let attempt: u32 = plays[i].spec.attempt;
            assert(before.push(attempt).drop_last() =~= before);
            if most < attempt {
                most = attempt;
            }
        }
        i = i + 1;
    }
    assert(plays@.take(i as int) =~= plays@);
    most
}

/// Names the next attempt: one past every number that any of the plan's Jobs or records claims, of
/// whichever revision, so that no two of its runs share a name. An active Job without a record is
/// never adopted.
pub fn select_job(
    jobs: &[Job],
    plays: &[Play],
    hash: ExecutionHash,
    plan: &PlaybookPlan,
    current_retry_count: u32,
) -> (res: Result<SelectedJob, ReconcileError>)
    ensures
        match res {
            Ok(selected) => {
                &&& plan.metadata.name is Some
                &&& plan.metadata.uid is Some
                &&& plan.metadata.namespace is Some
                &&& selected.attempt == most_claimed(
                    jobs@,
                    plays@,
                    plan.metadata.name->0@,
                    plan.metadata.uid->0@,
                    current_retry_count,
                ) + 1
                &&& selected.job_name@ == job_names::job_name_of(
                    plan.metadata.name->0@,
                    plan.metadata.uid->0@,
                    hash,
                    selected.attempt,
                )
            },
            Err(error) => if plan.metadata.name is None {
                error == ReconcileError::PreconditionFailed("name not set")
            } else if plan.metadata.uid is None {
                error == ReconcileError::PreconditionFailed("uid not set")
            } else if plan.metadata.namespace is None {
                error == ReconcileError::PreconditionFailed("namespace not set")
            } else {
                &&& most_claimed(
                    jobs@,
                    plays@,
                    plan.metadata.name->0@,
                    plan.metadata.uid->0@,
                    current_retry_count,
                ) == u32::MAX
                &&& error == ReconcileError::PreconditionFailed("run attempt number overflowed")
            },
        },
{
    let plan_name = match &plan.metadata.name {
        Some(name) => name.as_str(),
        None => {
            return Err(ReconcileError::PreconditionFailed("name not set"));
        },
    };
    let plan_uid = match &plan.metadata.uid {
        Some(uid) => uid.as_str(),
        None => {
            return Err(ReconcileError::PreconditionFailed("uid not set"));
        },
    };
    if plan.metadata.namespace.is_none() {
        return Err(ReconcileError::PreconditionFailed("namespace not set"));
    }
    let claimed: Vec<u32> = vec![
        current_retry_count,
        most_job_attempts(jobs, plan_name, plan_uid),
        most_play_attempts(plays, plan_name, plan_uid),
    ];
    assert(claimed@ =~= seq![
        current_retry_count,
        largest(job_attempts(jobs@, plan_name@, plan_uid@)),
        largest(play_attempts(plays@, plan_name@, plan_uid@)),
    ]);
    let attempt = match next_attempt_number(&claimed) {
        Ok(attempt) => attempt,
        Err(error) => {
            return Err(error);
        },
    };
    Ok(SelectedJob { job_name: job_name(plan_name, plan_uid, &hash, attempt), attempt })
}

/// A new attempt never takes a name that one of the plan's records holds.
pub proof fn a_new_attempt_takes_no_recorded_name(
    jobs: Seq<Job>,
    plays: Seq<Play>,
    plan_name: Seq<char>,
    plan_uid: Seq<char>,
    retry_count: u32,
    hash: ExecutionHash,
    recorded_hash: ExecutionHash,
    i: int,
)
    requires
        0 <= i < plays.len(),
        of_plan(plays[i], plan_name, plan_uid),
        most_claimed(jobs, plays, plan_name, plan_uid, retry_count) < u32::MAX,
    ensures
        job_names::job_name_of(
            plan_name,
            plan_uid,
            hash,
            (most_claimed(jobs, plays, plan_name, plan_uid, retry_count) + 1) as u32,
        ) != job_names::job_name_of(plan_name, plan_uid, recorded_hash, plays[i].spec.attempt),
{
    let attempts = play_attempts(plays, plan_name, plan_uid);
    lemma_attempt_listed(plays, plan_name, plan_uid, i);
    let k = choose|k: int| 0 <= k < attempts.len() && attempts[k] == plays[i].spec.attempt;
    the_next_attempt_is_unclaimed(attempts, k);
    let claims = seq![
        retry_count,
        largest(job_attempts(jobs, plan_name, plan_uid)),
        largest(attempts),
    ];
    the_next_attempt_is_unclaimed(claims, 2);
    assert(claims[2] == largest(attempts));
    let next = (most_claimed(jobs, plays, plan_name, plan_uid, retry_count) + 1) as u32;
    job_names::attempts_read_back_from_names(plan_name, plan_uid, hash, next);
    job_names::attempts_read_back_from_names(
        plan_name,
        plan_uid,
        recorded_hash,
        plays[i].spec.attempt,
    );
}

proof fn lemma_attempt_listed(plays: Seq<Play>, plan_name: Seq<char>, plan_uid: Seq<char>, i: int)
    requires
        0 <= i < plays.len(),
        of_plan(plays[i], plan_name, plan_uid),
    ensures
        play_attempts(plays, plan_name, plan_uid).contains(plays[i].spec.attempt),
    decreases plays.len(),
{
    let all = play_attempts(plays, plan_name, plan_uid);
    if i == plays.len() - 1 {
        assert(all[all.len() - 1] == plays[i].spec.attempt);
    } else {
        let rest = play_attempts(plays.drop_last(), plan_name, plan_uid);
        lemma_attempt_listed(plays.drop_last(), plan_name, plan_uid, i);
        let k = choose|k: int| 0 <= k < rest.len() && rest[k] == plays[i].spec.attempt;
        assert(all[k] == rest[k]);
    }
}

// --- runs a plan mirrors ---------------------------------------------------------------------

/// A run the operator is driving: what the plan's status mirrors of it, and its revision.
pub struct RecordedRun {
    pub mirror: ActiveRun,
    pub execution_hash: ExecutionHash,
}

impl RecordedRun {
    /// A run as the plan's status mirrors it. A mirror that writes down no revision was edited by
    /// hand.
    pub fn from_mirror(mirror: ActiveRun) -> (res: Result<Self, ReconcileError>)
        ensures
            match res {
                Ok(run) => run.mirror == mirror && hash_in(Some(mirror.execution_hash@)) == Some(
                    run.execution_hash,
                ),
                Err(error) => hash_in(Some(mirror.execution_hash@)) is None && error
                    == ReconcileError::PreconditionFailed("run has an invalid execution hash"),
            },
    {
        match ExecutionHash::from_hex(mirror.execution_hash.as_str()) {
            Some(execution_hash) => Ok(RecordedRun { mirror, execution_hash }),
            None => Err(ReconcileError::PreconditionFailed("run has an invalid execution hash")),
        }
    }
}

/// Whether a run is what a record describes. The revision is mirrored in its canonical form.
pub open spec fn is_recorded_run(run: RecordedRun, play: Play) -> bool {
    &&& hash_in(Some(play.spec.execution_hash@)) == Some(run.execution_hash)
    &&& run.mirror.execution_hash@ == numerals::numeral(run.execution_hash.0 as nat, 16)
    &&& run.mirror.run_id@ == play.spec.run_id@
    &&& Some(run.mirror.job_name@) == text::text_of(play.metadata.name)
    &&& Some(run.mirror.play_uid@) == text::text_of(play.metadata.uid)
    &&& text::texts(run.mirror.hosts@) == ansible_inventory::distinct(
        ansible_inventory::all_hosts(play.spec.inventory@),
    )
    &&& run.mirror.attempt == play.spec.attempt
    &&& run.mirror.triggered_slot == play.spec.triggered_slot
}

/// Why a record describes no run.
pub open spec fn undescribed(error: ReconcileError, play: Play) -> bool {
    if hash_in(Some(play.spec.execution_hash@)) is None {
        error == ReconcileError::PreconditionFailed("active Play has an invalid execution hash")
    } else if play.metadata.name is None {
        error == ReconcileError::PreconditionFailed("active Play has no name")
    } else {
        play.metadata.uid is None && error == ReconcileError::PreconditionFailed(
            "active Play has no UID",
        )
    }
}

/// The run a record describes.
pub fn recorded_run_from_play(play: &Play) -> (res: Result<RecordedRun, ReconcileError>)
    ensures
        match res {
            Ok(run) => is_recorded_run(run, *play),
            Err(error) => undescribed(error, *play),
        },
{
    let execution_hash = match ExecutionHash::from_hex(play.spec.execution_hash.as_str()) {
        Some(hash) => hash,
        None => {
            return Err(
                ReconcileError::PreconditionFailed("active Play has an invalid execution hash"),
            );
        },
    };
    let job_name = match &play.metadata.name {
        Some(name) => name.clone(),
        None => {
            return Err(ReconcileError::PreconditionFailed("active Play has no name"));
        },
    };
    let play_uid = match &play.metadata.uid {
        Some(uid) => uid.clone(),
        None => {
            return Err(ReconcileError::PreconditionFailed("active Play has no UID"));
        },
    };
    Ok(
        RecordedRun {
            mirror: ActiveRun {
                execution_hash: execution_hash.to_text(),
                run_id: play.spec.run_id.clone(),
                job_name,
                play_uid,
                hosts: host_names(&play.spec.inventory),
                attempt: play.spec.attempt,
                triggered_slot: play.spec.triggered_slot,
            },
            execution_hash,
        },
    )
}

/// What was found under a record's name, if it is the record.
pub open spec fn the_record(found: Option<Play>, uid: Seq<char>) -> Option<Play> {
    match found {
        Some(play) => if text::text_of(play.metadata.uid) == Some(uid) {
            Some(play)
        } else {
            None
        },
        None => None,
    }
}

/// What was found under a record's name, if it is the record: another object there is the same as
/// none.
pub fn own_record(found: Option<Play>, expected_uid: &str) -> (res: Option<Play>)
    ensures
        res == the_record(found, expected_uid@),
{
    match found {
        Some(play) => if optional_is(&play.metadata.uid, expected_uid) {
            Some(play)
        } else {
            None
        },
        None => None,
    }
}

/// Whether the record of a run that is over is still there to be acknowledged.
#[derive(Debug, Clone, Copy, PartialEq, Eq, Structural)]
pub enum TerminalRecord {
    Present,
    /// It is gone, and only what the plan mirrors of the run is left.
    Lost,
}

/// Whether the record of a run that is over is there, by what was found under its name.
pub open spec fn record_left(found: Option<&Play>, uid: Seq<char>) -> TerminalRecord {
    if found matches Some(play) && text::text_of(play.metadata.uid) == Some(uid) {
        TerminalRecord::Present
    } else {
        TerminalRecord::Lost
    }
}

/// Whether the record of a run that is over, as found under its name, is there to be acknowledged.
pub fn terminal_record(found: Option<&Play>, expected_uid: &str) -> (res: TerminalRecord)
    ensures
        res == record_left(found, expected_uid@),
{
    match found {
        Some(play) => if optional_is(&play.metadata.uid, expected_uid) {
            TerminalRecord::Present
        } else {
            TerminalRecord::Lost
        },
        None => TerminalRecord::Lost,
    }
}

/// Whether giving up a run gives up what a plan mirrors: it mirrors this run, or none.
pub open spec fn mirrors(status: PlaybookPlanStatus, run: RecordedRun) -> bool {
    status.active_run matches Some(mirrored) ==> mirrored.play_uid@ == run.mirror.play_uid@
}

/// Whether giving up a run gives up what a plan mirrors.
pub fn mirrors_run(status: &PlaybookPlanStatus, run: &RecordedRun) -> (res: bool)
    ensures
        res == mirrors(*status, *run),
{
    match &status.active_run {
        Some(mirrored) => mirrored.play_uid == run.mirror.play_uid,
        None => true,
    }
}

/// Whether a record is of a run whose Job exists, the only one that may be finished by what became
/// of a Job.
pub fn play_is_running_attempt(play: &Play) -> (res: Result<bool, ReconcileError>)
    ensures
        match res {
            Ok(running) => play.status is Some && running == (play.status->0.phase is Running),
            Err(error) => play.status is None && error == ReconcileError::PreconditionFailed(
                "active Play has no status",
            ),
        },
{
    match &play.status {
        Some(status) => Ok(status.phase == PlayPhase::Running),
        None => Err(ReconcileError::PreconditionFailed("active Play has no status")),
    }
}

// --- how runs are told apart -----------------------------------------------------------------

/// A revision is read from its hexadecimal text, which no other revision has.
pub proof fn a_revision_is_read_from_its_text(hash: ExecutionHash)
    ensures
        hash_in(Some(numerals::numeral(hash.0 as nat, 16))) == Some(hash),
        hash_in(None) is None,
{
    numerals::numeral_round_trip(hash.0 as nat, 16);
}

/// An object is a plan's own exactly where one of its owners has the kind, the name and the UID of the plan.
pub proof fn an_owner_is_known_by_kind_name_and_uid(
    owners: Seq<OwnerReference>,
    kind: Seq<char>,
    name: Seq<char>,
    uid: Seq<char>,
    i: int,
)
    requires
        0 <= i < owners.len(),
    ensures
        owners[i].kind@ == kind && owners[i].name@ == name && owners[i].uid@ == uid ==> owned_by(
            owners,
            kind,
            name,
            uid,
        ),
        (forall|k: int|
            0 <= k < owners.len() ==> (#[trigger] owners[k]).uid@ != uid || owners[k].name@ != name
                || owners[k].kind@ != kind) ==> !owned_by(owners, kind, name, uid),
        PLAN_KIND@ == "PlaybookPlan"@,
{
}

/// A Job is a run's own only where everything that names the run is on the Job and on its Pods alike.
pub proof fn a_runs_job_says_so_throughout(
    job: Job,
    plan_name: Seq<char>,
    plan_uid: Seq<char>,
    hash: ExecutionHash,
    attempt: u32,
    run_id: Seq<char>,
    play_uid: Seq<char>,
)
    requires
        is_selected(job, plan_name, plan_uid, hash, attempt, run_id, play_uid),
    ensures
        exists|i: int|
            0 <= i < job.metadata.owner_references@.len() && (
            #[trigger] job.metadata.owner_references@[i]).uid@ == plan_uid,
        text_under(job.metadata.labels, "ansible.cloudbending.dev/run-id"@) == Some(run_id),
        text_under(job.template.metadata.labels, "ansible.cloudbending.dev/run-id"@) == Some(run_id),
        text_under(job.metadata.annotations, "ansible.cloudbending.dev/play-uid"@) == Some(play_uid),
        text_under(job.template.metadata.annotations, "ansible.cloudbending.dev/play-uid"@) == Some(
            play_uid,
        ),
        text_under(job.metadata.labels, "ansible.cloudbending.dev/playbookplan"@) == Some(plan_name),
        text_under(job.template.metadata.labels, "ansible.cloudbending.dev/playbookplan"@) == Some(
            plan_name,
        ),
        hash_in(text_under(job.metadata.labels, "ansible.cloudbending.dev/hash"@)) == Some(hash),
        hash_in(text_under(job.template.metadata.labels, "ansible.cloudbending.dev/hash"@)) == Some(
            hash,
        ),
        text_under(job.metadata.labels, "app.kubernetes.io/component"@) == Some("playbook"@),
        text_under(job.template.metadata.labels, "app.kubernetes.io/component"@) == Some("playbook"@),
        job.metadata.name is Some && job_names::attempt_in(job.metadata.name->0@) == Some(attempt),
{
    numerals::numeral_round_trip(hash.0 as nat, 16);
    let owners = job.metadata.owner_references@;
    let i = choose|i: int|
        0 <= i < owners.len() && (#[trigger] owners[i]).kind@ == PLAN_KIND@ && owners[i].name@
            == plan_name && owners[i].uid@ == plan_uid;
    assert(owners[i].uid@ == plan_uid);
}

/// The largest of some numbers is one of them, or zero where there are none.
pub proof fn the_largest_is_one_of_them(claimed: Seq<u32>)
    ensures
        claimed.len() == 0 ==> largest(claimed) == 0,
        largest(claimed) == 0 || claimed.contains(largest(claimed)),
    decreases claimed.len(),
{
    if claimed.len() > 0 {
        let rest = claimed.drop_last();
        the_largest_is_one_of_them(rest);
        if largest(rest) < claimed.last() {
            assert(claimed[claimed.len() - 1] == largest(claimed));
        } else if largest(rest) != 0 {
            let i = choose|i: int| 0 <= i < rest.len() && rest[i] == largest(rest);
            assert(claimed[i] == largest(claimed));
        }
    }
}

/// Every attempt a plan's Jobs and records name counts, and nobody else's.
pub proof fn every_attempt_of_a_plan_counts(
    jobs: Seq<Job>,
    plays: Seq<Play>,
    plan_name: Seq<char>,
    plan_uid: Seq<char>,
    job: Job,
    play: Play,
)
    ensures
        job_attempts(Seq::<Job>::empty(), plan_name, plan_uid).len() == 0,
        play_attempts(Seq::<Play>::empty(), plan_name, plan_uid).len() == 0,
        owned_by(job.metadata.owner_references@, "PlaybookPlan"@, plan_name, plan_uid)
            && job.metadata.name is Some && job_names::attempt_in(job.metadata.name->0@) is Some
            ==> job_attempts(jobs.push(job), plan_name, plan_uid) == job_attempts(
            jobs,
            plan_name,
            plan_uid,
        ).push(job_names::attempt_in(job.metadata.name->0@)->0),
        !owned_by(job.metadata.owner_references@, "PlaybookPlan"@, plan_name, plan_uid)
            ==> job_attempts(jobs.push(job), plan_name, plan_uid) == job_attempts(
            jobs,
            plan_name,
            plan_uid,
        ),
        play.spec.playbook_plan@ == plan_name && play.spec.playbook_plan_uid@ == plan_uid
            ==> play_attempts(plays.push(play), plan_name, plan_uid) == play_attempts(
            plays,
            plan_name,
            plan_uid,
        ).push(play.spec.attempt),
        play.spec.playbook_plan@ != plan_name || play.spec.playbook_plan_uid@ != plan_uid
            ==> play_attempts(plays.push(play), plan_name, plan_uid) == play_attempts(
            plays,
            plan_name,
            plan_uid,
        ),
{
    assert(jobs.push(job).drop_last() =~= jobs);
    assert(plays.push(play).drop_last() =~= plays);
}

/// The next attempt comes after the one the plan counts to, after every Job's and after every record's, and
/// right after one of them.
pub proof fn the_next_attempt_follows_all_that_were(
    jobs: Seq<Job>,
    plays: Seq<Play>,
    plan_name: Seq<char>,
    plan_uid: Seq<char>,
    retry_count: u32,
)
    ensures
        most_claimed(jobs, plays, plan_name, plan_uid, retry_count) >= retry_count,
        most_claimed(jobs, plays, plan_name, plan_uid, retry_count) >= largest(
            job_attempts(jobs, plan_name, plan_uid),
        ),
        most_claimed(jobs, plays, plan_name, plan_uid, retry_count) >= largest(
            play_attempts(plays, plan_name, plan_uid),
        ),
        most_claimed(jobs, plays, plan_name, plan_uid, retry_count) == retry_count || most_claimed(
            jobs,
            plays,
            plan_name,
            plan_uid,
            retry_count,
        ) == largest(job_attempts(jobs, plan_name, plan_uid)) || most_claimed(
            jobs,
            plays,
            plan_name,
            plan_uid,
            retry_count,
        ) == largest(play_attempts(plays, plan_name, plan_uid)),
{
    let all = seq![
        retry_count,
        largest(job_attempts(jobs, plan_name, plan_uid)),
        largest(play_attempts(plays, plan_name, plan_uid)),
    ];
    the_next_attempt_is_unclaimed(all, 0);
    the_next_attempt_is_unclaimed(all, 1);
    the_next_attempt_is_unclaimed(all, 2);
    the_largest_is_one_of_them(all);
}

/// What is mirrored of a run is what its record says.
pub proof fn a_mirror_shows_its_record(run: RecordedRun, play: Play, host: Seq<char>)
    requires
        is_recorded_run(run, play),
    ensures
        run.mirror.run_id@ == play.spec.run_id@,
        run.mirror.attempt == play.spec.attempt,
        run.mirror.triggered_slot == play.spec.triggered_slot,
        play.metadata.name is Some && run.mirror.job_name@ == play.metadata.name->0@,
        play.metadata.uid is Some && run.mirror.play_uid@ == play.metadata.uid->0@,
        text::texts(run.mirror.hosts@).contains(host) <==> ansible_inventory::all_hosts(
            play.spec.inventory@,
        ).contains(host),
        hash_in(Some(play.spec.execution_hash@)) == hash_in(Some(run.mirror.execution_hash@)),
{
    a_revision_is_read_from_its_text(run.execution_hash);
    ansible_inventory::distinct_keeps_each_once(
        ansible_inventory::all_hosts(play.spec.inventory@),
    );
}

/// A plan's status is about a run where it mirrors no run at all or that very one.
pub proof fn a_status_is_about_the_run_it_mirrors(status: PlaybookPlanStatus, run: RecordedRun)
    ensures
        status.active_run is None ==> mirrors(status, run),
        status.active_run matches Some(mirrored) ==> (mirrors(status, run) <==> mirrored.play_uid@
            == run.mirror.play_uid@),
{
}

/// A plan's name may be as long as a label's value, and a run's identifier has ten characters.
pub proof fn names_have_their_lengths()
    ensures
        MAX_PLAN_NAME_LEN == 63,
        RUN_ID_LENGTH == 10,
{
}

/// A record is known by its UID: another object of its name is none.
pub proof fn a_record_is_known_by_its_uid(play: Play, uid: Seq<char>)
    ensures
        play.metadata.uid is Some && play.metadata.uid->0@ == uid ==> the_record(Some(play), uid)
            == Some(play) && record_left(Some(&play), uid) == TerminalRecord::Present,
        play.metadata.uid is None || play.metadata.uid->0@ != uid ==> the_record(Some(play), uid)
            is None && record_left(Some(&play), uid) == TerminalRecord::Lost,
        the_record(None, uid) is None,
        record_left(None, uid) == TerminalRecord::Lost,
{
}

/// A Job is refused for what is wrong with it: a plan without a name or a UID, a Job of the plan without a
/// readable revision, or else a Job that is not the run's.
pub proof fn a_refused_job_is_told_why(
    error: ReconcileError,
    job: Job,
    plan: PlaybookPlan,
    hash: ExecutionHash,
    attempt: u32,
    run_id: Seq<char>,
    play_uid: Seq<char>,
)
    requires
        job_refused(error, job, plan, hash, attempt, run_id, play_uid),
    ensures
        plan.metadata.name is None ==> error == ReconcileError::PreconditionFailed("name not set"),
        plan.metadata.name is Some && plan.metadata.uid is None ==> error
            == ReconcileError::PreconditionFailed("uid not set"),
        plan.metadata.name is Some && plan.metadata.uid is Some && hash_in(
            text_under(job.metadata.labels, "ansible.cloudbending.dev/hash"@),
        ) is Some ==> error == ReconcileError::PreconditionFailed(
            "existing Job does not belong to the selected run",
        ),
        plan.metadata.name is Some && plan.metadata.uid is Some && !owned_by(
            job.metadata.owner_references@,
            "PlaybookPlan"@,
            plan.metadata.name->0@,
            plan.metadata.uid->0@,
        ) ==> error == ReconcileError::PreconditionFailed(
            "existing Job does not belong to the selected run",
        ),
        plan.metadata.name is Some && plan.metadata.uid is Some && owned_by(
            job.metadata.owner_references@,
            "PlaybookPlan"@,
            plan.metadata.name->0@,
            plan.metadata.uid->0@,
        ) && text_under(job.metadata.labels, "ansible.cloudbending.dev/playbookplan"@) == Some(
            plan.metadata.name->0@,
        ) && text_under(job.metadata.labels, "app.kubernetes.io/component"@) == Some("playbook"@)
            && text_under(job.metadata.labels, "ansible.cloudbending.dev/hash"@) is None ==> error
            == ReconcileError::PreconditionFailed("active Job has no valid execution hash"),
        plan.metadata.name is Some && plan.metadata.uid is Some ==> !is_selected(
            job,
            plan.metadata.name->0@,
            plan.metadata.uid->0@,
            hash,
            attempt,
            run_id,
            play_uid,
        ),
{
}

} // verus!
