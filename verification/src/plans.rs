//! Plans, their runs' records, and what each reports.

use vstd::prelude::*;
use crate::ansible_inventory::ResolvedHosts;
use crate::resources::{GenericMap, ObjectMeta, SecretRef, MAX_DNS_LABEL_LEN};
use crate::text::{clone_optional, clone_strings};
use crate::textmap::TextMap;

verus! {

/// The API version and kind of a plan, as an owner reference names them.
pub const PLAN_API_VERSION: &'static str = "ansible.cloudbending.dev/v1beta1";

pub const PLAN_KIND: &'static str = "PlaybookPlan";

/// A plan's name is written into label values, so it may be no longer than one.
pub const MAX_PLAN_NAME_LEN: usize = 63;

/// Why a reconcile step refused to go on.
#[derive(Debug, Clone, PartialEq, Eq)]
pub enum ReconcileError {
    PreconditionFailed(&'static str),
    /// An inventory group sets a variable the operator manages itself.
    ReservedInventoryVariable { group: String, key: String },
    /// A plan's extra files name a volume that is no volume of any kind.
    InvalidVolume { name: String },
}

/// An instant and the offset it was written with.
#[derive(Debug, Clone, Copy, PartialEq, Eq, Structural)]
pub struct Timestamp {
    /// Seconds since the Unix epoch.
    pub seconds: i64,
    /// Nanoseconds past the second.
    pub nanos: u32,
    pub offset_seconds: i32,
}

impl Timestamp {
    /// Whether two timestamps are the same instant, whatever offsets they carry.
    pub open spec fn same_instant(self, other: Timestamp) -> bool {
        self.seconds == other.seconds && self.nanos == other.nanos
    }

    /// Whether two timestamps are the same instant, whatever offsets they carry.
    pub fn is_instant(&self, other: &Timestamp) -> (res: bool)
        ensures
            res == self.same_instant(*other),
    {
        self.seconds == other.seconds && self.nanos == other.nanos
    }
}

/// When a plan's runs are started.
#[derive(Debug, Clone, Copy, PartialEq, Eq, Structural, Default)]
pub enum ExecutionMode {
    #[default]
    OneShot,
    Recurring,
}

/// Where a plan is in its life.
#[derive(Debug, Clone, Copy, PartialEq, Eq, Structural, Default)]
pub enum Phase {
    #[default]
    Pending,
    Scheduled,
    Applying,
    Succeeded,
    Failed,
    UnauthorizedNamespace,
}

/// What became of one host in a run.
#[derive(Debug, Clone, Copy, PartialEq, Eq, Structural, Default)]
pub enum HostOutcome {
    Succeeded,
    Failed,
    Unreachable,
    NotReached,
    Incomplete,
    #[default]
    Unknown,
}

/// An inventory a plan names, by kind.
#[derive(Debug, Clone, PartialEq, Eq, Default)]
pub struct InventoryRef {
    pub cluster_inventory: Option<String>,
    pub static_inventory: Option<String>,
}

/// Where a plan's extra variables come from.
#[derive(Debug, Clone, PartialEq, Eq)]
pub enum PlaybookVariableSource {
    Inline { inline: GenericMap },
    SecretRef { secret_ref: SecretRef },
}

/// Where a plan's extra files come from: a Secret, or any other kind of volume written out.
#[derive(Debug, Clone, PartialEq, Eq)]
pub enum FilesSource {
    Secret { name: String, secret_ref: SecretRef },
    Other { name: String, extra: GenericMap },
}

/// What a plan applies.
#[derive(Debug, Clone, PartialEq, Eq, Default)]
pub struct PlaybookTemplate {
    pub playbook: String,
    pub variables: Option<Vec<PlaybookVariableSource>>,
    pub files: Option<Vec<FilesSource>>,
    pub requirements: Option<String>,
}

/// What a plan's author wrote. `security_context` is kept as the JSON text it was written in.
#[derive(Debug, Clone, PartialEq, Eq, Default)]
pub struct PlaybookPlanSpec {
    pub image: String,
    pub mode: ExecutionMode,
    pub schedule: Option<String>,
    pub starting_deadline_seconds: Option<u32>,
    pub suspend: bool,
    pub max_attempts: Option<u32>,
    pub inventory_refs: Vec<InventoryRef>,
    pub template: PlaybookTemplate,
    pub ttl_seconds_after_finished: Option<i32>,
    pub verbosity: Option<u8>,
    pub service_account_name: Option<String>,
    pub security_context: Option<GenericMap>,
    pub successful_plays_history_limit: Option<u32>,
    pub failed_plays_history_limit: Option<u32>,
}

/// What is recorded about one host across runs.
#[derive(Debug, Clone, PartialEq, Eq, Default)]
pub struct HostStatus {
    pub last_applied_hash: String,
    pub last_outcome: HostOutcome,
    /// When the run that made the claim was prepared.
    pub applied_at: Option<Timestamp>,
    pub applied_version: Option<String>,
    /// The Node object the claim was made about.
    pub applied_node_uid: Option<String>,
    pub last_transition_time: Option<Timestamp>,
}

/// The run a plan is driving, as its status mirrors it.
#[derive(Debug, Clone, PartialEq, Eq)]
pub struct ActiveRun {
    pub execution_hash: String,
    pub run_id: String,
    pub job_name: String,
    pub play_uid: String,
    pub hosts: Vec<String>,
    pub attempt: u32,
    pub triggered_slot: Option<Timestamp>,
}

impl ActiveRun {
    /// Whether two mirrors describe the same run in the same words.
    pub open spec fn same(&self, other: &ActiveRun) -> bool {
        &&& self.execution_hash == other.execution_hash
        &&& self.run_id == other.run_id
        &&& self.job_name == other.job_name
        &&& self.play_uid == other.play_uid
        &&& self.hosts@ == other.hosts@
        &&& self.attempt == other.attempt
        &&& self.triggered_slot == other.triggered_slot
    }

    /// A copy.
    pub fn copy(&self) -> (res: Self)
        ensures
            res.same(self),
    {
        ActiveRun {
            execution_hash: self.execution_hash.clone(),
            run_id: self.run_id.clone(),
            job_name: self.job_name.clone(),
            play_uid: self.play_uid.clone(),
            hosts: clone_strings(&self.hosts),
            attempt: self.attempt,
            triggered_slot: self.triggered_slot,
        }
    }
}

/// What a plan reports.
#[derive(Debug, Clone, PartialEq, Default)]
pub struct PlaybookPlanStatus {
    pub phase: Phase,
    pub summary: Option<String>,
    pub current_hash: String,
    pub retry_count: u32,
    pub last_triggered_run: Option<Timestamp>,
    pub next_run: Option<Timestamp>,
    pub eligible_hosts: Vec<ResolvedHosts>,
    pub hosts_status: Option<TextMap<HostStatus>>,
    pub current_job_name: Option<String>,
    pub active_run: Option<ActiveRun>,
    pub last_rendered_generation: Option<i64>,
}

/// A plan.
#[derive(Debug, Clone, PartialEq, Default)]
pub struct PlaybookPlan {
    pub metadata: ObjectMeta,
    pub spec: PlaybookPlanSpec,
    pub status: Option<PlaybookPlanStatus>,
}

/// Where a run's record is in the run's life.
#[derive(Debug, Clone, Copy, PartialEq, Eq, Structural, Default)]
pub enum PlayPhase {
    #[default]
    Prepared,
    Starting,
    Launching,
    Running,
    Succeeded,
    Failed,
    Unknown,
    Aborted,
}

/// The counters of a run or of one host in it.
#[derive(Debug, Clone, Copy, PartialEq, Eq, Structural, Default)]
pub struct PlayRecap {
    pub ok: u32,
    pub changed: u32,
    pub unreachable: u32,
    pub failed: u32,
    pub skipped: u32,
    pub rescued: u32,
    pub ignored: u32,
}

/// One host's result in a run.
#[derive(Debug, Clone, Copy, PartialEq, Eq, Structural, Default)]
pub struct PlayHostResult {
    pub recap: PlayRecap,
    pub outcome: HostOutcome,
}

/// What identifies a run: written once, before anything exists for it.
#[derive(Debug, Clone, PartialEq, Eq, Default)]
pub struct PlaySpec {
    pub playbook_plan: String,
    pub playbook_plan_uid: String,
    pub execution_hash: String,
    pub run_id: String,
    pub preparation_fingerprint: String,
    pub run_number: u32,
    pub attempt: u32,
    pub inventory: Vec<ResolvedHosts>,
    pub triggered_slot: Option<Timestamp>,
}

/// What a run's record reports.
#[derive(Debug, Clone, PartialEq, Default)]
pub struct PlayStatus {
    pub phase: PlayPhase,
    /// Whether the result has been folded into the plan.
    pub plan_status_recorded: bool,
    pub job_name: Option<String>,
    pub finished_at: Option<Timestamp>,
    pub host_count: u32,
    pub failed_host_count: u32,
    pub recap: PlayRecap,
    pub hosts: TextMap<PlayHostResult>,
}

/// The durable record of one run.
#[derive(Debug, Clone, PartialEq, Default)]
pub struct Play {
    pub metadata: ObjectMeta,
    pub spec: PlaySpec,
    pub status: Option<PlayStatus>,
}

impl HostStatus {
    /// A copy.
    pub fn copy(&self) -> (res: Self)
        ensures
            res == *self,
    {
        HostStatus {
            last_applied_hash: self.last_applied_hash.clone(),
            last_outcome: self.last_outcome,
            applied_at: self.applied_at,
            applied_version: clone_optional(&self.applied_version),
            applied_node_uid: clone_optional(&self.applied_node_uid),
            last_transition_time: self.last_transition_time,
        }
    }
}

/// A plan's name is bounded by what a label value can hold.
pub proof fn plan_name_limit_is_the_label_limit()
    ensures
        MAX_PLAN_NAME_LEN == MAX_DNS_LABEL_LEN,
{
}

} // verus!
