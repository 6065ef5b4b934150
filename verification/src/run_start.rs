//! Starting a run: the steps between deciding to start it and its Job existing, each of which may
//! have to wait.

use vstd::prelude::*;
use crate::execution_evaluator::ExecutionHash;
use crate::locking::BlockedBy;
use crate::managed_ssh::{ProxyPodInfo, ProxyReadiness, PROXY_SSH_PORT, UNREACHABLE_SENTINEL_IP};
use crate::plans::{PlayPhase, PlaybookPlan, PlaybookPlanStatus, ReconcileError};
use crate::play_history;
use crate::run_identity;
use crate::run_identity::{job_execution_hash, job_run_id, validate_selected_job};
use crate::labels::{PLAYBOOKPLAN_HASH, RUN_ID};
use crate::text;
use crate::textmap::TextMap;
use crate::timing;
use crate::timing::{delay_seconds, Delay};
use crate::workloads::Job;

verus! {

/// When a run is tried again whose hosts another run holds.
pub const BLOCKED_RETRY_SECONDS: u64 = 15;

/// When the proxies of a run are looked at again.
pub const PROXY_POLL_SECONDS: u64 = 5;

// --- addresses -------------------------------------------------------------------------------

/// Where a Node is reached in a run.
#[derive(Debug, Clone, PartialEq, Eq)]
pub struct ManagedSshHostInfo {
    pub pod_ip: String,
    pub port: i32,
    /// Whether the address leads nowhere, so that the host is reported unreachable.
    pub unreachable: bool,
}

/// An address, its port, and whether it leads nowhere.
pub ghost struct AddressView {
    pub pod_ip: Seq<char>,
    pub port: i32,
    pub unreachable: bool,
}

/// Where the hosts of a map are reached.
pub open spec fn addresses_of(map: Map<Seq<char>, ManagedSshHostInfo>) -> Map<Seq<char>, AddressView> {
    map.map_values(
        |info: ManagedSshHostInfo|
            AddressView { pod_ip: info.pod_ip@, port: info.port, unreachable: info.unreachable },
    )
}

/// The address of a proxy.
pub open spec fn proxy_address(info: ProxyPodInfo) -> AddressView {
    AddressView { pod_ip: info.pod_ip@, port: info.port, unreachable: false }
}

/// The address that leads nowhere.
pub open spec fn sentinel() -> AddressView {
    AddressView { pod_ip: UNREACHABLE_SENTINEL_IP@, port: PROXY_SSH_PORT, unreachable: true }
}

/// Where the hosts whose proxies are ready are reached.
pub open spec fn ready_addresses(ready: Seq<ProxyPodInfo>) -> Map<Seq<char>, AddressView>
    decreases ready.len(),
{
    if ready.len() == 0 {
        Map::empty()
    } else {
        ready_addresses(ready.drop_last()).insert(ready.last().host@, proxy_address(ready.last()))
    }
}

/// Where every host of a run that goes through a proxy is reached: by its proxy if that is ready, and
/// nowhere if it never came up.
pub open spec fn addresses(ready: Seq<ProxyPodInfo>, unreachable: Seq<Seq<char>>) -> Map<
    Seq<char>,
    AddressView,
>
    decreases unreachable.len(),
{
    if unreachable.len() == 0 {
        ready_addresses(ready)
    } else {
        addresses(ready, unreachable.drop_last()).insert(unreachable.last(), sentinel())
    }
}

/// Where every host of a run that goes through a proxy is reached.
pub fn managed_ssh_addresses(ready: &[ProxyPodInfo], unreachable: &[String]) -> (res: TextMap<
    ManagedSshHostInfo,
>)
    ensures
        addresses_of(res@) == addresses(ready@, text::texts(unreachable@)),
{
    let mut map: TextMap<ManagedSshHostInfo> = TextMap::new();
    let mut i: usize = 0;
    assert(ready@.take(0) =~= Seq::<ProxyPodInfo>::empty());
    assert(addresses_of(map@) =~= ready_addresses(ready@.take(0)));
    while i < ready.len()
        invariant
            i <= ready@.len(),
            addresses_of(map@) == ready_addresses(ready@.take(i as int)),
        decreases ready.len() - i,
    {
        let ghost before = addresses_of(map@);
        let info = ManagedSshHostInfo {
            pod_ip: ready[i].pod_ip.clone(),
            port: ready[i].port,
            unreachable: false,
        };
        map.insert(ready[i].host.clone(), info);
        assert(ready@.take(i + 1).drop_last() =~= ready@.take(i as int));
        assert(ready@.take(i + 1).last() == ready@[i as int]);
        assert(addresses_of(map@) =~= before.insert(
            ready@[i as int].host@,
            proxy_address(ready@[i as int]),
        ));
        i = i + 1;
    }
    assert(ready@.take(i as int) =~= ready@);
    let ghost hosts = text::texts(unreachable@);
    let mut j: usize = 0;
    assert(hosts.take(0) =~= Seq::<Seq<char>>::empty());
    while j < unreachable.len()
        invariant
            j <= unreachable@.len(),
            hosts == text::texts(unreachable@),
            addresses_of(map@) == addresses(ready@, hosts.take(j as int)),
        decreases unreachable.len() - j,
    {
        let ghost before = addresses_of(map@);
        let info = ManagedSshHostInfo {
            pod_ip: UNREACHABLE_SENTINEL_IP.to_owned(),
            port: PROXY_SSH_PORT,
            unreachable: true,
        };
        map.insert(unreachable[j].clone(), info);
        assert(hosts.take(j + 1).drop_last() =~= hosts.take(j as int));
        assert(hosts.take(j + 1).last() == unreachable@[j as int]@);
        assert(addresses_of(map@) =~= before.insert(unreachable@[j as int]@, sentinel()));
        j = j + 1;
    }
    assert(hosts.take(j as int) =~= hosts);
    map
}

// --- the steps -------------------------------------------------------------------------------

/// What to do next for a run that is being started.
#[derive(Debug, Clone, Copy, PartialEq, Eq, Structural)]
pub enum StartStep {
    /// Lock every host, or none.
    AcquireLocks,
    /// Write down that what the run needs is being built.
    CommitStarting,
    /// See to the proxies of the hosts that are Nodes.
    EnsureProxies,
    /// See whether the rendered playbook is there and up to date.
    CheckWorkspace,
    /// Render the playbook, with the addresses of this run.
    RenderWorkspace,
    /// Let the Job's pod reach what it may reach, and nothing else.
    ApplyNetworkPolicy,
    /// Write down that the Job is going to be created.
    CommitLaunching,
    /// Create the Job, or find it.
    SpawnJob,
    /// Write down that the run has its Job.
    RecordRun,
    Started,
}

/// A run that is being started.
pub struct StartPass {
    pub step: StartStep,
    /// How far the run's record says it is.
    pub phase: PlayPhase,
    /// Whether what the Job's pod may reach is limited.
    pub egress_limited: bool,
    /// Where the hosts that are Nodes are reached, once their proxies have settled.
    pub addresses: TextMap<ManagedSshHostInfo>,
}

/// What comes before the Job is created: the record has to commit to it first.
pub open spec fn before_job(phase: PlayPhase) -> StartStep {
    if phase is Launching {
        StartStep::SpawnJob
    } else {
        StartStep::CommitLaunching
    }
}

/// What comes after the playbook is rendered.
pub open spec fn after_workspace(egress_limited: bool, phase: PlayPhase) -> StartStep {
    if egress_limited {
        StartStep::ApplyNetworkPolicy
    } else {
        before_job(phase)
    }
}

/// What follows the locks of the hosts.
pub open spec fn after_locks(phase: PlayPhase) -> StartStep {
    if phase is Prepared {
        StartStep::CommitStarting
    } else {
        StartStep::EnsureProxies
    }
}

/// What follows a look at the rendered playbook.
pub open spec fn after_check(
    missing: bool,
    outdated: bool,
    egress_limited: bool,
    phase: PlayPhase,
) -> StartStep {
    if missing || outdated {
        StartStep::RenderWorkspace
    } else {
        after_workspace(egress_limited, phase)
    }
}

/// Begins to start a run, or to go on with one whose record is in this phase.
pub fn begin_start(egress_limited: bool, phase: PlayPhase) -> (res: StartPass)
    requires
        play_history::unlaunched(phase),
    ensures
        res.step is AcquireLocks,
        res.phase == phase,
        res.egress_limited == egress_limited,
        res.addresses@ == Map::<Seq<char>, ManagedSshHostInfo>::empty(),
        res.wf(),
{
    StartPass { step: StartStep::AcquireLocks, phase, egress_limited, addresses: TextMap::new() }
}

impl StartPass {
    /// Whether the run's record says at least what the steps so far have made: what it needs is built
    /// only once it says so, and so is its Job.
    pub open spec fn wf(&self) -> bool {
        &&& play_history::unlaunched(self.phase)
        &&& match self.step {
            StartStep::AcquireLocks | StartStep::CommitStarting => true,
            StartStep::SpawnJob | StartStep::RecordRun | StartStep::Started => self.phase
                is Launching,
            _ => self.phase is Starting || self.phase is Launching,
        }
    }

    fn stepped(self, step: StartStep) -> (res: Self)
        ensures
            res == (StartPass { step, ..self }),
    {
        let mut pass = self;
        pass.step = step;
        pass
    }

    fn to_job(self) -> (res: Self)
        ensures
            res == (StartPass { step: before_job(self.phase), ..self }),
    {
        let step = if self.phase == PlayPhase::Launching {
            StartStep::SpawnJob
        } else {
            StartStep::CommitLaunching
        };
        self.stepped(step)
    }

    /// The locks of the hosts were tried. A run whose hosts another holds is tried again later, with
    /// nothing created for it.
    pub fn locked(self, blocked: Option<&BlockedBy>) -> (res: Result<StartPass, Delay>)
        requires
            self.step is AcquireLocks,
            self.wf(),
        ensures
            match res {
                Ok(pass) => blocked is None && pass.wf() && pass == (StartPass {
                    step: after_locks(self.phase),
                    ..self
                }),
                Err(delay) => blocked is Some && delay == timing::seconds(BLOCKED_RETRY_SECONDS),
            },
    {
        if blocked.is_some() {
            return Err(delay_seconds(BLOCKED_RETRY_SECONDS));
        }
        if self.phase == PlayPhase::Prepared {
            Ok(self.stepped(StartStep::CommitStarting))
        } else {
            Ok(self.stepped(StartStep::EnsureProxies))
        }
    }

    /// The record says that what the run needs is being built.
    pub fn committed_starting(self) -> (res: StartPass)
        requires
            self.step is CommitStarting,
            self.wf(),
        ensures
            res == (StartPass {
                step: StartStep::EnsureProxies,
                phase: PlayPhase::Starting,
                ..self
            }),
            res.wf(),
    {
        let mut pass = self;
        pass.phase = PlayPhase::Starting;
        pass.stepped(StartStep::EnsureProxies)
    }

    /// The proxies were seen to. A run waits until each is ready or given up, and then goes on
    /// without the hosts of those that are given up.
    pub fn proxied(self, readiness: &ProxyReadiness) -> (res: Result<StartPass, Delay>)
        requires
            self.step is EnsureProxies,
            self.wf(),
        ensures
            match *readiness {
                ProxyReadiness::Pending { waiting } => res == Err::<StartPass, Delay>(
                    timing::seconds(PROXY_POLL_SECONDS),
                ),
                ProxyReadiness::Ready { ready, unreachable } => {
                    &&& res is Ok
                    &&& res->Ok_0.wf()
                    &&& res->Ok_0.step is CheckWorkspace
                    &&& res->Ok_0.phase == self.phase
                    &&& res->Ok_0.egress_limited == self.egress_limited
                    &&& addresses_of(res->Ok_0.addresses@) == addresses(
                        ready@,
                        text::texts(unreachable@),
                    )
                },
            },
    {
        match readiness {
            ProxyReadiness::Pending { .. } => Err(delay_seconds(PROXY_POLL_SECONDS)),
            ProxyReadiness::Ready { ready, unreachable } => Ok(
                StartPass {
                    step: StartStep::CheckWorkspace,
                    phase: self.phase,
                    egress_limited: self.egress_limited,
                    addresses: managed_ssh_addresses(ready, unreachable),
                },
            ),
        }
    }

    /// The rendered playbook was looked at.
    pub fn checked_workspace(self, missing: bool, outdated: bool) -> (res: StartPass)
        requires
            self.step is CheckWorkspace,
            self.wf(),
        ensures
            res == (StartPass {
                step: after_check(missing, outdated, self.egress_limited, self.phase),
                ..self
            }),
            res.wf(),
    {
        if missing || outdated {
            self.stepped(StartStep::RenderWorkspace)
        } else if self.egress_limited {
            self.stepped(StartStep::ApplyNetworkPolicy)
        } else {
            self.to_job()
        }
    }

    /// The playbook was rendered, from this generation of its plan.
    pub fn rendered(self, status: &mut PlaybookPlanStatus, plan: &PlaybookPlan) -> (res: StartPass)
        requires
            self.step is RenderWorkspace,
            self.wf(),
        ensures
            res == (StartPass { step: after_workspace(self.egress_limited, self.phase), ..self }),
            res.wf(),
            *final(status) == (PlaybookPlanStatus {
                last_rendered_generation: plan.metadata.generation,
                ..*old(status)
            }),
    {
        status.last_rendered_generation = plan.metadata.generation;
        if self.egress_limited {
            self.stepped(StartStep::ApplyNetworkPolicy)
        } else {
            self.to_job()
        }
    }

    /// What the Job's pod may reach was limited.
    pub fn limited(self) -> (res: StartPass)
        requires
            self.step is ApplyNetworkPolicy,
            self.wf(),
        ensures
            res == (StartPass { step: before_job(self.phase), ..self }),
            res.wf(),
    {
        self.to_job()
    }

    /// The record says that the Job is going to be created.
    pub fn committed_launching(self) -> (res: StartPass)
        requires
            self.step is CommitLaunching,
            self.wf(),
        ensures
            res == (StartPass { step: StartStep::SpawnJob, phase: PlayPhase::Launching, ..self }),
            res.wf(),
    {
        let mut pass = self;
        pass.phase = PlayPhase::Launching;
        pass.stepped(StartStep::SpawnJob)
    }

    /// The run's Job exists.
    pub fn spawned(self) -> (res: StartPass)
        requires
            self.step is SpawnJob,
            self.wf(),
        ensures
            res == (StartPass { step: StartStep::RecordRun, ..self }),
            res.wf(),
    {
        self.stepped(StartStep::RecordRun)
    }

    /// The record says that the run has its Job.
    pub fn recorded(self) -> (res: StartPass)
        requires
            self.step is RecordRun,
            self.wf(),
        ensures
            res == (StartPass { step: StartStep::Started, ..self }),
            res.wf(),
    {
        self.stepped(StartStep::Started)
    }
}

// --- the Job ---------------------------------------------------------------------------------

/// What to do next about a run's Job.
#[derive(Debug, Clone, Copy, PartialEq, Eq, Structural)]
pub enum SpawnStep {
    /// Look for it under its name.
    Find,
    Create,
    /// Look for what took the name in the meantime.
    FindAgain,
    /// It exists.
    Spawned,
}

/// A run's Job that is being created, and what identifies it.
pub struct SpawnPass {
    pub step: SpawnStep,
    pub execution_hash: ExecutionHash,
    pub run_id: String,
    pub attempt: u32,
    pub play_uid: String,
}

/// Whether two passes are about the same Job.
pub open spec fn same_spawn(a: SpawnPass, b: SpawnPass) -> bool {
    &&& a.execution_hash == b.execution_hash
    &&& a.run_id == b.run_id
    &&& a.attempt == b.attempt
    &&& a.play_uid == b.play_uid
}

/// Whether a Job is the one a pass is about.
pub open spec fn is_spawned(pass: SpawnPass, job: Job, plan: PlaybookPlan) -> bool {
    &&& plan.metadata.name is Some
    &&& plan.metadata.uid is Some
    &&& run_identity::is_selected(
        job,
        plan.metadata.name->0@,
        plan.metadata.uid->0@,
        pass.execution_hash,
        pass.attempt,
        pass.run_id@,
        pass.play_uid@,
    )
}

/// Begins to create a run's Job. One that says of itself neither its revision nor its run is refused.
pub fn begin_spawn(expected_job: &Job, attempt: u32, play_uid: &str) -> (res: Result<
    SpawnPass,
    ReconcileError,
>)
    ensures
        match res {
            Ok(pass) => {
                &&& pass.step is Find
                &&& run_identity::hash_in(
                    run_identity::text_under(expected_job.metadata.labels, PLAYBOOKPLAN_HASH@),
                ) == Some(pass.execution_hash)
                &&& run_identity::text_under(expected_job.metadata.labels, RUN_ID@) == Some(
                    pass.run_id@,
                )
                &&& pass.attempt == attempt
                &&& pass.play_uid@ == play_uid@
            },
            Err(error) => if run_identity::hash_in(
                run_identity::text_under(expected_job.metadata.labels, PLAYBOOKPLAN_HASH@),
            ) is None {
                error == ReconcileError::PreconditionFailed(
                    "active Job has no valid execution hash",
                )
            } else {
                &&& run_identity::text_under(expected_job.metadata.labels, RUN_ID@) is None
                &&& error == ReconcileError::PreconditionFailed("active Job has no run ID")
            },
        },
{
    let execution_hash = match job_execution_hash(expected_job) {
        Ok(hash) => hash,
        Err(error) => {
            return Err(error);
        },
    };
    let run_id = match job_run_id(expected_job) {
        Ok(id) => id.to_owned(),
        Err(error) => {
            return Err(error);
        },
    };
    Ok(
        SpawnPass {
            step: SpawnStep::Find,
            execution_hash,
            run_id,
            attempt,
            play_uid: play_uid.to_owned(),
        },
    )
}

impl SpawnPass {
    fn stepped(self, step: SpawnStep) -> (res: Self)
        ensures
            res.step == step,
            same_spawn(res, self),
    {
        SpawnPass {
            step,
            execution_hash: self.execution_hash,
            run_id: self.run_id,
            attempt: self.attempt,
            play_uid: self.play_uid,
        }
    }

    /// What stands under the Job's name was read. The run's own Job is taken as it is, whoever created
    /// it; another one there is an error, and none is created now unless its creation was just
    /// refused.
    pub fn found(self, existing: Option<&Job>, plan: &PlaybookPlan) -> (res: Result<
        SpawnPass,
        ReconcileError,
    >)
        requires
            self.step is Find || (self.step is FindAgain && existing is Some),
        ensures
            match (existing, res) {
                (None, Ok(pass)) => pass.step is Create && same_spawn(pass, self),
                (None, Err(_)) => false,
                (Some(job), Ok(pass)) => pass.step is Spawned && same_spawn(pass, self)
                    && is_spawned(self, *job, *plan),
                (Some(job), Err(error)) => run_identity::job_refused(
                    error,
                    *job,
                    *plan,
                    self.execution_hash,
                    self.attempt,
                    self.run_id@,
                    self.play_uid@,
                ),
            },
    {
        match existing {
            None => Ok(self.stepped(SpawnStep::Create)),
            Some(job) => match validate_selected_job(
                job,
                plan,
                self.execution_hash,
                self.attempt,
                self.run_id.as_str(),
                self.play_uid.as_str(),
            ) {
                Ok(_) => Ok(self.stepped(SpawnStep::Spawned)),
                Err(error) => Err(error),
            },
        }
    }

    /// The Job was created, unless the name had been taken in the meantime.
    pub fn created(self, conflict: bool) -> (res: SpawnPass)
        requires
            self.step is Create,
        ensures
            same_spawn(res, self),
            res.step == if conflict {
                SpawnStep::FindAgain
            } else {
                SpawnStep::Spawned
            },
    {
        if conflict {
            self.stepped(SpawnStep::FindAgain)
        } else {
            self.stepped(SpawnStep::Spawned)
        }
    }
}

// --- laws ------------------------------------------------------------------------------------

/// Every step of a run is written down before what it describes is created: privileged proxies are
/// built only for a run whose record says it is starting, and a Job is created only for one whose
/// record has committed to it.
pub proof fn a_step_is_written_down_first(pass: StartPass)
    requires
        pass.wf(),
    ensures
        pass.step is EnsureProxies ==> pass.phase is Starting || pass.phase is Launching,
        pass.step is SpawnJob ==> pass.phase is Launching,
{
}

/// A host whose proxy never came up is reached nowhere, even if an address was also reported for it.
pub proof fn an_unreachable_host_has_no_address(
    ready: Seq<ProxyPodInfo>,
    unreachable: Seq<Seq<char>>,
    host: Seq<char>,
)
    requires
        unreachable.contains(host),
    ensures
        addresses(ready, unreachable).contains_key(host),
        addresses(ready, unreachable)[host] == sentinel(),
    decreases unreachable.len(),
{
    if unreachable.last() != host {
        let i = choose|i: int| 0 <= i < unreachable.len() && unreachable[i] == host;
        assert(unreachable.drop_last()[i] == host);
        an_unreachable_host_has_no_address(ready, unreachable.drop_last(), host);
    }
}

/// Every host that settled has an address, and no other has.
pub proof fn addresses_are_of_settled_hosts(
    ready: Seq<ProxyPodInfo>,
    unreachable: Seq<Seq<char>>,
    host: Seq<char>,
)
    ensures
        addresses(ready, unreachable).contains_key(host) <==> unreachable.contains(host) || exists|
            i: int,
        |
            0 <= i < ready.len() && (#[trigger] ready[i]).host@ == host,
    decreases unreachable.len(),
{
    if unreachable.len() == 0 {
        lemma_ready_hosts(ready, host);
    } else {
        let rest = unreachable.drop_last();
        addresses_are_of_settled_hosts(ready, rest, host);
        assert(unreachable =~= rest.push(unreachable.last()));
        if rest.contains(host) {
            let i = choose|i: int| 0 <= i < rest.len() && rest[i] == host;
            assert(unreachable[i] == host);
        }
        if unreachable.contains(host) && unreachable.last() != host {
            let i = choose|i: int| 0 <= i < unreachable.len() && unreachable[i] == host;
            assert(rest[i] == host);
        }
        assert(unreachable[unreachable.len() - 1] == unreachable.last());
    }
}

proof fn lemma_ready_hosts(ready: Seq<ProxyPodInfo>, host: Seq<char>)
    ensures
        ready_addresses(ready).contains_key(host) <==> exists|i: int|
            0 <= i < ready.len() && (#[trigger] ready[i]).host@ == host,
    decreases ready.len(),
{
    if ready.len() > 0 {
        let rest = ready.drop_last();
        lemma_ready_hosts(rest, host);
        if exists|i: int| 0 <= i < rest.len() && (#[trigger] rest[i]).host@ == host {
            let i = choose|i: int| 0 <= i < rest.len() && (#[trigger] rest[i]).host@ == host;
            assert(ready[i].host@ == host);
        }
        if exists|i: int| 0 <= i < ready.len() && (#[trigger] ready[i]).host@ == host {
            let i = choose|i: int| 0 <= i < ready.len() && (#[trigger] ready[i]).host@ == host;
            if i < rest.len() {
                assert(rest[i].host@ == host);
            }
        }
        assert(ready[ready.len() - 1] == ready.last());
    }
}

/// A host whose proxy is ready is reached at the proxy's own address, and the one found last where there are
/// several.
pub proof fn a_ready_host_is_reached_at_its_proxy(
    ready: Seq<ProxyPodInfo>,
    unreachable: Seq<Seq<char>>,
    i: int,
)
    requires
        0 <= i < ready.len(),
        !unreachable.contains(ready[i].host@),
        forall|k: int| i < k < ready.len() ==> (#[trigger] ready[k]).host@ != ready[i].host@,
    ensures
        addresses(ready, unreachable).contains_key(ready[i].host@),
        addresses(ready, unreachable)[ready[i].host@].pod_ip == ready[i].pod_ip@,
        addresses(ready, unreachable)[ready[i].host@].port == ready[i].port,
        !addresses(ready, unreachable)[ready[i].host@].unreachable,
    decreases unreachable.len(), ready.len(),
{
    if unreachable.len() > 0 {
        let rest = unreachable.drop_last();
        assert(!rest.contains(ready[i].host@)) by {
            if rest.contains(ready[i].host@) {
                let k = choose|k: int| 0 <= k < rest.len() && rest[k] == ready[i].host@;
                assert(unreachable[k] == ready[i].host@);
            }
        }
        assert(unreachable.last() != ready[i].host@) by {
            assert(unreachable.contains(unreachable.last()));
        }
        a_ready_host_is_reached_at_its_proxy(ready, rest, i);
    } else if i < ready.len() - 1 {
        let rest = ready.drop_last();
        assert(ready[ready.len() - 1].host@ != ready[i].host@);
        assert forall|k: int| i < k < rest.len() implies (#[trigger] rest[k]).host@ != rest[i].host@ by {
            assert(rest[k] == ready[k]);
        }
        a_ready_host_is_reached_at_its_proxy(rest, unreachable, i);
    }
}

/// A host that cannot be reached is given an address that leads nowhere, and is marked as such.
pub proof fn an_unreachable_host_leads_nowhere()
    ensures
        sentinel().unreachable,
        sentinel().pod_ip == UNREACHABLE_SENTINEL_IP@,
        UNREACHABLE_SENTINEL_IP@ == "192.0.2.1"@,
        sentinel().port == PROXY_SSH_PORT,
{
}

/// The Job comes after everything it needs: with the rendered playbook in place, what it may reach is limited
/// where it is to be, and that it is going to be created is written down before it is.
pub proof fn the_job_comes_last(egress_limited: bool, phase: PlayPhase)
    ensures
        egress_limited ==> after_workspace(egress_limited, phase) is ApplyNetworkPolicy,
        !egress_limited && phase is Launching ==> after_workspace(egress_limited, phase) is SpawnJob,
        !egress_limited && !(phase is Launching) ==> after_workspace(egress_limited, phase)
            is CommitLaunching,
        phase is Launching ==> before_job(phase) is SpawnJob,
        !(phase is Launching) ==> before_job(phase) is CommitLaunching,
{
}

/// Someone else's lock is asked after again after a quarter of a minute, and a proxy that is not ready after
/// five seconds.
pub proof fn a_start_is_tried_again_soon()
    ensures
        BLOCKED_RETRY_SECONDS == 15,
        PROXY_POLL_SECONDS == 5,
{
}

/// That a run is being built is written down before anything is built, and the playbook is rendered where it is
/// missing or not of the plan as it is, and only there.
pub proof fn the_playbook_is_rendered_where_it_is_not_current(
    missing: bool,
    outdated: bool,
    egress_limited: bool,
    phase: PlayPhase,
)
    ensures
        phase is Prepared ==> after_locks(phase) is CommitStarting,
        !(phase is Prepared) ==> after_locks(phase) is EnsureProxies,
        missing ==> after_check(missing, outdated, egress_limited, phase) is RenderWorkspace,
        outdated ==> after_check(missing, outdated, egress_limited, phase) is RenderWorkspace,
        !missing && !outdated ==> !(after_check(missing, outdated, egress_limited, phase)
            is RenderWorkspace),
        !missing && !outdated && egress_limited ==> after_check(
            missing,
            outdated,
            egress_limited,
            phase,
        ) is ApplyNetworkPolicy,
{
}

/// A Job is looked for, created and looked for again for one and the same run, and what is found counts as it only
/// where it is the run's own.
pub proof fn a_job_is_sought_for_one_run(a: SpawnPass, b: SpawnPass, job: Job, plan: PlaybookPlan)
    requires
        same_spawn(a, b),
    ensures
        a.run_id == b.run_id,
        a.attempt == b.attempt,
        a.play_uid == b.play_uid,
        a.execution_hash == b.execution_hash,
        is_spawned(a, job, plan) <==> plan.metadata.name is Some && plan.metadata.uid is Some
            && run_identity::is_selected(
            job,
            plan.metadata.name->0@,
            plan.metadata.uid->0@,
            a.execution_hash,
            a.attempt,
            a.run_id@,
            a.play_uid@,
        ),
{
}

/// A pass is well-formed at any step from the proxies on where the record says it is being built, and at any of
/// the last steps where the record says that the Job is going to be.
pub proof fn a_pass_is_as_far_as_its_record(pass: StartPass)
    ensures
        pass.phase is Starting && (pass.step is EnsureProxies || pass.step is CheckWorkspace
            || pass.step is RenderWorkspace || pass.step is ApplyNetworkPolicy || pass.step
            is CommitLaunching) ==> pass.wf(),
        pass.phase is Launching ==> pass.wf(),
        pass.phase is Prepared && (pass.step is AcquireLocks || pass.step is CommitStarting)
            ==> pass.wf(),
        pass.phase is Prepared && !(pass.step is AcquireLocks || pass.step is CommitStarting)
            ==> !pass.wf(),
        pass.phase is Starting && (pass.step is SpawnJob || pass.step is RecordRun || pass.step
            is Started) ==> !pass.wf(),
{
}

} // verus!
