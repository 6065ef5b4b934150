//! Bringing up, resetting and taking down the proxies of a run, call by call.

use vstd::prelude::*;
use crate::execution_evaluator::ExecutionHash;
use crate::job_names;
use crate::job_names::job_network_policy_name;
use crate::labels::PLAYBOOKPLAN_HOST;
use crate::managed_ssh;
use crate::managed_ssh::{
    client_cert_secret_name, needs_node, network_policy_name, proxy_pod_readiness,
    proxy_pod_selector, resource_name, run_selector, ProxyGracePolicy, ProxyPodInfo, ProxyReadiness,
    ProxySurvey,
};
use crate::resources::Node;
use crate::text;
use crate::text::clone_strings;
use crate::workloads::ObservedPod;

verus! {

// --- bringing them up ------------------------------------------------------------------------

/// A call to the cluster. The client Secret is in the plan's namespace, everything else in the
/// operator's.
#[derive(Debug, Clone, PartialEq, Eq)]
pub enum ProxyCall {
    /// Shield the run's proxies from everything but its Job.
    ApplyNetworkPolicy { name: String },
    ReadClientSecret { name: String },
    CreateClientSecret { name: String },
    ReadHostSecret { name: String },
    CreateHostSecret { name: String },
    ReadPod { name: String },
    CreatePod { name: String },
    ReadNode { name: String },
}

/// Where a pass over a run's proxies is.
#[derive(Debug, Clone, Copy, PartialEq, Eq, Structural)]
pub enum ProxyStep {
    Policy,
    ClientSecret,
    NewClientSecret,
    HostSecret,
    NewHostSecret,
    Pod,
    NewPod,
    Node,
    Done,
}

/// A pass over a run's proxies: shields them, creates what is missing for each host in turn, and
/// surveys what each has come to.
pub struct ProxyPass {
    pub hosts: Vec<String>,
    pub run_id: String,
    pub grace: ProxyGracePolicy,
    /// When the pass began, in seconds since the Unix epoch.
    pub now: i64,
    pub step: ProxyStep,
    /// How many hosts have been surveyed.
    pub visited: usize,
    /// Whether the proxies are shielded, and the client identity of the run exists.
    pub shielded: bool,
    pub identified: bool,
    /// Whether the Secret of the host being visited exists.
    pub keyed: bool,
    /// The pod of the host being visited, while its Node is read.
    pub pod: Option<ObservedPod>,
    pub survey: ProxySurvey,
}

/// Whether a pod's times can be counted from.
pub open spec fn countable_pod(pod: ObservedPod, now: i64) -> bool {
    managed_ssh::countable(pod.metadata.deletion_timestamp, now) && managed_ssh::countable(
        pod.metadata.creation_timestamp,
        now,
    )
}

/// Whether the Node of a pod is read: the pod is neither ready nor running.
pub open spec fn node_is_read(pod: ObservedPod) -> bool {
    let usable = pod.metadata.deletion_timestamp is None;
    !(usable && managed_ssh::pod_ready(pod.status) && pod.status->0.pod_ip is Some) && !(usable
        && pod.status is Some && text::text_of(pod.status->0.phase) == Some("Running"@))
}

/// Whether a survey is another with what the proxy of one more host has come to.
pub open spec fn surveyed(
    after: ProxySurvey,
    before: ProxySurvey,
    host: Seq<char>,
    outcome: managed_ssh::HostProxy,
) -> bool {
    &&& managed_ssh::reachable(after.ready@) == match outcome {
        managed_ssh::HostProxy::Ready(ip) => managed_ssh::reachable(before.ready@).push(
            (host, ip, managed_ssh::PROXY_SSH_PORT),
        ),
        _ => managed_ssh::reachable(before.ready@),
    }
    &&& text::texts(after.unreachable@) == match outcome {
        managed_ssh::HostProxy::Unreachable => text::texts(before.unreachable@).push(host),
        _ => text::texts(before.unreachable@),
    }
    &&& text::texts(after.waiting@) == match outcome {
        managed_ssh::HostProxy::Waiting => text::texts(before.waiting@).push(host),
        _ => text::texts(before.waiting@),
    }
}

/// Whether three lists hold between them the hosts and nothing else: each host once, in one list, and
/// each list in the order of the hosts.
pub open spec fn dealt(
    hosts: Seq<Seq<char>>,
    ready: Seq<Seq<char>>,
    unreachable: Seq<Seq<char>>,
    waiting: Seq<Seq<char>>,
) -> bool
    decreases hosts.len(),
{
    if hosts.len() == 0 {
        ready.len() == 0 && unreachable.len() == 0 && waiting.len() == 0
    } else {
        let host = hosts.last();
        let rest = hosts.drop_last();
        ||| ready.len() > 0 && ready.last() == host && dealt(
            rest,
            ready.drop_last(),
            unreachable,
            waiting,
        )
        ||| unreachable.len() > 0 && unreachable.last() == host && dealt(
            rest,
            ready,
            unreachable.drop_last(),
            waiting,
        )
        ||| waiting.len() > 0 && waiting.last() == host && dealt(
            rest,
            ready,
            unreachable,
            waiting.drop_last(),
        )
    }
}

/// The hosts whose proxies are ready.
pub open spec fn ready_hosts(ready: Seq<ProxyPodInfo>) -> Seq<Seq<char>> {
    managed_ssh::reachable(ready).map_values(|proxy: (Seq<char>, Seq<char>, i32)| proxy.0)
}

/// Whether a survey holds what the proxies of these hosts have come to, each host once.
pub open spec fn covers(survey: ProxySurvey, hosts: Seq<Seq<char>>) -> bool {
    dealt(
        hosts,
        ready_hosts(survey.ready@),
        text::texts(survey.unreachable@),
        text::texts(survey.waiting@),
    )
}

proof fn lemma_surveyed_covers(
    after: ProxySurvey,
    before: ProxySurvey,
    hosts: Seq<Seq<char>>,
    host: Seq<char>,
    outcome: managed_ssh::HostProxy,
)
    requires
        covers(before, hosts),
        surveyed(after, before, host, outcome),
    ensures
        covers(after, hosts.push(host)),
{
    assert(hosts.push(host).drop_last() =~= hosts);
    match outcome {
        managed_ssh::HostProxy::Ready(_) => {
            assert(ready_hosts(after.ready@).drop_last() =~= ready_hosts(before.ready@));
        },
        managed_ssh::HostProxy::Unreachable => {
            assert(text::texts(after.unreachable@).drop_last() =~= text::texts(
                before.unreachable@,
            ));
        },
        managed_ssh::HostProxy::Waiting => {
            assert(text::texts(after.waiting@).drop_last() =~= text::texts(before.waiting@));
        },
    }
}

/// Lists that hold the hosts between them hold each as often as it is a host.
proof fn lemma_dealt_counts(
    hosts: Seq<Seq<char>>,
    ready: Seq<Seq<char>>,
    unreachable: Seq<Seq<char>>,
    waiting: Seq<Seq<char>>,
)
    requires
        dealt(hosts, ready, unreachable, waiting),
    ensures
        ready.to_multiset().add(unreachable.to_multiset()).add(waiting.to_multiset())
            == hosts.to_multiset(),
    decreases hosts.len(),
{
    broadcast use vstd::seq_lib::group_to_multiset_ensures;

    let all = ready.to_multiset().add(unreachable.to_multiset()).add(waiting.to_multiset());
    if hosts.len() == 0 {
        assert(ready =~= hosts);
        assert(unreachable =~= hosts);
        assert(waiting =~= hosts);
    } else {
        let host = hosts.last();
        let rest = hosts.drop_last();
        assert(hosts =~= rest.push(host));
        if ready.len() > 0 && ready.last() == host && dealt(
            rest,
            ready.drop_last(),
            unreachable,
            waiting,
        ) {
            lemma_dealt_counts(rest, ready.drop_last(), unreachable, waiting);
            assert(ready =~= ready.drop_last().push(host));
        } else if unreachable.len() > 0 && unreachable.last() == host && dealt(
            rest,
            ready,
            unreachable.drop_last(),
            waiting,
        ) {
            lemma_dealt_counts(rest, ready, unreachable.drop_last(), waiting);
            assert(unreachable =~= unreachable.drop_last().push(host));
        } else {
            lemma_dealt_counts(rest, ready, unreachable, waiting.drop_last());
            assert(waiting =~= waiting.drop_last().push(host));
        }
    }
    assert(all =~= hosts.to_multiset());
}

impl ProxyPass {
    /// Whether a host is being visited.
    pub open spec fn visiting(&self) -> bool {
        self.step is HostSecret || self.step is NewHostSecret || self.step is Pod || self.step
            is NewPod || self.step is Node
    }

    pub open spec fn wf(&self) -> bool {
        &&& self.grace.wf()
        &&& self.visited <= self.hosts@.len()
        &&& self.step is Done <==> self.visited == self.hosts@.len()
        &&& !self.visiting() && !(self.step is Done) ==> self.visited == 0
        &&& !(self.step is Policy) && !(self.step is Done) ==> self.shielded
        &&& self.visiting() ==> self.identified
        &&& self.step is Pod || self.step is NewPod || self.step is Node ==> self.keyed
        &&& self.step is Node ==> self.pod is Some && countable_pod(self.pod->0, self.now)
            && node_is_read(self.pod->0)
        &&& covers(self.survey, text::texts(self.hosts@).take(self.visited as int))
    }

    /// What a step leaves alone.
    pub open spec fn same_run(&self, other: &ProxyPass) -> bool {
        &&& self.hosts == other.hosts
        &&& self.run_id == other.run_id
        &&& self.grace == other.grace
        &&& self.now == other.now
    }

    /// Whether this is the call of the step the pass is at.
    pub open spec fn calls(&self, call: Option<ProxyCall>) -> bool {
        let run = self.run_id@;
        let name = managed_ssh::proxy_name(self.hosts@[self.visited as int]@, run);
        match self.step {
            ProxyStep::Policy => call matches Some(ProxyCall::ApplyNetworkPolicy { name: n }) && n@
                == "managed-ssh-"@ + run,
            ProxyStep::ClientSecret => call matches Some(ProxyCall::ReadClientSecret { name: n })
                && n@ == managed_ssh::client_secret_name(run),
            ProxyStep::NewClientSecret => call matches Some(
                ProxyCall::CreateClientSecret { name: n },
            ) && n@ == managed_ssh::client_secret_name(run),
            ProxyStep::HostSecret => call matches Some(ProxyCall::ReadHostSecret { name: n }) && n@
                == name,
            ProxyStep::NewHostSecret => call matches Some(ProxyCall::CreateHostSecret { name: n })
                && n@ == name,
            ProxyStep::Pod => call matches Some(ProxyCall::ReadPod { name: n }) && n@ == name,
            ProxyStep::NewPod => call matches Some(ProxyCall::CreatePod { name: n }) && n@ == name,
            ProxyStep::Node => call matches Some(ProxyCall::ReadNode { name: n }) && n@
                == self.hosts@[self.visited as int]@,
            ProxyStep::Done => call is None,
        }
    }

    /// The next call.
    pub fn call(&self) -> (res: Option<ProxyCall>)
        requires
            self.wf(),
        ensures
            self.calls(res),
    {
        let run = self.run_id.as_str();
        match self.step {
            ProxyStep::Policy => Some(
                ProxyCall::ApplyNetworkPolicy { name: network_policy_name(run) },
            ),
            ProxyStep::ClientSecret => Some(
                ProxyCall::ReadClientSecret { name: client_cert_secret_name(run) },
            ),
            ProxyStep::NewClientSecret => Some(
                ProxyCall::CreateClientSecret { name: client_cert_secret_name(run) },
            ),
            ProxyStep::Done => None,
            ProxyStep::Node => Some(ProxyCall::ReadNode { name: self.hosts[self.visited].clone() }),
            ProxyStep::HostSecret
            | ProxyStep::NewHostSecret
            | ProxyStep::Pod
            | ProxyStep::NewPod => {
                let name = resource_name(self.hosts[self.visited].as_str(), run);
                match self.step {
                    ProxyStep::HostSecret => Some(ProxyCall::ReadHostSecret { name }),
                    ProxyStep::NewHostSecret => Some(ProxyCall::CreateHostSecret { name }),
                    ProxyStep::Pod => Some(ProxyCall::ReadPod { name }),
                    _ => Some(ProxyCall::CreatePod { name }),
                }
            },
        }
    }

    /// The policy was applied, or a Secret created.
    pub fn written(&mut self)
        requires
            old(self).wf(),
            old(self).step is Policy || old(self).step is NewClientSecret || old(self).step
                is NewHostSecret,
        ensures
            final(self).wf(),
            final(self).same_run(old(self)),
            final(self).visited == old(self).visited,
            final(self).survey == old(self).survey,
            final(self).shielded == (old(self).shielded || old(self).step is Policy),
            final(self).identified == (old(self).identified || old(self).step is NewClientSecret),
            final(self).keyed == (old(self).keyed || old(self).step is NewHostSecret),
            final(self).pod == old(self).pod,
            final(self).step == match old(self).step {
                ProxyStep::Policy => ProxyStep::ClientSecret,
                ProxyStep::NewClientSecret => ProxyStep::HostSecret,
                _ => ProxyStep::Pod,
            },
    {
        match self.step {
            ProxyStep::Policy => {
                self.shielded = true;
                self.step = ProxyStep::ClientSecret;
            },
            ProxyStep::NewClientSecret => {
                self.identified = true;
                self.step = ProxyStep::HostSecret;
            },
            _ => {
                self.keyed = true;
                self.step = ProxyStep::Pod;
            },
        }
    }

    /// A Secret was looked for.
    pub fn found_secret(&mut self, exists: bool)
        requires
            old(self).wf(),
            old(self).step is ClientSecret || old(self).step is HostSecret,
        ensures
            final(self).wf(),
            final(self).same_run(old(self)),
            final(self).visited == old(self).visited,
            final(self).survey == old(self).survey,
            final(self).shielded == old(self).shielded,
            final(self).identified == (old(self).identified || (old(self).step is ClientSecret
                && exists)),
            final(self).keyed == (old(self).keyed || (old(self).step is HostSecret && exists)),
            final(self).pod == old(self).pod,
            final(self).step == match (old(self).step, exists) {
                (ProxyStep::ClientSecret, true) => ProxyStep::HostSecret,
                (ProxyStep::ClientSecret, false) => ProxyStep::NewClientSecret,
                (_, true) => ProxyStep::Pod,
                (_, false) => ProxyStep::NewHostSecret,
            },
    {
        match (self.step, exists) {
            (ProxyStep::ClientSecret, true) => {
                self.identified = true;
                self.step = ProxyStep::HostSecret;
            },
            (ProxyStep::ClientSecret, false) => {
                self.step = ProxyStep::NewClientSecret;
            },
            (_, true) => {
                self.keyed = true;
                self.step = ProxyStep::Pod;
            },
            (_, false) => {
                self.step = ProxyStep::NewHostSecret;
            },
        }
    }

    /// Whether a pass has surveyed the host another was visiting, and gone on to the next.
    pub open spec fn has_surveyed(&self, before: &ProxyPass, outcome: managed_ssh::HostProxy) -> bool {
        &&& self.visited == before.visited + 1
        &&& self.shielded == before.shielded
        &&& self.identified == before.identified
        &&& !self.keyed
        &&& self.pod is None
        &&& self.step == if self.visited == self.hosts@.len() {
            ProxyStep::Done
        } else {
            ProxyStep::HostSecret
        }
        &&& surveyed(
            self.survey,
            before.survey,
            before.hosts@[before.visited as int]@,
            outcome,
        )
    }

    fn survey_host(&mut self, pod: &ObservedPod, node: Option<&Node>)
        requires
            old(self).wf(),
            old(self).visiting(),
            countable_pod(*pod, old(self).now),
            node matches Some(node) ==> managed_ssh::countable(
                managed_ssh::last_heartbeat(*node),
                old(self).now,
            ),
        ensures
            final(self).wf(),
            final(self).same_run(old(self)),
            final(self).has_surveyed(
                old(self),
                managed_ssh::settled(
                    *pod,
                    match node {
                        Some(node) => Some(*node),
                        None => None,
                    },
                    old(self).grace,
                    old(self).now,
                ),
            ),
    {
        let ghost before = self.survey;
        let host = self.hosts[self.visited].clone();
        self.survey.note(host.as_str(), pod, node, &self.grace, self.now);
        proof {
            let all = text::texts(self.hosts@);
            let outcome = managed_ssh::settled(
                *pod,
                match node {
                    Some(node) => Some(*node),
                    None => None,
                },
                self.grace,
                self.now,
            );
            lemma_surveyed_covers(
                self.survey,
                before,
                all.take(self.visited as int),
                host@,
                outcome,
            );
            assert(all.take(self.visited + 1) =~= all.take(self.visited as int).push(host@));
        }
        let total: usize = self.hosts.len();
        self.visited = self.visited + 1;
        self.keyed = false;
        self.pod = None;
        self.step = if self.visited == total {
            ProxyStep::Done
        } else {
            ProxyStep::HostSecret
        };
    }

    /// What the pass does about a pod: a ready or running one is surveyed at once, and the Node of any
    /// other is read first.
    pub open spec fn takes(&self, before: &ProxyPass, pod: ObservedPod) -> bool {
        if node_is_read(pod) {
            &&& self.step is Node
            &&& self.pod == Some(pod)
            &&& self.shielded == before.shielded
            &&& self.identified == before.identified
            &&& self.keyed == before.keyed
            &&& self.visited == before.visited
            &&& self.survey == before.survey
        } else {
            self.has_surveyed(
                before,
                managed_ssh::settled(pod, None, before.grace, before.now),
            )
        }
    }

    fn take(&mut self, pod: ObservedPod)
        requires
            old(self).wf(),
            old(self).step is Pod || old(self).step is NewPod,
            countable_pod(pod, old(self).now),
        ensures
            final(self).wf(),
            final(self).same_run(old(self)),
            final(self).takes(old(self), pod),
    {
        let state = proxy_pod_readiness(&pod);
        if needs_node(&state) {
            self.pod = Some(pod);
            self.step = ProxyStep::Node;
        } else {
            self.survey_host(&pod, None);
        }
    }

    /// The pod of a host was looked for. Every host gets one, whatever its Node reports.
    pub fn found_pod(&mut self, pod: Option<ObservedPod>)
        requires
            old(self).wf(),
            old(self).step is Pod,
            pod matches Some(pod) ==> countable_pod(pod, old(self).now),
        ensures
            final(self).wf(),
            final(self).same_run(old(self)),
            match pod {
                None => {
                    &&& final(self).step is NewPod
                    &&& final(self).shielded == old(self).shielded
                    &&& final(self).identified == old(self).identified
                    &&& final(self).keyed == old(self).keyed
                    &&& final(self).pod == old(self).pod
                    &&& final(self).visited == old(self).visited
                    &&& final(self).survey == old(self).survey
                },
                Some(pod) => final(self).takes(old(self), pod),
            },
    {
        match pod {
            None => {
                self.step = ProxyStep::NewPod;
            },
            Some(pod) => {
                self.take(pod);
            },
        }
    }

    /// The pod of a host was created.
    pub fn created_pod(&mut self, pod: ObservedPod)
        requires
            old(self).wf(),
            old(self).step is NewPod,
            countable_pod(pod, old(self).now),
        ensures
            final(self).wf(),
            final(self).same_run(old(self)),
            final(self).takes(old(self), pod),
    {
        self.take(pod);
    }

    /// The Node of a pod that is not running was read.
    pub fn found_node(&mut self, node: Option<&Node>)
        requires
            old(self).wf(),
            old(self).step is Node,
            node matches Some(node) ==> managed_ssh::countable(
                managed_ssh::last_heartbeat(*node),
                old(self).now,
            ),
        ensures
            final(self).wf(),
            final(self).same_run(old(self)),
            final(self).has_surveyed(
                old(self),
                managed_ssh::settled(
                    old(self).pod->0,
                    match node {
                        Some(node) => Some(*node),
                        None => None,
                    },
                    old(self).grace,
                    old(self).now,
                ),
            ),
    {
        if let Some(pod) = self.pod.take() {
            self.step = ProxyStep::Pod;
            self.survey_host(&pod, node);
        }
    }

    /// What the proxies have come to.
    pub fn outcome(self) -> (res: ProxyReadiness)
        requires
            self.wf(),
            self.step is Done,
        ensures
            res == if self.survey.waiting@.len() == 0 {
                ProxyReadiness::Ready {
                    ready: self.survey.ready,
                    unreachable: self.survey.unreachable,
                }
            } else {
                ProxyReadiness::Pending { waiting: self.survey.waiting }
            },
    {
        self.survey.conclude()
    }
}

/// Begins a pass over a run's proxies. A run that reaches no Node needs none.
pub fn ensure_proxies(hosts: &[String], run_id: &str, grace: ProxyGracePolicy, now: i64) -> (res:
    ProxyPass)
    requires
        grace.wf(),
    ensures
        res.wf(),
        res.hosts@ == hosts@,
        res.run_id@ == run_id@,
        res.grace == grace,
        res.now == now,
        res.visited == 0,
        !res.shielded,
        !res.identified,
        !res.keyed,
        res.pod is None,
        res.step == if hosts@.len() == 0 {
            ProxyStep::Done
        } else {
            ProxyStep::Policy
        },
{
    let survey = ProxySurvey::new();
    ProxyPass {
        hosts: clone_strings(hosts),
        run_id: run_id.to_owned(),
        grace,
        now,
        step: if hosts.len() == 0 {
            ProxyStep::Done
        } else {
            ProxyStep::Policy
        },
        visited: 0,
        shielded: false,
        identified: false,
        keyed: false,
        pod: None,
        survey,
    }
}

/// No proxy is created before the policy that shields it, nor before the keys it serves with.
pub proof fn proxies_are_shielded_before_they_exist(pass: ProxyPass, call: ProxyCall)
    requires
        pass.wf(),
        pass.calls(Some(call)),
        call is CreatePod || call is CreateHostSecret,
    ensures
        pass.shielded,
        call is CreatePod ==> pass.keyed,
{
}

/// A pass that is done has surveyed every host: what it found ready, unreachable and waiting are
/// together the hosts, each of them once and each list in their order.
pub proof fn every_host_is_surveyed(pass: ProxyPass)
    requires
        pass.wf(),
        pass.step is Done,
    ensures
        covers(pass.survey, text::texts(pass.hosts@)),
        ready_hosts(pass.survey.ready@).to_multiset().add(
            text::texts(pass.survey.unreachable@).to_multiset(),
        ).add(text::texts(pass.survey.waiting@).to_multiset()) == text::texts(
            pass.hosts@,
        ).to_multiset(),
{
    let hosts = text::texts(pass.hosts@);
    assert(hosts.take(pass.visited as int) =~= hosts);
    lemma_dealt_counts(
        hosts,
        ready_hosts(pass.survey.ready@),
        text::texts(pass.survey.unreachable@),
        text::texts(pass.survey.waiting@),
    );
}

// --- starting over ---------------------------------------------------------------------------

/// A delete, which leaves a missing object missing.
#[derive(Debug, Clone, PartialEq, Eq)]
pub enum ResetCall {
    DeletePod { name: String },
    DeleteHostSecret { name: String },
    /// In the plan's namespace.
    DeleteClientSecret { name: String },
}

/// The deletes that let a run's proxies be created again under another authority. The client Secret
/// is what shows that they are due, so it goes last: a reset that is interrupted is begun again.
pub fn reset_calls(hosts: &[String], run_id: &str) -> (res: Vec<ResetCall>)
    ensures
        res@.len() == 2 * hosts@.len() + 1,
        forall|i: int|
            0 <= i < hosts@.len() ==> (#[trigger] res@[2 * i] matches ResetCall::DeletePod { name }
                && name@ == managed_ssh::proxy_name(hosts@[i]@, run_id@)),
        forall|i: int|
            0 <= i < hosts@.len() ==> (#[trigger] res@[2 * i + 1] matches ResetCall::DeleteHostSecret {
                name,
            } && name@ == managed_ssh::proxy_name(hosts@[i]@, run_id@)),
        res@.last() matches ResetCall::DeleteClientSecret { name } && name@
            == managed_ssh::client_secret_name(run_id@),
{
    let mut calls: Vec<ResetCall> = Vec::new();
    let mut i: usize = 0;
    while i < hosts.len()
        invariant
            i <= hosts@.len(),
            calls@.len() == 2 * i,
            forall|j: int|
                0 <= j < i ==> (#[trigger] calls@[2 * j] matches ResetCall::DeletePod { name }
                    && name@ == managed_ssh::proxy_name(hosts@[j]@, run_id@)),
            forall|j: int|
                0 <= j < i ==> (#[trigger] calls@[2 * j + 1] matches ResetCall::DeleteHostSecret {
                    name,
                } && name@ == managed_ssh::proxy_name(hosts@[j]@, run_id@)),
        decreases hosts.len() - i,
    {
        let host = hosts[i].as_str();
        calls.push(ResetCall::DeletePod { name: resource_name(host, run_id) });
        calls.push(ResetCall::DeleteHostSecret { name: resource_name(host, run_id) });
        i = i + 1;
    }
    calls.push(ResetCall::DeleteClientSecret { name: client_cert_secret_name(run_id) });
    calls
}

// --- taking them down ------------------------------------------------------------------------

/// A delete of what is left of a run.
#[derive(Debug, Clone, PartialEq, Eq)]
pub enum CleanupCall {
    DeletePods { selector: String },
    DeleteHostSecrets { selector: String },
    DeleteNetworkPolicies { selector: String },
    /// In the plan's namespace, by name: a selector would match the Job's pod too.
    DeleteJobNetworkPolicy { name: String },
    DeleteClientSecret { name: String },
}

/// The deletes that end a run, in their order. The pods go first: with them gone the run's
/// certificates log in nowhere.
pub fn cleanup_calls(hash: &ExecutionHash, run_id: &str, plan_name: &str) -> (res: Vec<CleanupCall>)
    ensures
        res@.len() == 5,
        res@[0] matches CleanupCall::DeletePods { selector } && selector@
            == managed_ssh::run_selector_of(*hash, run_id@) + ","@ + PLAYBOOKPLAN_HOST@,
        res@[1] matches CleanupCall::DeleteHostSecrets { selector } && selector@
            == managed_ssh::run_selector_of(*hash, run_id@),
        res@[2] matches CleanupCall::DeleteNetworkPolicies { selector } && selector@
            == managed_ssh::run_selector_of(*hash, run_id@),
        res@[3] matches CleanupCall::DeleteJobNetworkPolicy { name } && name@
            == job_names::policy_name_of(plan_name@, *hash),
        res@[4] matches CleanupCall::DeleteClientSecret { name } && name@
            == managed_ssh::client_secret_name(run_id@),
{
    vec![
        CleanupCall::DeletePods { selector: proxy_pod_selector(hash, run_id) },
        CleanupCall::DeleteHostSecrets { selector: run_selector(hash, run_id) },
        CleanupCall::DeleteNetworkPolicies { selector: run_selector(hash, run_id) },
        CleanupCall::DeleteJobNetworkPolicy { name: job_network_policy_name(plan_name, hash) },
        CleanupCall::DeleteClientSecret { name: client_cert_secret_name(run_id) },
    ]
}

/// A host is put where its proxy puts it, and nothing else moves.
pub proof fn a_host_is_put_where_its_proxy_puts_it(
    after: ProxySurvey,
    before: ProxySurvey,
    host: Seq<char>,
    outcome: managed_ssh::HostProxy,
)
    requires
        surveyed(after, before, host, outcome),
    ensures
        outcome matches managed_ssh::HostProxy::Ready(ip) ==> managed_ssh::reachable(after.ready@)
            == managed_ssh::reachable(before.ready@).push((host, ip, 22i32)) && text::texts(
            after.unreachable@,
        ) == text::texts(before.unreachable@) && text::texts(after.waiting@) == text::texts(
            before.waiting@,
        ),
        outcome is Unreachable ==> text::texts(after.unreachable@) == text::texts(
            before.unreachable@,
        ).push(host) && managed_ssh::reachable(after.ready@) == managed_ssh::reachable(before.ready@)
            && text::texts(after.waiting@) == text::texts(before.waiting@),
        outcome is Waiting ==> text::texts(after.waiting@) == text::texts(before.waiting@).push(host)
            && managed_ssh::reachable(after.ready@) == managed_ssh::reachable(before.ready@)
            && text::texts(after.unreachable@) == text::texts(before.unreachable@),
{
}

/// The Node is asked exactly where the Pod alone does not settle its host.
pub proof fn a_node_is_read_where_its_pod_says_too_little(pod: ObservedPod)
    ensures
        pod.metadata.deletion_timestamp is Some ==> node_is_read(pod),
        pod.status is None ==> node_is_read(pod),
        pod.metadata.deletion_timestamp is None && pod.status is Some && text::text_of(
            pod.status->0.phase,
        ) == Some("Running"@) ==> !node_is_read(pod),
        pod.metadata.deletion_timestamp is None && managed_ssh::pod_ready(pod.status)
            && pod.status->0.pod_ip is Some ==> !node_is_read(pod),
        pod.metadata.deletion_timestamp is None && !managed_ssh::pod_ready(pod.status) && pod.status
            is Some && text::text_of(pod.status->0.phase) != Some("Running"@) ==> node_is_read(pod),
{
}

/// Each step of a pass asks for one thing, under the name of the run or of the host being visited.
pub proof fn a_pass_asks_for_what_its_step_says(pass: ProxyPass, call: ProxyCall)
    requires
        pass.calls(Some(call)),
    ensures
        pass.step is Policy ==> call is ApplyNetworkPolicy && call->ApplyNetworkPolicy_name@
            == "managed-ssh-"@ + pass.run_id@,
        pass.step is ClientSecret ==> call is ReadClientSecret && call->ReadClientSecret_name@
            == "managed-ssh-client-"@ + pass.run_id@,
        pass.step is NewClientSecret ==> call is CreateClientSecret && call->CreateClientSecret_name@
            == "managed-ssh-client-"@ + pass.run_id@,
        pass.step is Pod ==> call is ReadPod && call->ReadPod_name@ == "ansible-sshd-"@
            + pass.hosts@[pass.visited as int]@ + "-"@ + pass.run_id@,
        pass.step is NewPod ==> call is CreatePod && call->CreatePod_name@ == "ansible-sshd-"@
            + pass.hosts@[pass.visited as int]@ + "-"@ + pass.run_id@,
        pass.step is HostSecret ==> call is ReadHostSecret && call->ReadHostSecret_name@
            == "ansible-sshd-"@ + pass.hosts@[pass.visited as int]@ + "-"@ + pass.run_id@,
        pass.step is NewHostSecret ==> call is CreateHostSecret && call->CreateHostSecret_name@
            == "ansible-sshd-"@ + pass.hosts@[pass.visited as int]@ + "-"@ + pass.run_id@,
        pass.step is Node ==> call is ReadNode && call->ReadNode_name@
            == pass.hosts@[pass.visited as int]@,
        !(pass.step is Done),
{
}

/// A host that was surveyed is done with, and the next is begun from its Secret, until there is none left.
pub proof fn a_surveyed_host_is_done_with(
    pass: ProxyPass,
    before: ProxyPass,
    outcome: managed_ssh::HostProxy,
)
    requires
        pass.has_surveyed(&before, outcome),
    ensures
        pass.visited == before.visited + 1,
        pass.visited == pass.hosts@.len() ==> pass.step is Done,
        pass.visited != pass.hosts@.len() ==> pass.step is HostSecret,
        !pass.keyed,
        pass.pod is None,
        pass.shielded == before.shielded,
        pass.identified == before.identified,
{
}

/// A Pod that does not settle its host is kept while its Node is asked, with everything else as it was.
pub proof fn a_pod_is_kept_while_its_node_is_asked(
    pass: ProxyPass,
    before: ProxyPass,
    pod: ObservedPod,
)
    requires
        pass.takes(&before, pod),
    ensures
        node_is_read(pod) ==> pass.step is Node && pass.pod == Some(pod) && pass.visited
            == before.visited && pass.survey == before.survey && pass.shielded == before.shielded
            && pass.identified == before.identified && pass.keyed == before.keyed,
        !node_is_read(pod) ==> pass.visited == before.visited + 1 && surveyed(
            pass.survey,
            before.survey,
            before.hosts@[before.visited as int]@,
            managed_ssh::settled(pod, None, before.grace, before.now),
        ),
{
}

} // verus!
