//! Access to cluster nodes through per-run proxy pods: how long they are waited for, which of them
//! may be used, and what belongs to a run when it is cleaned up.

use vstd::prelude::*;
use vstd::utf8;
use crate::execution_evaluator::{ExecutionHash, SecretData};
use crate::labels::{PLAYBOOKPLAN_HASH, PLAYBOOKPLAN_HOST, RUN_ID};
use crate::numerals;
use crate::paths::MANAGED_SSH_KNOWN_HOSTS_FILENAME;
use crate::resources::{Node, NodeCondition, MAX_DNS_LABEL_LEN, MAX_DNS_SUBDOMAIN_LEN};
use crate::search;
use crate::search::text_contains;
use crate::text;
use crate::text::{concat, concat3, optional_is, text_eq};
use crate::workloads::{ObservedPod, PodCondition, PodStatus};

verus! {

pub const PROXY_SSH_PORT: i32 = 22;

/// An address that never routes: the stand-in for a host whose proxy never came up, so that the
/// dial to it is certain to fail.
pub const UNREACHABLE_SENTINEL_IP: &'static str = "192.0.2.1";

pub const SECONDS_PER_DAY: i64 = 86400;

// --- how long a proxy is waited for ----------------------------------------------------------

/// How long to wait for a proxy pod that is not running yet, by how long its Node has been silent.
#[derive(Debug, Clone, PartialEq, Eq)]
pub struct ProxyGracePolicy {
    /// The wait for a Node that was alive recently.
    pub grace_seconds: i64,
    /// What the wait is divided by at each further tier.
    pub aggressiveness: u32,
    /// The heartbeat ages, in seconds, at which the tiers end. Past the last the wait is zero.
    pub threshold_secs: [i64; 3],
}

/// A product held within the range of `i64`.
pub open spec fn saturated(x: int) -> int {
    if x > i64::MAX {
        i64::MAX as int
    } else if x < i64::MIN {
        i64::MIN as int
    } else {
        x
    }
}

fn saturating_days(days: i64) -> (res: i64)
    ensures
        res == saturated(days * SECONDS_PER_DAY),
{
    assert(SECONDS_PER_DAY == 86400);
    let product: i128 = days as i128 * 86400;
    if product > i64::MAX as i128 {
        i64::MAX
    } else if product < i64::MIN as i128 {
        i64::MIN
    } else {
        product as i64
    }
}

impl ProxyGracePolicy {
    /// The divisor is never zero.
    pub open spec fn wf(&self) -> bool {
        self.aggressiveness >= 1
    }

    /// A policy from configuration: thresholds in days, and a divisor of at least one.
    pub fn new(grace_seconds: i64, aggressiveness: u32, threshold_days: [i64; 3]) -> (res: Self)
        ensures
            res.wf(),
            res.grace_seconds == grace_seconds,
            res.aggressiveness == if aggressiveness == 0 {
                1
            } else {
                aggressiveness
            },
            forall|i: int|
                0 <= i < 3 ==> (#[trigger] res.threshold_secs@[i]) == saturated(
                    threshold_days@[i] * SECONDS_PER_DAY,
                ),
    {
        let at_least_one: u32 = if aggressiveness == 0 {
            1
        } else {
            aggressiveness
        };
        ProxyGracePolicy {
            grace_seconds,
            aggressiveness: at_least_one,
            threshold_secs: [
                saturating_days(threshold_days[0]),
                saturating_days(threshold_days[1]),
                saturating_days(threshold_days[2]),
            ],
        }
    }

    /// What the wait is divided by in a tier.
    pub open spec fn divisor(&self, tier: nat) -> int
        decreases tier,
    {
        if tier == 0 {
            1
        } else {
            saturated(self.divisor((tier - 1) as nat) * self.aggressiveness)
        }
    }

    /// The first tier that a heartbeat age falls within, or the number of tiers if it is past all.
    pub open spec fn tier(&self, age: int) -> nat {
        if age <= self.threshold_secs@[0] {
            0
        } else if age <= self.threshold_secs@[1] {
            1
        } else if age <= self.threshold_secs@[2] {
            2
        } else {
            3
        }
    }
}

/// A quotient rounded toward zero.
pub open spec fn truncated_quotient(a: int, d: int) -> int {
    if a >= 0 {
        a / d
    } else {
        -((-a) / d)
    }
}

/// The wait for a Node by the age of its last heartbeat. One whose age is unknown gets the full
/// wait.
pub open spec fn effective_grace(heartbeat_age: Option<i64>, policy: ProxyGracePolicy) -> int {
    match heartbeat_age {
        None => policy.grace_seconds as int,
        Some(age) => if policy.tier(age as int) == 3 {
            0
        } else {
            truncated_quotient(
                policy.grace_seconds as int,
                policy.divisor(policy.tier(age as int)),
            )
        },
    }
}

fn divide(grace: i64, divisor: i64) -> (res: i64)
    requires
        divisor >= 1,
    ensures
        res == truncated_quotient(grace as int, divisor as int),
{
    if grace >= 0 {
        grace / divisor
    } else {
        let magnitude: i128 = -(grace as i128);
        let quotient: i128 = magnitude / divisor as i128;
        proof {
            let m = magnitude as int;
            let d = divisor as int;
            assert(0 <= m / d <= m) by (nonlinear_arith)
                requires
                    d >= 1,
                    m >= 0,
            ;
        }
        (-quotient) as i64
    }
}

/// The wait for a Node by the age of its last heartbeat.
pub fn effective_grace_secs(heartbeat_age_secs: Option<i64>, policy: &ProxyGracePolicy) -> (res: i64)
    requires
        policy.wf(),
    ensures
        res == effective_grace(heartbeat_age_secs, *policy),
{
    let age = match heartbeat_age_secs {
        Some(age) => age,
        None => {
            return policy.grace_seconds;
        },
    };
    let mut divisor: i64 = 1;
    let mut tier: usize = 0;
    while tier < 3
        invariant
            tier <= 3,
            policy.wf(),
            heartbeat_age_secs == Some(age),
            1 <= divisor,
            divisor == policy.divisor(tier as nat),
            forall|k: int| 0 <= k < tier ==> age > #[trigger] policy.threshold_secs@[k],
        decreases 3 - tier,
    {
        if age <= policy.threshold_secs[tier] {
            assert(policy.tier(age as int) == tier);
            return divide(policy.grace_seconds, divisor);
        }
        proof {
            let d = divisor as int;
            let a = policy.aggressiveness as int;
            assert(d * a >= 1) by (nonlinear_arith)
                requires
                    d >= 1,
                    a >= 1,
            ;
            assert(d * a <= 0x7fff_ffff_ffff_ffff * 0xffff_ffff) by (nonlinear_arith)
                requires
                    1 <= d <= 0x7fff_ffff_ffff_ffff,
                    1 <= a <= 0xffff_ffff,
            ;
        }
        let product: i128 = divisor as i128 * policy.aggressiveness as i128;
        divisor = if product > i64::MAX as i128 {
            i64::MAX
        } else {
            product as i64
        };
        tier = tier + 1;
    }
    0
}

proof fn lemma_divisor_grows(policy: ProxyGracePolicy, tier: nat)
    requires
        policy.wf(),
    ensures
        1 <= policy.divisor(tier) <= policy.divisor(tier + 1),
    decreases tier,
{
    reveal_with_fuel(ProxyGracePolicy::divisor, 2);
    if tier > 0 {
        lemma_divisor_grows(policy, (tier - 1) as nat);
    }
    let d = policy.divisor(tier);
    let a = policy.aggressiveness as int;
    assert(d * a >= d) by (nonlinear_arith)
        requires
            d >= 1,
            a >= 1,
    ;
    assert(policy.divisor(tier + 1) == saturated(d * a));
    assert(d <= i64::MAX);
}

/// A Node that has been silent for longer is never waited for longer, and never for longer than one
/// whose silence is unknown.
pub proof fn silence_never_lengthens_the_wait(policy: ProxyGracePolicy, younger: i64, older: i64)
    requires
        policy.wf(),
        policy.grace_seconds >= 0,
        younger <= older,
    ensures
        0 <= effective_grace(Some(older), policy),
        effective_grace(Some(older), policy) <= effective_grace(Some(younger), policy),
        effective_grace(Some(younger), policy) <= effective_grace(None, policy),
{
    let grace = policy.grace_seconds as int;
    lemma_divisor_grows(policy, 0);
    lemma_divisor_grows(policy, 1);
    lemma_divisor_grows(policy, 2);
    let d0 = policy.divisor(0);
    let d1 = policy.divisor(1);
    let d2 = policy.divisor(2);
    assert(grace / d0 <= grace && 0 <= grace / d2 && grace / d2 <= grace / d1 && grace / d1 <= grace
        / d0) by (nonlinear_arith)
        requires
            grace >= 0,
            d0 == 1,
            d0 <= d1,
            d1 <= d2,
    ;
}

// --- what a proxy pod reports ----------------------------------------------------------------

/// A reachable host: its proxy's address.
#[derive(Debug, Clone, PartialEq, Eq)]
pub struct ProxyPodInfo {
    pub host: String,
    pub pod_ip: String,
    pub port: i32,
}

/// What the proxies of a run have come to.
#[derive(Debug, Clone, PartialEq, Eq)]
pub enum ProxyReadiness {
    /// Every proxy has settled.
    Ready { ready: Vec<ProxyPodInfo>, unreachable: Vec<String> },
    /// At least one is still waited for.
    Pending { waiting: Vec<String> },
}

/// A proxy pod as far as readiness cares.
#[derive(Debug, Clone, PartialEq, Eq)]
pub enum PodReadyState {
    ReadyWithIp(String),
    /// Running, its sshd still coming up.
    Running,
    /// Not running yet.
    PreRunning,
    /// Deleted, but not gone yet.
    Terminating,
}

/// Whether a pod says it is ready.
pub open spec fn says_pod_ready(condition: PodCondition) -> bool {
    condition.type_@ == "Ready"@ && condition.status@ == "True"@
}

/// Whether a pod's status reports it ready.
pub open spec fn pod_ready(status: Option<PodStatus>) -> bool {
    status matches Some(status) && status.conditions matches Some(conditions) && exists|i: int|
        0 <= i < conditions@.len() && says_pod_ready(#[trigger] conditions@[i])
}

/// The state of a proxy pod. A pod that is being deleted is terminating whatever else it reports.
pub open spec fn is_state(pod: ObservedPod, state: PodReadyState) -> bool {
    if pod.metadata.deletion_timestamp is Some {
        state is Terminating
    } else if pod_ready(pod.status) && pod.status->0.pod_ip is Some {
        state is ReadyWithIp && state->0@ == pod.status->0.pod_ip->0@
    } else if pod.status is Some && text::text_of(pod.status->0.phase) == Some("Running"@) {
        state is Running
    } else {
        state is PreRunning
    }
}

fn reports_ready(conditions: &[PodCondition]) -> (res: bool)
    ensures
        res == exists|i: int|
            0 <= i < conditions@.len() && says_pod_ready(#[trigger] conditions@[i]),
{
    let mut i: usize = 0;
    while i < conditions.len()
        invariant
            i <= conditions@.len(),
            forall|j: int| 0 <= j < i ==> !says_pod_ready(#[trigger] conditions@[j]),
        decreases conditions.len() - i,
    {
        if text_eq(conditions[i].type_.as_str(), "Ready") && text_eq(
            conditions[i].status.as_str(),
            "True",
        ) {
            assert(says_pod_ready(conditions@[i as int]));
            return true;
        }
        i = i + 1;
    }
    false
}

/// The state of a proxy pod.
pub fn proxy_pod_readiness(pod: &ObservedPod) -> (res: PodReadyState)
    ensures
        is_state(*pod, res),
{
    if pod.metadata.deletion_timestamp.is_some() {
        return PodReadyState::Terminating;
    }
    let status = match &pod.status {
        Some(status) => status,
        None => {
            return PodReadyState::PreRunning;
        },
    };
    let ready = match &status.conditions {
        Some(conditions) => reports_ready(conditions),
        None => false,
    };
    if ready {
        if let Some(ip) = &status.pod_ip {
            return PodReadyState::ReadyWithIp(ip.clone());
        }
    }
    if optional_is(&status.phase, "Running") {
        PodReadyState::Running
    } else {
        PodReadyState::PreRunning
    }
}

/// The first condition of the kind that says whether a Node is ready.
pub open spec fn ready_condition(conditions: Seq<NodeCondition>) -> Option<NodeCondition>
    decreases conditions.len(),
{
    if conditions.len() == 0 {
        None
    } else if conditions[0].type_@ == "Ready"@ {
        Some(conditions[0])
    } else {
        ready_condition(conditions.drop_first())
    }
}

/// When a Node last reported whether it is ready.
pub open spec fn last_heartbeat(node: Node) -> Option<i64> {
    match node.conditions {
        Some(conditions) => match ready_condition(conditions@) {
            Some(condition) => condition.last_heartbeat_time,
            None => None,
        },
        None => None,
    }
}

/// The seconds from `since` to `now`.
pub open spec fn age(since: Option<i64>, now: i64) -> Option<int> {
    match since {
        Some(since) => Some(now - since),
        None => None,
    }
}

/// A number of seconds.
pub open spec fn seconds(age: Option<i64>) -> Option<int> {
    match age {
        Some(age) => Some(age as int),
        None => None,
    }
}

/// Whether the seconds from `since` to `now` can be counted in an `i64`.
pub open spec fn countable(since: Option<i64>, now: i64) -> bool {
    since matches Some(since) ==> i64::MIN <= now - since <= i64::MAX
}

fn heartbeat(node: &Node) -> (res: Option<i64>)
    ensures
        res == last_heartbeat(*node),
{
    let conditions = match &node.conditions {
        Some(conditions) => conditions,
        None => {
            return None;
        },
    };
    let mut i: usize = 0;
    assert(conditions@.skip(0) =~= conditions@);
    while i < conditions.len()
        invariant
            i <= conditions@.len(),
            node.conditions == Some(*conditions),
            ready_condition(conditions@) == ready_condition(conditions@.skip(i as int)),
        decreases conditions.len() - i,
    {
        if text_eq(conditions[i].type_.as_str(), "Ready") {
            return conditions[i].last_heartbeat_time;
        }
        assert(conditions@.skip(i as int).drop_first() =~= conditions@.skip(i + 1));
        i = i + 1;
    }
    None
}

/// How many seconds ago a Node last reported whether it is ready.
pub fn node_ready_heartbeat_age_secs(node: &Node, now_epoch_secs: i64) -> (res: Option<i64>)
    requires
        countable(last_heartbeat(*node), now_epoch_secs),
    ensures
        seconds(res) == age(last_heartbeat(*node), now_epoch_secs),
{
    match heartbeat(node) {
        Some(last) => Some(now_epoch_secs - last),
        None => None,
    }
}

/// Since when a proxy pod in a state is waited for: its deletion, or its creation. A ready or
/// running pod has no deadline.
pub open spec fn waited_since(pod: ObservedPod, state: PodReadyState) -> Option<i64> {
    match state {
        PodReadyState::Terminating => pod.metadata.deletion_timestamp,
        PodReadyState::PreRunning => pod.metadata.creation_timestamp,
        PodReadyState::ReadyWithIp(_) => None,
        PodReadyState::Running => None,
    }
}

/// How many seconds a proxy pod in a state has been waited for.
pub fn proxy_wait_age_secs(pod: &ObservedPod, state: &PodReadyState, now_epoch_secs: i64) -> (res:
    Option<i64>)
    requires
        countable(waited_since(*pod, *state), now_epoch_secs),
    ensures
        seconds(res) == age(waited_since(*pod, *state), now_epoch_secs),
{
    let started: Option<i64> = match state {
        PodReadyState::Terminating => pod.metadata.deletion_timestamp,
        PodReadyState::PreRunning => pod.metadata.creation_timestamp,
        PodReadyState::ReadyWithIp(_) => None,
        PodReadyState::Running => None,
    };
    match started {
        Some(started) => Some(now_epoch_secs - started),
        None => None,
    }
}

// --- one pass over a run's proxies -----------------------------------------------------------

/// What one proxy has come to.
pub ghost enum HostProxy {
    Ready(Seq<char>),
    Unreachable,
    Waiting,
}

/// What the proxy of a host has come to: usable once it is ready, waited for while it runs, and
/// given up once it has not run for as long as the silence of its Node allows.
pub open spec fn settled(
    pod: ObservedPod,
    node: Option<Node>,
    policy: ProxyGracePolicy,
    now: i64,
) -> HostProxy {
    let since = if pod.metadata.deletion_timestamp is Some {
        pod.metadata.deletion_timestamp
    } else {
        pod.metadata.creation_timestamp
    };
    let silence = match node {
        Some(node) => last_heartbeat(node),
        None => None,
    };
    if pod.metadata.deletion_timestamp is None && pod_ready(pod.status)
        && pod.status->0.pod_ip is Some {
        HostProxy::Ready(pod.status->0.pod_ip->0@)
    } else if pod.metadata.deletion_timestamp is None && pod.status is Some && text::text_of(
        pod.status->0.phase,
    ) == Some("Running"@) {
        HostProxy::Waiting
    } else {
        match since {
            Some(since) => if now - since >= effective_grace(
                match silence {
                    Some(last) => Some((now - last) as i64),
                    None => None,
                },
                policy,
            ) {
                HostProxy::Unreachable
            } else {
                HostProxy::Waiting
            },
            None => HostProxy::Waiting,
        }
    }
}

/// Whether the Node of a proxy pod is needed to tell how long the pod is waited for.
pub fn needs_node(state: &PodReadyState) -> (res: bool)
    ensures
        res == (state is PreRunning || state is Terminating),
{
    match state {
        PodReadyState::PreRunning | PodReadyState::Terminating => true,
        _ => false,
    }
}

/// What a pass over a run's proxies has found so far.
#[derive(Debug, Clone, PartialEq, Eq)]
pub struct ProxySurvey {
    pub ready: Vec<ProxyPodInfo>,
    pub unreachable: Vec<String>,
    pub waiting: Vec<String>,
}

/// The hosts and addresses of reachable proxies, all on the proxy port.
pub open spec fn reachable(ready: Seq<ProxyPodInfo>) -> Seq<(Seq<char>, Seq<char>, i32)> {
    ready.map_values(|info: ProxyPodInfo| (info.host@, info.pod_ip@, info.port))
}

impl ProxySurvey {
    /// A pass that has found nothing yet.
    pub fn new() -> (res: Self)
        ensures
            reachable(res.ready@) == Seq::<(Seq<char>, Seq<char>, i32)>::empty(),
            text::texts(res.unreachable@) == Seq::<Seq<char>>::empty(),
            text::texts(res.waiting@) == Seq::<Seq<char>>::empty(),
    {
        let res = ProxySurvey { ready: Vec::new(), unreachable: Vec::new(), waiting: Vec::new() };
        assert(reachable(res.ready@) =~= Seq::<(Seq<char>, Seq<char>, i32)>::empty());
        assert(text::texts(res.unreachable@) =~= Seq::<Seq<char>>::empty());
        res
    }

    /// Adds what the proxy of one more host has come to.
    pub fn note(
        &mut self,
        host: &str,
        pod: &ObservedPod,
        node: Option<&Node>,
        policy: &ProxyGracePolicy,
        now_epoch_secs: i64,
    )
        requires
            policy.wf(),
            countable(pod.metadata.deletion_timestamp, now_epoch_secs),
            countable(pod.metadata.creation_timestamp, now_epoch_secs),
            node matches Some(node) ==> countable(last_heartbeat(*node), now_epoch_secs),
        ensures
            ({
                let outcome = settled(
                    *pod,
                    match node {
                        Some(node) => Some(*node),
                        None => None,
                    },
                    *policy,
                    now_epoch_secs,
                );
                &&& reachable(final(self).ready@) == match outcome {
                    HostProxy::Ready(ip) => reachable(old(self).ready@).push(
                        (host@, ip, PROXY_SSH_PORT),
                    ),
                    _ => reachable(old(self).ready@),
                }
                &&& text::texts(final(self).unreachable@) == match outcome {
                    HostProxy::Unreachable => text::texts(old(self).unreachable@).push(host@),
                    _ => text::texts(old(self).unreachable@),
                }
                &&& text::texts(final(self).waiting@) == match outcome {
                    HostProxy::Waiting => text::texts(old(self).waiting@).push(host@),
                    _ => text::texts(old(self).waiting@),
                }
            }),
    {
        let state = proxy_pod_readiness(pod);
        if needs_node(&state) {
            let heartbeat_age = match node {
                Some(node) => node_ready_heartbeat_age_secs(node, now_epoch_secs),
                None => None,
            };
            let grace = effective_grace_secs(heartbeat_age, policy);
            let overdue = match proxy_wait_age_secs(pod, &state, now_epoch_secs) {
                Some(waited) => waited >= grace,
                None => false,
            };
            if overdue {
                self.unreachable.push(host.to_owned());
                assert(text::texts(self.unreachable@) =~= text::texts(old(self).unreachable@).push(
                    host@,
                ));
            } else {
                self.waiting.push(host.to_owned());
                assert(text::texts(self.waiting@) =~= text::texts(old(self).waiting@).push(host@));
            }
            return;
        }
        match state {
            PodReadyState::ReadyWithIp(pod_ip) => {
                self.ready.push(
                    ProxyPodInfo { host: host.to_owned(), pod_ip, port: PROXY_SSH_PORT },
                );
                assert(reachable(self.ready@) =~= reachable(old(self).ready@).push(
                    (host@, pod.status->0.pod_ip->0@, PROXY_SSH_PORT),
                ));
            },
            _ => {
                self.waiting.push(host.to_owned());
                assert(text::texts(self.waiting@) =~= text::texts(old(self).waiting@).push(host@));
            },
        }
    }

    /// What the proxies have come to: settled only once none is waited for.
    pub fn conclude(self) -> (res: ProxyReadiness)
        ensures
            res == if self.waiting@.len() == 0 {
                ProxyReadiness::Ready { ready: self.ready, unreachable: self.unreachable }
            } else {
                ProxyReadiness::Pending { waiting: self.waiting }
            },
    {
        if self.waiting.len() == 0 {
            ProxyReadiness::Ready { ready: self.ready, unreachable: self.unreachable }
        } else {
            ProxyReadiness::Pending { waiting: self.waiting }
        }
    }
}

/// A pod that is being deleted is never used, however ready it still looks.
pub proof fn a_terminating_pod_is_never_adopted(
    pod: ObservedPod,
    node: Option<Node>,
    policy: ProxyGracePolicy,
    now: i64,
)
    requires
        pod.metadata.deletion_timestamp is Some,
    ensures
        !(settled(pod, node, policy, now) is Ready),
        forall|state: PodReadyState| is_state(pod, state) ==> state is Terminating,
{
}

/// A pod that runs is waited for however long it takes.
pub proof fn a_running_pod_is_never_given_up(
    pod: ObservedPod,
    node: Option<Node>,
    policy: ProxyGracePolicy,
    now: i64,
)
    requires
        pod.metadata.deletion_timestamp is None,
        pod.status is Some,
        text::text_of(pod.status->0.phase) == Some("Running"@),
    ensures
        !(settled(pod, node, policy, now) is Unreachable),
{
}

// --- names and cleanup -----------------------------------------------------------------------

/// What the proxy pod and the Secret of a host are called in a run.
pub open spec fn proxy_name(host: Seq<char>, run_id: Seq<char>) -> Seq<char> {
    "ansible-sshd-"@ + host + "-"@ + run_id
}

/// What the proxy pod and the Secret of a host are called in a run.
pub fn resource_name(host: &str, run_id: &str) -> (res: String)
    ensures
        res@ == proxy_name(host@, run_id@),
{
    let start = concat3("ansible-sshd-", host, "-");
    concat(start.as_str(), run_id)
}

/// A proxy's name fits what a pod may be called for every host that can be a label value.
pub proof fn proxy_names_fit(host: Seq<char>, run_id: Seq<char>)
    requires
        host.len() <= MAX_DNS_LABEL_LEN,
        run_id.len() <= MAX_DNS_LABEL_LEN,
    ensures
        proxy_name(host, run_id).len() <= MAX_DNS_SUBDOMAIN_LEN,
{
    reveal_strlit("ansible-sshd-");
    reveal_strlit("-");
}

/// What the client identity Secret of a run is called.
pub open spec fn client_secret_name(run_id: Seq<char>) -> Seq<char> {
    "managed-ssh-client-"@ + run_id
}

/// What the client identity Secret of a run is called.
pub fn client_cert_secret_name(run_id: &str) -> (res: String)
    ensures
        res@ == client_secret_name(run_id@),
{
    concat("managed-ssh-client-", run_id)
}

/// What the policy that shields a run's proxies is called.
pub fn network_policy_name(run_id: &str) -> (res: String)
    ensures
        res@ == "managed-ssh-"@ + run_id@,
{
    concat("managed-ssh-", run_id)
}

/// The label selector of everything that belongs to a run.
pub open spec fn run_selector_of(hash: ExecutionHash, run_id: Seq<char>) -> Seq<char> {
    PLAYBOOKPLAN_HASH@ + "="@ + numerals::numeral(hash.0 as nat, 16) + ","@ + RUN_ID@ + "="@ + run_id
}

/// The label selector of everything that belongs to a run.
pub fn run_selector(hash: &ExecutionHash, run_id: &str) -> (res: String)
    ensures
        res@ == run_selector_of(*hash, run_id@),
{
    let hash_text = hash.to_text();
    let by_hash = concat3(PLAYBOOKPLAN_HASH, "=", hash_text.as_str());
    let with_run = concat3(by_hash.as_str(), ",", RUN_ID);
    concat3(with_run.as_str(), "=", run_id)
}

/// The label selector of a run's proxy pods: of what belongs to the run, what has a host.
pub fn proxy_pod_selector(hash: &ExecutionHash, run_id: &str) -> (res: String)
    ensures
        res@ == run_selector_of(*hash, run_id@) + ","@ + PLAYBOOKPLAN_HOST@,
{
    let run = run_selector(hash, run_id);
    concat3(run.as_str(), ",", PLAYBOOKPLAN_HOST)
}

/// Whether the selector of a run's proxy pods matches these labels.
pub open spec fn swept(
    labels: Map<Seq<char>, Seq<char>>,
    hash: ExecutionHash,
    run_id: Seq<char>,
) -> bool {
    &&& labels.contains_key(PLAYBOOKPLAN_HASH@)
    &&& labels[PLAYBOOKPLAN_HASH@] == numerals::numeral(hash.0 as nat, 16)
    &&& labels.contains_key(RUN_ID@)
    &&& labels[RUN_ID@] == run_id
    &&& labels.contains_key(PLAYBOOKPLAN_HOST@)
}

// --- resuming after the authority changed ----------------------------------------------------

/// `std::str::from_utf8` and an owned copy: the text the bytes encode, or none where they are not
/// UTF-8.
#[verifier::external_body]
fn utf8_text(bytes: &[u8]) -> (res: Option<String>)
    ensures
        match res {
            Some(s) => utf8::encode_utf8(s@) == bytes@,
            None => !utf8::valid_utf8(bytes@),
        },
{
    std::str::from_utf8(bytes).ok().map(String::from)
}

/// Whether a client identity trusts an authority: its known-hosts file names the authority's key.
pub open spec fn trusts(client_files: SecretData, ca_public_key: Seq<char>) -> bool {
    &&& client_files@.contains_key(MANAGED_SSH_KNOWN_HOSTS_FILENAME@)
    &&& utf8::valid_utf8(client_files@[MANAGED_SSH_KNOWN_HOSTS_FILENAME@]@)
    &&& search::contains_part(
        utf8::decode_utf8(client_files@[MANAGED_SSH_KNOWN_HOSTS_FILENAME@]@),
        ca_public_key,
    )
}

/// Whether the proxies of a run that is being resumed must be rebuilt: a client identity is there
/// and does not trust the current authority. Where there is none, nothing was built yet.
pub fn needs_reset(client_files: Option<&SecretData>, ca_public_key: &str) -> (res: bool)
    ensures
        res == (client_files matches Some(files) && !trusts(*files, ca_public_key@)),
{
    broadcast use vstd::utf8::encode_utf8_valid_utf8;
    broadcast use vstd::utf8::encode_utf8_decode_utf8;

    let files = match client_files {
        Some(files) => files,
        None => {
            return false;
        },
    };
    let known_hosts = match files.get(MANAGED_SSH_KNOWN_HOSTS_FILENAME) {
        Some(bytes) => utf8_text(bytes),
        None => {
            return true;
        },
    };
    match known_hosts {
        Some(known_hosts) => !text_contains(known_hosts.as_str(), ca_public_key),
        None => true,
    }
}

// --- how long a proxy is waited for ----------------------------------------------------------

/// The wait is whole for a Node that was heard of recently or never said anything, is divided once for one that
/// was silent past the first threshold and twice past the second, and is none past the last.
pub proof fn the_wait_shrinks_tier_by_tier(policy: ProxyGracePolicy, age: i64)
    requires
        policy.wf(),
        policy.grace_seconds >= 0,
        policy.aggressiveness <= 1_000_000,
    ensures
        effective_grace(None, policy) == policy.grace_seconds,
        age <= policy.threshold_secs@[0] ==> effective_grace(Some(age), policy)
            == policy.grace_seconds,
        policy.threshold_secs@[0] < age <= policy.threshold_secs@[1] ==> effective_grace(
            Some(age),
            policy,
        ) == policy.grace_seconds as int / policy.aggressiveness as int,
        policy.threshold_secs@[0] < age && policy.threshold_secs@[1] < age
            && age <= policy.threshold_secs@[2] ==> effective_grace(Some(age), policy)
            == policy.grace_seconds as int / (policy.aggressiveness * policy.aggressiveness),
        policy.threshold_secs@[0] < age && policy.threshold_secs@[1] < age
            && policy.threshold_secs@[2] < age ==> effective_grace(Some(age), policy) == 0,
{
    reveal_with_fuel(ProxyGracePolicy::divisor, 3);
    let a = policy.aggressiveness as int;
    assert(1 <= a * a <= 1_000_000 * 1_000_000) by (nonlinear_arith)
        requires
            1 <= a <= 1_000_000,
    ;
    assert(policy.divisor(0) == 1);
    assert(1 * a == a);
    assert(policy.divisor(1) == a);
    assert(policy.divisor(2) == a * a);
    let grace = policy.grace_seconds as int;
    assert(grace / 1 == grace);
}

/// Days are counted as seconds, as far as seconds can be counted.
pub proof fn a_day_has_its_seconds(days: i64)
    ensures
        -1_000_000 <= days <= 1_000_000 ==> saturated(days * SECONDS_PER_DAY) == days * 86400,
        saturated(days * SECONDS_PER_DAY) <= i64::MAX,
        days >= 0 ==> saturated(days * SECONDS_PER_DAY) >= 0,
{
}

/// A Pod that is ready and has an address is used at that address, unless it is being deleted.
pub proof fn a_ready_pod_is_used(
    pod: ObservedPod,
    node: Option<Node>,
    policy: ProxyGracePolicy,
    now: i64,
    i: int,
)
    requires
        pod.metadata.deletion_timestamp is None,
        pod.status is Some,
        pod.status->0.conditions is Some,
        0 <= i < pod.status->0.conditions->0@.len(),
        pod.status->0.conditions->0@[i].type_@ == "Ready"@,
        pod.status->0.conditions->0@[i].status@ == "True"@,
        pod.status->0.pod_ip is Some,
    ensures
        settled(pod, node, policy, now) == HostProxy::Ready(pod.status->0.pod_ip->0@),
        forall|state: PodReadyState| is_state(pod, state) ==> state is ReadyWithIp && state->0@
            == pod.status->0.pod_ip->0@,
{
    assert(says_pod_ready(pod.status->0.conditions->0@[i]));
}

/// A Pod that is not ready is no address to anything: it is waited for as long as it runs, and while it does not
/// run yet it is given up once it has been there for as long as its Node is waited for.
pub proof fn a_pod_that_does_not_run_is_given_up_in_time(
    pod: ObservedPod,
    policy: ProxyGracePolicy,
    now: i64,
    created: i64,
)
    requires
        pod.metadata.deletion_timestamp is None,
        pod.metadata.creation_timestamp == Some(created),
        !pod_ready(pod.status),
    ensures
        pod.status is Some && text::text_of(pod.status->0.phase) == Some("Running"@) ==> settled(
            pod,
            None,
            policy,
            now,
        ) is Waiting,
        pod.status is None || text::text_of(pod.status->0.phase) != Some("Running"@) ==> (settled(
            pod,
            None,
            policy,
            now,
        ) is Unreachable <==> now - created >= policy.grace_seconds) && (settled(
            pod,
            None,
            policy,
            now,
        ) is Waiting <==> now - created < policy.grace_seconds),
{
}

/// A Pod that is being deleted is given up once it has been so for as long as its Node is waited for.
pub proof fn a_pod_that_does_not_go_is_given_up_in_time(
    pod: ObservedPod,
    policy: ProxyGracePolicy,
    now: i64,
    deleted: i64,
)
    requires
        pod.metadata.deletion_timestamp == Some(deleted),
    ensures
        settled(pod, None, policy, now) is Unreachable <==> now - deleted >= policy.grace_seconds,
        settled(pod, None, policy, now) is Waiting <==> now - deleted < policy.grace_seconds,
{
}

/// How long a Node was silent shortens the wait for its proxy.
pub proof fn a_silent_nodes_proxy_is_given_up_sooner(
    pod: ObservedPod,
    node: Node,
    policy: ProxyGracePolicy,
    now: i64,
    created: i64,
    last: i64,
)
    requires
        pod.metadata.deletion_timestamp is None,
        pod.metadata.creation_timestamp == Some(created),
        pod.status is None,
        last_heartbeat(node) == Some(last),
    ensures
        settled(pod, Some(node), policy, now) is Unreachable <==> now - created >= effective_grace(
            Some((now - last) as i64),
            policy,
        ),
{
}

/// A Node was last heard of when its first condition of the type `Ready` says so.
pub proof fn a_node_is_heard_of_through_its_ready_condition(node: Node, i: int)
    requires
        node.conditions is Some,
        0 <= i < node.conditions->0@.len(),
        node.conditions->0@[i].type_@ == "Ready"@,
        forall|k: int| 0 <= k < i ==> (#[trigger] node.conditions->0@[k]).type_@ != "Ready"@,
    ensures
        last_heartbeat(node) == node.conditions->0@[i].last_heartbeat_time,
{
    lemma_ready_condition_at(node.conditions->0@, i);
}

proof fn lemma_ready_condition_at(conditions: Seq<NodeCondition>, i: int)
    requires
        0 <= i < conditions.len(),
        conditions[i].type_@ == "Ready"@,
        forall|k: int| 0 <= k < i ==> (#[trigger] conditions[k]).type_@ != "Ready"@,
    ensures
        ready_condition(conditions) == Some(conditions[i]),
    decreases i,
{
    if i > 0 {
        assert(conditions[0].type_@ != "Ready"@);
        let rest = conditions.drop_first();
        assert forall|k: int| 0 <= k < i - 1 implies (#[trigger] rest[k]).type_@ != "Ready"@ by {
            assert(rest[k] == conditions[k + 1]);
        }
        lemma_ready_condition_at(rest, i - 1);
    }
}

/// An age is the time from then to now, and a Pod is waited for since it was deleted or, before that, created.
pub proof fn a_pod_is_waited_for_since_it_came_or_went(pod: ObservedPod, since: i64, now: i64)
    ensures
        age(Some(since), now) == Some(now - since),
        waited_since(pod, PodReadyState::Terminating) == pod.metadata.deletion_timestamp,
        waited_since(pod, PodReadyState::PreRunning) == pod.metadata.creation_timestamp,
        waited_since(pod, PodReadyState::Running) is None,
{
}

// --- what is named after a run ---------------------------------------------------------------

/// The proxies of a run have names of their own, and so have the identities of different runs.
pub proof fn what_is_named_after_a_run_is_told_apart(
    host: Seq<char>,
    other_host: Seq<char>,
    run_id: Seq<char>,
    other_run: Seq<char>,
)
    ensures
        proxy_name(host, run_id) == proxy_name(other_host, run_id) ==> host == other_host,
        proxy_name(host, run_id) == proxy_name(host, other_run) ==> run_id == other_run,
        client_secret_name(run_id) == client_secret_name(other_run) ==> run_id == other_run,
        client_secret_name(run_id) == "managed-ssh-client-"@ + run_id,
        proxy_name(host, run_id) == "ansible-sshd-"@ + host + "-"@ + run_id,
{
    let p = "ansible-sshd-"@;
    let d = "-"@;
    if proxy_name(host, run_id) == proxy_name(other_host, run_id) {
        let a = proxy_name(host, run_id);
        assert(host =~= a.subrange(p.len() as int, a.len() - run_id.len() - d.len()));
        assert(other_host =~= a.subrange(p.len() as int, a.len() - run_id.len() - d.len()));
    }
    if proxy_name(host, run_id) == proxy_name(host, other_run) {
        let a = proxy_name(host, run_id);
        let n = (p.len() + host.len() + d.len()) as int;
        assert(run_id =~= a.skip(n));
        assert(other_run =~= a.skip(n));
    }
    if client_secret_name(run_id) == client_secret_name(other_run) {
        let a = client_secret_name(run_id);
        let n = "managed-ssh-client-"@.len() as int;
        assert(run_id =~= a.skip(n));
        assert(other_run =~= a.skip(n));
    }
}

/// What a run left behind is selected by its revision and its own identifier.
pub proof fn a_run_is_selected_by_its_labels(
    labels: Map<Seq<char>, Seq<char>>,
    hash: ExecutionHash,
    run_id: Seq<char>,
)
    ensures
        run_selector_of(hash, run_id) == "ansible.cloudbending.dev/hash"@ + "="@ + numerals::numeral(
            hash.0 as nat,
            16,
        ) + ","@ + "ansible.cloudbending.dev/run-id"@ + "="@ + run_id,
        swept(labels, hash, run_id) <==> labels.contains_pair(
            "ansible.cloudbending.dev/hash"@,
            numerals::numeral(hash.0 as nat, 16),
        ) && labels.contains_pair("ansible.cloudbending.dev/run-id"@, run_id) && labels.contains_key(
            "ansible.cloudbending.dev/host"@,
        ),
{
}

/// An identity trusts an authority where the file of known hosts holds the authority's key.
pub proof fn an_identity_trusts_whom_it_knows(client_files: SecretData, key: Seq<char>)
    ensures
        !client_files@.contains_key("known_hosts"@) ==> !trusts(client_files, key),
        client_files@.contains_key("known_hosts"@) && utf8::valid_utf8(
            client_files@["known_hosts"@]@,
        ) ==> (trusts(client_files, key) <==> exists|i: int|
            0 <= i && i + key.len() <= utf8::decode_utf8(client_files@["known_hosts"@]@).len()
                && #[trigger] utf8::decode_utf8(client_files@["known_hosts"@]@).subrange(
                i,
                i + key.len(),
            ) == key),
{
    if client_files@.contains_key("known_hosts"@) {
        let s = utf8::decode_utf8(client_files@["known_hosts"@]@);
        assert(search::contains_part(s, key) <==> exists|i: int|
            0 <= i && i + key.len() <= s.len() && #[trigger] s.subrange(i, i + key.len()) == key)
            by {
            if search::contains_part(s, key) {
                let i = choose|i: int| search::occurs_at(s, key, i);
                assert(s.subrange(i, i + key.len()) == key);
            }
            if exists|i: int|
                0 <= i && i + key.len() <= s.len() && #[trigger] s.subrange(i, i + key.len())
                    == key {
                let i = choose|i: int|
                    0 <= i && i + key.len() <= s.len() && #[trigger] s.subrange(i, i + key.len())
                        == key;
                assert(search::occurs_at(s, key, i));
            }
        }
    }
}

/// Proxies listen where ssh does, and a host without one has an address that is nobody's.
pub proof fn proxies_listen_where_ssh_does()
    ensures
        PROXY_SSH_PORT == 22,
        UNREACHABLE_SENTINEL_IP@ == "192.0.2.1"@,
{
}

/// A Pod is not ready where no condition of its says so.
pub proof fn a_pod_is_not_ready_unless_it_says_so(status: PodStatus)
    ensures
        !pod_ready(None),
        status.conditions is None ==> !pod_ready(Some(status)),
        status.conditions is Some && (forall|i: int|
            0 <= i < status.conditions->0@.len() ==> (#[trigger] status.conditions->0@[i]).type_@
                != "Ready"@ || status.conditions->0@[i].status@ != "True"@) ==> !pod_ready(
            Some(status),
        ),
{
}

/// A policy that divides the wait by anything from one on is one to wait by.
pub proof fn a_wait_is_divided_by_one_at_least(policy: ProxyGracePolicy)
    ensures
        policy.wf() <==> policy.aggressiveness != 0,
{
}

} // verus!
