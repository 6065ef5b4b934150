//! The pods, Secrets, policies and Jobs a run is made of, as plain values.
//!
//! Only what the operator sets or reads is kept; everything else of these objects is left to the
//! cluster's defaults.

use vstd::prelude::*;
use crate::resources::{GenericMap, LabelMap, ObjectMeta, Toleration};

verus! {

/// One file of a Secret volume.
#[derive(Debug, Clone, PartialEq, Eq)]
pub struct KeyToPath {
    pub key: String,
    pub path: String,
}

/// Where a volume's content comes from.
#[derive(Debug, Clone, PartialEq, Eq)]
pub enum VolumeSource {
    Secret { secret_name: String, default_mode: Option<i32>, items: Option<Vec<KeyToPath>> },
    HostPath { type_: String, path: String },
    EmptyDir,
    /// Any other kind a user wrote: the whole volume as JSON text.
    Custom { json: String },
}

/// Where a volume's content comes from, by its texts.
pub ghost enum SourceView {
    Secret {
        secret_name: Seq<char>,
        default_mode: Option<i32>,
        items: Option<Seq<(Seq<char>, Seq<char>)>>,
    },
    HostPath { type_: Seq<char>, path: Seq<char> },
    EmptyDir,
    Custom { json: Seq<char> },
}

/// A volume of a pod.
#[derive(Debug, Clone, PartialEq, Eq)]
pub struct Volume {
    pub name: String,
    pub source: VolumeSource,
}

impl VolumeSource {
    pub open spec fn view(&self) -> SourceView {
        match self {
            VolumeSource::Secret { secret_name, default_mode, items } => SourceView::Secret {
                secret_name: secret_name@,
                default_mode: *default_mode,
                items: match items {
                    Some(items) => Some(items@.map_values(|i: KeyToPath| (i.key@, i.path@))),
                    None => None,
                },
            },
            VolumeSource::HostPath { type_, path } => SourceView::HostPath {
                type_: type_@,
                path: path@,
            },
            VolumeSource::EmptyDir => SourceView::EmptyDir,
            VolumeSource::Custom { json } => SourceView::Custom { json: json@ },
        }
    }
}

impl Volume {
    /// The name and the source.
    pub open spec fn view(&self) -> (Seq<char>, SourceView) {
        (self.name@, self.source@)
    }
}

/// The volumes by their names and sources.
pub open spec fn volume_views(volumes: Seq<Volume>) -> Seq<(Seq<char>, SourceView)> {
    volumes.map_values(|v: Volume| v@)
}

/// Where a container sees a volume.
#[derive(Debug, Clone, PartialEq, Eq)]
pub struct VolumeMount {
    pub name: String,
    pub mount_path: String,
    pub read_only: Option<bool>,
}

impl VolumeMount {
    /// The volume, the path and whether it is read only.
    pub open spec fn view(&self) -> (Seq<char>, Seq<char>, Option<bool>) {
        (self.name@, self.mount_path@, self.read_only)
    }

    /// A copy.
    pub fn copy(&self) -> (res: Self)
        ensures
            res == *self,
    {
        VolumeMount {
            name: self.name.clone(),
            mount_path: self.mount_path.clone(),
            read_only: self.read_only,
        }
    }
}

/// The mounts by their volumes, paths and modes.
pub open spec fn mount_views(mounts: Seq<VolumeMount>) -> Seq<
    (Seq<char>, Seq<char>, Option<bool>),
> {
    mounts.map_values(|m: VolumeMount| m@)
}

/// A copy of a list of mounts.
pub fn copy_mounts(mounts: &[VolumeMount]) -> (res: Vec<VolumeMount>)
    ensures
        res@ == mounts@,
{
    let mut out: Vec<VolumeMount> = Vec::new();
    let mut i: usize = 0;
    while i < mounts.len()
        invariant
            i <= mounts@.len(),
            out@ == mounts@.take(i as int),
        decreases mounts.len() - i,
    {
        out.push(mounts[i].copy());
        i = i + 1;
    }
    assert(out@ =~= mounts@);
    out
}

/// An environment variable of a container.
#[derive(Debug, Clone, PartialEq, Eq)]
pub struct EnvVar {
    pub name: String,
    pub value: String,
}

/// What a container may do on its node.
#[derive(Debug, Clone, PartialEq, Eq)]
pub enum SecurityContext {
    /// Capabilities granted one by one, under an SELinux type.
    Granted { privileged: Option<bool>, add_capabilities: Vec<String>, se_linux_type: String },
    /// What a plan asks for, as JSON text.
    FromPlan(GenericMap),
}

/// A TCP readiness probe.
#[derive(Debug, Clone, Copy, PartialEq, Eq, Structural)]
pub struct TcpProbe {
    pub port: i32,
    pub period_seconds: i32,
}

/// A container of a pod.
#[derive(Debug, Clone, PartialEq, Eq)]
pub struct Container {
    pub name: String,
    pub image: String,
    pub command: Vec<String>,
    pub working_dir: Option<String>,
    pub volume_mounts: Vec<VolumeMount>,
    pub env: Vec<EnvVar>,
    pub security_context: Option<SecurityContext>,
    pub readiness_probe: Option<TcpProbe>,
    pub termination_message_path: Option<String>,
    pub termination_message_policy: Option<String>,
}

/// A scheduling preference: one comparison of a node label with some values.
#[derive(Debug, Clone, PartialEq, Eq)]
pub struct PreferredNodeTerm {
    pub weight: i32,
    pub key: String,
    pub operator: String,
    pub values: Vec<String>,
}

/// What a pod runs and where.
#[derive(Debug, Clone, PartialEq)]
pub struct PodSpec {
    pub containers: Vec<Container>,
    pub init_containers: Vec<Container>,
    pub volumes: Vec<Volume>,
    pub restart_policy: String,
    pub service_account_name: Option<String>,
    pub automount_service_account_token: bool,
    pub host_pid: bool,
    pub host_network: bool,
    pub host_ipc: bool,
    pub node_selector: LabelMap,
    pub tolerations: Vec<Toleration>,
    /// Preferences only: nothing here ever keeps a pod from being scheduled.
    pub preferred_nodes: Vec<PreferredNodeTerm>,
}

/// One condition a pod reports.
#[derive(Debug, Clone, PartialEq, Eq)]
pub struct PodCondition {
    pub type_: String,
    pub status: String,
}

/// How a container of a pod ended, if it has.
#[derive(Debug, Clone, PartialEq, Eq)]
pub struct ContainerStatus {
    pub name: String,
    /// Present once the container has terminated; its message may be absent.
    pub terminated: Option<Option<String>>,
}

/// What a pod reports.
#[derive(Debug, Clone, PartialEq, Eq)]
pub struct PodStatus {
    pub phase: Option<String>,
    pub pod_ip: Option<String>,
    pub conditions: Option<Vec<PodCondition>>,
    pub container_statuses: Option<Vec<ContainerStatus>>,
}

/// A pod as it is created.
#[derive(Debug, Clone, PartialEq)]
pub struct Pod {
    pub metadata: ObjectMeta,
    pub spec: PodSpec,
}

/// A pod as it is read back.
#[derive(Debug, Clone, PartialEq)]
pub struct ObservedPod {
    pub metadata: ObjectMeta,
    pub status: Option<PodStatus>,
}

/// A Secret as it is created.
#[derive(Debug, Clone, PartialEq)]
pub struct Secret {
    pub metadata: ObjectMeta,
    pub string_data: LabelMap,
}

/// Pods of some namespaces.
#[derive(Debug, Clone, PartialEq)]
pub struct NetworkPolicyPeer {
    pub namespace_selector: LabelMap,
    pub pod_selector: LabelMap,
}

/// A port of a policy rule.
#[derive(Debug, Clone, PartialEq, Eq)]
pub struct NetworkPolicyPort {
    pub port: i32,
    pub protocol: String,
}

/// Who may reach a pod.
#[derive(Debug, Clone, PartialEq)]
pub struct IngressRule {
    pub from: Vec<NetworkPolicyPeer>,
    pub ports: Vec<NetworkPolicyPort>,
}

/// What a pod may reach.
#[derive(Debug, Clone, PartialEq)]
pub enum EgressRule {
    /// A rule an administrator configured, as JSON text.
    Configured { json: String },
    Peers { to: Vec<NetworkPolicyPeer>, ports: Vec<NetworkPolicyPort> },
}

/// A network policy. Absent ingress or egress rules are those of a direction it does not govern.
#[derive(Debug, Clone, PartialEq)]
pub struct NetworkPolicy {
    pub metadata: ObjectMeta,
    pub pod_selector: LabelMap,
    pub policy_types: Vec<String>,
    pub ingress: Option<Vec<IngressRule>>,
    pub egress: Option<Vec<EgressRule>>,
}

/// The pods a Job makes.
#[derive(Debug, Clone, PartialEq)]
pub struct PodTemplate {
    pub metadata: ObjectMeta,
    pub spec: PodSpec,
}

/// A Job.
#[derive(Debug, Clone, PartialEq)]
pub struct Job {
    pub metadata: ObjectMeta,
    pub backoff_limit: Option<i32>,
    pub ttl_seconds_after_finished: Option<i32>,
    pub template: PodTemplate,
}

} // verus!
