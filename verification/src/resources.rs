//! The cluster objects the operator reads and writes, as plain values.

use vstd::prelude::*;
use crate::text;
use crate::text::{clone_optional, optional_is};
use crate::textmap::TextMap;

verus! {

/// The longest a label value, and the name of an object that must be a DNS label, may be.
pub const MAX_DNS_LABEL_LEN: usize = 63;

/// The longest a DNS subdomain may be.
pub const MAX_DNS_SUBDOMAIN_LEN: usize = 253;

/// Labels or annotations of an object.
pub type LabelMap = TextMap<String>;

/// Who owns an object.
#[derive(Debug, Clone, PartialEq, Eq)]
pub struct OwnerReference {
    pub api_version: String,
    pub kind: String,
    pub name: String,
    pub uid: String,
    pub controller: Option<bool>,
}

/// What every object carries. Times are whole seconds since the Unix epoch.
#[derive(Debug, Clone, PartialEq)]
pub struct ObjectMeta {
    pub name: Option<String>,
    pub namespace: Option<String>,
    pub uid: Option<String>,
    pub resource_version: Option<String>,
    pub generation: Option<i64>,
    pub creation_timestamp: Option<i64>,
    pub deletion_timestamp: Option<i64>,
    pub labels: LabelMap,
    pub annotations: LabelMap,
    pub owner_references: Vec<OwnerReference>,
}

impl ObjectMeta {
    /// Whether the cluster has not yet stamped the object: it has no UID and no generation, and was
    /// neither created nor deleted.
    pub open spec fn unstamped(&self) -> bool {
        &&& self.uid is None
        &&& self.generation is None
        &&& self.creation_timestamp is None
        &&& self.deletion_timestamp is None
    }

    /// Whether nothing is said of the object at all.
    pub open spec fn blank(&self) -> bool {
        &&& self.unstamped()
        &&& self.resource_version is None
        &&& self.name is None
        &&& self.namespace is None
        &&& self.labels@ == Map::<Seq<char>, String>::empty()
        &&& self.annotations@ == Map::<Seq<char>, String>::empty()
        &&& self.owner_references@ == Seq::<OwnerReference>::empty()
    }
}

impl Default for ObjectMeta {
    fn default() -> (res: Self)
        ensures
            res.blank(),
    {
        ObjectMeta {
            name: None,
            namespace: None,
            uid: None,
            resource_version: None,
            generation: None,
            creation_timestamp: None,
            deletion_timestamp: None,
            labels: TextMap::new(),
            annotations: TextMap::new(),
            owner_references: Vec::new(),
        }
    }
}

/// How one term of a selector compares a label with its values.
#[derive(Debug, Clone, Copy, PartialEq, Eq, Structural)]
pub enum SelectorOperator {
    In,
    NotIn,
    Exists,
    DoesNotExist,
    Gt,
    Ge,
    Lt,
    Le,
}

/// One `matchExpressions` term.
#[derive(Debug, Clone, PartialEq)]
pub struct SelectorExpression {
    pub operator: SelectorOperator,
    pub key: String,
    pub values: Option<Vec<String>>,
}

/// A label selector.
#[derive(Debug, Clone, PartialEq)]
pub struct NodeSelectorTerm {
    pub match_labels: Option<LabelMap>,
    pub match_expressions: Option<Vec<SelectorExpression>>,
}

impl Default for NodeSelectorTerm {
    fn default() -> (res: Self)
        ensures
            res.match_labels is None,
            res.match_expressions is None,
    {
        NodeSelectorTerm { match_labels: None, match_expressions: None }
    }
}

/// One condition a Node reports. `last_heartbeat_time` is in seconds since the Unix epoch.
#[derive(Debug, Clone, PartialEq)]
pub struct NodeCondition {
    pub type_: String,
    pub status: String,
    pub last_heartbeat_time: Option<i64>,
}

/// A cluster Node. `conditions` is absent until the Node has reported a status.
#[derive(Debug, Clone, PartialEq)]
pub struct Node {
    pub metadata: ObjectMeta,
    pub conditions: Option<Vec<NodeCondition>>,
}

impl Default for Node {
    fn default() -> (res: Self)
        ensures
            res.metadata.name is None,
            res.metadata.labels@ == Map::<Seq<char>, String>::empty(),
            res.conditions is None,
    {
        Node { metadata: ObjectMeta::default(), conditions: None }
    }
}

/// The first of the Nodes with a name.
pub open spec fn node_named(nodes: Seq<Node>, name: Seq<char>) -> Option<Node>
    decreases nodes.len(),
{
    if nodes.len() == 0 {
        None
    } else if text::text_of(nodes[0].metadata.name) == Some(name) {
        Some(nodes[0])
    } else {
        node_named(nodes.drop_first(), name)
    }
}

/// The first of the Nodes with a name.
pub fn find_node<'a>(nodes: &'a [Node], name: &str) -> (res: Option<&'a Node>)
    ensures
        match res {
            Some(node) => node_named(nodes@, name@) == Some(*node),
            None => node_named(nodes@, name@) is None,
        },
{
    let mut i: usize = 0;
    assert(nodes@.skip(0) =~= nodes@);
    while i < nodes.len()
        invariant
            i <= nodes@.len(),
            node_named(nodes@, name@) == node_named(nodes@.skip(i as int), name@),
        decreases nodes.len() - i,
    {
        if optional_is(&nodes[i].metadata.name, name) {
            return Some(&nodes[i]);
        }
        assert(nodes@.skip(i as int).drop_first() =~= nodes@.skip(i + 1));
        i = i + 1;
    }
    None
}

/// A taint a pod tolerates.
#[derive(Debug, Clone, PartialEq, Eq)]
pub struct Toleration {
    pub key: Option<String>,
    pub operator: Option<String>,
    pub value: Option<String>,
    pub effect: Option<String>,
    pub toleration_seconds: Option<i64>,
}

impl Default for Toleration {
    fn default() -> (res: Self)
        ensures
            res == (Toleration {
                key: None,
                operator: None,
                value: None,
                effect: None,
                toleration_seconds: None,
            }),
    {
        Toleration { key: None, operator: None, value: None, effect: None, toleration_seconds: None }
    }
}

/// The name of a Secret in the same namespace.
#[derive(Debug, Clone, PartialEq, Eq)]
pub struct SecretRef {
    pub name: String,
}

/// How the hosts of a `StaticInventory` are logged into.
#[derive(Debug, Clone, PartialEq, Eq)]
pub struct SshConfig {
    pub user: String,
    pub secret_ref: SecretRef,
}

/// A free-form value written by a user, as JSON text.
#[derive(Debug, Clone, PartialEq, Eq)]
pub struct GenericMap {
    pub json: String,
}

impl Toleration {
    /// A copy.
    pub fn copy(&self) -> (res: Self)
        ensures
            res == *self,
    {
        Toleration {
            key: clone_optional(&self.key),
            operator: clone_optional(&self.operator),
            value: clone_optional(&self.value),
            effect: clone_optional(&self.effect),
            toleration_seconds: self.toleration_seconds,
        }
    }
}

impl SshConfig {
    /// A copy.
    pub fn copy(&self) -> (res: Self)
        ensures
            res == *self,
    {
        SshConfig {
            user: self.user.clone(),
            secret_ref: SecretRef { name: self.secret_ref.name.clone() },
        }
    }
}

/// A copy of optional group variables.
pub fn copy_variables(variables: &Option<GenericMap>) -> (res: Option<GenericMap>)
    ensures
        res == *variables,
{
    match variables {
        Some(v) => Some(GenericMap { json: v.json.clone() }),
        None => None,
    }
}

/// What an optional list holds.
pub open spec fn listed_tolerations(t: Option<Vec<Toleration>>) -> Option<Seq<Toleration>> {
    match t {
        Some(t) => Some(t@),
        None => None,
    }
}

/// A copy of an optional list of tolerations.
pub fn copy_tolerations(tolerations: &Option<Vec<Toleration>>) -> (res: Option<Vec<Toleration>>)
    ensures
        listed_tolerations(res) == listed_tolerations(*tolerations),
{
    match tolerations {
        Some(list) => {
            let mut out: Vec<Toleration> = Vec::new();
            let mut i: usize = 0;
            while i < list.len()
                invariant
                    i <= list@.len(),
                    out@ == list@.take(i as int),
                decreases list.len() - i,
            {
                out.push(list[i].copy());
                i = i + 1;
            }
            assert(out@ =~= list@);
            Some(out)
        },
        None => None,
    }
}

/// One group of hosts of a `ClusterInventory`: the Nodes its selector matches.
#[derive(Debug, Clone, PartialEq)]
pub struct InventoryHosts {
    pub name: String,
    pub match_labels: Option<NodeSelectorTerm>,
    pub variables: Option<GenericMap>,
}

/// One group of hosts of a `StaticInventory`, written out.
#[derive(Debug, Clone, PartialEq)]
pub struct StaticInventoryHosts {
    pub name: String,
    pub hosts: Vec<String>,
    pub variables: Option<GenericMap>,
}

/// What an author writes in a `StaticInventory`.
#[derive(Debug, Clone, PartialEq)]
pub struct StaticInventorySpec {
    pub hosts: Vec<StaticInventoryHosts>,
    pub ssh: SshConfig,
}

/// Hosts outside the cluster, written out, and how they are logged into.
#[derive(Debug, Clone, PartialEq)]
pub struct StaticInventory {
    pub metadata: ObjectMeta,
    pub spec: StaticInventorySpec,
}

/// The Node of a name is the first that has it, and there is none exactly where none has it.
pub proof fn a_node_is_found_by_its_name(nodes: Seq<Node>, name: Seq<char>)
    ensures
        node_named(nodes, name) matches Some(node) ==> exists|i: int|
            0 <= i < nodes.len() && #[trigger] nodes[i] == node && nodes[i].metadata.name is Some
                && nodes[i].metadata.name->0@ == name && forall|j: int|
                0 <= j < i ==> !((#[trigger] nodes[j]).metadata.name is Some
                    && nodes[j].metadata.name->0@ == name),
        node_named(nodes, name) is None <==> forall|i: int|
            0 <= i < nodes.len() ==> !((#[trigger] nodes[i]).metadata.name is Some
                && nodes[i].metadata.name->0@ == name),
    decreases nodes.len(),
{
    if nodes.len() > 0 {
        let rest = nodes.drop_first();
        a_node_is_found_by_its_name(rest, name);
        if text::text_of(nodes[0].metadata.name) != Some(name) {
            assert forall|j: int| 0 <= j < nodes.len() - 1 implies #[trigger] rest[j] == nodes[j
                + 1] by {}
            if node_named(rest, name) is Some {
                let i = choose|i: int|
                    0 <= i < rest.len() && #[trigger] rest[i] == node_named(rest, name)->0
                        && rest[i].metadata.name is Some && rest[i].metadata.name->0@ == name
                        && forall|j: int|
                        0 <= j < i ==> !((#[trigger] rest[j]).metadata.name is Some
                            && rest[j].metadata.name->0@ == name);
                assert(nodes[i + 1] == node_named(nodes, name)->0);
                assert forall|j: int| 0 <= j < i + 1 implies !((
                #[trigger] nodes[j]).metadata.name is Some && nodes[j].metadata.name->0@
                    == name) by {
                    if j > 0 {
                        assert(rest[j - 1] == nodes[j]);
                    }
                }
            } else {
                assert forall|i: int| 0 <= i < nodes.len() implies !((
                #[trigger] nodes[i]).metadata.name is Some && nodes[i].metadata.name->0@
                    == name) by {
                    if i > 0 {
                        assert(rest[i - 1] == nodes[i]);
                    }
                }
            }
        } else {
            assert(nodes[0] == node_named(nodes, name)->0);
        }
    }
}

/// An object that the cluster has not stamped has nothing that only the cluster gives out, and a blank one has
/// nothing at all.
pub proof fn a_new_object_carries_no_stamp(object: ObjectMeta)
    ensures
        object.unstamped() <==> object.uid is None && object.generation is None
            && object.creation_timestamp is None && object.deletion_timestamp is None,
        object.blank() ==> object.uid is None && object.generation is None && object.creation_timestamp
            is None && object.deletion_timestamp is None && object.resource_version is None
            && object.name is None && object.namespace is None && object.labels@.dom().is_empty()
            && object.annotations@.dom().is_empty() && object.owner_references@.len() == 0,
{
}

} // verus!
