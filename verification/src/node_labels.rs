//! Publishing what a plan provides onto the Nodes it converged, so other plans can depend on it.
//!
//! The labels are derived from recorded state, and only a real change is written: a converged plan
//! writes nothing at all.

use vstd::prelude::*;
use crate::ansible_inventory;
use crate::ansible_inventory::{managed_ssh_node_names, ResolvedInventoryGroup};
use crate::dependency_keys;
use crate::dependency_keys::{decode_key, is_operator_key};
use crate::json;
use crate::json::member;
use crate::node_recreation;
use crate::node_recreation::node_replaced_since;
use crate::pairs;
use crate::pairs::insert_pair;
use crate::plans::{HostStatus, PlaybookPlan, PlaybookPlanStatus};
use crate::resources;
use crate::resources::{find_node, Node};
use crate::seqs;
use crate::text;
use crate::text::{concat3, insert_sorted, optional_is, text_eq};
use crate::textmap;
use crate::textmap::TextMap;

verus! {

/// A Node label the operator owns whose plan no longer exists.
#[derive(Debug, Clone, PartialEq, Eq, PartialOrd, Ord)]
pub struct Orphan {
    pub node: String,
    pub key: String,
}

/// How far a plan's key has got.
#[derive(Debug, Clone, Copy, PartialEq, Eq)]
pub struct LabelReach {
    /// Nodes carrying the key at exactly the declared version.
    pub at_version: usize,
    /// Nodes carrying the key at any version.
    pub carrying: usize,
}

/// One Node whose label has to change, and what it has to become.
#[derive(Debug, Clone, PartialEq, Eq, PartialOrd, Ord)]
pub struct LabelWrite {
    pub node: String,
    pub value: String,
}

/// What has to become of a plan's label.
#[derive(Debug, Clone, PartialEq, Eq)]
pub enum LabelChange {
    /// The plan provides nothing: its label leaves every Node that carries it.
    Withdraw { nodes: Vec<String> },
    /// The plan provides a version: its label is set on these Nodes.
    Publish { writes: Vec<LabelWrite> },
}

/// What became of a pass of label patches.
#[derive(Debug, Clone, Copy, PartialEq, Eq)]
pub struct LabelWrites {
    /// Patches the API server accepted.
    pub published: usize,
    /// Patches that failed for a reason another try could plausibly clear.
    pub retryable: usize,
}

impl Default for LabelWrites {
    fn default() -> (res: Self)
        ensures
            res.published == 0,
            res.retryable == 0,
    {
        LabelWrites { published: 0, retryable: 0 }
    }
}

/// Whether a plan of this name in this namespace exists.
pub open spec fn plan_exists(plans: Seq<PlaybookPlan>, namespace: Seq<char>, name: Seq<char>) -> bool {
    exists|i: int|
        0 <= i < plans.len() && text::text_of((#[trigger] plans[i]).metadata.namespace) == Some(
            namespace,
        ) && text::text_of(plans[i].metadata.name) == Some(name)
}

/// Whether a key is one the operator owns whose plan is gone. A key that names no plan at all has
/// none.
pub open spec fn is_orphaned(key: Seq<char>, plans: Seq<PlaybookPlan>) -> bool {
    &&& dependency_keys::operator_key(key)
    &&& dependency_keys::decoded(key) matches Some((namespace, plan)) ==> !plan_exists(
        plans,
        namespace,
        plan,
    )
}

/// Whether a Node of this name carries the key.
pub open spec fn some_node_carries(nodes: Seq<Node>, name: Seq<char>, key: Seq<char>) -> bool {
    exists|i: int|
        0 <= i < nodes.len() && text::text_of((#[trigger] nodes[i]).metadata.name) == Some(name)
            && nodes[i].metadata.labels@.dom().contains(key)
}

/// An orphan as the model reads it.
pub open spec fn orphan_texts(orphans: Seq<Orphan>) -> Seq<(Seq<char>, Seq<char>)> {
    orphans.map_values(|o: Orphan| (o.node@, o.key@))
}

fn find_plan(plans: &[PlaybookPlan], namespace: &str, name: &str) -> (res: bool)
    ensures
        res == plan_exists(plans@, namespace@, name@),
{
    let mut i: usize = 0;
    while i < plans.len()
        invariant
            i <= plans@.len(),
            forall|j: int|
                0 <= j < i ==> !(text::text_of((#[trigger] plans@[j]).metadata.namespace) == Some(
                    namespace@,
                ) && text::text_of(plans@[j].metadata.name) == Some(name@)),
        decreases plans.len() - i,
    {
        if optional_is(&plans[i].metadata.namespace, namespace) && optional_is(
            &plans[i].metadata.name,
            name,
        ) {
            return true;
        }
        i = i + 1;
    }
    false
}

fn key_is_orphaned(key: &str, plans: &[PlaybookPlan]) -> (res: bool)
    ensures
        res == is_orphaned(key@, plans@),
{
    if !is_operator_key(key) {
        return false;
    }
    match decode_key(key) {
        Some((namespace, plan)) => !find_plan(plans, namespace, plan),
        None => true,
    }
}

/// The members of `out` after the labels of a Node named `name` are added.
fn add_orphans(
    out: &mut Vec<(String, String)>,
    name: &str,
    labels: &TextMap<String>,
    plans: &[PlaybookPlan],
)
    requires
        pairs::pairs_sorted(pairs::pair_texts(old(out)@)),
    ensures
        pairs::pairs_sorted(pairs::pair_texts(final(out)@)),
        forall|k: (Seq<char>, Seq<char>)| #[trigger]
            pairs::pair_texts(final(out)@).contains(k) <==> pairs::pair_texts(old(out)@).contains(k)
                || (k.0 == name@ && labels@.dom().contains(k.1) && is_orphaned(k.1, plans@)),
{
    let n = labels.len();
    let ghost entries = labels.pairs();
    let ghost keys = textmap::pair_keys(entries);
    let ghost start = pairs::pair_texts(out@);
    let mut i: usize = 0;
    while i < n
        invariant
            n == entries.len(),
            entries == labels.pairs(),
            keys == textmap::pair_keys(entries),
            start == pairs::pair_texts(old(out)@),
            i <= n,
            pairs::pairs_sorted(pairs::pair_texts(out@)),
            forall|k: (Seq<char>, Seq<char>)| #[trigger]
                pairs::pair_texts(out@).contains(k) <==> start.contains(k) || (k.0 == name@
                    && keys.take(i as int).contains(k.1) && is_orphaned(k.1, plans@)),
        decreases n - i,
    {
        let (key, _value) = labels.entry(i);
        assert(keys[i as int] == key@);
        let ghost before = pairs::pair_texts(out@);
        let orphaned = key_is_orphaned(key, plans);
        if orphaned {
            insert_pair(out, (name.to_owned(), key.to_owned()));
        }
        proof {
            assert forall|k: (Seq<char>, Seq<char>)| #[trigger]
                pairs::pair_texts(out@).contains(k) <==> start.contains(k) || (k.0 == name@
                    && keys.take(i + 1).contains(k.1) && is_orphaned(k.1, plans@)) by {
                text::lemma_take_contains(keys, i as int, k.1);
                assert(before.contains(k) <==> start.contains(k) || (k.0 == name@ && keys.take(
                    i as int,
                ).contains(k.1) && is_orphaned(k.1, plans@)));
            }
        }
        i = i + 1;
    }
    proof {
        assert(keys.take(i as int) =~= keys);
        assert forall|key: Seq<char>| keys.contains(key) <==> labels@.dom().contains(key) by {
            if keys.contains(key) {
                let j = choose|j: int| 0 <= j < keys.len() && keys[j] == key;
                assert(entries[j].0 == key);
            }
            if textmap::has_key(entries, key) {
                let j = textmap::key_index(entries, key);
                assert(keys[j] == key);
            }
        }
        assert forall|k: (Seq<char>, Seq<char>)| #[trigger]
            pairs::pair_texts(out@).contains(k) <==> start.contains(k) || (k.0 == name@
                && labels@.dom().contains(k.1) && is_orphaned(k.1, plans@)) by {
            assert(keys.contains(k.1) <==> labels@.dom().contains(k.1));
        }
    }
}

/// Every operator-owned label in the cluster whose plan is gone, sorted by Node and key.
///
/// `plans` must be complete: every judgement here is "no such plan".
pub fn orphaned_labels(nodes: &[Node], plans: &[PlaybookPlan]) -> (res: Vec<Orphan>)
    ensures
        pairs::pairs_sorted(orphan_texts(res@)),
        forall|name: Seq<char>, key: Seq<char>|
            #![trigger orphan_texts(res@).contains((name, key))]
            orphan_texts(res@).contains((name, key)) <==> some_node_carries(nodes@, name, key)
                && is_orphaned(key, plans@),
{
    let mut found: Vec<(String, String)> = Vec::new();
    let mut i: usize = 0;
    assert(!some_node_carries(nodes@.take(0), Seq::empty(), Seq::empty()));
    while i < nodes.len()
        invariant
            i <= nodes@.len(),
            pairs::pairs_sorted(pairs::pair_texts(found@)),
            forall|k: (Seq<char>, Seq<char>)| #[trigger]
                pairs::pair_texts(found@).contains(k) <==> some_node_carries(
                    nodes@.take(i as int),
                    k.0,
                    k.1,
                ) && is_orphaned(k.1, plans@),
        decreases nodes.len() - i,
    {
        let ghost before = pairs::pair_texts(found@);
        if let Some(name) = &nodes[i].metadata.name {
            add_orphans(&mut found, name.as_str(), &nodes[i].metadata.labels, plans);
        }
        proof {
            assert forall|k: (Seq<char>, Seq<char>)| #[trigger]
                pairs::pair_texts(found@).contains(k) <==> some_node_carries(
                    nodes@.take(i + 1),
                    k.0,
                    k.1,
                ) && is_orphaned(k.1, plans@) by {
                lemma_carries_take(nodes@, i as int, k.0, k.1);
                assert(before.contains(k) <==> some_node_carries(nodes@.take(i as int), k.0, k.1)
                    && is_orphaned(k.1, plans@));
            }
        }
        i = i + 1;
    }
    assert(nodes@.take(i as int) =~= nodes@);
    let mut orphans: Vec<Orphan> = Vec::new();
    let mut j: usize = 0;
    while j < found.len()
        invariant
            j <= found@.len(),
            orphan_texts(orphans@) == pairs::pair_texts(found@).take(j as int),
        decreases found.len() - j,
    {
        let ghost before = orphan_texts(orphans@);
        orphans.push(Orphan { node: found[j].0.clone(), key: found[j].1.clone() });
        assert(orphan_texts(orphans@) =~= before.push(pairs::pair_texts(found@)[j as int]));
        assert(pairs::pair_texts(found@).take(j + 1) =~= pairs::pair_texts(found@).take(
            j as int,
        ).push(pairs::pair_texts(found@)[j as int]));
        j = j + 1;
    }
    assert(orphan_texts(orphans@) =~= pairs::pair_texts(found@));
    orphans
}

proof fn lemma_carries_take(nodes: Seq<Node>, i: int, name: Seq<char>, key: Seq<char>)
    requires
        0 <= i < nodes.len(),
    ensures
        some_node_carries(nodes.take(i + 1), name, key) <==> some_node_carries(
            nodes.take(i),
            name,
            key,
        ) || (text::text_of(nodes[i].metadata.name) == Some(name)
            && nodes[i].metadata.labels@.dom().contains(key)),
{
    let shorter = nodes.take(i);
    let longer = nodes.take(i + 1);
    if some_node_carries(shorter, name, key) {
        let j = choose|j: int|
            0 <= j < shorter.len() && text::text_of((#[trigger] shorter[j]).metadata.name) == Some(
                name,
            ) && shorter[j].metadata.labels@.dom().contains(key);
        assert(longer[j] == shorter[j]);
    }
    if text::text_of(nodes[i].metadata.name) == Some(name)
        && nodes[i].metadata.labels@.dom().contains(key) {
        assert(longer[i] == nodes[i]);
    }
    if some_node_carries(longer, name, key) {
        let j = choose|j: int|
            0 <= j < longer.len() && text::text_of((#[trigger] longer[j]).metadata.name) == Some(
                name,
            ) && longer[j].metadata.labels@.dom().contains(key);
        if j < i {
            assert(shorter[j] == longer[j]);
        }
    }
}

/// The names of the Nodes that carry `key`, whatever its value, sorted, each once.
pub fn nodes_carrying(key: &str, nodes: &[Node]) -> (res: Vec<String>)
    ensures
        text::sorted(text::texts(res@)),
        forall|name: Seq<char>| #[trigger]
            text::texts(res@).contains(name) <==> some_node_carries(nodes@, name, key@),
{
    let mut out: Vec<String> = Vec::new();
    let mut i: usize = 0;
    while i < nodes.len()
        invariant
            i <= nodes@.len(),
            text::sorted(text::texts(out@)),
            forall|name: Seq<char>| #[trigger]
                text::texts(out@).contains(name) <==> some_node_carries(
                    nodes@.take(i as int),
                    name,
                    key@,
                ),
        decreases nodes.len() - i,
    {
        let ghost before = text::texts(out@);
        if let Some(name) = &nodes[i].metadata.name {
            if nodes[i].metadata.labels.contains_key(key) {
                insert_sorted(&mut out, name.clone());
            }
        }
        proof {
            assert forall|name: Seq<char>| #[trigger]
                text::texts(out@).contains(name) <==> some_node_carries(
                    nodes@.take(i + 1),
                    name,
                    key@,
                ) by {
                lemma_carries_take(nodes@, i as int, name, key@);
                assert(before.contains(name) <==> some_node_carries(
                    nodes@.take(i as int),
                    name,
                    key@,
                ));
            }
        }
        i = i + 1;
    }
    assert(nodes@.take(i as int) =~= nodes@);
    out
}

/// The Nodes carrying a key.
pub open spec fn carries(key: Seq<char>) -> spec_fn(Node) -> bool {
    |node: Node| node.metadata.labels@.dom().contains(key)
}

/// The Nodes carrying a key at a version.
pub open spec fn carries_version(key: Seq<char>, version: Seq<char>) -> spec_fn(Node) -> bool {
    |node: Node|
        node.metadata.labels@.dom().contains(key) && node.metadata.labels@[key]@ == version
}

/// Counts the Nodes carrying `key`, and those carrying it at exactly `version`.
pub fn label_reach(key: &str, version: &str, nodes: &[Node]) -> (res: LabelReach)
    ensures
        res.carrying == nodes@.filter(carries(key@)).len(),
        res.at_version == nodes@.filter(carries_version(key@, version@)).len(),
{
    let ghost p = carries(key@);
    let ghost q = carries_version(key@, version@);
    let mut reach = LabelReach { at_version: 0, carrying: 0 };
    let mut i: usize = 0;
    proof {
        seqs::lemma_filter_none(nodes@, p);
        seqs::lemma_filter_none(nodes@, q);
    }
    while i < nodes.len()
        invariant
            p == carries(key@),
            q == carries_version(key@, version@),
            i <= nodes@.len(),
            reach.carrying == nodes@.take(i as int).filter(p).len(),
            reach.at_version == nodes@.take(i as int).filter(q).len(),
            reach.carrying <= i,
            reach.at_version <= i,
        decreases nodes.len() - i,
    {
        proof {
            seqs::lemma_filter_take(nodes@, i as int, p);
            seqs::lemma_filter_take(nodes@, i as int, q);
        }
        if let Some(value) = nodes[i].metadata.labels.get(key) {
            reach.carrying = reach.carrying + 1;
            if text_eq(value.as_str(), version) {
                reach.at_version = reach.at_version + 1;
            }
        }
        i = i + 1;
    }
    proof {
        seqs::lemma_take_all(nodes@);
    }
    reach
}

/// The value a host's Node must be labelled with, where its label has to change: the version the
/// host applied, where the claim can be dated, the Node is in the cache, is still that machine, and
/// does not carry the value already.
pub open spec fn label_due(
    key: Seq<char>,
    host: Seq<char>,
    records: Map<Seq<char>, HostStatus>,
    nodes: Seq<Node>,
) -> Option<Seq<char>> {
    if !records.dom().contains(host) {
        None
    } else {
        match (
            records[host].applied_version,
            records[host].applied_at,
            resources::node_named(nodes, host),
        ) {
            (Some(version), Some(at), Some(node)) => if node_recreation::replaced_since(
                Some(at),
                node,
            ) || carries_version(key, version@)(node) {
                None
            } else {
                Some(version@)
            },
            _ => None,
        }
    }
}

fn due(key: &str, host: &str, records: &TextMap<HostStatus>, nodes: &[Node]) -> (res: Option<String>)
    ensures
        text::text_of(res) == label_due(key@, host@, records@, nodes@),
{
    match records.get(host) {
        Some(record) => match (&record.applied_version, record.applied_at, find_node(nodes, host)) {
            (Some(version), Some(at), Some(node)) => {
                if node_replaced_since(Some(at), node) {
                    return None;
                }
                match node.metadata.labels.get(key) {
                    Some(current) => if text_eq(current.as_str(), version.as_str()) {
                        None
                    } else {
                        Some(version.clone())
                    },
                    None => Some(version.clone()),
                }
            },
            _ => None,
        },
        None => None,
    }
}

/// A write as the model reads it.
pub open spec fn write_texts(writes: Seq<LabelWrite>) -> Seq<(Seq<char>, Seq<char>)> {
    writes.map_values(|w: LabelWrite| (w.node@, w.value@))
}

/// The writes that are due: each managed-ssh host with the value it must be labelled with.
pub open spec fn write_due(
    key: Seq<char>,
    groups: Seq<ResolvedInventoryGroup>,
    records: Map<Seq<char>, HostStatus>,
    nodes: Seq<Node>,
    host: Seq<char>,
    value: Seq<char>,
) -> bool {
    ansible_inventory::managed_hosts(groups).contains(host) && label_due(key, host, records, nodes)
        == Some(value)
}

/// The Nodes whose label for this plan is missing or out of date, and the value each needs, sorted,
/// each once.
///
/// The hosts come from the plan's resolved managed-ssh groups. Only ever adds and updates.
pub fn desired_labels(
    key: &str,
    groups: &[ResolvedInventoryGroup],
    status: &PlaybookPlanStatus,
    nodes: &[Node],
) -> (res: Vec<LabelWrite>)
    ensures
        pairs::pairs_sorted(write_texts(res@)),
        status.hosts_status is None ==> res@.len() == 0,
        status.hosts_status matches Some(records) ==> forall|host: Seq<char>, value: Seq<char>|
            #![trigger write_texts(res@).contains((host, value))]
            write_texts(res@).contains((host, value)) <==> write_due(
                key@,
                groups@,
                records@,
                nodes@,
                host,
                value,
            ),
{
    let records = match &status.hosts_status {
        Some(records) => records,
        None => {
            return Vec::new();
        },
    };
    let hosts = managed_ssh_node_names(groups);
    let ghost all = text::texts(hosts@);
    let mut found: Vec<(String, String)> = Vec::new();
    let mut i: usize = 0;
    while i < hosts.len()
        invariant
            all == text::texts(hosts@),
            i <= hosts@.len(),
            pairs::pairs_sorted(pairs::pair_texts(found@)),
            forall|k: (Seq<char>, Seq<char>)| #[trigger]
                pairs::pair_texts(found@).contains(k) <==> all.take(i as int).contains(k.0)
                    && label_due(key@, k.0, records@, nodes@) == Some(k.1),
        decreases hosts.len() - i,
    {
        let ghost before = pairs::pair_texts(found@);
        let host = &hosts[i];
        assert(all[i as int] == host@);
        if let Some(value) = due(key, host.as_str(), records, nodes) {
            insert_pair(&mut found, (host.clone(), value));
        }
        proof {
            assert forall|k: (Seq<char>, Seq<char>)| #[trigger]
                pairs::pair_texts(found@).contains(k) <==> all.take(i + 1).contains(k.0)
                    && label_due(key@, k.0, records@, nodes@) == Some(k.1) by {
                text::lemma_take_contains(all, i as int, k.0);
                assert(before.contains(k) <==> all.take(i as int).contains(k.0) && label_due(
                    key@,
                    k.0,
                    records@,
                    nodes@,
                ) == Some(k.1));
            }
        }
        i = i + 1;
    }
    assert(all.take(i as int) =~= all);
    let mut writes: Vec<LabelWrite> = Vec::new();
    let mut j: usize = 0;
    while j < found.len()
        invariant
            j <= found@.len(),
            write_texts(writes@) == pairs::pair_texts(found@).take(j as int),
        decreases found.len() - j,
    {
        let ghost before = write_texts(writes@);
        writes.push(LabelWrite { node: found[j].0.clone(), value: found[j].1.clone() });
        assert(write_texts(writes@) =~= before.push(pairs::pair_texts(found@)[j as int]));
        assert(pairs::pair_texts(found@).take(j + 1) =~= pairs::pair_texts(found@).take(
            j as int,
        ).push(pairs::pair_texts(found@)[j as int]));
        j = j + 1;
    }
    assert(write_texts(writes@) =~= pairs::pair_texts(found@));
    writes
}

/// What has to become of the label of a plan that provides `version`, if it provides any.
pub fn label_change(
    version: &Option<String>,
    key: &str,
    groups: &[ResolvedInventoryGroup],
    status: &PlaybookPlanStatus,
    nodes: &[Node],
) -> (res: LabelChange)
    ensures
        match res {
            LabelChange::Withdraw { nodes: carrying } => {
                &&& *version is None
                &&& text::sorted(text::texts(carrying@))
                &&& forall|name: Seq<char>| #[trigger]
                    text::texts(carrying@).contains(name) <==> some_node_carries(nodes@, name, key@)
            },
            LabelChange::Publish { writes } => {
                &&& *version is Some
                &&& pairs::pairs_sorted(write_texts(writes@))
                &&& status.hosts_status is None ==> writes@.len() == 0
                &&& status.hosts_status matches Some(records) ==> forall|
                    host: Seq<char>,
                    value: Seq<char>,
                |
                    #![trigger write_texts(writes@).contains((host, value))]
                    write_texts(writes@).contains((host, value)) <==> write_due(
                        key@,
                        groups@,
                        records@,
                        nodes@,
                        host,
                        value,
                    )
            },
        },
{
    match version {
        Some(_) => LabelChange::Publish { writes: desired_labels(key, groups, status, nodes) },
        None => LabelChange::Withdraw { nodes: nodes_carrying(key, nodes) },
    }
}

/// Once a host's Node carries the value that was due, nothing is due for it any more: a converged
/// plan is silent.
pub proof fn a_written_label_is_not_due_again(
    key: Seq<char>,
    host: Seq<char>,
    records: Map<Seq<char>, HostStatus>,
    before: Seq<Node>,
    after: Seq<Node>,
    value: Seq<char>,
)
    requires
        label_due(key, host, records, before) == Some(value),
        resources::node_named(after, host) matches Some(node) && carries_version(key, value)(node),
    ensures
        label_due(key, host, records, after) is None,
{
}

/// A claim that cannot be dated, or that was made about another machine, is never published.
pub proof fn a_doubtful_claim_is_not_published(
    key: Seq<char>,
    host: Seq<char>,
    records: Map<Seq<char>, HostStatus>,
    nodes: Seq<Node>,
)
    requires
        records.dom().contains(host) ==> records[host].applied_at is None || (resources::node_named(
            nodes,
            host,
        ) matches Some(node) ==> node_recreation::replaced_since(records[host].applied_at, node)),
    ensures
        label_due(key, host, records, nodes) is None,
{
}

/// Whether a refused label patch is worth coming back for soon: a conflict, a throttle, a server
/// fault, or no verdict of the API server at all. `code` is the status of a refusal.
pub open spec fn worth_another_try(code: Option<u16>) -> bool {
    code matches Some(code) ==> code == 409 || code == 429 || code >= 500
}

/// Whether a refused label patch is worth coming back for soon. `code` is the status of a refusal.
pub fn worth_retrying_soon(code: Option<u16>) -> (res: bool)
    ensures
        res == worth_another_try(code),
{
    match code {
        Some(code) => code == 409 || code == 429 || code >= 500,
        None => true,
    }
}

/// What became of one label patch.
#[derive(Debug, Clone, Copy, PartialEq, Eq, Structural)]
pub enum PatchOutcome {
    Accepted,
    /// Refused by the API server with a status.
    Refused(u16),
    /// Not answered by the API server at all.
    Failed,
}

/// How many patches an outcome says were accepted.
pub open spec fn accepted(outcome: PatchOutcome) -> int {
    if outcome == PatchOutcome::Accepted {
        1
    } else {
        0
    }
}

/// How many patches an outcome leaves to be tried again soon.
pub open spec fn left_for_later(outcome: PatchOutcome) -> int {
    if outcome == PatchOutcome::Failed || (outcome matches PatchOutcome::Refused(code) && (code == 409
        || code == 429 || code >= 500)) {
        1
    } else {
        0
    }
}

impl LabelWrites {
    /// Counts what became of one more patch.
    pub fn note(&mut self, outcome: PatchOutcome)
        requires
            old(self).published < usize::MAX,
            old(self).retryable < usize::MAX,
        ensures
            final(self).published == old(self).published + accepted(outcome),
            final(self).retryable == old(self).retryable + left_for_later(outcome),
    {
        match outcome {
            PatchOutcome::Accepted => {
                self.published = self.published + 1;
            },
            PatchOutcome::Refused(code) => {
                if worth_retrying_soon(Some(code)) {
                    self.retryable = self.retryable + 1;
                }
            },
            PatchOutcome::Failed => {
                self.retryable = self.retryable + 1;
            },
        }
    }
}

/// The merge patch that sets a Node label, or removes it where there is no value, as JSON text.
pub fn label_patch(key: &str, value: Option<&str>) -> (res: String)
    ensures
        res@ == "{\"metadata\":{\"labels\":{"@ + json::json_member(key@, text::str_of(value))
            + "}}}"@,
{
    let entry = member(key, value);
    concat3("{\"metadata\":{\"labels\":{", entry.as_str(), "}}}")
}

/// A plan's label is left over exactly where no plan of that name is in that Namespace, a label of the
/// operator's own that names no plan is left over, and a label of anyone else's never is.
pub proof fn a_label_is_left_over_once_its_plan_is_gone(
    namespace: Seq<char>,
    plan: Seq<char>,
    key: Seq<char>,
    plans: Seq<PlaybookPlan>,
)
    ensures
        namespace.len() > 0 && plan.len() > 0 && !namespace.contains('/') ==> (is_orphaned(
            dependency_keys::key_of(namespace, plan),
            plans,
        ) <==> forall|i: int|
            0 <= i < plans.len() ==> !(text::text_of((#[trigger] plans[i]).metadata.namespace)
                == Some(namespace) && text::text_of(plans[i].metadata.name) == Some(plan))),
        dependency_keys::operator_key(key) && dependency_keys::decoded(key) is None ==> is_orphaned(
            key,
            plans,
        ),
        !dependency_keys::operator_key(key) ==> !is_orphaned(key, plans),
{
    if namespace.len() > 0 && plan.len() > 0 && !namespace.contains('/') {
        dependency_keys::key_decodes_to_its_plan(namespace, plan);
        dependency_keys::published_key_is_operator_key(namespace, plan);
    }
}

/// A recorded version is due on the Node it was applied to, until the Node carries it.
pub proof fn a_recorded_version_is_due(
    key: Seq<char>,
    host: Seq<char>,
    records: Map<Seq<char>, HostStatus>,
    nodes: Seq<Node>,
    node: Node,
    version: String,
    at: crate::plans::Timestamp,
)
    requires
        records.contains_key(host),
        records[host].applied_version == Some(version),
        records[host].applied_at == Some(at),
        resources::node_named(nodes, host) == Some(node),
        node.metadata.creation_timestamp is None || node.metadata.creation_timestamp->0 <= at.seconds,
    ensures
        !node.metadata.labels@.contains_key(key) ==> label_due(key, host, records, nodes) == Some(
            version@,
        ),
        node.metadata.labels@.contains_key(key) && node.metadata.labels@[key]@ != version@
            ==> label_due(key, host, records, nodes) == Some(version@),
        node.metadata.labels@.contains_key(key) && node.metadata.labels@[key]@ == version@
            ==> label_due(key, host, records, nodes) is None,
{
}

/// Every managed host that a version is due on gets a write, and nothing else does.
pub proof fn a_due_label_is_written(
    key: Seq<char>,
    groups: Seq<ResolvedInventoryGroup>,
    records: Map<Seq<char>, HostStatus>,
    nodes: Seq<Node>,
    host: Seq<char>,
    value: Seq<char>,
    g: int,
    h: int,
)
    requires
        0 <= g < groups.len(),
        groups[g] is ManagedSsh,
        0 <= h < groups[g].names().len(),
        groups[g].names()[h] == host,
        label_due(key, host, records, nodes) == Some(value),
    ensures
        write_due(key, groups, records, nodes, host, value),
{
    assert(groups[g]->ManagedSsh_hosts.hosts@[h]@ == host);
    ansible_inventory::nodes_are_reached_by_their_groups(groups, host);
}

/// A Node carries a label exactly where it has one of that key, and each Node counts once.
pub proof fn a_node_counts_once_for_a_label(
    nodes: Seq<Node>,
    node: Node,
    key: Seq<char>,
    version: Seq<char>,
)
    ensures
        node.metadata.name matches Some(name) && node.metadata.labels@.contains_key(key)
            ==> some_node_carries(nodes.push(node), node.metadata.name->0@, key),
        nodes.push(node).filter(carries(key)).len() == nodes.filter(carries(key)).len()
            + if node.metadata.labels@.contains_key(key) {
            1int
        } else {
            0
        },
        nodes.push(node).filter(carries_version(key, version)).len() == nodes.filter(
            carries_version(key, version),
        ).len() + if node.metadata.labels@.contains_key(key) && node.metadata.labels@[key]@ == version {
            1int
        } else {
            0
        },
{
    reveal(Seq::filter);
    let all = nodes.push(node);
    assert(all.drop_last() =~= nodes);
    assert(all[nodes.len() as int] == node);
}

/// A patch is tried again soon where nobody answered it, where it ran into another or into a limit, and where the
/// server failed; any other refusal stands.
pub proof fn a_patch_is_tried_again_where_that_helps(code: u16)
    ensures
        worth_another_try(None),
        worth_another_try(Some(409)),
        worth_another_try(Some(429)),
        code >= 500 ==> worth_another_try(Some(code)),
        code < 500 && code != 409 && code != 429 ==> !worth_another_try(Some(code)),
        accepted(PatchOutcome::Accepted) == 1 && left_for_later(PatchOutcome::Accepted) == 0,
        accepted(PatchOutcome::Failed) == 0 && left_for_later(PatchOutcome::Failed) == 1,
        accepted(PatchOutcome::Refused(code)) == 0,
        left_for_later(PatchOutcome::Refused(code)) == if worth_another_try(Some(code)) {
            1int
        } else {
            0
        },
{
}

/// No label is written onto a host that is not managed, nor one that is not due.
pub proof fn only_a_due_label_is_written(
    key: Seq<char>,
    groups: Seq<ResolvedInventoryGroup>,
    records: Map<Seq<char>, HostStatus>,
    nodes: Seq<Node>,
    host: Seq<char>,
    value: Seq<char>,
)
    requires
        write_due(key, groups, records, nodes, host, value),
    ensures
        exists|g: int, h: int|
            0 <= g < groups.len() && groups[g] is ManagedSsh && 0 <= h
                < groups[g]->ManagedSsh_hosts.hosts@.len() && (
            #[trigger] groups[g]->ManagedSsh_hosts.hosts@[h])@ == host,
        records.contains_key(host) && records[host].applied_version is Some
            && records[host].applied_version->0@ == value && records[host].applied_at is Some,
{
    ansible_inventory::nodes_are_reached_by_their_groups(groups, host);
}

} // verus!
