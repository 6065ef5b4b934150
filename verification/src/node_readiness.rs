//! Whether the cluster Nodes a run would target are in a state to be reached at all.

use vstd::prelude::*;
use crate::ansible_inventory;
use crate::ansible_inventory::{managed_ssh_node_names, ResolvedInventoryGroup};
use crate::plans::ExecutionMode;
use crate::resources;
use crate::resources::{find_node, Node, NodeCondition};
use crate::text;
use crate::text::{contains_text, insert_sorted, text_eq};

verus! {

/// Whether a condition says that its Node is ready.
pub open spec fn says_ready(condition: NodeCondition) -> bool {
    condition.type_@ == "Ready"@ && condition.status@ == "True"@
}

/// Whether a Node reports `Ready=True`. A Node that has reported no conditions is not ready.
pub open spec fn ready(node: Node) -> bool {
    node.conditions matches Some(conditions) && exists|i: int|
        0 <= i < conditions@.len() && says_ready(#[trigger] conditions@[i])
}

/// Whether a Node reports `Ready=True`.
pub fn is_ready(node: &Node) -> (res: bool)
    ensures
        res == ready(*node),
{
    if let Some(conditions) = &node.conditions {
        let mut i: usize = 0;
        while i < conditions.len()
            invariant
                node.conditions == Some(*conditions),
                i <= conditions@.len(),
                forall|j: int| 0 <= j < i ==> !says_ready(#[trigger] conditions@[j]),
            decreases conditions.len() - i,
        {
            if text_eq(conditions[i].type_.as_str(), "Ready") && text_eq(
                conditions[i].status.as_str(),
                "True",
            ) {
                assert(says_ready(node.conditions->Some_0@[i as int]));
                return true;
            }
            i = i + 1;
        }
    }
    false
}

/// Whether a host is a Node that is known not to be ready. A Node the cache does not hold is not.
pub open spec fn known_unready(nodes: Seq<Node>, host: Seq<char>) -> bool {
    resources::node_named(nodes, host) matches Some(node) && !ready(node)
}

/// The managed-ssh nodes among `groups` that are currently known to be not ready, sorted, each
/// once. Hosts of other groups are not Nodes and never appear.
pub fn unready_nodes(nodes: &[Node], groups: &[ResolvedInventoryGroup]) -> (res: Vec<String>)
    ensures
        text::sorted(text::texts(res@)),
        forall|k: Seq<char>|
            #[trigger] text::texts(res@).contains(k) <==> ansible_inventory::managed_hosts(groups@).contains(k)
                && known_unready(nodes@, k),
{
    let hosts = managed_ssh_node_names(groups);
    let ghost all = text::texts(hosts@);
    let mut out: Vec<String> = Vec::new();
    let mut i: usize = 0;
    while i < hosts.len()
        invariant
            all == text::texts(hosts@),
            i <= hosts@.len(),
            text::sorted(text::texts(out@)),
            forall|k: Seq<char>|
                #[trigger] text::texts(out@).contains(k) <==> all.take(i as int).contains(k) && known_unready(
                    nodes@,
                    k,
                ),
        decreases hosts.len() - i,
    {
        let host = hosts[i].clone();
        assert(host@ == all[i as int]);
        let unready = match find_node(nodes, host.as_str()) {
            Some(node) => !is_ready(node),
            None => false,
        };
        let ghost before = text::texts(out@);
        if unready {
            insert_sorted(&mut out, host);
        }
        proof {
            assert forall|k: Seq<char>|
                #[trigger] text::texts(out@).contains(k) <==> all.take(i + 1).contains(k) && known_unready(
                    nodes@,
                    k,
                ) by {
                text::lemma_take_contains(all, i as int, k);
                assert(before.contains(k) <==> all.take(i as int).contains(k) && known_unready(
                    nodes@,
                    k,
                ));
            }
        }
        i = i + 1;
    }
    assert(all.take(i as int) =~= all);
    out
}

/// Whether every host of the groups is a managed-ssh Node among `unready`. A host of another group is an
/// external machine, whatever Node has its name.
pub open spec fn all_unready(groups: Seq<ResolvedInventoryGroup>, unready: Seq<Seq<char>>) -> bool {
    &&& forall|g: int|
        0 <= g < groups.len() && groups[g].names().len() > 0 ==> #[trigger] groups[g] is ManagedSsh
    &&& forall|g: int, h: int|
        0 <= g < groups.len() && 0 <= h < groups[g].names().len() ==> unready.contains(
            #[trigger] groups[g].names()[h],
        )
}

/// Whether a run must be held rather than started, because every host it would target is a
/// managed-ssh node that is not ready. A recurring plan is never held.
pub fn holds_for_unready_nodes(
    mode: &ExecutionMode,
    groups: &[ResolvedInventoryGroup],
    unready: &[String],
) -> (res: bool)
    ensures
        res == (*mode == ExecutionMode::OneShot && unready@.len() > 0 && all_unready(
            groups@,
            text::texts(unready@),
        )),
{
    if *mode != ExecutionMode::OneShot || unready.len() == 0 {
        return false;
    }
    let ghost names = text::texts(unready@);
    let mut g: usize = 0;
    while g < groups.len()
        invariant
            g <= groups@.len(),
            names == text::texts(unready@),
            forall|a: int|
                0 <= a < g && groups@[a].names().len() > 0 ==> #[trigger] groups@[a] is ManagedSsh,
            forall|a: int, h: int|
                0 <= a < g && 0 <= h < groups@[a].names().len() ==> names.contains(
                    #[trigger] groups@[a].names()[h],
                ),
        decreases groups.len() - g,
    {
        let managed = match &groups[g] {
            ResolvedInventoryGroup::ManagedSsh { .. } => true,
            ResolvedInventoryGroup::Ssh { .. } => false,
        };
        let hosts = &groups[g].hosts().hosts;
        let mut h: usize = 0;
        while h < hosts.len()
            invariant
                g < groups@.len(),
                h <= hosts@.len(),
                names == text::texts(unready@),
                hosts@ == groups@[g as int].hosts_of().hosts@,
                managed == (groups@[g as int] is ManagedSsh),
                h > 0 ==> managed,
                forall|b: int|
                    0 <= b < h ==> names.contains(#[trigger] groups@[g as int].names()[b]),
            decreases hosts.len() - h,
        {
            assert(groups@[g as int].names()[h as int] == hosts@[h as int]@);
            if !managed || !contains_text(unready, hosts[h].as_str()) {
                return false;
            }
            h = h + 1;
        }
        g = g + 1;
    }
    true
}

/// A run with a host that is not among the unready nodes goes ahead, whatever else is down.
pub proof fn a_reachable_host_keeps_the_run_going(
    groups: Seq<ResolvedInventoryGroup>,
    unready: Seq<Seq<char>>,
    g: int,
    h: int,
)
    requires
        0 <= g < groups.len(),
        0 <= h < groups[g].names().len(),
        !unready.contains(groups[g].names()[h]),
    ensures
        !all_unready(groups, unready),
{
}

/// A run with an external host always has work to do, even where a Node of that host's name is not
/// ready.
pub proof fn an_external_host_keeps_the_run_going(
    groups: Seq<ResolvedInventoryGroup>,
    unready: Seq<Seq<char>>,
    g: int,
)
    requires
        0 <= g < groups.len(),
        groups[g] is Ssh,
        groups[g].names().len() > 0,
    ensures
        !all_unready(groups, unready),
{
    if all_unready(groups, unready) {
        assert(unready.contains(groups[g].names()[0]));
    }
}

/// A Node is ready exactly where one of its conditions is of the type `Ready` and says `True`.
pub proof fn a_node_is_ready_where_it_says_so(node: Node, i: int)
    ensures
        node.conditions is Some && 0 <= i < node.conditions->0@.len()
            && node.conditions->0@[i].type_@ == "Ready"@ && node.conditions->0@[i].status@ == "True"@
            ==> ready(node),
        node.conditions is None ==> !ready(node),
        node.conditions is Some && (forall|k: int|
            0 <= k < node.conditions->0@.len() ==> (#[trigger] node.conditions->0@[k]).type_@
                != "Ready"@ || node.conditions->0@[k].status@ != "True"@) ==> !ready(node),
{
}

/// A managed host is known to be unready where its Node is there and says so, and not where there is no Node.
pub proof fn only_a_nodes_word_makes_it_unready(nodes: Seq<Node>, host: Seq<char>, node: Node)
    ensures
        resources::node_named(nodes, host) == Some(node) ==> (known_unready(nodes, host)
            <==> !ready(node)),
        resources::node_named(nodes, host) is None ==> !known_unready(nodes, host),
{
}

/// Where every group with hosts is managed and each of its hosts is unready, all are.
pub proof fn unready_hosts_make_all_unready(
    groups: Seq<ResolvedInventoryGroup>,
    unready: Seq<Seq<char>>,
)
    requires
        forall|g: int| 0 <= g < groups.len() ==> #[trigger] groups[g] is ManagedSsh,
        forall|g: int, h: int|
            0 <= g < groups.len() && 0 <= h < groups[g].names().len() ==> unready.contains(
                #[trigger] groups[g].names()[h],
            ),
    ensures
        all_unready(groups, unready),
{
}

} // verus!
