//! What a `ClusterInventory` resolves to, and what keeps Nodes out of it.

use vstd::prelude::*;
use crate::ansible_inventory;
use crate::ansible_inventory::{copy_groups, distinct_hosts, AnsibleInventory, ResolvedHosts};
use crate::dependencies;
use crate::dependencies::{waits, DependencyStatus, MAX_DEPENDENCIES};
use crate::nodeselector;
use crate::nodeselector::node_matches;
use crate::resources::{InventoryHosts, Node, ObjectMeta, Toleration};
use crate::seqs;
use crate::text;
use crate::text::{contains_text, insert_sorted};

verus! {

/// The groups of Nodes an author asked for.
#[derive(Debug, Clone, PartialEq)]
pub struct ClusterInventorySpec {
    pub hosts: Vec<InventoryHosts>,
    pub tolerations: Option<Vec<Toleration>>,
}

/// What an inventory resolved to, and what it is waiting on.
#[derive(Debug, Clone, PartialEq)]
pub struct ClusterInventoryStatus {
    pub observed_generation: Option<i64>,
    pub host_count: usize,
    pub resolved_hosts: Vec<ResolvedHosts>,
    pub waiting_hosts: usize,
    pub dependencies: Vec<DependencyStatus>,
}

/// A set of Nodes, by selector.
#[derive(Debug, Clone, PartialEq)]
pub struct ClusterInventory {
    pub metadata: ObjectMeta,
    pub spec: ClusterInventorySpec,
    pub status: Option<ClusterInventoryStatus>,
}

impl AnsibleInventory for ClusterInventory {
    /// The groups as the last observation resolved them; none before the first.
    fn get_hosts(&self) -> (res: Vec<ResolvedHosts>)
        ensures
            match self.status {
                Some(status) => res@.len() == status.resolved_hosts@.len() && forall|i: int|
                    0 <= i < res@.len() ==> (#[trigger] res@[i]).same(&status.resolved_hosts@[i]),
                None => res@.len() == 0,
            },
    {
        match &self.status {
            Some(status) => copy_groups(&status.resolved_hosts),
            None => Vec::new(),
        }
    }
}

/// The name of a Node.
pub open spec fn name_of() -> spec_fn(Node) -> Seq<char> {
    |node: Node| node.metadata.name->Some_0@
}

/// The Nodes a group takes.
pub open spec fn takes(group: InventoryHosts) -> spec_fn(Node) -> bool {
    |node: Node|
        match group.match_labels {
            Some(selector) => nodeselector::selector_holds(node.metadata.labels@, selector),
            None => true,
        }
}

/// The requirements of a group's selector.
pub open spec fn group_terms(group: InventoryHosts) -> Seq<dependencies::TermView> {
    match group.match_labels {
        Some(selector) => dependencies::terms_of(selector),
        None => Seq::empty(),
    }
}

/// The names of the Nodes a group is waiting for.
pub open spec fn waiting_names(group: InventoryHosts, nodes: Seq<Node>) -> Seq<Seq<char>> {
    nodes.filter(dependencies::waits_at_all(group_terms(group))).map_values(name_of())
}

/// Whether some group is waiting for a Node of this name.
pub open spec fn waits_somewhere(
    groups: Seq<InventoryHosts>,
    nodes: Seq<Node>,
    name: Seq<char>,
) -> bool {
    exists|i: int| 0 <= i < groups.len() && waiting_names(#[trigger] groups[i], nodes).contains(name)
}

/// One dependency requirement of an inventory: the group, the group's requirements, and the one
/// that waits.
pub ghost struct Requirement {
    pub group: Seq<char>,
    pub terms: Seq<dependencies::TermView>,
    pub term: dependencies::TermView,
}

/// The dependency requirements of one group, in the order they are written.
pub open spec fn group_requirements(group: InventoryHosts) -> Seq<Requirement> {
    dependencies::dependency_terms(group_terms(group)).map_values(
        |term: dependencies::TermView|
            Requirement { group: group.name@, terms: group_terms(group), term },
    )
}

/// The dependency requirements of the groups, in the order they are written.
pub open spec fn requirements(groups: Seq<InventoryHosts>) -> Seq<Requirement>
    decreases groups.len(),
{
    if groups.len() == 0 {
        Seq::empty()
    } else {
        requirements(groups.drop_last()) + group_requirements(groups.last())
    }
}

/// Whether the entries report the requirements, one for one.
pub open spec fn entries_report(
    entries: Seq<DependencyStatus>,
    wanted: Seq<Requirement>,
    nodes: Seq<Node>,
) -> bool {
    &&& entries.len() == wanted.len()
    &&& forall|i: int|
        0 <= i < entries.len() ==> (#[trigger] entries[i]).reports(
            wanted[i].group,
            wanted[i].term,
            wanted[i].terms,
            nodes,
        )
}

/// Whether a group list is what the groups resolve to among `nodes`.
pub open spec fn resolves(
    resolved: Seq<ResolvedHosts>,
    groups: Seq<InventoryHosts>,
    nodes: Seq<Node>,
) -> bool {
    &&& resolved.len() == groups.len()
    &&& forall|i: int|
        0 <= i < groups.len() ==> (#[trigger] resolved[i]).name == groups[i].name
            && resolved[i].connection is None && text::texts(resolved[i].hosts@) == nodes.filter(
            takes(groups[i]),
        ).map_values(name_of())
}

/// Whether a number counts the Nodes that some group waits for and no group takes.
pub open spec fn counts_waiting(
    count: nat,
    groups: Seq<InventoryHosts>,
    nodes: Seq<Node>,
    resolved: Seq<ResolvedHosts>,
) -> bool {
    exists|names: Seq<Seq<char>>| #[trigger]
        text::sorted(names) && names.len() == count && (forall|k: Seq<char>| #[trigger]
            names.contains(k) <==> waits_somewhere(groups, nodes, k)
                && !ansible_inventory::all_hosts(resolved).contains(k))
}

/// Whether every Node that a group takes has a name.
pub open spec fn takes_named(group: InventoryHosts, nodes: Seq<Node>) -> bool {
    forall|i: int|
        0 <= i < nodes.len() && takes(group)(#[trigger] nodes[i]) ==> nodes[i].metadata.name is Some
}

fn resolve_group(group: &InventoryHosts, nodes: &[Node]) -> (res: Vec<String>)
    requires
        takes_named(*group, nodes@),
    ensures
        text::texts(res@) == nodes@.filter(takes(*group)).map_values(name_of()),
{
    let ghost p = takes(*group);
    let ghost name = name_of();
    let mut out: Vec<String> = Vec::new();
    let mut i: usize = 0;
    proof {
        seqs::lemma_filter_none(nodes@, p);
    }
    assert(text::texts(out@) =~= nodes@.take(0).filter(p).map_values(name));
    while i < nodes.len()
        invariant
            p == takes(*group),
            name == name_of(),
            takes_named(*group, nodes@),
            i <= nodes@.len(),
            text::texts(out@) == nodes@.take(i as int).filter(p).map_values(name),
        decreases nodes.len() - i,
    {
        proof {
            seqs::lemma_filter_take(nodes@, i as int, p);
        }
        let ghost kept = nodes@.take(i as int).filter(p);
        let node = &nodes[i];
        if node_matches(node, group.match_labels.as_ref()) {
            if let Some(host) = &node.metadata.name {
                let ghost before = text::texts(out@);
                out.push(host.clone());
                assert(text::texts(out@) =~= before.push(host@));
                assert(kept.push(nodes@[i as int]).map_values(name) =~= kept.map_values(name).push(
                    host@,
                ));
            }
        }
        i = i + 1;
    }
    proof {
        seqs::lemma_take_all(nodes@);
    }
    out
}

fn resolve_groups(groups: &[InventoryHosts], nodes: &[Node]) -> (res: Vec<ResolvedHosts>)
    requires
        forall|g: int| 0 <= g < groups@.len() ==> takes_named(#[trigger] groups@[g], nodes@),
    ensures
        resolves(res@, groups@, nodes@),
{
    let mut out: Vec<ResolvedHosts> = Vec::new();
    let mut i: usize = 0;
    while i < groups.len()
        invariant
            forall|g: int| 0 <= g < groups@.len() ==> takes_named(#[trigger] groups@[g], nodes@),
            i <= groups@.len(),
            out@.len() == i,
            forall|j: int|
                0 <= j < i ==> (#[trigger] out@[j]).name == groups@[j].name
                    && out@[j].connection is None && text::texts(out@[j].hosts@) == nodes@.filter(
                    takes(groups@[j]),
                ).map_values(name_of()),
        decreases groups.len() - i,
    {
        out.push(
            ResolvedHosts {
                name: groups[i].name.clone(),
                hosts: resolve_group(&groups[i], nodes),
                connection: None,
            },
        );
        i = i + 1;
    }
    out
}

/// The status an inventory has against `nodes`, the whole Node set.
///
/// The hosts and what keeps Nodes out of them are one observation. Counts are over distinct Nodes,
/// and a Node that one group waits for and another takes is in the inventory, so it is not waiting.
/// The published requirements are bounded, the counts are not affected by the bound.
pub fn status_for(object: &ClusterInventory, nodes: &[Node]) -> (res: ClusterInventoryStatus)
    requires
        forall|g: int|
            0 <= g < object.spec.hosts@.len() ==> takes_named(
                #[trigger] object.spec.hosts@[g],
                nodes@,
            ),
    ensures
        res.observed_generation == object.metadata.generation,
        resolves(res.resolved_hosts@, object.spec.hosts@, nodes@),
        res.host_count == ansible_inventory::distinct(
            ansible_inventory::all_hosts(res.resolved_hosts@),
        ).len(),
        counts_waiting(
            res.waiting_hosts as nat,
            object.spec.hosts@,
            nodes@,
            res.resolved_hosts@,
        ),
        entries_report(
            res.dependencies@,
            requirements(object.spec.hosts@).take(res.dependencies@.len() as int),
            nodes@,
        ),
        res.dependencies@.len() == if requirements(object.spec.hosts@).len() < MAX_DEPENDENCIES {
            requirements(object.spec.hosts@).len() as int
        } else {
            MAX_DEPENDENCIES as int
        },
{
    let groups = &object.spec.hosts;
    let resolved_hosts = resolve_groups(groups, nodes);
    let mut dependencies: Vec<DependencyStatus> = Vec::new();
    let mut waiting: Vec<String> = Vec::new();
    let mut i: usize = 0;
    while i < groups.len()
        invariant
            groups@ == object.spec.hosts@,
            i <= groups@.len(),
            entries_report(dependencies@, requirements(groups@.take(i as int)), nodes@),
            text::sorted(text::texts(waiting@)),
            forall|k: Seq<char>| #[trigger]
                text::texts(waiting@).contains(k) <==> waits_somewhere(
                    groups@.take(i as int),
                    nodes@,
                    k,
                ),
        decreases groups.len() - i,
    {
        let ghost group = groups@[i as int];
        let ghost longer = groups@.take(i + 1);
        assert(longer.drop_last() =~= groups@.take(i as int));
        assert(longer.last() == group);
        let mut group_waits = waits(
            groups[i].name.as_str(),
            groups[i].match_labels.as_ref(),
            nodes,
        );
        assert(dependencies::selector_terms(
            match group.match_labels {
                Some(s) => Some(&s),
                None => None,
            },
        ) == group_terms(group));
        let ghost was = dependencies@;
        let ghost added = group_waits.dependencies@;
        dependencies.append(&mut group_waits.dependencies);
        proof {
            let before = requirements(groups@.take(i as int));
            let wanted = requirements(longer);
            assert forall|j: int| 0 <= j < dependencies@.len() implies (
            #[trigger] dependencies@[j]).reports(
                wanted[j].group,
                wanted[j].term,
                wanted[j].terms,
                nodes@,
            ) by {
                if j < was.len() {
                    assert(dependencies@[j] == was[j]);
                    assert(wanted[j] == before[j]);
                } else {
                    assert(dependencies@[j] == added[j - was.len()]);
                    assert(wanted[j] == group_requirements(group)[j - was.len()]);
                }
            }
        }
        let ghost sofar = text::texts(waiting@);
        let ghost names = text::texts(group_waits.waiting_hosts@);
        assert(names =~= waiting_names(group, nodes@));
        let mut h: usize = 0;
        while h < group_waits.waiting_hosts.len()
            invariant
                h <= group_waits.waiting_hosts@.len(),
                names == text::texts(group_waits.waiting_hosts@),
                text::sorted(text::texts(waiting@)),
                forall|k: Seq<char>| #[trigger]
                    text::texts(waiting@).contains(k) <==> sofar.contains(k) || names.take(
                        h as int,
                    ).contains(k),
            decreases group_waits.waiting_hosts.len() - h,
        {
            let host = group_waits.waiting_hosts[h].clone();
            assert(host@ == names[h as int]);
            let ghost held = text::texts(waiting@);
            insert_sorted(&mut waiting, host);
            proof {
                assert forall|k: Seq<char>| #[trigger]
                    text::texts(waiting@).contains(k) <==> sofar.contains(k) || names.take(
                        h + 1,
                    ).contains(k) by {
                    text::lemma_take_contains(names, h as int, k);
                    assert(held.contains(k) <==> sofar.contains(k) || names.take(
                        h as int,
                    ).contains(k));
                }
            }
            h = h + 1;
        }
        proof {
            assert(names.take(h as int) =~= names);
            assert forall|k: Seq<char>| #[trigger]
                text::texts(waiting@).contains(k) <==> waits_somewhere(longer, nodes@, k) by {
                lemma_waits_somewhere_take(groups@, i as int, nodes@, k);
                assert(sofar.contains(k) <==> waits_somewhere(groups@.take(i as int), nodes@, k));
            }
        }
        i = i + 1;
    }
    proof {
        assert(groups@.take(i as int) =~= groups@);
    }
    let ghost all = requirements(groups@);
    if dependencies.len() > MAX_DEPENDENCIES {
        dependencies.truncate(MAX_DEPENDENCIES);
    }
    assert(entries_report(dependencies@, all.take(dependencies@.len() as int), nodes@));
    let resolved = distinct_hosts(&resolved_hosts);
    proof {
        ansible_inventory::each_host_counts_once(resolved_hosts@);
    }
    let kept = without(&waiting, &resolved);
    proof {
        let names = text::texts(kept@);
        assert forall|k: Seq<char>| #[trigger]
            names.contains(k) <==> waits_somewhere(object.spec.hosts@, nodes@, k)
                && !ansible_inventory::all_hosts(resolved_hosts@).contains(k) by {
            assert(text::texts(waiting@).contains(k) <==> waits_somewhere(groups@, nodes@, k));
            assert(text::texts(resolved@).contains(k) <==> ansible_inventory::all_hosts(
                resolved_hosts@,
            ).contains(k));
        }
        assert(text::sorted(names));
    }
    ClusterInventoryStatus {
        observed_generation: object.metadata.generation,
        host_count: resolved.len(),
        resolved_hosts,
        waiting_hosts: kept.len(),
        dependencies,
    }
}

/// The strings of a strictly increasing list that are not among others.
fn without(list: &[String], others: &[String]) -> (res: Vec<String>)
    requires
        text::sorted(text::texts(list@)),
    ensures
        text::sorted(text::texts(res@)),
        forall|k: Seq<char>| #[trigger]
            text::texts(res@).contains(k) <==> text::texts(list@).contains(k) && !text::texts(
                others@,
            ).contains(k),
{
    let ghost all = text::texts(list@);
    let mut out: Vec<String> = Vec::new();
    let mut i: usize = 0;
    while i < list.len()
        invariant
            all == text::texts(list@),
            i <= list@.len(),
            text::sorted(text::texts(out@)),
            forall|k: Seq<char>| #[trigger]
                text::texts(out@).contains(k) <==> all.take(i as int).contains(k) && !text::texts(
                    others@,
                ).contains(k),
        decreases list.len() - i,
    {
        let item = list[i].clone();
        assert(item@ == all[i as int]);
        let ghost before = text::texts(out@);
        if !contains_text(others, item.as_str()) {
            insert_sorted(&mut out, item);
        }
        proof {
            assert forall|k: Seq<char>| #[trigger]
                text::texts(out@).contains(k) <==> all.take(i + 1).contains(k) && !text::texts(
                    others@,
                ).contains(k) by {
                text::lemma_take_contains(all, i as int, k);
                assert(before.contains(k) <==> all.take(i as int).contains(k) && !text::texts(
                    others@,
                ).contains(k));
            }
        }
        i = i + 1;
    }
    assert(all.take(i as int) =~= all);
    out
}

proof fn lemma_waits_somewhere_take(
    groups: Seq<InventoryHosts>,
    i: int,
    nodes: Seq<Node>,
    name: Seq<char>,
)
    requires
        0 <= i < groups.len(),
    ensures
        waits_somewhere(groups.take(i + 1), nodes, name) <==> waits_somewhere(
            groups.take(i),
            nodes,
            name,
        ) || waiting_names(groups[i], nodes).contains(name),
{
    let shorter = groups.take(i);
    let longer = groups.take(i + 1);
    if waits_somewhere(shorter, nodes, name) {
        let j = choose|j: int|
            0 <= j < shorter.len() && waiting_names(#[trigger] shorter[j], nodes).contains(name);
        assert(longer[j] == shorter[j]);
    }
    if waiting_names(groups[i], nodes).contains(name) {
        assert(longer[i] == groups[i]);
    }
    if waits_somewhere(longer, nodes, name) {
        let j = choose|j: int|
            0 <= j < longer.len() && waiting_names(#[trigger] longer[j], nodes).contains(name);
        if j < i {
            assert(shorter[j] == longer[j]);
        }
    }
}

/// A group lists the name of every Node its selector selects, or of every Node where it has none, and no other.
pub proof fn a_group_lists_what_its_selector_selects(
    resolved: Seq<ResolvedHosts>,
    groups: Seq<InventoryHosts>,
    nodes: Seq<Node>,
    g: int,
    host: Seq<char>,
)
    requires
        resolves(resolved, groups, nodes),
        0 <= g < groups.len(),
    ensures
        resolved[g].name == groups[g].name,
        text::texts(resolved[g].hosts@).contains(host) <==> exists|k: int|
            0 <= k < nodes.len() && (#[trigger] nodes[k]).metadata.name->Some_0@ == host && (
            groups[g].match_labels is None || nodeselector::selector_holds(
                nodes[k].metadata.labels@,
                groups[g].match_labels->0,
            )),
{
    let kept = nodes.filter(takes(groups[g]));
    let names = kept.map_values(name_of());
    assert(resolved[g].name == groups[g].name);
    if names.contains(host) {
        let i = choose|i: int| 0 <= i < names.len() && names[i] == host;
        assert(kept.contains(kept[i]));
        seqs::lemma_filter_contains(nodes, takes(groups[g]), kept[i]);
        let k = choose|k: int| 0 <= k < nodes.len() && nodes[k] == kept[i];
        assert(nodes[k].metadata.name->Some_0@ == host);
    }
    if exists|k: int|
        0 <= k < nodes.len() && (#[trigger] nodes[k]).metadata.name->Some_0@ == host && (
        groups[g].match_labels is None || nodeselector::selector_holds(
            nodes[k].metadata.labels@,
            groups[g].match_labels->0,
        )) {
        let k = choose|k: int|
            0 <= k < nodes.len() && (#[trigger] nodes[k]).metadata.name->Some_0@ == host && (
            groups[g].match_labels is None || nodeselector::selector_holds(
                nodes[k].metadata.labels@,
                groups[g].match_labels->0,
            ));
        seqs::lemma_filter_contains(nodes, takes(groups[g]), nodes[k]);
        let i = choose|i: int| 0 <= i < kept.len() && kept[i] == nodes[k];
        assert(names[i] == host);
    }
}

/// Hosts are listed in the order the Nodes come in, each Node once.
pub proof fn a_node_is_listed_where_it_comes(group: InventoryHosts, nodes: Seq<Node>, node: Node)
    ensures
        nodes.push(node).filter(takes(group)).map_values(name_of()) == if group.match_labels is None
            || nodeselector::selector_holds(node.metadata.labels@, group.match_labels->0) {
            nodes.filter(takes(group)).map_values(name_of()).push(node.metadata.name->Some_0@)
        } else {
            nodes.filter(takes(group)).map_values(name_of())
        },
{
    reveal(Seq::filter);
    assert(nodes.push(node).drop_last() =~= nodes);
    assert(nodes.push(node).filter(takes(group)).map_values(name_of()) =~= if group.match_labels is None
        || nodeselector::selector_holds(node.metadata.labels@, group.match_labels->0) {
        nodes.filter(takes(group)).map_values(name_of()).push(node.metadata.name->Some_0@)
    } else {
        nodes.filter(takes(group)).map_values(name_of())
    });
}

/// The dependencies of an inventory are those of its groups, in the order of the groups.
pub proof fn every_groups_dependencies_are_reported(groups: Seq<InventoryHosts>, group: InventoryHosts, i: int)
    ensures
        requirements(Seq::<InventoryHosts>::empty()).len() == 0,
        requirements(groups.push(group)) == requirements(groups) + group_requirements(group),
        group.match_labels is None ==> group_requirements(group).len() == 0,
        0 <= i < group_requirements(group).len() ==> group_requirements(group)[i].group == group.name@
            && dependencies::is_dependency(group_requirements(group)[i].term) && group.match_labels
            is Some && group_requirements(group)[i].terms == dependencies::terms_of(
            group.match_labels->0,
        ) && group_requirements(group)[i].terms.contains(group_requirements(group)[i].term),
{
    assert(groups.push(group).drop_last() =~= groups);
    let terms = group_terms(group);
    let kept = dependencies::dependency_terms(terms);
    if group.match_labels is None {
        reveal(Seq::filter);
        assert(kept.len() == 0);
    }
    if 0 <= i < group_requirements(group).len() {
        assert(kept.contains(kept[i]));
        seqs::lemma_filter_contains(
            terms,
            |term: dependencies::TermView| dependencies::is_dependency(term),
            kept[i],
        );
    }
}

/// The hosts that wait are counted once each: those that some group keeps waiting and no group lists.
pub proof fn each_waiting_host_is_counted_once(
    count: nat,
    groups: Seq<InventoryHosts>,
    nodes: Seq<Node>,
    resolved: Seq<ResolvedHosts>,
    waiting: Set<Seq<char>>,
)
    requires
        counts_waiting(count, groups, nodes, resolved),
        forall|k: Seq<char>| #[trigger]
            waiting.contains(k) <==> waits_somewhere(groups, nodes, k)
                && !ansible_inventory::all_hosts(resolved).contains(k),
    ensures
        waiting.len() == count,
{
    let names = choose|names: Seq<Seq<char>>| #[trigger]
        text::sorted(names) && names.len() == count && (forall|k: Seq<char>| #[trigger]
            names.contains(k) <==> waits_somewhere(groups, nodes, k)
                && !ansible_inventory::all_hosts(resolved).contains(k));
    assert forall|i: int, j: int| 0 <= i < names.len() && 0 <= j < names.len() && i != j implies names[i]
        != names[j] by {
        text::lemma_text_lt_irreflexive(names[i]);
        if i < j {
            assert(text::text_lt(names[i], names[j]));
        } else {
            assert(text::text_lt(names[j], names[i]));
        }
    }
    names.unique_seq_to_set();
    assert(names.to_set() =~= waiting);
}

/// A Node waits somewhere where a group of the inventory holds it but for a plan it waits for.
pub proof fn a_node_waits_where_a_group_waits(
    groups: Seq<InventoryHosts>,
    nodes: Seq<Node>,
    g: int,
    k: int,
)
    requires
        0 <= g < groups.len(),
        0 <= k < nodes.len(),
        groups[g].match_labels is Some,
        dependencies::waits_at_all(dependencies::terms_of(groups[g].match_labels->0))(nodes[k]),
    ensures
        waits_somewhere(groups, nodes, nodes[k].metadata.name->Some_0@),
{
    let p = dependencies::waits_at_all(group_terms(groups[g]));
    let kept = nodes.filter(p);
    seqs::lemma_filter_contains(nodes, p, nodes[k]);
    let i = choose|i: int| 0 <= i < kept.len() && kept[i] == nodes[k];
    assert(waiting_names(groups[g], nodes)[i] == nodes[k].metadata.name->Some_0@);
}

} // verus!
