//! What a `NodeAccessPolicy` grants.
//!
//! Matching is fail-closed: an empty selector matches nothing.

use vstd::prelude::*;
use crate::ansible_inventory;
use crate::ansible_inventory::ResolvedInventoryGroup;
use crate::nodeselector;
use crate::nodeselector::selector_matches_fail_closed;
use crate::order;
use crate::resources;
use crate::resources::{find_node, LabelMap, Node, NodeSelectorTerm, ObjectMeta};
use crate::run_inventory::with_hosts;
use crate::seqs;
use crate::text;
use crate::text::{clone_strings, text_less};

verus! {

/// Which namespaces may target which Nodes.
#[derive(Debug, Clone, PartialEq)]
pub struct NodeAccessPolicySpec {
    pub namespace_selector: NodeSelectorTerm,
    pub node_selector: NodeSelectorTerm,
}

/// What a policy currently grants.
#[derive(Debug, Clone, PartialEq, Eq)]
pub struct NodeAccessPolicyStatus {
    pub matched_namespaces: Vec<String>,
    pub allowed_node_count: i64,
    pub allowed_nodes: Vec<String>,
}

/// The named objects whose labels a selector matches, fail-closed.
pub open spec fn granted(selector: NodeSelectorTerm) -> spec_fn(ObjectMeta) -> bool {
    |object: ObjectMeta|
        object.name is Some && nodeselector::selector_grants(object.labels@, selector)
}

/// The name of an object.
pub open spec fn object_name() -> spec_fn(ObjectMeta) -> Seq<char> {
    |object: ObjectMeta| object.name->Some_0@
}

/// Whether an object of this name is granted.
pub open spec fn name_granted(
    objects: Seq<ObjectMeta>,
    selector: NodeSelectorTerm,
    name: Seq<char>,
) -> bool {
    objects.filter(granted(selector)).map_values(object_name()).contains(name)
}

fn granted_names(objects: &[ObjectMeta], selector: &NodeSelectorTerm) -> (res: Vec<String>)
    ensures
        text::texts(res@) == objects@.filter(granted(*selector)).map_values(object_name()),
{
    let ghost p = granted(*selector);
    let ghost name = object_name();
    let mut out: Vec<String> = Vec::new();
    let mut i: usize = 0;
    proof {
        seqs::lemma_filter_none(objects@, p);
    }
    assert(text::texts(out@) =~= objects@.take(0).filter(p).map_values(name));
    while i < objects.len()
        invariant
            p == granted(*selector),
            name == object_name(),
            i <= objects@.len(),
            text::texts(out@) == objects@.take(i as int).filter(p).map_values(name),
        decreases objects.len() - i,
    {
        proof {
            seqs::lemma_filter_take(objects@, i as int, p);
        }
        let ghost kept = objects@.take(i as int).filter(p);
        if selector_matches_fail_closed(&objects[i].labels, selector) {
            if let Some(found) = &objects[i].name {
                let ghost before = text::texts(out@);
                out.push(found.clone());
                assert(text::texts(out@) =~= before.push(found@));
                assert(kept.push(objects@[i as int]).map_values(name) =~= kept.map_values(
                    name,
                ).push(found@));
            }
        }
        i = i + 1;
    }
    proof {
        seqs::lemma_take_all(objects@);
    }
    out
}

/// Whether one name sorts before another.
pub open spec fn sorts_before() -> spec_fn(Seq<char>, Seq<char>) -> bool {
    |a: Seq<char>, b: Seq<char>| text::text_lt(a, b)
}

fn sort_names(names: &[String]) -> (res: Vec<String>)
    ensures
        text::texts(res@) == order::stable_sorted(text::texts(names@), sorts_before()),
{
    let ghost all = text::texts(names@);
    let mut out: Vec<String> = Vec::new();
    let mut i: usize = 0;
    assert(all.take(0) =~= Seq::<Seq<char>>::empty());
    assert(text::texts(out@) =~= order::stable_sorted(all.take(0), sorts_before()));
    while i < names.len()
        invariant
            i <= names@.len(),
            all == text::texts(names@),
            text::texts(out@) == order::stable_sorted(all.take(i as int), sorts_before()),
        decreases names.len() - i,
    {
        let ghost before = text::texts(out@);
        let ghost name = names@[i as int]@;
        let mut k: usize = 0;
        while k < out.len() && !text_less(names[i].as_str(), out[k].as_str())
            invariant
                i < names@.len(),
                k <= out@.len(),
                before == text::texts(out@),
                name == names@[i as int]@,
                forall|j: int| 0 <= j < k ==> !sorts_before()(name, #[trigger] before[j]),
            decreases out.len() - k,
        {
            k = k + 1;
        }
        proof {
            order::lemma_place(before, name, sorts_before(), k as int);
            assert(all.take(i + 1).drop_last() =~= all.take(i as int));
            assert(all.take(i + 1).last() == name);
        }
        out.insert(k, names[i].clone());
        assert(text::texts(out@) =~= before.insert(k as int, name));
        i = i + 1;
    }
    assert(all.take(i as int) =~= all);
    out
}

/// What a policy grants among these namespaces and Nodes: the namespaces it matches, in order, and
/// the Nodes it allows, sorted.
pub fn policy_status(
    spec: &NodeAccessPolicySpec,
    namespaces: &[ObjectMeta],
    nodes: &[ObjectMeta],
) -> (res: NodeAccessPolicyStatus)
    ensures
        text::texts(res.matched_namespaces@) == namespaces@.filter(
            granted(spec.namespace_selector),
        ).map_values(object_name()),
        text::texts(res.allowed_nodes@) == order::stable_sorted(
            nodes@.filter(granted(spec.node_selector)).map_values(object_name()),
            sorts_before(),
        ),
        res.allowed_node_count == res.allowed_nodes@.len() as i64,
{
    let matched_namespaces = granted_names(namespaces, &spec.namespace_selector);
    let allowed = granted_names(nodes, &spec.node_selector);
    let allowed_nodes = sort_names(&allowed);
    let allowed_node_count: i64 = allowed_nodes.len() as i64;
    NodeAccessPolicyStatus { matched_namespaces, allowed_node_count, allowed_nodes }
}

// --- enforcement -----------------------------------------------------------------------------

/// Whether some policy lets a namespace with these labels target a Node with those.
pub open spec fn permitted(
    policies: Seq<NodeAccessPolicySpec>,
    namespace: Map<Seq<char>, String>,
    node: Map<Seq<char>, String>,
) -> bool {
    exists|i: int|
        0 <= i < policies.len() && nodeselector::selector_grants(
            namespace,
            (#[trigger] policies[i]).namespace_selector,
        ) && nodeselector::selector_grants(node, policies[i].node_selector)
}

/// Whether a host is a Node that the namespace may target. A host that is no Node of the cluster is
/// none.
pub open spec fn may_target(
    policies: Seq<NodeAccessPolicySpec>,
    namespace: Map<Seq<char>, String>,
    nodes: Seq<Node>,
) -> spec_fn(Seq<char>) -> bool {
    |host: Seq<char>|
        match resources::node_named(nodes, host) {
            Some(node) => permitted(policies, namespace, node.metadata.labels@),
            None => false,
        }
}

/// Whether a host is one that the namespace may not target.
pub open spec fn may_not_target(
    policies: Seq<NodeAccessPolicySpec>,
    namespace: Map<Seq<char>, String>,
    nodes: Seq<Node>,
) -> spec_fn(Seq<char>) -> bool {
    |host: Seq<char>| !may_target(policies, namespace, nodes)(host)
}

/// Whether a group is another one with the Nodes it may not target taken out. A group of external
/// hosts is left alone.
pub open spec fn clamped(
    group: ResolvedInventoryGroup,
    from: ResolvedInventoryGroup,
    allowed: spec_fn(Seq<char>) -> bool,
) -> bool {
    &&& group.same_config(&from)
    &&& group.hosts_of().name == from.hosts_of().name
    &&& group.hosts_of().connection == from.hosts_of().connection
    &&& group.names() == if from is ManagedSsh {
        from.names().filter(allowed)
    } else {
        from.names()
    }
}

fn is_permitted(policies: &[NodeAccessPolicySpec], namespace: &LabelMap, node: &LabelMap) -> (res:
    bool)
    ensures
        res == permitted(policies@, namespace@, node@),
{
    let mut i: usize = 0;
    while i < policies.len()
        invariant
            i <= policies@.len(),
            forall|j: int|
                0 <= j < i ==> !(nodeselector::selector_grants(
                    namespace@,
                    (#[trigger] policies@[j]).namespace_selector,
                ) && nodeselector::selector_grants(node@, policies@[j].node_selector)),
        decreases policies.len() - i,
    {
        if selector_matches_fail_closed(namespace, &policies[i].namespace_selector)
            && selector_matches_fail_closed(node, &policies[i].node_selector) {
            return true;
        }
        i = i + 1;
    }
    false
}

/// Takes the Nodes that a namespace may not target out of a list of hosts, and adds them to another.
fn clamp_hosts(
    hosts: &[String],
    policies: &[NodeAccessPolicySpec],
    namespace: &LabelMap,
    nodes: &[Node],
    excluded: &mut Vec<String>,
) -> (res: Vec<String>)
    ensures
        text::texts(res@) == text::texts(hosts@).filter(
            may_target(policies@, namespace@, nodes@),
        ),
        text::texts(final(excluded)@) == text::texts(old(excluded)@) + text::texts(hosts@).filter(
            may_not_target(policies@, namespace@, nodes@),
        ),
{
    let ghost all = text::texts(hosts@);
    let ghost allowed = may_target(policies@, namespace@, nodes@);
    let ghost refused = may_not_target(policies@, namespace@, nodes@);
    let ghost start = text::texts(excluded@);
    let mut kept: Vec<String> = Vec::new();
    let mut i: usize = 0;
    proof {
        seqs::lemma_filter_none(all, allowed);
        seqs::lemma_filter_none(all, refused);
        assert(text::texts(kept@) =~= all.take(0).filter(allowed));
        assert(text::texts(excluded@) =~= start + all.take(0).filter(refused));
    }
    while i < hosts.len()
        invariant
            i <= hosts@.len(),
            all == text::texts(hosts@),
            allowed == may_target(policies@, namespace@, nodes@),
            refused == may_not_target(policies@, namespace@, nodes@),
            text::texts(kept@) == all.take(i as int).filter(allowed),
            text::texts(excluded@) == start + all.take(i as int).filter(refused),
        decreases hosts.len() - i,
    {
        let ghost kept_before = text::texts(kept@);
        let ghost excluded_before = text::texts(excluded@);
        let host = &hosts[i];
        proof {
            assert(all[i as int] == host@);
            seqs::lemma_filter_take(all, i as int, allowed);
            seqs::lemma_filter_take(all, i as int, refused);
        }
        let may = match find_node(nodes, host.as_str()) {
            Some(node) => is_permitted(policies, namespace, &node.metadata.labels),
            None => false,
        };
        assert(may == allowed(host@));
        if may {
            kept.push(host.clone());
            assert(text::texts(kept@) =~= kept_before.push(host@));
        } else {
            excluded.push(host.clone());
            assert(text::texts(excluded@) =~= excluded_before.push(host@));
            assert(start + all.take(i as int).filter(refused).push(host@) =~= excluded_before.push(
                host@,
            ));
        }
        i = i + 1;
    }
    proof {
        seqs::lemma_take_all(all);
    }
    kept
}

/// Takes out of a plan's inventory the Nodes that its namespace may not target, and returns their
/// names. Hosts outside the cluster are not governed by policies.
pub fn enforce(
    policies: &[NodeAccessPolicySpec],
    namespace: &LabelMap,
    nodes: &[Node],
    groups: &mut Vec<ResolvedInventoryGroup>,
) -> (res: Vec<String>)
    ensures
        final(groups)@.len() == old(groups)@.len(),
        forall|i: int|
            0 <= i < final(groups)@.len() ==> clamped(
                #[trigger] final(groups)@[i],
                old(groups)@[i],
                may_target(policies@, namespace@, nodes@),
            ),
        text::texts(res@) == ansible_inventory::managed_hosts(old(groups)@).filter(
            may_not_target(policies@, namespace@, nodes@),
        ),
{
    let ghost before = groups@;
    let ghost allowed = may_target(policies@, namespace@, nodes@);
    let ghost refused = may_not_target(policies@, namespace@, nodes@);
    let mut excluded: Vec<String> = Vec::new();
    let mut out: Vec<ResolvedInventoryGroup> = Vec::new();
    let mut i: usize = 0;
    proof {
        assert(before.take(0) =~= Seq::<ResolvedInventoryGroup>::empty());
        reveal(Seq::filter);
        assert(text::texts(excluded@) =~= ansible_inventory::managed_hosts(before.take(0)).filter(
            refused,
        ));
    }
    while i < groups.len()
        invariant
            i <= groups@.len(),
            groups@ == before,
            allowed == may_target(policies@, namespace@, nodes@),
            refused == may_not_target(policies@, namespace@, nodes@),
            out@.len() == i,
            forall|j: int| 0 <= j < i ==> clamped(#[trigger] out@[j], before[j], allowed),
            text::texts(excluded@) == ansible_inventory::managed_hosts(
                before.take(i as int),
            ).filter(refused),
        decreases groups.len() - i,
    {
        let group = &groups[i];
        let ghost longer = before.take(i + 1);
        proof {
            assert(longer.drop_last() =~= before.take(i as int));
            assert(longer.last() == before[i as int]);
        }
        let hosts = match group {
            ResolvedInventoryGroup::ManagedSsh { hosts, .. } => {
                proof {
                    lemma_filter_concat(
                        ansible_inventory::managed_hosts(before.take(i as int)),
                        group.names(),
                        refused,
                    );
                }
                clamp_hosts(&hosts.hosts, policies, namespace, nodes, &mut excluded)
            },
            ResolvedInventoryGroup::Ssh { hosts, .. } => {
                proof {
                    assert(ansible_inventory::managed_hosts(longer)
                        =~= ansible_inventory::managed_hosts(before.take(i as int)));
                }
                clone_strings(&hosts.hosts)
            },
        };
        let narrow = with_hosts(group, hosts);
        out.push(narrow);
        i = i + 1;
    }
    assert(before.take(i as int) =~= before);
    *groups = out;
    excluded
}

proof fn lemma_filter_concat(a: Seq<Seq<char>>, b: Seq<Seq<char>>, p: spec_fn(Seq<char>) -> bool)
    ensures
        (a + b).filter(p) == a.filter(p) + b.filter(p),
    decreases b.len(),
{
    reveal(Seq::filter);
    if b.len() == 0 {
        assert(a + b =~= a);
        assert(a.filter(p) + b.filter(p) =~= a.filter(p));
    } else {
        assert((a + b).drop_last() =~= a + b.drop_last());
        lemma_filter_concat(a, b.drop_last(), p);
        assert((a + b).filter(p) =~= a.filter(p) + b.filter(p));
    }
}

/// What policies report is what is enforced: a namespace may target a Node exactly where some policy
/// reports both, the namespace as matched and the Node as allowed.
pub proof fn what_is_reported_is_enforced(
    policies: Seq<NodeAccessPolicySpec>,
    namespace: ObjectMeta,
    node: ObjectMeta,
)
    requires
        namespace.name is Some,
        node.name is Some,
    ensures
        permitted(policies, namespace.labels@, node.labels@) <==> exists|i: int|
            0 <= i < policies.len() && granted((#[trigger] policies[i]).namespace_selector)(namespace)
                && granted(policies[i].node_selector)(node),
{
    if permitted(policies, namespace.labels@, node.labels@) {
        let i = choose|i: int|
            0 <= i < policies.len() && nodeselector::selector_grants(
                namespace.labels@,
                (#[trigger] policies[i]).namespace_selector,
            ) && nodeselector::selector_grants(node.labels@, policies[i].node_selector);
        assert(granted(policies[i].namespace_selector)(namespace));
    }
}

/// A namespace that no policy governs reaches no Node, and keeps its external hosts.
pub proof fn an_ungoverned_namespace_reaches_no_node(
    policies: Seq<NodeAccessPolicySpec>,
    namespace: Map<Seq<char>, String>,
    nodes: Seq<Node>,
    group: ResolvedInventoryGroup,
    from: ResolvedInventoryGroup,
)
    requires
        forall|i: int|
            0 <= i < policies.len() ==> !nodeselector::selector_grants(
                namespace,
                (#[trigger] policies[i]).namespace_selector,
            ),
        clamped(group, from, may_target(policies, namespace, nodes)),
    ensures
        from is ManagedSsh ==> group.names().len() == 0,
        from is Ssh ==> group.names() == from.names(),
{
    let kept = group.names();
    if from is ManagedSsh && kept.len() > 0 {
        assert(kept.contains(kept[0]));
        seqs::lemma_filter_contains(
            from.names(),
            may_target(policies, namespace, nodes),
            kept[0],
        );
    }
}

/// A policy with an empty node selector allows no Node, and one with an empty namespace selector
/// matches no namespace.
pub proof fn empty_selector_grants_nothing(
    objects: Seq<ObjectMeta>,
    selector: NodeSelectorTerm,
    name: Seq<char>,
)
    requires
        nodeselector::selector_is_empty(selector),
    ensures
        !name_granted(objects, selector, name),
        objects.filter(granted(selector)).len() == 0,
{
    let kept = objects.filter(granted(selector));
    if kept.len() > 0 {
        seqs::lemma_filter_contains(objects, granted(selector), kept[0]);
        assert(kept.contains(kept[0]));
    }
}

/// A managed host that is a Node stays a target exactly where one policy grants both the Namespace and the Node.
pub proof fn a_node_stays_where_a_policy_grants_it(
    policies: Seq<NodeAccessPolicySpec>,
    namespace: Map<Seq<char>, String>,
    nodes: Seq<Node>,
    group: ResolvedInventoryGroup,
    from: ResolvedInventoryGroup,
    host: Seq<char>,
    node: Node,
)
    requires
        clamped(group, from, may_target(policies, namespace, nodes)),
        resources::node_named(nodes, host) == Some(node),
    ensures
        from is ManagedSsh ==> (group.names().contains(host) <==> from.names().contains(host)
            && exists|i: int|
            0 <= i < policies.len() && nodeselector::selector_grants(
                namespace,
                (#[trigger] policies[i]).namespace_selector,
            ) && nodeselector::selector_grants(node.metadata.labels@, policies[i].node_selector)),
{
    seqs::lemma_filter_contains(from.names(), may_target(policies, namespace, nodes), host);
}

/// A managed host that is no Node is no target, an external one is whatever the policies say, and a group keeps
/// its name and how it is reached.
pub proof fn a_host_that_is_no_node_is_no_target(
    policies: Seq<NodeAccessPolicySpec>,
    namespace: Map<Seq<char>, String>,
    nodes: Seq<Node>,
    group: ResolvedInventoryGroup,
    from: ResolvedInventoryGroup,
    host: Seq<char>,
)
    requires
        clamped(group, from, may_target(policies, namespace, nodes)),
    ensures
        from is ManagedSsh && resources::node_named(nodes, host) is None ==> !group.names().contains(
            host,
        ),
        from is Ssh ==> group.names() == from.names(),
        group.hosts_of().name == from.hosts_of().name,
        group.hosts_of().connection == from.hosts_of().connection,
        group is Ssh <==> from is Ssh,
{
    seqs::lemma_filter_contains(from.names(), may_target(policies, namespace, nodes), host);
}

/// Every managed host is either a target or reported as excluded, and never both.
pub proof fn an_excluded_host_is_reported(
    policies: Seq<NodeAccessPolicySpec>,
    namespace: Map<Seq<char>, String>,
    nodes: Seq<Node>,
    groups: Seq<ResolvedInventoryGroup>,
    host: Seq<char>,
)
    requires
        ansible_inventory::managed_hosts(groups).contains(host),
    ensures
        ansible_inventory::managed_hosts(groups).filter(
            may_not_target(policies, namespace, nodes),
        ).contains(host) <==> !ansible_inventory::managed_hosts(groups).filter(
            may_target(policies, namespace, nodes),
        ).contains(host),
{
    let hosts = ansible_inventory::managed_hosts(groups);
    seqs::lemma_filter_contains(hosts, may_target(policies, namespace, nodes), host);
    seqs::lemma_filter_contains(hosts, may_not_target(policies, namespace, nodes), host);
}

/// What a policy reports is the name of every named object whose labels its selector grants, and of no other.
pub proof fn a_policy_reports_what_its_selector_grants(
    objects: Seq<ObjectMeta>,
    selector: NodeSelectorTerm,
    name: Seq<char>,
)
    ensures
        objects.filter(granted(selector)).map_values(object_name()).contains(name) <==> exists|i: int|
            0 <= i < objects.len() && (#[trigger] objects[i]).name is Some && objects[i].name->Some_0@
                == name && nodeselector::selector_grants(objects[i].labels@, selector),
{
    let kept = objects.filter(granted(selector));
    let names = kept.map_values(object_name());
    if names.contains(name) {
        let k = choose|k: int| 0 <= k < names.len() && names[k] == name;
        assert(kept.contains(kept[k]));
        seqs::lemma_filter_contains(objects, granted(selector), kept[k]);
        let i = choose|i: int| 0 <= i < objects.len() && objects[i] == kept[k];
        assert(objects[i].name->Some_0@ == name);
    }
    if exists|i: int|
        0 <= i < objects.len() && (#[trigger] objects[i]).name is Some && objects[i].name->Some_0@
            == name && nodeselector::selector_grants(objects[i].labels@, selector) {
        let i = choose|i: int|
            0 <= i < objects.len() && (#[trigger] objects[i]).name is Some
                && objects[i].name->Some_0@ == name && nodeselector::selector_grants(
                objects[i].labels@,
                selector,
            );
        seqs::lemma_filter_contains(objects, granted(selector), objects[i]);
        let k = choose|k: int| 0 <= k < kept.len() && kept[k] == objects[i];
        assert(names[k] == name);
    }
}

/// The Nodes a policy allows are reported in the order of their names, each as often as it is there.
pub proof fn allowed_nodes_are_reported_in_order(names: Seq<Seq<char>>, i: int, j: int)
    requires
        0 <= i < j < names.len(),
    ensures
        order::stable_sorted(names, sorts_before()).to_multiset() == names.to_multiset(),
        order::stable_sorted(names, sorts_before()).len() == names.len(),
        !text::text_lt(
            order::stable_sorted(names, sorts_before())[j],
            order::stable_sorted(names, sorts_before())[i],
        ),
{
    order::stable_sorted_keeps_all(names, sorts_before());
    let before = sorts_before();
    assert forall|a: Seq<char>, b: Seq<char>| #[trigger] before(a, b) implies !before(b, a) by {
        if before(b, a) {
            text::lemma_text_lt_transitive(a, b, a);
            text::lemma_text_lt_irreflexive(a);
        }
    }
    assert forall|a: Seq<char>, b: Seq<char>, c: Seq<char>|
        #![trigger before(a, b), before(c, b)]
        before(a, b) && !before(c, b) implies before(a, c) by {
        text::lemma_text_lt_total(c, b);
        if c != b {
            text::lemma_text_lt_transitive(a, b, c);
        }
    }
    order::stable_sorted_is_ordered(names, before);
    let sorted = order::stable_sorted(names, before);
    assert(!before(sorted[j], sorted[i]));
}

} // verus!
