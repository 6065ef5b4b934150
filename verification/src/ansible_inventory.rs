//! Inventory groups and the hosts they name.

use vstd::prelude::*;
use crate::resources;
use crate::resources::{GenericMap, SshConfig, Toleration};
use crate::text;
use crate::text::{clone_strings, contains_text};

verus! {

/// A resource that resolves to groups of hosts.
pub trait AnsibleInventory {
    fn get_hosts(&self) -> Vec<ResolvedHosts>;
}

/// How a run reaches a group's hosts: a cluster Node through a per-run managed-ssh proxy pod, or an
/// external machine through its `StaticInventory`'s own key.
#[derive(Debug, Clone, Copy, PartialEq, Eq, Structural)]
pub enum HostConnection {
    /// A cluster Node, reached through a per-run managed-ssh proxy pod.
    ManagedSsh,
    /// An external machine, reached directly with a `StaticInventory`'s own key.
    Ssh,
}

/// A group's hosts by name. `connection` is recorded only by [`flatten_hosts`]; absent reads as
/// "not known to be a Node".
#[derive(Debug, Clone, PartialEq, Eq)]
pub struct ResolvedHosts {
    pub name: String,
    pub hosts: Vec<String>,
    pub connection: Option<HostConnection>,
}

impl Default for ResolvedHosts {
    fn default() -> (res: Self)
        ensures
            res.name@ == Seq::<char>::empty(),
            res.hosts@ == Seq::<String>::empty(),
            res.connection is None,
    {
        ResolvedHosts { name: String::new(), hosts: Vec::new(), connection: None }
    }
}

impl ResolvedHosts {
    /// Whether two groups have the same name, hosts and connection.
    pub open spec fn same(&self, other: &ResolvedHosts) -> bool {
        &&& self.name == other.name
        &&& self.hosts@ == other.hosts@
        &&& self.connection == other.connection
    }

    /// A copy.
    pub fn copy(&self) -> (res: Self)
        ensures
            res.same(self),
    {
        ResolvedHosts {
            name: self.name.clone(),
            hosts: clone_strings(&self.hosts),
            connection: self.connection,
        }
    }
}

/// A copy of a list of groups.
pub fn copy_groups(groups: &[ResolvedHosts]) -> (res: Vec<ResolvedHosts>)
    ensures
        res@.len() == groups@.len(),
        forall|i: int| 0 <= i < groups@.len() ==> (#[trigger] res@[i]).same(&groups@[i]),
{
    let mut out: Vec<ResolvedHosts> = Vec::new();
    let mut i: usize = 0;
    while i < groups.len()
        invariant
            i <= groups@.len(),
            out@.len() == i,
            forall|j: int| 0 <= j < i ==> (#[trigger] out@[j]).same(&groups@[j]),
        decreases groups.len() - i,
    {
        out.push(groups[i].copy());
        i = i + 1;
    }
    out
}

/// Every host the groups list, in order, repeats included.
pub open spec fn all_hosts(groups: Seq<ResolvedHosts>) -> Seq<Seq<char>>
    decreases groups.len(),
{
    if groups.len() == 0 {
        Seq::empty()
    } else {
        all_hosts(groups.drop_last()) + text::texts(groups.last().hosts@)
    }
}

/// The texts of `s`, each where it is first seen.
pub open spec fn distinct(s: Seq<Seq<char>>) -> Seq<Seq<char>>
    decreases s.len(),
{
    if s.len() == 0 {
        Seq::empty()
    } else {
        let before = distinct(s.drop_last());
        if before.contains(s.last()) {
            before
        } else {
            before.push(s.last())
        }
    }
}

/// Taking each text where it is first seen keeps exactly the texts there are, and none twice.
pub proof fn distinct_keeps_each_once(s: Seq<Seq<char>>)
    ensures
        distinct(s).no_duplicates(),
        forall|k: Seq<char>| distinct(s).contains(k) <==> s.contains(k),
        distinct(s).len() <= s.len(),
    decreases s.len(),
{
    if s.len() > 0 {
        let head = s.drop_last();
        distinct_keeps_each_once(head);
        let before = distinct(head);
        let all = distinct(s);
        assert(s =~= head.push(s.last()));
        assert forall|k: Seq<char>| all.contains(k) <==> s.contains(k) by {
            if s.contains(k) {
                let i = choose|i: int| 0 <= i < s.len() && s[i] == k;
                if i < head.len() {
                    assert(head[i] == k);
                    assert(head.contains(k));
                    assert(before.contains(k));
                    let j = choose|j: int| 0 <= j < before.len() && before[j] == k;
                    assert(all[j] == k);
                } else if !before.contains(k) {
                    assert(all[all.len() - 1] == k);
                }
            }
            if all.contains(k) {
                let j = choose|j: int| 0 <= j < all.len() && all[j] == k;
                if j < before.len() {
                    assert(before[j] == k);
                    assert(head.contains(k));
                    let i = choose|i: int| 0 <= i < head.len() && head[i] == k;
                    assert(s[i] == k);
                } else {
                    assert(s[s.len() - 1] == k);
                }
            }
        }
    }
}

/// The hosts of the groups that are recorded as cluster Nodes, in order, repeats included.
pub open spec fn recorded_nodes(groups: Seq<ResolvedHosts>) -> Seq<Seq<char>>
    decreases groups.len(),
{
    if groups.len() == 0 {
        Seq::empty()
    } else {
        recorded_nodes(groups.drop_last()) + if groups.last().connection == Some(
            HostConnection::ManagedSsh,
        ) {
            text::texts(groups.last().hosts@)
        } else {
            Seq::empty()
        }
    }
}

/// Adds to `out` the strings of `more` that it does not hold yet, in order.
fn extend_distinct(out: &mut Vec<String>, more: &[String], Ghost(seen): Ghost<Seq<Seq<char>>>)
    requires
        text::texts(old(out)@) == distinct(seen),
    ensures
        text::texts(final(out)@) == distinct(seen + text::texts(more@)),
{
    let ghost added = text::texts(more@);
    let mut i: usize = 0;
    assert(seen + added.take(0) =~= seen);
    while i < more.len()
        invariant
            added == text::texts(more@),
            i <= more@.len(),
            text::texts(out@) == distinct(seen + added.take(i as int)),
        decreases more.len() - i,
    {
        let ghost longer = seen + added.take(i + 1);
        assert(longer.drop_last() =~= seen + added.take(i as int));
        assert(longer.last() == more@[i as int]@);
        if !contains_text(out, more[i].as_str()) {
            let ghost before = text::texts(out@);
            out.push(more[i].clone());
            assert(text::texts(out@) =~= before.push(more@[i as int]@));
        }
        i = i + 1;
    }
    assert(added.take(i as int) =~= added);
}

/// The hosts a group list names, each one exactly once, in first-seen order.
pub fn distinct_hosts(groups: &[ResolvedHosts]) -> (res: Vec<String>)
    ensures
        text::texts(res@) == distinct(all_hosts(groups@)),
{
    let mut out: Vec<String> = Vec::new();
    let mut i: usize = 0;
    assert(text::texts(out@) =~= distinct(all_hosts(groups@.take(0))));
    while i < groups.len()
        invariant
            i <= groups@.len(),
            text::texts(out@) == distinct(all_hosts(groups@.take(i as int))),
        decreases groups.len() - i,
    {
        assert(groups@.take(i + 1).drop_last() =~= groups@.take(i as int));
        extend_distinct(&mut out, &groups[i].hosts, Ghost(all_hosts(groups@.take(i as int))));
        i = i + 1;
    }
    assert(groups@.take(i as int) =~= groups@);
    out
}

/// How many distinct hosts a group list names.
pub fn distinct_host_count(groups: &[ResolvedHosts]) -> (res: usize)
    ensures
        res == distinct(all_hosts(groups@)).len(),
{
    distinct_hosts(groups).len()
}

/// The keys of the JSON object that a text writes down, in the order `serde_json` lists them, or
/// none where the text is not a JSON object.
pub uninterp spec fn json_object_keys(json: Seq<char>) -> Option<Seq<Seq<char>>>;

/// `serde_json::from_str` into a `Value`, then `Value::as_object` and `Map::keys`: the keys of the
/// object, a function of the text alone.
#[verifier::external_body]
pub(crate) fn object_keys(json: &str) -> (res: Option<Vec<String>>)
    ensures
        match res {
            Some(keys) => json_object_keys(json@) == Some(text::texts(keys@)),
            None => json_object_keys(json@) is None,
        },
{
    let value = serde_json::from_str::<serde_json::Value>(json).ok()?;
    let object = value.as_object()?;
    Some(object.keys().cloned().collect())
}

/// Whether variables with these keys reach the rendered inventory: a mapping with at least one
/// entry.
pub open spec fn keys_render(keys: Option<Seq<Seq<char>>>) -> bool {
    keys matches Some(keys) && keys.len() > 0
}

/// Whether variables with these keys reach the rendered inventory: a mapping with at least one
/// entry.
pub fn renders_keys(keys: &Option<Vec<String>>) -> (res: bool)
    ensures
        res == (keys matches Some(list) && list@.len() > 0),
{
    match keys {
        Some(list) => list.len() > 0,
        None => false,
    }
}

/// Whether a group's `variables` reach the rendered inventory at all: the value has to be a mapping
/// with at least one entry.
pub fn renders_group_vars(variables: &GenericMap) -> (res: bool)
    ensures
        res == keys_render(json_object_keys(variables.json@)),
{
    renders_keys(&object_keys(variables.json.as_str()))
}

/// A resolved inventory group tagged with the mechanism that reaches its hosts.
#[derive(Debug, Clone, PartialEq, Eq)]
pub enum ResolvedInventoryGroup {
    ManagedSsh {
        hosts: ResolvedHosts,
        tolerations: Option<Vec<Toleration>>,
        /// Author-supplied group variables from the owning `ClusterInventory`.
        variables: Option<GenericMap>,
    },
    Ssh {
        hosts: ResolvedHosts,
        /// Name of the owning `StaticInventory`.
        static_inventory_name: String,
        config: SshConfig,
        /// Author-supplied group variables from the owning `StaticInventory`.
        variables: Option<GenericMap>,
    },
}

impl ResolvedInventoryGroup {
    pub open spec fn hosts_of(&self) -> ResolvedHosts {
        match self {
            ResolvedInventoryGroup::ManagedSsh { hosts, .. } => *hosts,
            ResolvedInventoryGroup::Ssh { hosts, .. } => *hosts,
        }
    }

    pub open spec fn connection_of(&self) -> HostConnection {
        match self {
            ResolvedInventoryGroup::ManagedSsh { .. } => HostConnection::ManagedSsh,
            ResolvedInventoryGroup::Ssh { .. } => HostConnection::Ssh,
        }
    }

    pub open spec fn variables_of(&self) -> Option<GenericMap> {
        match self {
            ResolvedInventoryGroup::ManagedSsh { variables, .. } => *variables,
            ResolvedInventoryGroup::Ssh { variables, .. } => *variables,
        }
    }

    /// The hostnames of the group.
    pub open spec fn names(&self) -> Seq<Seq<char>> {
        text::texts(self.hosts_of().hosts@)
    }

    /// Whether two groups are reached the same way and carry the same configuration, their hosts
    /// aside.
    pub open spec fn same_config(&self, other: &ResolvedInventoryGroup) -> bool {
        match (self, other) {
            (
                ResolvedInventoryGroup::ManagedSsh { tolerations: t1, variables: v1, .. },
                ResolvedInventoryGroup::ManagedSsh { tolerations: t2, variables: v2, .. },
            ) => resources::listed_tolerations(*t1) == resources::listed_tolerations(*t2) && v1
                == v2,
            (
                ResolvedInventoryGroup::Ssh {
                    static_inventory_name: n1,
                    config: c1,
                    variables: v1,
                    ..
                },
                ResolvedInventoryGroup::Ssh {
                    static_inventory_name: n2,
                    config: c2,
                    variables: v2,
                    ..
                },
            ) => n1 == n2 && c1 == c2 && v1 == v2,
            _ => false,
        }
    }

    pub fn hosts(&self) -> (res: &ResolvedHosts)
        ensures
            *res == self.hosts_of(),
    {
        match self {
            ResolvedInventoryGroup::ManagedSsh { hosts, .. } => hosts,
            ResolvedInventoryGroup::Ssh { hosts, .. } => hosts,
        }
    }

    /// How this group's hosts are reached.
    pub fn connection(&self) -> (res: HostConnection)
        ensures
            res == self.connection_of(),
    {
        match self {
            ResolvedInventoryGroup::ManagedSsh { .. } => HostConnection::ManagedSsh,
            ResolvedInventoryGroup::Ssh { .. } => HostConnection::Ssh,
        }
    }

    /// Author-supplied group variables, if any.
    pub fn variables(&self) -> (res: Option<&GenericMap>)
        ensures
            match res {
                Some(v) => self.variables_of() == Some(*v),
                None => self.variables_of() is None,
            },
    {
        match self {
            ResolvedInventoryGroup::ManagedSsh { variables, .. } => variables.as_ref(),
            ResolvedInventoryGroup::Ssh { variables, .. } => variables.as_ref(),
        }
    }
}

/// Projects resolved groups to their flat host lists, recording on each how it is reached.
pub fn flatten_hosts(groups: &[ResolvedInventoryGroup]) -> (res: Vec<ResolvedHosts>)
    ensures
        res@.len() == groups@.len(),
        forall|i: int|
            0 <= i < groups@.len() ==> (#[trigger] res@[i]).name == groups@[i].hosts_of().name
                && res@[i].hosts@ == groups@[i].hosts_of().hosts@ && res@[i].connection == Some(
                groups@[i].connection_of(),
            ),
{
    let mut out: Vec<ResolvedHosts> = Vec::new();
    let mut i: usize = 0;
    while i < groups.len()
        invariant
            i <= groups@.len(),
            out@.len() == i,
            forall|j: int|
                0 <= j < i ==> (#[trigger] out@[j]).name == groups@[j].hosts_of().name
                    && out@[j].hosts@ == groups@[j].hosts_of().hosts@ && out@[j].connection == Some(
                    groups@[j].connection_of(),
                ),
        decreases groups.len() - i,
    {
        let mut hosts = groups[i].hosts().copy();
        hosts.connection = Some(groups[i].connection());
        out.push(hosts);
        i = i + 1;
    }
    out
}

fn is_node_group(group: &ResolvedHosts) -> (res: bool)
    ensures
        res == (group.connection == Some(HostConnection::ManagedSsh)),
{
    match group.connection {
        Some(connection) => connection == HostConnection::ManagedSsh,
        None => false,
    }
}

/// The hosts of `groups` that are cluster Nodes, as recorded by [`flatten_hosts`], each once.
pub fn node_hosts(groups: &[ResolvedHosts]) -> (res: Vec<String>)
    ensures
        text::texts(res@) == distinct(recorded_nodes(groups@)),
{
    let mut out: Vec<String> = Vec::new();
    let mut i: usize = 0;
    assert(text::texts(out@) =~= distinct(recorded_nodes(groups@.take(0))));
    while i < groups.len()
        invariant
            i <= groups@.len(),
            text::texts(out@) == distinct(recorded_nodes(groups@.take(i as int))),
        decreases groups.len() - i,
    {
        let ghost before = recorded_nodes(groups@.take(i as int));
        assert(groups@.take(i + 1).drop_last() =~= groups@.take(i as int));
        if is_node_group(&groups[i]) {
            extend_distinct(&mut out, &groups[i].hosts, Ghost(before));
        } else {
            assert(before + Seq::<Seq<char>>::empty() =~= before);
        }
        i = i + 1;
    }
    assert(groups@.take(i as int) =~= groups@);
    out
}

/// [`node_hosts`]' question asked about one host, without building the list.
pub fn is_node_host(groups: &[ResolvedHosts], host: &str) -> (res: bool)
    ensures
        res == recorded_nodes(groups@).contains(host@),
{
    let mut i: usize = 0;
    assert(!recorded_nodes(groups@.take(0)).contains(host@));
    while i < groups.len()
        invariant
            i <= groups@.len(),
            !recorded_nodes(groups@.take(i as int)).contains(host@),
        decreases groups.len() - i,
    {
        let ghost shorter = groups@.take(i as int);
        let ghost longer = groups@.take(i + 1);
        assert(longer.drop_last() =~= shorter);
        if is_node_group(&groups[i]) {
            let ghost names = text::texts(groups@[i as int].hosts@);
            proof {
                lemma_concat_contains(recorded_nodes(shorter), names, host@);
            }
            if contains_text(&groups[i].hosts, host) {
                proof {
                    lemma_recorded_prefix(groups@, i + 1, host@);
                }
                return true;
            }
        } else {
            assert(recorded_nodes(longer) =~= recorded_nodes(shorter));
        }
        i = i + 1;
    }
    assert(groups@.take(i as int) =~= groups@);
    false
}

proof fn lemma_concat_contains(a: Seq<Seq<char>>, b: Seq<Seq<char>>, k: Seq<char>)
    ensures
        (a + b).contains(k) <==> a.contains(k) || b.contains(k),
{
    let c = a + b;
    if a.contains(k) {
        let i = choose|i: int| 0 <= i < a.len() && a[i] == k;
        assert(c[i] == k);
    }
    if b.contains(k) {
        let i = choose|i: int| 0 <= i < b.len() && b[i] == k;
        assert(c[a.len() + i] == k);
    }
    if c.contains(k) {
        let i = choose|i: int| 0 <= i < c.len() && c[i] == k;
        if i < a.len() {
            assert(a[i] == k);
        } else {
            assert(b[i - a.len()] == k);
        }
    }
}

proof fn lemma_recorded_prefix(groups: Seq<ResolvedHosts>, i: int, k: Seq<char>)
    requires
        0 <= i <= groups.len(),
        recorded_nodes(groups.take(i)).contains(k),
    ensures
        recorded_nodes(groups).contains(k),
    decreases groups.len() - i,
{
    if i == groups.len() {
        assert(groups.take(i) =~= groups);
    } else {
        let longer = groups.take(i + 1);
        assert(longer.drop_last() =~= groups.take(i));
        lemma_concat_contains(
            recorded_nodes(groups.take(i)),
            if longer.last().connection == Some(HostConnection::ManagedSsh) {
                text::texts(longer.last().hosts@)
            } else {
                Seq::empty()
            },
            k,
        );
        lemma_recorded_prefix(groups, i + 1, k);
    }
}

/// Asking about one host and listing the Node hosts give the same answer.
pub proof fn node_host_question_agrees(groups: Seq<ResolvedHosts>, host: Seq<char>)
    ensures
        distinct(recorded_nodes(groups)).contains(host) <==> recorded_nodes(groups).contains(host),
        distinct(recorded_nodes(groups)).no_duplicates(),
{
    distinct_keeps_each_once(recorded_nodes(groups));
}

/// The hosts of the managed-ssh groups, in order, repeats included.
pub open spec fn managed_hosts(groups: Seq<ResolvedInventoryGroup>) -> Seq<Seq<char>>
    decreases groups.len(),
{
    if groups.len() == 0 {
        Seq::empty()
    } else {
        managed_hosts(groups.drop_last()) + if groups.last() is ManagedSsh {
            groups.last().names()
        } else {
            Seq::empty()
        }
    }
}

/// The hosts of the managed-ssh groups: the cluster Nodes a run targets.
pub fn managed_ssh_node_names(groups: &[ResolvedInventoryGroup]) -> (res: Vec<String>)
    ensures
        text::texts(res@) == managed_hosts(groups@),
{
    let mut out: Vec<String> = Vec::new();
    let mut i: usize = 0;
    assert(text::texts(out@) =~= managed_hosts(groups@.take(0)));
    while i < groups.len()
        invariant
            i <= groups@.len(),
            text::texts(out@) == managed_hosts(groups@.take(i as int)),
        decreases groups.len() - i,
    {
        let ghost longer = groups@.take(i + 1);
        assert(longer.drop_last() =~= groups@.take(i as int));
        assert(longer.last() == groups@[i as int]);
        if let ResolvedInventoryGroup::ManagedSsh { hosts, .. } = &groups[i] {
            let ghost before = out@;
            let mut names = clone_strings(&hosts.hosts);
            out.append(&mut names);
            assert(text::texts(out@) =~= text::texts(before) + text::texts(hosts.hosts@));
        } else {
            assert(managed_hosts(longer) =~= managed_hosts(groups@.take(i as int)));
        }
        i = i + 1;
    }
    assert(groups@.take(i as int) =~= groups@);
    out
}

/// No host is counted twice, and every host some group lists is counted.
pub proof fn each_host_counts_once(groups: Seq<ResolvedHosts>)
    ensures
        distinct(all_hosts(groups)).no_duplicates(),
        forall|k: Seq<char>|
            distinct(all_hosts(groups)).contains(k) <==> all_hosts(groups).contains(k),
{
    distinct_keeps_each_once(all_hosts(groups));
}

// --- what the lists hold ---------------------------------------------------------------------

/// A host is listed exactly where some group lists it, and a list of groups lists its hosts one group
/// after the other.
pub proof fn hosts_are_listed_by_their_groups(
    groups: Seq<ResolvedHosts>,
    more: Seq<ResolvedHosts>,
    host: Seq<char>,
)
    ensures
        all_hosts(groups).contains(host) <==> exists|g: int, h: int|
            0 <= g < groups.len() && 0 <= h < groups[g].hosts@.len() && (
            #[trigger] groups[g].hosts@[h])@ == host,
        all_hosts(groups + more) == all_hosts(groups) + all_hosts(more),
    decreases more.len(), groups.len(),
{
    if more.len() > 0 {
        hosts_are_listed_by_their_groups(groups, more.drop_last(), host);
        assert((groups + more).drop_last() =~= groups + more.drop_last());
        assert(all_hosts(groups + more) =~= all_hosts(groups) + all_hosts(more));
    } else {
        assert(groups + more =~= groups);
        assert(all_hosts(groups) + all_hosts(more) =~= all_hosts(groups));
        if groups.len() > 0 {
            let last = groups.len() - 1;
            let rest = groups.drop_last();
            hosts_are_listed_by_their_groups(rest, more, host);
            let names = text::texts(groups[last].hosts@);
            if all_hosts(groups).contains(host) {
                let i = choose|i: int| 0 <= i < all_hosts(groups).len() && all_hosts(groups)[i] == host;
                if i < all_hosts(rest).len() {
                    assert(all_hosts(rest)[i] == host);
                    let (g, h) = choose|g: int, h: int|
                        0 <= g < rest.len() && 0 <= h < rest[g].hosts@.len() && (
                        #[trigger] rest[g].hosts@[h])@ == host;
                    assert(groups[g].hosts@[h]@ == host);
                } else {
                    let h = i - all_hosts(rest).len();
                    assert(names[h] == host);
                    assert(groups[last].hosts@[h]@ == host);
                }
            }
            if exists|g: int, h: int|
                0 <= g < groups.len() && 0 <= h < groups[g].hosts@.len() && (
                #[trigger] groups[g].hosts@[h])@ == host {
                let (g, h) = choose|g: int, h: int|
                    0 <= g < groups.len() && 0 <= h < groups[g].hosts@.len() && (
                    #[trigger] groups[g].hosts@[h])@ == host;
                if g == last {
                    assert(names[h] == host);
                    assert(all_hosts(groups)[all_hosts(rest).len() + h] == host);
                } else {
                    assert(rest[g].hosts@[h]@ == host);
                    let i = choose|i: int|
                        0 <= i < all_hosts(rest).len() && all_hosts(rest)[i] == host;
                    assert(all_hosts(groups)[i] == host);
                }
            }
        }
    }
}

/// A host is recorded as a Node exactly where a group that says it is reached as one lists it.
pub proof fn nodes_are_recorded_by_their_groups(groups: Seq<ResolvedHosts>, host: Seq<char>)
    ensures
        recorded_nodes(groups).contains(host) <==> exists|g: int, h: int|
            0 <= g < groups.len() && groups[g].connection == Some(HostConnection::ManagedSsh) && 0
                <= h < groups[g].hosts@.len() && (#[trigger] groups[g].hosts@[h])@ == host,
    decreases groups.len(),
{
    if groups.len() > 0 {
        let last = groups.len() - 1;
        let rest = groups.drop_last();
        nodes_are_recorded_by_their_groups(rest, host);
        let names = text::texts(groups[last].hosts@);
        let all = recorded_nodes(groups);
        if all.contains(host) {
            let i = choose|i: int| 0 <= i < all.len() && all[i] == host;
            if i < recorded_nodes(rest).len() {
                assert(recorded_nodes(rest)[i] == host);
                let (g, h) = choose|g: int, h: int|
                    0 <= g < rest.len() && rest[g].connection == Some(HostConnection::ManagedSsh)
                        && 0 <= h < rest[g].hosts@.len() && (#[trigger] rest[g].hosts@[h])@ == host;
                assert(groups[g].hosts@[h]@ == host);
            } else {
                let h = i - recorded_nodes(rest).len();
                assert(names[h] == host);
                assert(groups[last].hosts@[h]@ == host);
            }
        }
        if exists|g: int, h: int|
            0 <= g < groups.len() && groups[g].connection == Some(HostConnection::ManagedSsh) && 0
                <= h < groups[g].hosts@.len() && (#[trigger] groups[g].hosts@[h])@ == host {
            let (g, h) = choose|g: int, h: int|
                0 <= g < groups.len() && groups[g].connection == Some(HostConnection::ManagedSsh)
                    && 0 <= h < groups[g].hosts@.len() && (#[trigger] groups[g].hosts@[h])@ == host;
            if g == last {
                assert(names[h] == host);
                assert(all[recorded_nodes(rest).len() + h] == host);
            } else {
                assert(rest[g].hosts@[h]@ == host);
                let i = choose|i: int|
                    0 <= i < recorded_nodes(rest).len() && recorded_nodes(rest)[i] == host;
                assert(all[i] == host);
            }
        }
    }
}

/// A host is reached as a Node exactly where a managed-ssh group lists it.
pub proof fn nodes_are_reached_by_their_groups(groups: Seq<ResolvedInventoryGroup>, host: Seq<char>)
    ensures
        managed_hosts(groups).contains(host) <==> exists|g: int, h: int|
            0 <= g < groups.len() && groups[g] is ManagedSsh && 0 <= h
                < groups[g]->ManagedSsh_hosts.hosts@.len() && (
            #[trigger] groups[g]->ManagedSsh_hosts.hosts@[h])@ == host,
    decreases groups.len(),
{
    if groups.len() > 0 {
        let last = groups.len() - 1;
        let rest = groups.drop_last();
        nodes_are_reached_by_their_groups(rest, host);
        let all = managed_hosts(groups);
        if all.contains(host) {
            let i = choose|i: int| 0 <= i < all.len() && all[i] == host;
            if i < managed_hosts(rest).len() {
                assert(managed_hosts(rest)[i] == host);
                let (g, h) = choose|g: int, h: int|
                    0 <= g < rest.len() && rest[g] is ManagedSsh && 0 <= h
                        < rest[g]->ManagedSsh_hosts.hosts@.len() && (
                    #[trigger] rest[g]->ManagedSsh_hosts.hosts@[h])@ == host;
                assert(groups[g]->ManagedSsh_hosts.hosts@[h]@ == host);
            } else {
                let h = i - managed_hosts(rest).len();
                assert(groups[last].names()[h] == host);
                assert(groups[last]->ManagedSsh_hosts.hosts@[h]@ == host);
            }
        }
        if exists|g: int, h: int|
            0 <= g < groups.len() && groups[g] is ManagedSsh && 0 <= h
                < groups[g]->ManagedSsh_hosts.hosts@.len() && (
            #[trigger] groups[g]->ManagedSsh_hosts.hosts@[h])@ == host {
            let (g, h) = choose|g: int, h: int|
                0 <= g < groups.len() && groups[g] is ManagedSsh && 0 <= h
                    < groups[g]->ManagedSsh_hosts.hosts@.len() && (
                #[trigger] groups[g]->ManagedSsh_hosts.hosts@[h])@ == host;
            if g == last {
                assert(groups[last].names()[h] == host);
                assert(all[managed_hosts(rest).len() + h] == host);
            } else {
                assert(rest[g]->ManagedSsh_hosts.hosts@[h]@ == host);
                let i = choose|i: int|
                    0 <= i < managed_hosts(rest).len() && managed_hosts(rest)[i] == host;
                assert(all[i] == host);
            }
        }
    }
}

/// Hosts are counted in the order in which they are first listed: what is listed later never moves what
/// was listed before, and only what is new is added.
pub proof fn first_listed_comes_first(s: Seq<Seq<char>>, host: Seq<char>)
    ensures
        distinct(s.push(host)) == if s.contains(host) {
            distinct(s)
        } else {
            distinct(s).push(host)
        },
        distinct(Seq::<Seq<char>>::empty()).len() == 0,
{
    assert(s.push(host).drop_last() =~= s);
    distinct_keeps_each_once(s);
}

/// How a group's hosts are reached, and under which name and variables, is what its inventory said.
pub proof fn a_group_is_what_its_inventory_made_it(group: ResolvedInventoryGroup)
    ensures
        group matches ResolvedInventoryGroup::ManagedSsh { hosts, variables, .. } ==> group.hosts_of()
            == hosts && group.variables_of() == variables && group.connection_of()
            is ManagedSsh,
        group matches ResolvedInventoryGroup::Ssh { hosts, variables, .. } ==> group.hosts_of()
            == hosts && group.variables_of() == variables && group.connection_of() is Ssh,
        group.names().len() == group.hosts_of().hosts@.len(),
        forall|h: int|
            0 <= h < group.hosts_of().hosts@.len() ==> #[trigger] group.names()[h]
                == group.hosts_of().hosts@[h]@,
{
}

/// Groups that are configured alike are reached alike, with the same variables: as Nodes under the same
/// tolerations, or from outside with the same inventory's access.
pub proof fn groups_configured_alike_are_reached_alike(
    a: ResolvedInventoryGroup,
    b: ResolvedInventoryGroup,
    one: ResolvedHosts,
    other: ResolvedHosts,
)
    ensures
        a.same_config(&b) ==> a.variables_of() == b.variables_of() && (a is Ssh <==> b is Ssh),
        a.same_config(&b) && a is Ssh ==> a->static_inventory_name == b->static_inventory_name
            && a->config == b->config,
        a.same_config(&b) && a is ManagedSsh ==> resources::listed_tolerations(a->tolerations)
            == resources::listed_tolerations(b->tolerations),
        a.same_config(&a),
        one.same(&other) ==> one.name == other.name && one.hosts@ == other.hosts@ && one.connection
            == other.connection,
        one.same(&one),
{
}

} // verus!
