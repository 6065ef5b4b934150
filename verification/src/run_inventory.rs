//! The hosts of a run: what a plan's inventories resolve to, and the part of it a run targets.

use vstd::prelude::*;
use crate::ansible_inventory;
use crate::ansible_inventory::{
    distinct_hosts, managed_ssh_node_names, object_keys, AnsibleInventory,
    ResolvedHosts, ResolvedInventoryGroup,
};
use crate::cluster_inventory::ClusterInventory;
use crate::digests;
use crate::execution_evaluator;
use crate::execution_evaluator::{
    calculate_execution_hash, ExecutionHash, GroupVariables, SecretData,
};
use crate::job_builder;
use crate::job_builder::{extract_secret_names_for_files, extract_secret_names_for_variables};
use crate::plans::{PlaybookPlan, ReconcileError};
use crate::resources;
use crate::resources::{
    copy_tolerations, copy_variables, GenericMap, InventoryHosts, LabelMap, StaticInventory,
    StaticInventoryHosts, Toleration,
};
use crate::seqs;
use crate::text;
use crate::text::{clone_strings, contains_text, text_eq};

verus! {

// --- which inventories -----------------------------------------------------------------------

/// The texts that are there, in order.
pub open spec fn present(texts: Seq<Option<Seq<char>>>) -> Seq<Seq<char>>
    decreases texts.len(),
{
    if texts.len() == 0 {
        Seq::empty()
    } else {
        match texts.last() {
            Some(t) => present(texts.drop_last()).push(t),
            None => present(texts.drop_last()),
        }
    }
}

/// The `ClusterInventory` resources a plan names, in order.
pub open spec fn cluster_names(plan: PlaybookPlan) -> Seq<Seq<char>> {
    present(
        plan.spec.inventory_refs@.map_values(
            |r: crate::plans::InventoryRef| text::text_of(r.cluster_inventory),
        ),
    )
}

/// The `StaticInventory` resources a plan names, in order.
pub open spec fn static_names(plan: PlaybookPlan) -> Seq<Seq<char>> {
    present(
        plan.spec.inventory_refs@.map_values(
            |r: crate::plans::InventoryRef| text::text_of(r.static_inventory),
        ),
    )
}

/// The `ClusterInventory` resources a plan names, in order.
pub fn cluster_inventory_names(plan: &PlaybookPlan) -> (res: Vec<String>)
    ensures
        text::texts(res@) == cluster_names(*plan),
{
    let refs = &plan.spec.inventory_refs;
    let ghost named = refs@.map_values(
        |r: crate::plans::InventoryRef| text::text_of(r.cluster_inventory),
    );
    let mut names: Vec<String> = Vec::new();
    let mut i: usize = 0;
    assert(named.take(0) =~= Seq::<Option<Seq<char>>>::empty());
    assert(text::texts(names@) =~= Seq::<Seq<char>>::empty());
    while i < refs.len()
        invariant
            i <= refs@.len(),
            named == refs@.map_values(
                |r: crate::plans::InventoryRef| text::text_of(r.cluster_inventory),
            ),
            text::texts(names@) == present(named.take(i as int)),
        decreases refs.len() - i,
    {
        let ghost before = text::texts(names@);
        assert(named.take(i + 1).drop_last() =~= named.take(i as int));
        if let Some(name) = &refs[i].cluster_inventory {
            names.push(name.clone());
            assert(text::texts(names@) =~= before.push(name@));
        }
        i = i + 1;
    }
    assert(named.take(i as int) =~= named);
    names
}

/// The `StaticInventory` resources a plan names, in order.
pub fn static_inventory_names(plan: &PlaybookPlan) -> (res: Vec<String>)
    ensures
        text::texts(res@) == static_names(*plan),
{
    let refs = &plan.spec.inventory_refs;
    let ghost named = refs@.map_values(
        |r: crate::plans::InventoryRef| text::text_of(r.static_inventory),
    );
    let mut names: Vec<String> = Vec::new();
    let mut i: usize = 0;
    assert(named.take(0) =~= Seq::<Option<Seq<char>>>::empty());
    assert(text::texts(names@) =~= Seq::<Seq<char>>::empty());
    while i < refs.len()
        invariant
            i <= refs@.len(),
            named == refs@.map_values(
                |r: crate::plans::InventoryRef| text::text_of(r.static_inventory),
            ),
            text::texts(names@) == present(named.take(i as int)),
        decreases refs.len() - i,
    {
        let ghost before = text::texts(names@);
        assert(named.take(i + 1).drop_last() =~= named.take(i as int));
        if let Some(name) = &refs[i].static_inventory {
            names.push(name.clone());
            assert(text::texts(names@) =~= before.push(name@));
        }
        i = i + 1;
    }
    assert(named.take(i as int) =~= named);
    names
}

// --- what they resolve to --------------------------------------------------------------------

/// A group by its texts.
pub ghost struct GroupView {
    pub name: Seq<char>,
    pub hosts: Seq<Seq<char>>,
    /// The connection recorded with the hosts, which those of external machines leave out.
    pub connection: Option<ansible_inventory::HostConnection>,
    pub access: AccessView,
    pub variables: Option<Seq<char>>,
}

/// How a group is reached, by its texts.
pub ghost enum AccessView {
    Managed { tolerations: Option<Seq<Toleration>> },
    Ssh { inventory: Seq<char>, user: Seq<char>, secret: Seq<char> },
}

/// The text of optional variables.
pub open spec fn variables_text(variables: Option<GenericMap>) -> Option<Seq<char>> {
    match variables {
        Some(variables) => Some(variables.json@),
        None => None,
    }
}

/// A group by its texts.
pub open spec fn group_view(group: ResolvedInventoryGroup) -> GroupView {
    GroupView {
        name: group.hosts_of().name@,
        hosts: group.names(),
        connection: group.hosts_of().connection,
        access: match group {
            ResolvedInventoryGroup::ManagedSsh { tolerations, .. } => AccessView::Managed {
                tolerations: resources::listed_tolerations(tolerations),
            },
            ResolvedInventoryGroup::Ssh { static_inventory_name, config, .. } => AccessView::Ssh {
                inventory: static_inventory_name@,
                user: config.user@,
                secret: config.secret_ref.name@,
            },
        },
        variables: variables_text(group.variables_of()),
    }
}

/// The groups by their texts.
pub open spec fn group_views(groups: Seq<ResolvedInventoryGroup>) -> Seq<GroupView> {
    groups.map_values(|group: ResolvedInventoryGroup| group_view(group))
}

/// The variables an author gave a group of this name: of several that did, the last.
pub open spec fn variables_named(hosts: Seq<InventoryHosts>, name: Seq<char>) -> Option<Seq<char>>
    decreases hosts.len(),
{
    if hosts.len() == 0 {
        None
    } else if hosts.last().name@ == name && hosts.last().variables is Some {
        variables_text(hosts.last().variables)
    } else {
        variables_named(hosts.drop_last(), name)
    }
}

/// A group of Nodes as a run sees it.
pub open spec fn managed_view(
    hosts: Seq<InventoryHosts>,
    tolerations: Option<Seq<Toleration>>,
    resolved: ResolvedHosts,
) -> GroupView {
    GroupView {
        name: resolved.name@,
        hosts: text::texts(resolved.hosts@),
        connection: resolved.connection,
        access: AccessView::Managed { tolerations },
        variables: variables_named(hosts, resolved.name@),
    }
}

/// The groups of Nodes an inventory last resolved to.
pub open spec fn resolved_groups(inventory: ClusterInventory) -> Seq<ResolvedHosts> {
    match inventory.status {
        Some(status) => status.resolved_hosts@,
        None => Seq::empty(),
    }
}

/// The groups of one `ClusterInventory`.
pub open spec fn cluster_views(inventory: ClusterInventory) -> Seq<GroupView> {
    resolved_groups(inventory).map_values(
        |resolved: ResolvedHosts|
            managed_view(
                inventory.spec.hosts@,
                resources::listed_tolerations(inventory.spec.tolerations),
                resolved,
            ),
    )
}

/// The groups of one `StaticInventory`.
pub open spec fn static_views(inventory: StaticInventory) -> Seq<GroupView> {
    inventory.spec.hosts@.map_values(
        |group: StaticInventoryHosts|
            GroupView {
                name: group.name@,
                hosts: text::texts(group.hosts@),
                connection: None,
                access: AccessView::Ssh {
                    inventory: match inventory.metadata.name {
                        Some(name) => name@,
                        None => Seq::empty(),
                    },
                    user: inventory.spec.ssh.user@,
                    secret: inventory.spec.ssh.secret_ref.name@,
                },
                variables: variables_text(group.variables),
            },
    )
}

/// The groups of some `ClusterInventory` resources, in order.
pub open spec fn all_cluster_views(inventories: Seq<ClusterInventory>) -> Seq<GroupView>
    decreases inventories.len(),
{
    if inventories.len() == 0 {
        Seq::empty()
    } else {
        all_cluster_views(inventories.drop_last()) + cluster_views(inventories.last())
    }
}

/// The groups of some `StaticInventory` resources, in order.
pub open spec fn all_static_views(inventories: Seq<StaticInventory>) -> Seq<GroupView>
    decreases inventories.len(),
{
    if inventories.len() == 0 {
        Seq::empty()
    } else {
        all_static_views(inventories.drop_last()) + static_views(inventories.last())
    }
}

/// What a plan's inventories resolve to: the groups of Nodes, then the groups of external hosts.
pub open spec fn resolved_views(
    clusters: Seq<ClusterInventory>,
    statics: Seq<StaticInventory>,
) -> Seq<GroupView> {
    all_cluster_views(clusters) + all_static_views(statics)
}

/// The first reserved variable among these keys.
pub open spec fn first_reserved_key(keys: Option<Seq<Seq<char>>>, reserved: Seq<Seq<char>>) -> Option<
    Seq<char>,
>
    decreases reserved.len(),
{
    if keys is None || reserved.len() == 0 {
        None
    } else if keys->0.contains(reserved[0]) {
        Some(reserved[0])
    } else {
        first_reserved_key(keys, reserved.drop_first())
    }
}

/// The first reserved variable among these keys.
pub fn first_reserved_var(keys: &Option<Vec<String>>, reserved: &[String]) -> (res: Option<String>)
    ensures
        text::text_of(res) == first_reserved_key(
            match keys {
                Some(keys) => Some(text::texts(keys@)),
                None => None,
            },
            text::texts(reserved@),
        ),
{
    let held_keys = match keys {
        Some(held_keys) => held_keys,
        None => {
            return None;
        },
    };
    let ghost listed = text::texts(reserved@);
    let ghost held = Some(text::texts(held_keys@));
    let mut i: usize = 0;
    assert(listed.skip(0) =~= listed);
    while i < reserved.len()
        invariant
            i <= reserved@.len(),
            listed == text::texts(reserved@),
            held == Some(text::texts(held_keys@)),
            *keys == Some(*held_keys),
            first_reserved_key(held, listed) == first_reserved_key(held, listed.skip(i as int)),
        decreases reserved.len() - i,
    {
        assert(listed.skip(i as int)[0] == reserved@[i as int]@);
        if contains_text(held_keys, reserved[i].as_str()) {
            return Some(reserved[i].clone());
        }
        assert(listed.skip(i as int).drop_first() =~= listed.skip(i + 1));
        i = i + 1;
    }
    None
}

/// The reserved variable that variables set, if they do.
pub open spec fn reserved_in(variables: Option<Seq<char>>, reserved: Seq<Seq<char>>) -> Option<Seq<char>> {
    match variables {
        Some(json) => first_reserved_key(ansible_inventory::json_object_keys(json), reserved),
        None => None,
    }
}

/// Refuses a group whose variables set one the operator manages itself.
pub fn reject_reserved_variables(
    group_name: &str,
    variables: Option<&GenericMap>,
    reserved: &[String],
) -> (res: Result<(), ReconcileError>)
    ensures
        ({
            let found = reserved_in(
                match variables {
                    Some(variables) => Some(variables.json@),
                    None => None,
                },
                text::texts(reserved@),
            );
            match res {
                Ok(_) => found is None,
                Err(error) => error matches ReconcileError::ReservedInventoryVariable { group, key }
                    && group@ == group_name@ && found == Some(key@),
            }
        }),
{
    if let Some(variables) = variables {
        let keys = object_keys(variables.json.as_str());
        if let Some(key) = first_reserved_var(&keys, reserved) {
            return Err(
                ReconcileError::ReservedInventoryVariable { group: group_name.to_owned(), key },
            );
        }
    }
    Ok(())
}

/// The first group that sets a reserved variable, and the variable.
pub open spec fn first_violation(groups: Seq<GroupView>, reserved: Seq<Seq<char>>) -> Option<
    (Seq<char>, Seq<char>),
>
    decreases groups.len(),
{
    if groups.len() == 0 {
        None
    } else {
        match first_violation(groups.drop_last(), reserved) {
            Some(found) => Some(found),
            None => match reserved_in(groups.last().variables, reserved) {
                Some(key) => Some((groups.last().name, key)),
                None => None,
            },
        }
    }
}

proof fn lemma_violation_stays(head: Seq<GroupView>, tail: Seq<GroupView>, reserved: Seq<Seq<char>>)
    requires
        first_violation(head, reserved) is Some,
    ensures
        first_violation(head + tail, reserved) == first_violation(head, reserved),
    decreases tail.len(),
{
    let all = head + tail;
    if tail.len() == 0 {
        assert(all =~= head);
    } else {
        lemma_violation_stays(head, tail.drop_last(), reserved);
        assert(all.drop_last() =~= head + tail.drop_last());
    }
}

fn find_variables(hosts: &[InventoryHosts], name: &str) -> (res: Option<GenericMap>)
    ensures
        variables_text(res) == variables_named(hosts@, name@),
{
    let mut i: usize = hosts.len();
    assert(hosts@.take(i as int) =~= hosts@);
    while i > 0
        invariant
            i <= hosts@.len(),
            variables_named(hosts@, name@) == variables_named(hosts@.take(i as int), name@),
        decreases i,
    {
        let group = &hosts[i - 1];
        assert(hosts@.take(i as int).last() == *group);
        assert(hosts@.take(i as int).drop_last() =~= hosts@.take(i - 1));
        if text_eq(group.name.as_str(), name) && group.variables.is_some() {
            return copy_variables(&group.variables);
        }
        i = i - 1;
    }
    None
}

/// Whether the groups found so far are the start of what is wanted, and no group of them is
/// refused.
spec fn accepted(
    groups: Seq<ResolvedInventoryGroup>,
    views: Seq<GroupView>,
    reserved: Seq<Seq<char>>,
) -> bool {
    group_views(groups) == views && first_violation(views, reserved) is None
}

fn push_group(
    groups: &mut Vec<ResolvedInventoryGroup>,
    group: ResolvedInventoryGroup,
    reserved: &[String],
) -> (res: Result<(), ReconcileError>)
    requires
        first_violation(group_views(old(groups)@), text::texts(reserved@)) is None,
    ensures
        ({
            let views = group_views(old(groups)@).push(group_view(group));
            match res {
                Ok(_) => accepted(final(groups)@, views, text::texts(reserved@)),
                Err(error) => is_violation(error, views, text::texts(reserved@)),
            }
        }),
{
    let ghost before = group_views(groups@);
    let ghost views = before.push(group_view(group));
    assert(views.drop_last() =~= before);
    match reject_reserved_variables(group.hosts().name.as_str(), group.variables(), reserved) {
        Ok(_) => {},
        Err(error) => {
            return Err(error);
        },
    }
    groups.push(group);
    assert(group_views(groups@) =~= views);
    Ok(())
}

/// Whether an error names the first group that sets a reserved variable.
pub open spec fn is_violation(
    error: ReconcileError,
    views: Seq<GroupView>,
    reserved: Seq<Seq<char>>,
) -> bool {
    error matches ReconcileError::ReservedInventoryVariable { group, key } && first_violation(
        views,
        reserved,
    ) == Some((group@, key@))
}

fn push_cluster_groups(
    groups: &mut Vec<ResolvedInventoryGroup>,
    inventory: &ClusterInventory,
    reserved: &[String],
) -> (res: Result<(), ReconcileError>)
    requires
        first_violation(group_views(old(groups)@), text::texts(reserved@)) is None,
    ensures
        ({
            let views = group_views(old(groups)@) + cluster_views(*inventory);
            match res {
                Ok(_) => accepted(final(groups)@, views, text::texts(reserved@)),
                Err(error) => is_violation(error, views, text::texts(reserved@)),
            }
        }),
{
    let ghost start = group_views(groups@);
    let ghost wanted = cluster_views(*inventory);
    let ghost kept_back = text::texts(reserved@);
    let resolved = inventory.get_hosts();
    let mut i: usize = 0;
    assert(start + wanted.take(0) =~= start);
    while i < resolved.len()
        invariant
            i <= resolved@.len(),
            resolved@.len() == wanted.len(),
            wanted == cluster_views(*inventory),
            kept_back == text::texts(reserved@),
            start == group_views(old(groups)@),
            resolved@.len() == resolved_groups(*inventory).len(),
            forall|j: int|
                0 <= j < resolved@.len() ==> (#[trigger] resolved@[j]).same(
                    &resolved_groups(*inventory)[j],
                ),
            accepted(groups@, start + wanted.take(i as int), kept_back),
        decreases resolved.len() - i,
    {
        let hosts = resolved[i].copy();
        let variables = find_variables(&inventory.spec.hosts, hosts.name.as_str());
        let group = ResolvedInventoryGroup::ManagedSsh {
            hosts,
            tolerations: copy_tolerations(&inventory.spec.tolerations),
            variables,
        };
        proof {
            assert(resolved@[i as int].same(&resolved_groups(*inventory)[i as int]));
            assert(group_view(group) == wanted[i as int]);
            assert((start + wanted.take(i as int)).push(wanted[i as int]) =~= start + wanted.take(
                i + 1,
            ));
        }
        match push_group(groups, group, reserved) {
            Ok(_) => {},
            Err(error) => {
                proof {
                    lemma_violation_stays(
                        start + wanted.take(i + 1),
                        wanted.skip(i + 1),
                        kept_back,
                    );
                    assert(start + wanted.take(i + 1) + wanted.skip(i + 1) =~= start + wanted);
                }
                return Err(error);
            },
        }
        i = i + 1;
    }
    assert(wanted.take(i as int) =~= wanted);
    Ok(())
}

fn push_static_groups(
    groups: &mut Vec<ResolvedInventoryGroup>,
    inventory: &StaticInventory,
    reserved: &[String],
) -> (res: Result<(), ReconcileError>)
    requires
        first_violation(group_views(old(groups)@), text::texts(reserved@)) is None,
    ensures
        ({
            let views = group_views(old(groups)@) + static_views(*inventory);
            match res {
                Ok(_) => accepted(final(groups)@, views, text::texts(reserved@)),
                Err(error) => is_violation(error, views, text::texts(reserved@)),
            }
        }),
{
    let ghost start = group_views(groups@);
    let ghost wanted = static_views(*inventory);
    let ghost kept_back = text::texts(reserved@);
    let listed = &inventory.spec.hosts;
    let mut i: usize = 0;
    assert(start + wanted.take(0) =~= start);
    while i < listed.len()
        invariant
            i <= listed@.len(),
            listed@ == inventory.spec.hosts@,
            wanted == static_views(*inventory),
            kept_back == text::texts(reserved@),
            start == group_views(old(groups)@),
            accepted(groups@, start + wanted.take(i as int), kept_back),
        decreases listed.len() - i,
    {
        let source = &listed[i];
        let static_inventory_name = match &inventory.metadata.name {
            Some(name) => name.clone(),
            None => String::new(),
        };
        let group = ResolvedInventoryGroup::Ssh {
            hosts: ResolvedHosts {
                name: source.name.clone(),
                hosts: clone_strings(&source.hosts),
                connection: None,
            },
            static_inventory_name,
            config: inventory.spec.ssh.copy(),
            variables: copy_variables(&source.variables),
        };
        proof {
            assert(group_view(group) == wanted[i as int]);
            assert((start + wanted.take(i as int)).push(wanted[i as int]) =~= start + wanted.take(
                i + 1,
            ));
        }
        match push_group(groups, group, reserved) {
            Ok(_) => {},
            Err(error) => {
                proof {
                    lemma_violation_stays(
                        start + wanted.take(i + 1),
                        wanted.skip(i + 1),
                        kept_back,
                    );
                    assert(start + wanted.take(i + 1) + wanted.skip(i + 1) =~= start + wanted);
                }
                return Err(error);
            },
        }
        i = i + 1;
    }
    assert(wanted.take(i as int) =~= wanted);
    Ok(())
}

/// What a plan's inventories resolve to, each group with the resource it came from and so the way it
/// is reached. Refused where a group sets a variable the operator manages itself.
pub fn resolve_inventory(
    cluster_inventories: &[ClusterInventory],
    static_inventories: &[StaticInventory],
    reserved: &[String],
) -> (res: Result<Vec<ResolvedInventoryGroup>, ReconcileError>)
    ensures
        ({
            let views = resolved_views(cluster_inventories@, static_inventories@);
            match res {
                Ok(groups) => group_views(groups@) == views && first_violation(
                    views,
                    text::texts(reserved@),
                ) is None,
                Err(error) => is_violation(error, views, text::texts(reserved@)),
            }
        }),
{
    let ghost kept_back = text::texts(reserved@);
    let ghost all = resolved_views(cluster_inventories@, static_inventories@);
    let mut groups: Vec<ResolvedInventoryGroup> = Vec::new();
    let mut i: usize = 0;
    assert(cluster_inventories@.take(0) =~= Seq::<ClusterInventory>::empty());
    assert(group_views(groups@) =~= Seq::<GroupView>::empty());
    while i < cluster_inventories.len()
        invariant
            i <= cluster_inventories@.len(),
            kept_back == text::texts(reserved@),
            all == resolved_views(cluster_inventories@, static_inventories@),
            accepted(groups@, all_cluster_views(cluster_inventories@.take(i as int)), kept_back),
        decreases cluster_inventories.len() - i,
    {
        let ghost longer = cluster_inventories@.take(i + 1);
        assert(longer.drop_last() =~= cluster_inventories@.take(i as int));
        assert(longer.last() == cluster_inventories@[i as int]);
        match push_cluster_groups(&mut groups, &cluster_inventories[i], reserved) {
            Ok(_) => {},
            Err(error) => {
                proof {
                    let rest = lemma_cluster_views_split(cluster_inventories@, i + 1);
                    let tail = rest + all_static_views(static_inventories@);
                    lemma_violation_stays(all_cluster_views(longer), tail, kept_back);
                    assert(all_cluster_views(longer) + tail =~= all);
                }
                return Err(error);
            },
        }
        i = i + 1;
    }
    assert(cluster_inventories@.take(i as int) =~= cluster_inventories@);
    let ghost clusters = all_cluster_views(cluster_inventories@);
    let mut j: usize = 0;
    assert(static_inventories@.take(0) =~= Seq::<StaticInventory>::empty());
    assert(clusters + Seq::<GroupView>::empty() =~= clusters);
    while j < static_inventories.len()
        invariant
            j <= static_inventories@.len(),
            kept_back == text::texts(reserved@),
            clusters == all_cluster_views(cluster_inventories@),
            all == resolved_views(cluster_inventories@, static_inventories@),
            accepted(
                groups@,
                clusters + all_static_views(static_inventories@.take(j as int)),
                kept_back,
            ),
        decreases static_inventories.len() - j,
    {
        let ghost longer = static_inventories@.take(j + 1);
        assert(longer.drop_last() =~= static_inventories@.take(j as int));
        assert(longer.last() == static_inventories@[j as int]);
        proof {
            assert(clusters + all_static_views(static_inventories@.take(j as int)) + static_views(
                static_inventories@[j as int],
            ) =~= clusters + all_static_views(longer));
        }
        match push_static_groups(&mut groups, &static_inventories[j], reserved) {
            Ok(_) => {},
            Err(error) => {
                proof {
                    let rest = lemma_static_views_split(static_inventories@, j + 1);
                    lemma_violation_stays(clusters + all_static_views(longer), rest, kept_back);
                    assert(clusters + all_static_views(longer) + rest =~= all);
                }
                return Err(error);
            },
        }
        j = j + 1;
    }
    assert(static_inventories@.take(j as int) =~= static_inventories@);
    Ok(groups)
}

proof fn lemma_cluster_views_split(inventories: Seq<ClusterInventory>, n: int) -> (rest: Seq<GroupView>)
    requires
        0 <= n <= inventories.len(),
    ensures
        all_cluster_views(inventories.take(n)) + rest == all_cluster_views(inventories),
    decreases inventories.len() - n,
{
    if n == inventories.len() {
        assert(inventories.take(n) =~= inventories);
        let none = Seq::<GroupView>::empty();
        assert(all_cluster_views(inventories) + none =~= all_cluster_views(inventories));
        none
    } else {
        let longer = inventories.take(n + 1);
        assert(longer.drop_last() =~= inventories.take(n));
        let rest = lemma_cluster_views_split(inventories, n + 1);
        let more = cluster_views(longer.last()) + rest;
        assert(all_cluster_views(inventories.take(n)) + more =~= all_cluster_views(longer) + rest);
        more
    }
}

proof fn lemma_static_views_split(inventories: Seq<StaticInventory>, n: int) -> (rest: Seq<GroupView>)
    requires
        0 <= n <= inventories.len(),
    ensures
        all_static_views(inventories.take(n)) + rest == all_static_views(inventories),
    decreases inventories.len() - n,
{
    if n == inventories.len() {
        assert(inventories.take(n) =~= inventories);
        let none = Seq::<GroupView>::empty();
        assert(all_static_views(inventories) + none =~= all_static_views(inventories));
        none
    } else {
        let longer = inventories.take(n + 1);
        assert(longer.drop_last() =~= inventories.take(n));
        let rest = lemma_static_views_split(inventories, n + 1);
        let more = static_views(longer.last()) + rest;
        assert(all_static_views(inventories.take(n)) + more =~= all_static_views(longer) + rest);
        more
    }
}

// --- the part a run targets ------------------------------------------------------------------

/// Whether a host is among those a run targets.
pub open spec fn targeted(hosts: Seq<Seq<char>>) -> spec_fn(Seq<char>) -> bool {
    |host: Seq<char>| hosts.contains(host)
}

/// Whether a run targets a host of this group.
pub open spec fn reaches(hosts: Seq<Seq<char>>) -> spec_fn(ResolvedInventoryGroup) -> bool {
    |group: ResolvedInventoryGroup| group.names().filter(targeted(hosts)).len() > 0
}

/// Whether a group is another one narrowed to the hosts a run targets, and otherwise the same.
pub open spec fn narrowed(
    group: ResolvedInventoryGroup,
    from: ResolvedInventoryGroup,
    hosts: Seq<Seq<char>>,
) -> bool {
    &&& group.same_config(&from)
    &&& group.hosts_of().name == from.hosts_of().name
    &&& group.hosts_of().connection == from.hosts_of().connection
    &&& group.names() == from.names().filter(targeted(hosts))
}

/// Whether these are the groups a run targets: those with a targeted host, in order, each narrowed
/// to its targeted hosts.
pub open spec fn narrowed_groups(
    narrow: Seq<ResolvedInventoryGroup>,
    groups: Seq<ResolvedInventoryGroup>,
    hosts: Seq<Seq<char>>,
) -> bool {
    let kept = groups.filter(reaches(hosts));
    &&& narrow.len() == kept.len()
    &&& forall|i: int| 0 <= i < narrow.len() ==> narrowed(#[trigger] narrow[i], kept[i], hosts)
}

fn targeted_hosts(names: &[String], hosts_to_trigger: &[String]) -> (res: Vec<String>)
    ensures
        text::texts(res@) == text::texts(names@).filter(targeted(text::texts(hosts_to_trigger@))),
{
    let ghost all = text::texts(names@);
    let ghost pred = targeted(text::texts(hosts_to_trigger@));
    let mut kept: Vec<String> = Vec::new();
    let mut i: usize = 0;
    proof {
        seqs::lemma_filter_none(all, pred);
        assert(text::texts(kept@) =~= all.take(0).filter(pred));
    }
    while i < names.len()
        invariant
            i <= names@.len(),
            all == text::texts(names@),
            pred == targeted(text::texts(hosts_to_trigger@)),
            text::texts(kept@) == all.take(i as int).filter(pred),
        decreases names.len() - i,
    {
        proof {
            seqs::lemma_filter_take(all, i as int, pred);
        }
        assert(all[i as int] == names@[i as int]@);
        if contains_text(hosts_to_trigger, names[i].as_str()) {
            let ghost before = text::texts(kept@);
            kept.push(names[i].clone());
            assert(text::texts(kept@) =~= before.push(all[i as int]));
        }
        i = i + 1;
    }
    proof {
        seqs::lemma_take_all(all);
    }
    kept
}

/// A group with other hosts, and otherwise the same.
pub fn with_hosts(group: &ResolvedInventoryGroup, hosts: Vec<String>) -> (res: ResolvedInventoryGroup)
    ensures
        res.same_config(group),
        res.hosts_of().name == group.hosts_of().name,
        res.hosts_of().connection == group.hosts_of().connection,
        res.hosts_of().hosts@ == hosts@,
{
    let own = group.hosts();
    let narrow = ResolvedHosts { name: own.name.clone(), hosts, connection: own.connection };
    match group {
        ResolvedInventoryGroup::ManagedSsh { tolerations, variables, .. } => {
            ResolvedInventoryGroup::ManagedSsh {
                hosts: narrow,
                tolerations: copy_tolerations(tolerations),
                variables: copy_variables(variables),
            }
        },
        ResolvedInventoryGroup::Ssh { static_inventory_name, config, variables, .. } => {
            ResolvedInventoryGroup::Ssh {
                hosts: narrow,
                static_inventory_name: static_inventory_name.clone(),
                config: config.copy(),
                variables: copy_variables(variables),
            }
        },
    }
}

/// The groups a run targets: each narrowed to the hosts the run triggers, and dropped where none is
/// left.
pub fn filter_groups_to_hosts(groups: &[ResolvedInventoryGroup], hosts_to_trigger: &[String]) -> (res:
    Vec<ResolvedInventoryGroup>)
    ensures
        narrowed_groups(res@, groups@, text::texts(hosts_to_trigger@)),
{
    let ghost hosts = text::texts(hosts_to_trigger@);
    let ghost pred = reaches(hosts);
    let mut out: Vec<ResolvedInventoryGroup> = Vec::new();
    let mut i: usize = 0;
    proof {
        seqs::lemma_filter_none(groups@, pred);
    }
    while i < groups.len()
        invariant
            i <= groups@.len(),
            hosts == text::texts(hosts_to_trigger@),
            pred == reaches(hosts),
            out@.len() == groups@.take(i as int).filter(pred).len(),
            forall|j: int|
                0 <= j < out@.len() ==> narrowed(
                    #[trigger] out@[j],
                    groups@.take(i as int).filter(pred)[j],
                    hosts,
                ),
        decreases groups.len() - i,
    {
        proof {
            seqs::lemma_filter_take(groups@, i as int, pred);
        }
        let names = targeted_hosts(&groups[i].hosts().hosts, hosts_to_trigger);
        assert(text::texts(names@).len() == names@.len());
        if names.len() > 0 {
            let group = with_hosts(&groups[i], names);
            assert(narrowed(group, groups@[i as int], hosts));
            out.push(group);
        }
        i = i + 1;
    }
    proof {
        seqs::lemma_take_all(groups@);
    }
    out
}

/// A run that targets every host keeps every group that has one, whole.
pub proof fn targeting_everything_keeps_groups_whole(
    narrow: Seq<ResolvedInventoryGroup>,
    groups: Seq<ResolvedInventoryGroup>,
    hosts: Seq<Seq<char>>,
    i: int,
)
    requires
        narrowed_groups(narrow, groups, hosts),
        forall|g: int, h: int|
            0 <= g < groups.len() && 0 <= h < groups[g].names().len() ==> hosts.contains(
                #[trigger] groups[g].names()[h],
            ),
        0 <= i < narrow.len(),
    ensures
        narrow[i].names() == groups.filter(reaches(hosts))[i].names(),
{
    let kept = groups.filter(reaches(hosts));
    assert(kept.contains(kept[i]));
    seqs::lemma_filter_contains(groups, reaches(hosts), kept[i]);
    let g = choose|g: int| 0 <= g < groups.len() && groups[g] == kept[i];
    let names = kept[i].names();
    assert forall|h: int| 0 <= h < names.len() implies targeted(hosts)(#[trigger] names[h]) by {
        assert(hosts.contains(groups[g].names()[h]));
    }
    lemma_filter_all(names, targeted(hosts));
    assert(narrowed(narrow[i], kept[i], hosts));
}

proof fn lemma_filter_all(s: Seq<Seq<char>>, p: spec_fn(Seq<char>) -> bool)
    requires
        forall|i: int| 0 <= i < s.len() ==> p(#[trigger] s[i]),
    ensures
        s.filter(p) == s,
    decreases s.len(),
{
    reveal(Seq::filter);
    if s.len() > 0 {
        let head = s.drop_last();
        assert forall|i: int| 0 <= i < head.len() implies p(#[trigger] head[i]) by {
            assert(p(s[i]));
        }
        lemma_filter_all(head, p);
        assert(s =~= head.push(s.last()));
    }
}

/// The first tolerations any of the groups of Nodes asks for.
pub open spec fn first_tolerations(groups: Seq<ResolvedInventoryGroup>) -> Option<Seq<Toleration>>
    decreases groups.len(),
{
    if groups.len() == 0 {
        None
    } else if first_tolerations(groups.drop_last()) is Some {
        first_tolerations(groups.drop_last())
    } else {
        match groups.last() {
            ResolvedInventoryGroup::ManagedSsh { tolerations, .. } => resources::listed_tolerations(
                tolerations,
            ),
            ResolvedInventoryGroup::Ssh { .. } => None,
        }
    }
}

/// The Nodes a run targets, and the tolerations of their proxies: the first that any group of Nodes
/// asks for.
pub fn managed_ssh_hosts_and_tolerations(groups: &[ResolvedInventoryGroup]) -> (res: (
    Vec<String>,
    Option<Vec<Toleration>>,
))
    ensures
        text::texts(res.0@) == ansible_inventory::managed_hosts(groups@),
        resources::listed_tolerations(res.1) == first_tolerations(groups@),
{
    let hosts = managed_ssh_node_names(groups);
    let mut tolerations: Option<Vec<Toleration>> = None;
    let mut i: usize = 0;
    assert(groups@.take(0) =~= Seq::<ResolvedInventoryGroup>::empty());
    while i < groups.len()
        invariant
            i <= groups@.len(),
            resources::listed_tolerations(tolerations) == first_tolerations(
                groups@.take(i as int),
            ),
        decreases groups.len() - i,
    {
        assert(groups@.take(i + 1).drop_last() =~= groups@.take(i as int));
        assert(groups@.take(i + 1).last() == groups@[i as int]);
        if tolerations.is_none() {
            if let ResolvedInventoryGroup::ManagedSsh { tolerations: own, .. } = &groups[i] {
                tolerations = copy_tolerations(own);
            }
        }
        i = i + 1;
    }
    assert(groups@.take(i as int) =~= groups@);
    (hosts, tolerations)
}

/// The distinct hosts of a recorded inventory, in first-seen order: what a run locks.
pub fn host_names(inventory: &[ResolvedHosts]) -> (res: Vec<String>)
    ensures
        text::texts(res@) == ansible_inventory::distinct(ansible_inventory::all_hosts(inventory@)),
{
    distinct_hosts(inventory)
}

// --- what a revision is made of --------------------------------------------------------------

/// Every Secret a plan refers to: those of its variables, then those of its files. The rendered
/// workspace is none of them, since it differs from run to run of one revision.
pub fn get_related_secrets(plan: &PlaybookPlan) -> (res: Vec<String>)
    ensures
        text::texts(res@) == job_builder::secret_sources(job_builder::variables_of(*plan))
            + job_builder::secret_files(job_builder::files_of(*plan)),
{
    let mut names = extract_secret_names_for_variables(plan);
    let mut files = extract_secret_names_for_files(plan);
    let ghost before = names@;
    let ghost added = files@;
    names.append(&mut files);
    assert(text::texts(names@) =~= text::texts(before) + text::texts(added));
    names
}

/// Whether a group has variables.
pub open spec fn has_variables() -> spec_fn(ResolvedInventoryGroup) -> bool {
    |group: ResolvedInventoryGroup| group.variables_of() is Some
}

/// The variables of the groups that have some, under the groups' names.
pub open spec fn group_variables(groups: Seq<ResolvedInventoryGroup>) -> Seq<GroupVariables> {
    groups.filter(has_variables()).map_values(
        |group: ResolvedInventoryGroup|
            GroupVariables { group: group.hosts_of().name, variables: group.variables_of()->0 },
    )
}

/// The variables of the groups that have some, under the groups' names.
pub fn inventory_variables(groups: &[ResolvedInventoryGroup]) -> (res: Vec<GroupVariables>)
    ensures
        res@ == group_variables(groups@),
{
    let mut out: Vec<GroupVariables> = Vec::new();
    let mut i: usize = 0;
    proof {
        seqs::lemma_filter_none(groups@, has_variables());
        assert(out@ =~= group_variables(groups@.take(0)));
    }
    while i < groups.len()
        invariant
            i <= groups@.len(),
            out@ == group_variables(groups@.take(i as int)),
        decreases groups.len() - i,
    {
        let ghost kept = groups@.take(i as int).filter(has_variables());
        proof {
            seqs::lemma_filter_take(groups@, i as int, has_variables());
        }
        if let Some(variables) = groups[i].variables() {
            out.push(
                GroupVariables {
                    group: groups[i].hosts().name.clone(),
                    variables: GenericMap { json: variables.json.clone() },
                },
            );
            assert(out@ =~= group_variables(groups@.take(i + 1)));
        }
        i = i + 1;
    }
    proof {
        seqs::lemma_take_all(groups@);
    }
    out
}

/// The Secrets that could be read, in order.
pub open spec fn readable(secrets: Seq<Option<SecretData>>) -> Seq<SecretData>
    decreases secrets.len(),
{
    if secrets.len() == 0 {
        Seq::empty()
    } else {
        match secrets.last() {
            Some(secret) => readable(secrets.drop_last()).push(secret),
            None => readable(secrets.drop_last()),
        }
    }
}

/// The revision a plan applies: its playbook, the Secrets of it that could be read, and the
/// variables of its inventory groups.
pub fn hash_playbook_inputs(
    playbook: &str,
    secrets: Vec<Option<SecretData>>,
    groups: &[ResolvedInventoryGroup],
) -> (res: ExecutionHash)
    ensures
        res.0 == group_variables(groups@).fold_left(
            execution_evaluator::secrets_total(digests::text_digest(playbook@), readable(secrets@)),
            execution_evaluator::add_variables(),
        ),
{
    let ghost all = secrets@;
    let mut rest = secrets;
    let mut read: Vec<SecretData> = Vec::new();
    let ghost mut done: int = 0;
    assert(all.take(0) =~= Seq::<Option<SecretData>>::empty());
    assert(all.skip(0) =~= all);
    while rest.len() > 0
        invariant
            0 <= done <= all.len(),
            rest@ == all.skip(done),
            read@ == readable(all.take(done)),
        decreases rest.len(),
    {
        let next = rest.remove(0);
        proof {
            assert(next == all[done]);
            assert(all.take(done + 1).drop_last() =~= all.take(done));
            assert(all.take(done + 1).last() == all[done]);
            assert(rest@ =~= all.skip(done + 1));
            done = done + 1;
        }
        if let Some(secret) = next {
            read.push(secret);
        }
    }
    assert(all.take(done) =~= all);
    let variables = inventory_variables(groups);
    calculate_execution_hash(playbook, &read).fold_inventory_variables(&variables)
}

/// What a rewritten workspace Secret keeps of the data it had: everything under a key it is not
/// given anew.
pub fn kept_data(existing: SecretData, string_data: &LabelMap) -> (res: SecretData)
    ensures
        res@ == existing@.remove_keys(string_data@.dom()),
{
    let ghost start = existing@;
    let ghost pairs = string_data.pairs();
    let mut kept = existing;
    let count = string_data.len();
    let mut i: usize = 0;
    assert(kept@ =~= start.remove_keys(Set::new(|k: Seq<char>| first_keys(pairs, 0, k))));
    while i < count
        invariant
            i <= count,
            count == pairs.len(),
            pairs == string_data.pairs(),
            kept@ == start.remove_keys(Set::new(|k: Seq<char>| first_keys(pairs, i as int, k))),
        decreases count - i,
    {
        let (key, _) = string_data.entry(i);
        kept.remove(key);
        proof {
            assert forall|k: Seq<char>| first_keys(pairs, i + 1, k) <==> first_keys(
                pairs,
                i as int,
                k,
            ) || k == key@ by {
                if k == key@ {
                    assert(pairs[i as int].0 == k);
                }
            }
            assert(kept@ =~= start.remove_keys(
                Set::new(|k: Seq<char>| first_keys(pairs, i + 1, k)),
            ));
        }
        i = i + 1;
    }
    proof {
        assert(Set::new(|k: Seq<char>| first_keys(pairs, count as int, k)) =~= string_data@.dom())
            by {
            assert forall|k: Seq<char>| first_keys(pairs, count as int, k)
                <==> string_data@.dom().contains(k) by {
                assert(first_keys(pairs, count as int, k) <==> crate::textmap::has_key(pairs, k));
            }
        }
    }
    kept
}

/// Whether a key is among the first `n`.
spec fn first_keys(pairs: Seq<(Seq<char>, String)>, n: int, key: Seq<char>) -> bool {
    exists|i: int| 0 <= i < n && i < pairs.len() && (#[trigger] pairs[i]).0 == key
}

// --- what a plan's inventories come to -------------------------------------------------------

/// The inventories of a plan are those it refers to, in the order it does.
pub proof fn texts_that_are_there_are_kept(texts: Seq<Option<Seq<char>>>, text: Option<Seq<char>>)
    ensures
        present(Seq::<Option<Seq<char>>>::empty()).len() == 0,
        text matches Some(t) ==> present(texts.push(text)) == present(texts).push(t),
        text is None ==> present(texts.push(text)) == present(texts),
{
    assert(texts.push(text).drop_last() =~= texts);
}

/// A plan's inventories are found by the references it has to them.
pub proof fn a_reference_names_an_inventory(plan: PlaybookPlan, i: int)
    requires
        0 <= i < plan.spec.inventory_refs@.len(),
    ensures
        plan.spec.inventory_refs@[i].cluster_inventory matches Some(name) ==> cluster_names(
            plan,
        ).contains(name@),
        plan.spec.inventory_refs@[i].static_inventory matches Some(name) ==> static_names(
            plan,
        ).contains(name@),
{
    let clusters = plan.spec.inventory_refs@.map_values(
        |r: crate::plans::InventoryRef| text::text_of(r.cluster_inventory),
    );
    let statics = plan.spec.inventory_refs@.map_values(
        |r: crate::plans::InventoryRef| text::text_of(r.static_inventory),
    );
    lemma_present_contains(clusters, i);
    lemma_present_contains(statics, i);
}

proof fn lemma_present_contains(texts: Seq<Option<Seq<char>>>, i: int)
    requires
        0 <= i < texts.len(),
    ensures
        texts[i] matches Some(t) ==> present(texts).contains(t),
    decreases texts.len(),
{
    if texts[i] is Some {
        let t = texts[i]->0;
        let rest = texts.drop_last();
        if i == texts.len() - 1 {
            assert(present(texts)[present(texts).len() - 1] == t);
        } else {
            lemma_present_contains(rest, i);
            let k = choose|k: int| 0 <= k < present(rest).len() && present(rest)[k] == t;
            assert(present(texts)[k] == t);
        }
    }
}

/// A group of a cluster inventory is managed, lists the Nodes it resolved to and is tolerated like its
/// inventory; its variables are those of the last host entry of its name that has any.
pub proof fn a_cluster_group_is_managed(inventory: ClusterInventory, i: int)
    requires
        inventory.status is Some,
        0 <= i < inventory.status->0.resolved_hosts@.len(),
    ensures
        cluster_views(inventory).len() == inventory.status->0.resolved_hosts@.len(),
        cluster_views(inventory)[i].name == inventory.status->0.resolved_hosts@[i].name@,
        cluster_views(inventory)[i].hosts == text::texts(
            inventory.status->0.resolved_hosts@[i].hosts@,
        ),
        cluster_views(inventory)[i].access == (AccessView::Managed {
            tolerations: resources::listed_tolerations(inventory.spec.tolerations),
        }),
{
}

/// The last entry of a name that has variables decides them.
pub proof fn the_last_variables_of_a_name_hold(
    hosts: Seq<InventoryHosts>,
    entry: InventoryHosts,
    name: Seq<char>,
)
    ensures
        variables_named(Seq::<InventoryHosts>::empty(), name) is None,
        entry.name@ == name && entry.variables is Some ==> variables_named(hosts.push(entry), name)
            == Some(entry.variables->0.json@),
        entry.name@ != name || entry.variables is None ==> variables_named(hosts.push(entry), name)
            == variables_named(hosts, name),
{
    assert(hosts.push(entry).drop_last() =~= hosts);
}

/// A group of a static inventory is reached from outside, with the inventory's user and key.
pub proof fn a_static_group_is_external(inventory: StaticInventory, i: int)
    requires
        0 <= i < inventory.spec.hosts@.len(),
    ensures
        static_views(inventory).len() == inventory.spec.hosts@.len(),
        static_views(inventory)[i].name == inventory.spec.hosts@[i].name@,
        static_views(inventory)[i].hosts == text::texts(inventory.spec.hosts@[i].hosts@),
        static_views(inventory)[i].access is Ssh,
        static_views(inventory)[i].access->user == inventory.spec.ssh.user@,
        static_views(inventory)[i].access->secret == inventory.spec.ssh.secret_ref.name@,
        inventory.metadata.name matches Some(name) ==> static_views(inventory)[i].access->inventory
            == name@,
        static_views(inventory)[i].variables == (match inventory.spec.hosts@[i].variables {
            Some(variables) => Some(variables.json@),
            None => None,
        }),
{
}

/// The groups of all inventories are taken: those of the cluster inventories first, and each inventory's in
/// its order.
pub proof fn every_inventorys_groups_are_taken(
    clusters: Seq<ClusterInventory>,
    cluster: ClusterInventory,
    statics: Seq<StaticInventory>,
    other: StaticInventory,
)
    ensures
        all_cluster_views(Seq::<ClusterInventory>::empty()).len() == 0,
        all_static_views(Seq::<StaticInventory>::empty()).len() == 0,
        all_cluster_views(clusters.push(cluster)) == all_cluster_views(clusters) + cluster_views(
            cluster,
        ),
        resolved_views(clusters, statics.push(other)) == resolved_views(clusters, statics)
            + static_views(other),
        resolved_views(clusters, Seq::<StaticInventory>::empty()) == all_cluster_views(clusters),
{
    assert(clusters.push(cluster).drop_last() =~= clusters);
    assert(statics.push(other).drop_last() =~= statics);
    assert(resolved_views(clusters, statics.push(other)) =~= resolved_views(clusters, statics)
        + static_views(other));
    assert(resolved_views(clusters, Seq::<StaticInventory>::empty()) =~= all_cluster_views(
        clusters,
    ));
}

/// A group that sets a reserved variable is refused, and where none does nothing is.
pub proof fn a_reserved_variable_is_refused(
    groups: Seq<GroupView>,
    reserved: Seq<Seq<char>>,
    g: int,
    keys: Seq<Seq<char>>,
    key: Seq<char>,
)
    requires
        0 <= g < groups.len(),
        groups[g].variables is Some,
        ansible_inventory::json_object_keys(groups[g].variables->0) == Some(keys),
        keys.contains(key),
        reserved.contains(key),
    ensures
        first_violation(groups, reserved) is Some,
    decreases groups.len(),
{
    if g == groups.len() - 1 {
        lemma_first_reserved(keys, reserved, key);
    } else {
        a_reserved_variable_is_refused(groups.drop_last(), reserved, g, keys, key);
    }
}

proof fn lemma_first_reserved(keys: Seq<Seq<char>>, reserved: Seq<Seq<char>>, key: Seq<char>)
    requires
        keys.contains(key),
        reserved.contains(key),
    ensures
        first_reserved_key(Some(keys), reserved) is Some,
    decreases reserved.len(),
{
    let i = choose|i: int| 0 <= i < reserved.len() && reserved[i] == key;
    if !keys.contains(reserved[0]) {
        let rest = reserved.drop_first();
        assert(rest[i - 1] == key);
        lemma_first_reserved(keys, rest, key);
    }
}

/// What is refused is a variable that the named group sets and that is reserved.
pub proof fn only_a_reserved_variable_is_refused(groups: Seq<GroupView>, reserved: Seq<Seq<char>>) -> (g:
    int)
    requires
        first_violation(groups, reserved) is Some,
    ensures
        0 <= g < groups.len(),
        groups[g].name == (first_violation(groups, reserved)->0).0,
        groups[g].variables is Some,
        ansible_inventory::json_object_keys(groups[g].variables->0) is Some,
        ansible_inventory::json_object_keys(groups[g].variables->0)->0.contains(
            (first_violation(groups, reserved)->0).1,
        ),
        reserved.contains((first_violation(groups, reserved)->0).1),
    decreases groups.len(),
{
    let rest = groups.drop_last();
    if first_violation(rest, reserved) is Some {
        only_a_reserved_variable_is_refused(rest, reserved)
    } else {
        lemma_reserved_found(
            ansible_inventory::json_object_keys(groups.last().variables->0),
            reserved,
        );
        groups.len() - 1
    }
}

proof fn lemma_reserved_found(keys: Option<Seq<Seq<char>>>, reserved: Seq<Seq<char>>)
    requires
        first_reserved_key(keys, reserved) is Some,
    ensures
        keys is Some,
        keys->0.contains(first_reserved_key(keys, reserved)->0),
        reserved.contains(first_reserved_key(keys, reserved)->0),
    decreases reserved.len(),
{
    if keys->0.contains(reserved[0]) {
        assert(reserved[0] == first_reserved_key(keys, reserved)->0);
    } else {
        let rest = reserved.drop_first();
        lemma_reserved_found(keys, rest);
        let i = choose|i: int| 0 <= i < rest.len() && rest[i] == first_reserved_key(keys, rest)->0;
        assert(reserved[i + 1] == rest[i]);
    }
}

/// A group narrowed to some hosts lists exactly those of its hosts that are among them, and is left out where
/// none is.
pub proof fn a_narrowed_group_lists_the_hosts_asked_for(
    narrow: Seq<ResolvedInventoryGroup>,
    groups: Seq<ResolvedInventoryGroup>,
    hosts: Seq<Seq<char>>,
    host: Seq<char>,
    i: int,
    g: int,
)
    requires
        narrowed_groups(narrow, groups, hosts),
    ensures
        0 <= i < narrow.len() && narrow[i].names().contains(host) ==> hosts.contains(host) && groups.filter(
            reaches(hosts),
        )[i].names().contains(host) && narrow[i].hosts_of().name == groups.filter(
            reaches(hosts),
        )[i].hosts_of().name,
        0 <= i < narrow.len() && hosts.contains(host) && groups.filter(
            reaches(hosts),
        )[i].names().contains(host) ==> narrow[i].names().contains(host),
        0 <= g < groups.len() && groups[g].names().contains(host) && hosts.contains(host)
            ==> groups.filter(reaches(hosts)).contains(groups[g]),
        0 <= i < narrow.len() ==> narrow[i].names().len() > 0 && narrow[i].hosts_of().connection
            == groups.filter(reaches(hosts))[i].hosts_of().connection,
{
    let kept = groups.filter(reaches(hosts));
    if 0 <= i < narrow.len() {
        assert(narrowed(narrow[i], kept[i], hosts));
        seqs::lemma_filter_contains(kept[i].names(), targeted(hosts), host);
        assert(kept.contains(kept[i]));
        seqs::lemma_filter_contains(groups, reaches(hosts), kept[i]);
    }
    if 0 <= g < groups.len() && groups[g].names().contains(host) && hosts.contains(host) {
        seqs::lemma_filter_contains(groups[g].names(), targeted(hosts), host);
        seqs::lemma_filter_contains(groups, reaches(hosts), groups[g]);
        assert(groups.contains(groups[g]));
    }
}

/// The first managed group that lists tolerations says which are used.
pub proof fn the_first_tolerations_are_used(
    groups: Seq<ResolvedInventoryGroup>,
    group: ResolvedInventoryGroup,
)
    ensures
        first_tolerations(Seq::<ResolvedInventoryGroup>::empty()) is None,
        first_tolerations(groups) is Some ==> first_tolerations(groups.push(group))
            == first_tolerations(groups),
        first_tolerations(groups) is None && group is Ssh ==> first_tolerations(groups.push(group))
            is None,
        first_tolerations(groups) is None && group is ManagedSsh ==> first_tolerations(
            groups.push(group),
        ) == resources::listed_tolerations(group->tolerations),
{
    assert(groups.push(group).drop_last() =~= groups);
}

/// The variables of every group that has some go into the revision, under the group's name and in order.
pub proof fn every_groups_variables_count(
    groups: Seq<ResolvedInventoryGroup>,
    group: ResolvedInventoryGroup,
)
    ensures
        group_variables(Seq::<ResolvedInventoryGroup>::empty()).len() == 0,
        group.variables_of() is None ==> group_variables(groups.push(group)) == group_variables(groups),
        group.variables_of() is Some ==> group_variables(groups.push(group)) == group_variables(
            groups,
        ).push(
            GroupVariables { group: group.hosts_of().name, variables: group.variables_of()->0 },
        ),
{
    reveal(Seq::filter);
    let none = Seq::<ResolvedInventoryGroup>::empty();
    none.lemma_filter_len(has_variables());
    assert(groups.push(group).drop_last() =~= groups);
    if group.variables_of() is Some {
        assert(group_variables(groups.push(group)) =~= group_variables(groups).push(
            GroupVariables { group: group.hosts_of().name, variables: group.variables_of()->0 },
        ));
    }
}

/// Every Secret that can be read counts, in order.
pub proof fn every_readable_secret_counts(
    secrets: Seq<Option<SecretData>>,
    secret: Option<SecretData>,
)
    ensures
        readable(Seq::<Option<SecretData>>::empty()).len() == 0,
        secret matches Some(s) ==> readable(secrets.push(secret)) == readable(secrets).push(s),
        secret is None ==> readable(secrets.push(secret)) == readable(secrets),
{
    assert(secrets.push(secret).drop_last() =~= secrets);
}

} // verus!
