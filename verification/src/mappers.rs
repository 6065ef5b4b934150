//! Which plans a change elsewhere in the cluster wakes.

use vstd::prelude::*;
use crate::node_readiness;
use crate::node_readiness::is_ready;
use crate::plans::{
    ExecutionMode, FilesSource, HostOutcome, HostStatus, InventoryRef, Phase, PlaybookPlan,
    PlaybookPlanStatus, PlaybookVariableSource,
};
use crate::resources::{Node, ObjectMeta, StaticInventory};
use crate::seqs;
use crate::text;
use crate::text::{clone_optional, contains_text, optional_eq, optional_is, text_eq};

verus! {

/// A plan to reconcile.
#[derive(Debug, Clone, PartialEq, Eq)]
pub struct ObjectRef {
    pub namespace: Option<String>,
    pub name: String,
}

/// The kinds of inventory a plan can name.
#[derive(Debug, Clone, Copy, PartialEq, Eq, Structural)]
pub enum InventoryKind {
    Cluster,
    Static,
}

/// Whether every plan has a name, as every plan read from the cluster has.
pub open spec fn named(plans: Seq<PlaybookPlan>) -> bool {
    forall|i: int| 0 <= i < plans.len() ==> (#[trigger] plans[i]).metadata.name is Some
}

/// What a plan is referred to by.
pub open spec fn ref_of() -> spec_fn(PlaybookPlan) -> ObjectRef {
    |plan: PlaybookPlan|
        ObjectRef { namespace: plan.metadata.namespace, name: plan.metadata.name->0 }
}

/// The plans that pass, in order, by what they are referred to by.
pub open spec fn refs(plans: Seq<PlaybookPlan>, pred: spec_fn(PlaybookPlan) -> bool) -> Seq<
    ObjectRef,
> {
    plans.filter(pred).map_values(ref_of())
}

/// The plans that pass, in order, by what they are referred to by.
fn refs_where<F: Fn(&PlaybookPlan) -> bool>(
    plans: &[PlaybookPlan],
    Ghost(pred): Ghost<spec_fn(PlaybookPlan) -> bool>,
    passes: F,
) -> (res: Vec<ObjectRef>)
    requires
        named(plans@),
        forall|plan: PlaybookPlan| #[trigger] passes.requires((&plan,)),
        forall|plan: PlaybookPlan, b: bool| #[trigger]
            passes.ensures((&plan,), b) ==> b == pred(plan),
    ensures
        res@ == refs(plans@, pred),
{
    let mut out: Vec<ObjectRef> = Vec::new();
    let mut i: usize = 0;
    proof {
        seqs::lemma_filter_none(plans@, pred);
        assert(out@ =~= refs(plans@.take(0), pred));
    }
    while i < plans.len()
        invariant
            i <= plans@.len(),
            named(plans@),
            forall|plan: PlaybookPlan| #[trigger] passes.requires((&plan,)),
            forall|plan: PlaybookPlan, b: bool| #[trigger]
                passes.ensures((&plan,), b) ==> b == pred(plan),
            out@ == refs(plans@.take(i as int), pred),
        decreases plans.len() - i,
    {
        let plan = &plans[i];
        let ghost before = plans@.take(i as int).filter(pred);
        proof {
            seqs::lemma_filter_take(plans@, i as int, pred);
        }
        if passes(plan) {
            if let Some(name) = &plan.metadata.name {
                out.push(
                    ObjectRef {
                        namespace: clone_optional(&plan.metadata.namespace),
                        name: name.clone(),
                    },
                );
            }
            assert(out@ =~= before.push(*plan).map_values(ref_of()));
        }
        i = i + 1;
    }
    proof {
        seqs::lemma_take_all(plans@);
    }
    out
}

/// Every plan: what a change to a policy may affect, since its namespace selector can match any
/// namespace.
pub open spec fn any_plan() -> spec_fn(PlaybookPlan) -> bool {
    |plan: PlaybookPlan| true
}

/// The plans a change to a `NodeAccessPolicy` wakes: all of them.
pub fn node_access_policy_to_playbookplans(plans: &[PlaybookPlan]) -> (res: Vec<ObjectRef>)
    requires
        named(plans@),
    ensures
        res@ == refs(plans@, any_plan()),
{
    let passes = |plan: &PlaybookPlan| -> (b: bool)
        ensures
            b,
    {
        true
    };
    refs_where(plans, Ghost(any_plan()), passes)
}

// --- inventories -----------------------------------------------------------------------------

/// The inventory of a kind a reference names.
pub open spec fn referenced(inventory_ref: InventoryRef, kind: InventoryKind) -> Option<Seq<char>> {
    match kind {
        InventoryKind::Cluster => text::text_of(inventory_ref.cluster_inventory),
        InventoryKind::Static => text::text_of(inventory_ref.static_inventory),
    }
}

/// Whether one of the references names this inventory of this kind.
pub open spec fn names_inventory(
    inventory_refs: Seq<InventoryRef>,
    name: Seq<char>,
    kind: InventoryKind,
) -> bool {
    exists|i: int|
        0 <= i < inventory_refs.len() && referenced(#[trigger] inventory_refs[i], kind) == Some(name)
}

/// Whether a plan targets an inventory: by name, within its own namespace.
pub open spec fn references_inventory(
    namespace: Option<Seq<char>>,
    name: Seq<char>,
    kind: InventoryKind,
) -> spec_fn(PlaybookPlan) -> bool {
    |plan: PlaybookPlan|
        {
            &&& text::text_of(plan.metadata.namespace) == namespace
            &&& names_inventory(plan.spec.inventory_refs@, name, kind)
        }
}

/// Whether `plan` targets the inventory of this kind with this namespace and name.
pub fn plan_references_inventory(
    plan: &PlaybookPlan,
    namespace: Option<&str>,
    name: &str,
    kind: InventoryKind,
) -> (res: bool)
    ensures
        res == references_inventory(text::str_of(namespace), name@, kind)(*plan),
{
    let same_namespace = match (&plan.metadata.namespace, namespace) {
        (Some(own), Some(wanted)) => text_eq(own.as_str(), wanted),
        (None, None) => true,
        _ => false,
    };
    if !same_namespace {
        return false;
    }
    let inventory_refs = &plan.spec.inventory_refs;
    let mut i: usize = 0;
    while i < inventory_refs.len()
        invariant
            i <= inventory_refs@.len(),
            inventory_refs@ == plan.spec.inventory_refs@,
            text::text_of(plan.metadata.namespace) == text::str_of(namespace),
            forall|j: int|
                0 <= j < i ==> referenced(#[trigger] inventory_refs@[j], kind) != Some(name@),
        decreases inventory_refs.len() - i,
    {
        let found = match kind {
            InventoryKind::Cluster => optional_is(&inventory_refs[i].cluster_inventory, name),
            InventoryKind::Static => optional_is(&inventory_refs[i].static_inventory, name),
        };
        if found {
            return true;
        }
        i = i + 1;
    }
    false
}

/// The plans that name an inventory of a kind.
fn inventory_to_playbookplans(
    plans: &[PlaybookPlan],
    inventory: &ObjectMeta,
    kind: InventoryKind,
) -> (res: Vec<ObjectRef>)
    requires
        named(plans@),
        inventory.name is Some,
    ensures
        res@ == refs(
            plans@,
            references_inventory(text::text_of(inventory.namespace), inventory.name->0@, kind),
        ),
{
    let namespace: Option<&str> = match &inventory.namespace {
        Some(namespace) => Some(namespace.as_str()),
        None => None,
    };
    let name: &str = match &inventory.name {
        Some(name) => name.as_str(),
        None => "",
    };
    let passes = |plan: &PlaybookPlan| -> (b: bool)
        ensures
            b == references_inventory(text::str_of(namespace), name@, kind)(*plan),
    {
        plan_references_inventory(plan, namespace, name, kind)
    };
    refs_where(plans, Ghost(references_inventory(text::str_of(namespace), name@, kind)), passes)
}

/// The plans a change to a `ClusterInventory` wakes.
pub fn cluster_inventory_to_playbookplans(plans: &[PlaybookPlan], inventory: &ObjectMeta) -> (res:
    Vec<ObjectRef>)
    requires
        named(plans@),
        inventory.name is Some,
    ensures
        res@ == refs(
            plans@,
            references_inventory(
                text::text_of(inventory.namespace),
                inventory.name->0@,
                InventoryKind::Cluster,
            ),
        ),
{
    inventory_to_playbookplans(plans, inventory, InventoryKind::Cluster)
}

/// The plans a change to a `StaticInventory` wakes.
pub fn static_inventory_to_playbookplans(plans: &[PlaybookPlan], inventory: &ObjectMeta) -> (res:
    Vec<ObjectRef>)
    requires
        named(plans@),
        inventory.name is Some,
    ensures
        res@ == refs(
            plans@,
            references_inventory(
                text::text_of(inventory.namespace),
                inventory.name->0@,
                InventoryKind::Static,
            ),
        ),
{
    inventory_to_playbookplans(plans, inventory, InventoryKind::Static)
}

// --- nodes -----------------------------------------------------------------------------------

/// Whether a plan that has made `retry_count` attempts may make another. Only a one-shot plan
/// spends a budget; a recurring one is limited by its schedule window instead.
pub open spec fn budget_left(mode: ExecutionMode, retry_count: u32, max_attempts: Option<u32>) -> bool {
    match (mode, max_attempts) {
        (ExecutionMode::OneShot, Some(max)) => retry_count < max,
        _ => true,
    }
}

/// Whether a plan that has made `retry_count` attempts may make another.
pub fn attempt_budget_available(mode: ExecutionMode, retry_count: u32, max_attempts: Option<u32>) -> (
res: bool)
    ensures
        res == budget_left(mode, retry_count, max_attempts),
{
    match (mode, max_attempts) {
        (ExecutionMode::OneShot, Some(max)) => retry_count < max,
        _ => true,
    }
}

/// Whether the Node is another machine than the one a record was made about. A record or a Node
/// without a UID proves nothing.
pub open spec fn machine_replaced(recorded_uid: Option<String>, node: Node) -> bool {
    match (recorded_uid, node.metadata.uid) {
        (Some(recorded), Some(uid)) => recorded@ != uid@,
        _ => false,
    }
}

/// Whether a host's record says a Ready Node could still move it on: it was made about another
/// machine, or it is behind the wanted revision and nothing but the Node's absence is known to have
/// kept it there.
pub open spec fn host_waits(record: HostStatus, current_hash: Seq<char>, node: Node) -> bool {
    ||| machine_replaced(record.applied_node_uid, node)
    ||| record.last_applied_hash@ != current_hash && !(record.last_outcome is Failed
        || record.last_outcome is NotReached || record.last_outcome is Incomplete)
}

/// Whether the record of a targeted host, if there is one, says the host is owed a run.
pub open spec fn host_owed_a_run(status: PlaybookPlanStatus, host: Seq<char>, node: Node) -> bool {
    match status.hosts_status {
        Some(hosts) => hosts@.contains_key(host) ==> host_waits(
            hosts@[host],
            status.current_hash@,
            node,
        ),
        None => true,
    }
}

/// Whether a host is among those a plan targets.
pub open spec fn targets(status: PlaybookPlanStatus, host: Seq<char>) -> bool {
    exists|i: int|
        0 <= i < status.eligible_hosts@.len() && text::texts(
            (#[trigger] status.eligible_hosts@[i]).hosts@,
        ).contains(host)
}

/// Whether a plan is waiting on something a Node turning Ready could supply: it is a one-shot plan,
/// not suspended, with an attempt left, that targets the Node and owes it a run.
pub open spec fn awaits(node: Node, node_name: Seq<char>) -> spec_fn(PlaybookPlan) -> bool {
    |plan: PlaybookPlan|
        {
            &&& !plan.spec.suspend
            &&& plan.spec.mode is OneShot
            &&& plan.status is Some
            &&& budget_left(plan.spec.mode, plan.status->0.retry_count, plan.spec.max_attempts)
            &&& targets(plan.status->0, node_name)
            &&& host_owed_a_run(plan.status->0, node_name, node)
        }
}

fn targets_host(status: &PlaybookPlanStatus, host: &str) -> (res: bool)
    ensures
        res == targets(*status, host@),
{
    let groups = &status.eligible_hosts;
    let mut i: usize = 0;
    while i < groups.len()
        invariant
            i <= groups@.len(),
            groups@ == status.eligible_hosts@,
            forall|j: int|
                0 <= j < i ==> !text::texts((#[trigger] groups@[j]).hosts@).contains(host@),
        decreases groups.len() - i,
    {
        if contains_text(&groups[i].hosts, host) {
            return true;
        }
        i = i + 1;
    }
    false
}

/// Whether `plan` targets `node` and is waiting on something the Node turning Ready could supply.
pub fn plan_awaits_node(plan: &PlaybookPlan, node: &Node, node_name: &str) -> (res: bool)
    ensures
        res == awaits(*node, node_name@)(*plan),
{
    if plan.spec.suspend || plan.spec.mode != ExecutionMode::OneShot {
        return false;
    }
    let status = match &plan.status {
        Some(status) => status,
        None => {
            return false;
        },
    };
    if !attempt_budget_available(plan.spec.mode, status.retry_count, plan.spec.max_attempts) {
        return false;
    }
    if !targets_host(status, node_name) {
        return false;
    }
    let record = match &status.hosts_status {
        Some(hosts) => hosts.get(node_name),
        None => None,
    };
    match record {
        Some(record) => {
            let replaced = match (&record.applied_node_uid, &node.metadata.uid) {
                (Some(recorded), Some(uid)) => *recorded != *uid,
                _ => false,
            };
            let settled = match record.last_outcome {
                HostOutcome::Failed | HostOutcome::NotReached | HostOutcome::Incomplete => true,
                _ => false,
            };
            replaced || (record.last_applied_hash != status.current_hash && !settled)
        },
        None => true,
    }
}

/// The plans a Node event wakes: none unless the Node has a name and is Ready, and then those still
/// waiting on it.
pub fn node_to_playbookplans(plans: &[PlaybookPlan], node: &Node) -> (res: Vec<ObjectRef>)
    requires
        named(plans@),
    ensures
        res@ == if node.metadata.name is Some && node_readiness::ready(*node) {
            refs(plans@, awaits(*node, node.metadata.name->0@))
        } else {
            Seq::empty()
        },
{
    let name: &str = match &node.metadata.name {
        Some(name) => name.as_str(),
        None => {
            return Vec::new();
        },
    };
    if !is_ready(node) {
        return Vec::new();
    }
    let passes = |plan: &PlaybookPlan| -> (b: bool)
        ensures
            b == awaits(*node, name@)(*plan),
    {
        plan_awaits_node(plan, node, name)
    };
    refs_where(plans, Ghost(awaits(*node, name@)), passes)
}

// --- secrets ---------------------------------------------------------------------------------

/// Whether a variable source is this Secret.
pub open spec fn variable_from(source: PlaybookVariableSource, secret: Seq<char>) -> bool {
    source matches PlaybookVariableSource::SecretRef { secret_ref } && secret_ref.name@ == secret
}

/// Whether a file source is this Secret.
pub open spec fn files_from(source: FilesSource, secret: Seq<char>) -> bool {
    source matches FilesSource::Secret { secret_ref, .. } && secret_ref.name@ == secret
}

/// Whether a Secret is part of what a plan of the same namespace applies: one of its variable
/// sources or one of its file sources.
pub open spec fn applies_secret(namespace: Option<Seq<char>>, secret: Seq<char>) -> spec_fn(
    PlaybookPlan,
) -> bool {
    |plan: PlaybookPlan|
        {
            &&& text::text_of(plan.metadata.namespace) == namespace
            &&& {
                ||| plan.spec.template.variables is Some && exists|i: int|
                    0 <= i < plan.spec.template.variables->0@.len() && variable_from(
                        #[trigger] plan.spec.template.variables->0@[i],
                        secret,
                    )
                ||| plan.spec.template.files is Some && exists|i: int|
                    0 <= i < plan.spec.template.files->0@.len() && files_from(
                        #[trigger] plan.spec.template.files->0@[i],
                        secret,
                    )
            }
        }
}

fn names_variable_secret(sources: &[PlaybookVariableSource], secret: &str) -> (res: bool)
    ensures
        res == exists|i: int|
            0 <= i < sources@.len() && variable_from(#[trigger] sources@[i], secret@),
{
    let mut i: usize = 0;
    while i < sources.len()
        invariant
            i <= sources@.len(),
            forall|j: int| 0 <= j < i ==> !variable_from(#[trigger] sources@[j], secret@),
        decreases sources.len() - i,
    {
        let found = match &sources[i] {
            PlaybookVariableSource::SecretRef { secret_ref } => text_eq(
                secret_ref.name.as_str(),
                secret,
            ),
            PlaybookVariableSource::Inline { .. } => false,
        };
        if found {
            return true;
        }
        i = i + 1;
    }
    false
}

fn names_files_secret(sources: &[FilesSource], secret: &str) -> (res: bool)
    ensures
        res == exists|i: int|
            0 <= i < sources@.len() && files_from(#[trigger] sources@[i], secret@),
{
    let mut i: usize = 0;
    while i < sources.len()
        invariant
            i <= sources@.len(),
            forall|j: int| 0 <= j < i ==> !files_from(#[trigger] sources@[j], secret@),
        decreases sources.len() - i,
    {
        let found = match &sources[i] {
            FilesSource::Secret { secret_ref, .. } => text_eq(secret_ref.name.as_str(), secret),
            FilesSource::Other { .. } => false,
        };
        if found {
            return true;
        }
        i = i + 1;
    }
    false
}

fn plan_applies_secret(plan: &PlaybookPlan, namespace: &Option<String>, secret: &str) -> (res: bool)
    ensures
        res == applies_secret(text::text_of(*namespace), secret@)(*plan),
{
    if !optional_eq(&plan.metadata.namespace, namespace) {
        return false;
    }
    if let Some(variables) = &plan.spec.template.variables {
        if names_variable_secret(variables, secret) {
            return true;
        }
    }
    match &plan.spec.template.files {
        Some(files) => names_files_secret(files, secret),
        None => false,
    }
}

/// The plans that apply a Secret's content.
pub fn secret_to_playbookplans(plans: &[PlaybookPlan], secret: &ObjectMeta) -> (res: Vec<ObjectRef>)
    requires
        named(plans@),
        secret.name is Some,
    ensures
        res@ == refs(plans@, applies_secret(text::text_of(secret.namespace), secret.name->0@)),
{
    let namespace = &secret.namespace;
    let name: &str = match &secret.name {
        Some(name) => name.as_str(),
        None => "",
    };
    let passes = |plan: &PlaybookPlan| -> (b: bool)
        ensures
            b == applies_secret(text::text_of(*namespace), name@)(*plan),
    {
        plan_applies_secret(plan, namespace, name)
    };
    refs_where(plans, Ghost(applies_secret(text::text_of(*namespace), name@)), passes)
}

/// Whether a plan whose status is this may have something left to apply.
pub open spec fn unfinished(status: PlaybookPlanStatus) -> bool {
    !(status.phase is Succeeded)
}

/// Whether a plan whose status is this may have something left to apply.
pub fn may_need_another_run(status: &PlaybookPlanStatus) -> (res: bool)
    ensures
        res == unfinished(*status),
{
    status.phase != Phase::Succeeded
}

/// Whether an inventory of this name logs in with this Secret.
pub open spec fn keyed_by(
    inventory: StaticInventory,
    namespace: Option<Seq<char>>,
    secret: Seq<char>,
    name: Seq<char>,
) -> bool {
    &&& text::text_of(inventory.metadata.namespace) == namespace
    &&& inventory.spec.ssh.secret_ref.name@ == secret
    &&& text::text_of(inventory.metadata.name) == Some(name)
}

/// Whether one of the inventories logs in with this Secret and has this name.
pub open spec fn key_holder(
    inventories: Seq<StaticInventory>,
    namespace: Option<Seq<char>>,
    secret: Seq<char>,
    name: Seq<char>,
) -> bool {
    exists|i: int|
        0 <= i < inventories.len() && keyed_by(#[trigger] inventories[i], namespace, secret, name)
}

/// Whether a changed SSH key could unstick a plan: it is of the same namespace, its last run did
/// not settle it, and it targets a `StaticInventory` that logs in with the key.
pub open spec fn logs_in_with(
    inventories: Seq<StaticInventory>,
    namespace: Option<Seq<char>>,
    secret: Seq<char>,
) -> spec_fn(PlaybookPlan) -> bool {
    |plan: PlaybookPlan|
        {
            &&& text::text_of(plan.metadata.namespace) == namespace
            &&& plan.status is Some
            &&& unfinished(plan.status->0)
            &&& exists|i: int|
                0 <= i < plan.spec.inventory_refs@.len() && (
                #[trigger] plan.spec.inventory_refs@[i]).static_inventory is Some && key_holder(
                    inventories,
                    namespace,
                    secret,
                    plan.spec.inventory_refs@[i].static_inventory->0@,
                )
        }
}

/// The names of the inventories that log in with a Secret.
fn inventories_keyed_by(
    inventories: &[StaticInventory],
    namespace: &Option<String>,
    secret: &str,
) -> (res: Vec<String>)
    ensures
        forall|name: Seq<char>| #[trigger]
            text::texts(res@).contains(name) <==> key_holder(
                inventories@,
                text::text_of(*namespace),
                secret@,
                name,
            ),
{
    let ghost ns = text::text_of(*namespace);
    let mut out: Vec<String> = Vec::new();
    let mut i: usize = 0;
    while i < inventories.len()
        invariant
            i <= inventories@.len(),
            ns == text::text_of(*namespace),
            forall|name: Seq<char>| #[trigger]
                text::texts(out@).contains(name) <==> exists|j: int|
                    0 <= j < i && keyed_by(#[trigger] inventories@[j], ns, secret@, name),
        decreases inventories.len() - i,
    {
        let inventory = &inventories[i];
        let ghost before = text::texts(out@);
        if optional_eq(&inventory.metadata.namespace, namespace) && text_eq(
            inventory.spec.ssh.secret_ref.name.as_str(),
            secret,
        ) {
            if let Some(name) = &inventory.metadata.name {
                out.push(name.clone());
                assert(text::texts(out@) =~= before.push(name@));
            }
        }
        proof {
            let after = text::texts(out@);
            assert forall|name: Seq<char>| #[trigger] after.contains(name) <==> exists|j: int|
                0 <= j < i + 1 && keyed_by(#[trigger] inventories@[j], ns, secret@, name) by {
                assert(before.contains(name) <==> exists|j: int|
                    0 <= j < i && keyed_by(#[trigger] inventories@[j], ns, secret@, name));
                if keyed_by(inventories@[i as int], ns, secret@, name) {
                    assert(after[after.len() - 1] == name);
                }
                if before.contains(name) {
                    let k = choose|k: int| 0 <= k < before.len() && before[k] == name;
                    assert(after[k] == name);
                }
                if after.contains(name) && !before.contains(name) {
                    let k = choose|k: int| 0 <= k < after.len() && after[k] == name;
                    if k < before.len() {
                        assert(before[k] == name);
                    }
                }
            }
        }
        i = i + 1;
    }
    out
}

fn plan_logs_in_with(
    plan: &PlaybookPlan,
    namespace: &Option<String>,
    holders: &[String],
    Ghost(inventories): Ghost<Seq<StaticInventory>>,
    Ghost(secret): Ghost<Seq<char>>,
) -> (res: bool)
    requires
        forall|name: Seq<char>| #[trigger]
            text::texts(holders@).contains(name) <==> key_holder(
                inventories,
                text::text_of(*namespace),
                secret,
                name,
            ),
    ensures
        res == logs_in_with(inventories, text::text_of(*namespace), secret)(*plan),
{
    if !optional_eq(&plan.metadata.namespace, namespace) {
        return false;
    }
    let unsettled = match &plan.status {
        Some(status) => may_need_another_run(status),
        None => false,
    };
    if !unsettled {
        return false;
    }
    let inventory_refs = &plan.spec.inventory_refs;
    let mut i: usize = 0;
    while i < inventory_refs.len()
        invariant
            i <= inventory_refs@.len(),
            inventory_refs@ == plan.spec.inventory_refs@,
            text::text_of(plan.metadata.namespace) == text::text_of(*namespace),
            plan.status is Some,
            unfinished(plan.status->0),
            forall|name: Seq<char>| #[trigger]
                text::texts(holders@).contains(name) <==> key_holder(
                    inventories,
                    text::text_of(*namespace),
                    secret,
                    name,
                ),
            forall|j: int|
                0 <= j < i && (#[trigger] inventory_refs@[j]).static_inventory is Some
                    ==> !key_holder(
                    inventories,
                    text::text_of(*namespace),
                    secret,
                    inventory_refs@[j].static_inventory->0@,
                ),
        decreases inventory_refs.len() - i,
    {
        if let Some(name) = &inventory_refs[i].static_inventory {
            if contains_text(holders, name.as_str()) {
                assert(key_holder(inventories, text::text_of(*namespace), secret, name@));
                assert(plan.spec.inventory_refs@[i as int].static_inventory == Some(*name));
                return true;
            }
        }
        i = i + 1;
    }
    false
}

/// The plans a change to an SSH key may unstick.
pub fn ssh_secret_to_playbookplans(
    plans: &[PlaybookPlan],
    inventories: &[StaticInventory],
    secret: &ObjectMeta,
) -> (res: Vec<ObjectRef>)
    requires
        named(plans@),
        secret.name is Some,
    ensures
        res@ == refs(
            plans@,
            logs_in_with(inventories@, text::text_of(secret.namespace), secret.name->0@),
        ),
{
    let namespace = &secret.namespace;
    let name: &str = match &secret.name {
        Some(name) => name.as_str(),
        None => "",
    };
    let holders = inventories_keyed_by(inventories, namespace, name);
    let passes = |plan: &PlaybookPlan| -> (b: bool)
        ensures
            b == logs_in_with(inventories@, text::text_of(*namespace), name@)(*plan),
    {
        plan_logs_in_with(plan, namespace, &holders, Ghost(inventories@), Ghost(name@))
    };
    refs_where(plans, Ghost(logs_in_with(inventories@, text::text_of(*namespace), name@)), passes)
}

/// The plans a Secret event wakes: those that apply its content, then those its key may unstick.
pub fn secret_to_affected_playbookplans(
    plans: &[PlaybookPlan],
    inventories: &[StaticInventory],
    secret: &ObjectMeta,
) -> (res: Vec<ObjectRef>)
    requires
        named(plans@),
        secret.name is Some,
    ensures
        res@ == refs(plans@, applies_secret(text::text_of(secret.namespace), secret.name->0@))
            + refs(
            plans@,
            logs_in_with(inventories@, text::text_of(secret.namespace), secret.name->0@),
        ),
{
    let mut affected = secret_to_playbookplans(plans, secret);
    let mut by_key = ssh_secret_to_playbookplans(plans, inventories, secret);
    affected.append(&mut by_key);
    affected
}

// --- laws ------------------------------------------------------------------------------------

/// A plan that is suspended, recurring, out of attempts, or has reported nothing is never woken by
/// a Node.
pub proof fn a_plan_that_cannot_act_awaits_nothing(plan: PlaybookPlan, node: Node, name: Seq<char>)
    requires
        plan.spec.suspend || plan.spec.mode is Recurring || plan.status is None || !budget_left(
            plan.spec.mode,
            plan.status->0.retry_count,
            plan.spec.max_attempts,
        ),
    ensures
        !awaits(node, name)(plan),
{
}

/// A converged host wakes nothing: where the record carries the wanted revision and was made about
/// this machine, no heartbeat of the Node wakes the plan.
pub proof fn a_converged_host_wakes_nothing(
    plan: PlaybookPlan,
    node: Node,
    name: Seq<char>,
    hosts: crate::textmap::TextMap<HostStatus>,
)
    requires
        plan.status is Some,
        plan.status->0.hosts_status == Some(hosts),
        hosts@.contains_key(name),
        hosts@[name].last_applied_hash@ == plan.status->0.current_hash@,
        !machine_replaced(hosts@[name].applied_node_uid, node),
    ensures
        !awaits(node, name)(plan),
{
}

/// No event of one namespace's inventory or Secret wakes a plan of another.
pub proof fn wakes_stay_in_their_namespace(
    plan: PlaybookPlan,
    inventories: Seq<StaticInventory>,
    namespace: Option<Seq<char>>,
    name: Seq<char>,
    kind: InventoryKind,
)
    requires
        text::text_of(plan.metadata.namespace) != namespace,
    ensures
        !references_inventory(namespace, name, kind)(plan),
        !applies_secret(namespace, name)(plan),
        !logs_in_with(inventories, namespace, name)(plan),
{
}

// --- who is woken ----------------------------------------------------------------------------

/// A plan is named by its own namespace and name, and a plan is woken exactly where the question is
/// answered for it.
pub proof fn who_is_asked_is_woken(
    plans: Seq<PlaybookPlan>,
    pred: spec_fn(PlaybookPlan) -> bool,
    plan: PlaybookPlan,
)
    ensures
        plans.contains(plan) && pred(plan) ==> refs(plans, pred).contains(
            (ObjectRef { namespace: plan.metadata.namespace, name: plan.metadata.name->0 }),
        ),
        forall|woken: ObjectRef| #[trigger]
            refs(plans, pred).contains(woken) ==> exists|i: int|
                0 <= i < plans.len() && pred(#[trigger] plans[i]) && woken.namespace
                    == plans[i].metadata.namespace && woken.name == plans[i].metadata.name->0,
{
    let kept = plans.filter(pred);
    seqs::lemma_filter_contains(plans, pred, plan);
    if plans.contains(plan) && pred(plan) {
        let i = choose|i: int| 0 <= i < kept.len() && kept[i] == plan;
        assert(refs(plans, pred)[i] == ref_of()(plan));
    }
    assert forall|woken: ObjectRef| #[trigger] refs(plans, pred).contains(woken) implies exists|
        i: int,
    |
        0 <= i < plans.len() && pred(#[trigger] plans[i]) && woken.namespace
            == plans[i].metadata.namespace && woken.name == plans[i].metadata.name->0 by {
        let k = choose|k: int|
            0 <= k < refs(plans, pred).len() && refs(plans, pred)[k] == woken;
        let found = kept[k];
        assert(kept.contains(found));
        seqs::lemma_filter_contains(plans, pred, found);
        let i = choose|i: int| 0 <= i < plans.len() && plans[i] == found;
        assert(pred(plans[i]));
    }
}

/// A change of policy wakes every plan.
pub proof fn a_policy_wakes_every_plan(plan: PlaybookPlan)
    ensures
        any_plan()(plan),
{
}

/// An inventory wakes exactly the plans of its namespace that refer to one of its kind and name.
pub proof fn an_inventory_wakes_who_refers_to_it(
    namespace: Option<Seq<char>>,
    name: Seq<char>,
    plan: PlaybookPlan,
)
    ensures
        references_inventory(namespace, name, InventoryKind::Cluster)(plan) <==> text::text_of(
            plan.metadata.namespace,
        ) == namespace && exists|i: int|
            0 <= i < plan.spec.inventory_refs@.len() && (
            #[trigger] plan.spec.inventory_refs@[i]).cluster_inventory is Some
                && plan.spec.inventory_refs@[i].cluster_inventory->0@ == name,
        references_inventory(namespace, name, InventoryKind::Static)(plan) <==> text::text_of(
            plan.metadata.namespace,
        ) == namespace && exists|i: int|
            0 <= i < plan.spec.inventory_refs@.len() && (
            #[trigger] plan.spec.inventory_refs@[i]).static_inventory is Some
                && plan.spec.inventory_refs@[i].static_inventory->0@ == name,
{
    let listed = plan.spec.inventory_refs@;
    if exists|i: int|
        0 <= i < listed.len() && (#[trigger] listed[i]).cluster_inventory is Some
            && listed[i].cluster_inventory->0@ == name {
        let i = choose|i: int|
            0 <= i < listed.len() && (#[trigger] listed[i]).cluster_inventory is Some
                && listed[i].cluster_inventory->0@ == name;
        assert(referenced(listed[i], InventoryKind::Cluster) == Some(name));
    }
    if exists|i: int|
        0 <= i < listed.len() && (#[trigger] listed[i]).static_inventory is Some
            && listed[i].static_inventory->0@ == name {
        let i = choose|i: int|
            0 <= i < listed.len() && (#[trigger] listed[i]).static_inventory is Some
                && listed[i].static_inventory->0@ == name;
        assert(referenced(listed[i], InventoryKind::Static) == Some(name));
    }
}

/// A Node that turns ready wakes a plan that targets it, applies once, is not suspended, has an attempt
/// left and has no record of it.
pub proof fn an_unrecorded_node_wakes_its_plan(
    plan: PlaybookPlan,
    node: Node,
    name: Seq<char>,
    g: int,
    h: int,
)
    requires
        !plan.spec.suspend,
        plan.spec.mode is OneShot,
        plan.status is Some,
        plan.spec.max_attempts matches Some(max) ==> plan.status->0.retry_count < max,
        0 <= g < plan.status->0.eligible_hosts@.len(),
        0 <= h < plan.status->0.eligible_hosts@[g].hosts@.len(),
        plan.status->0.eligible_hosts@[g].hosts@[h]@ == name,
        plan.status->0.hosts_status matches Some(records) ==> !records@.contains_key(name),
    ensures
        awaits(node, name)(plan),
{
    let hosts = text::texts(plan.status->0.eligible_hosts@[g].hosts@);
    assert(hosts[h] == name);
    assert(hosts.contains(name));
}

/// A Node that turns ready wakes a plan that has a record of it exactly where the machine was replaced or
/// the revision did not get to it for a reason the Node could be: it was unreachable, or nothing is
/// known, or it succeeded at another revision.
pub proof fn a_recorded_node_wakes_its_plan_for_a_reason(
    plan: PlaybookPlan,
    node: Node,
    name: Seq<char>,
    g: int,
    h: int,
)
    requires
        !plan.spec.suspend,
        plan.spec.mode is OneShot,
        plan.status is Some,
        plan.spec.max_attempts matches Some(max) ==> plan.status->0.retry_count < max,
        0 <= g < plan.status->0.eligible_hosts@.len(),
        0 <= h < plan.status->0.eligible_hosts@[g].hosts@.len(),
        plan.status->0.eligible_hosts@[g].hosts@[h]@ == name,
        plan.status->0.hosts_status is Some,
        plan.status->0.hosts_status->0@.contains_key(name),
    ensures
        ({
            let record = plan.status->0.hosts_status->0@[name];
            awaits(node, name)(plan) <==> (record.applied_node_uid is Some && node.metadata.uid
                is Some && record.applied_node_uid->0@ != node.metadata.uid->0@) || (
            record.last_applied_hash@ != plan.status->0.current_hash@ && (record.last_outcome
                is Succeeded || record.last_outcome is Unreachable || record.last_outcome
                is Unknown))
        }),
{
    let hosts = text::texts(plan.status->0.eligible_hosts@[g].hosts@);
    assert(hosts[h] == name);
    assert(hosts.contains(name));
}

/// A Node that a plan does not target wakes nothing of it.
pub proof fn an_untargeted_node_wakes_nothing(plan: PlaybookPlan, node: Node, name: Seq<char>)
    requires
        plan.status matches Some(status) ==> forall|g: int, h: int|
            0 <= g < status.eligible_hosts@.len() && 0 <= h < status.eligible_hosts@[g].hosts@.len()
                ==> (#[trigger] status.eligible_hosts@[g].hosts@[h])@ != name,
    ensures
        !awaits(node, name)(plan),
{
    if awaits(node, name)(plan) {
        let status = plan.status->0;
        let g = choose|g: int|
            0 <= g < status.eligible_hosts@.len() && text::texts(
                (#[trigger] status.eligible_hosts@[g]).hosts@,
            ).contains(name);
        let hosts = text::texts(status.eligible_hosts@[g].hosts@);
        let h = choose|h: int| 0 <= h < hosts.len() && hosts[h] == name;
        assert(status.eligible_hosts@[g].hosts@[h]@ == name);
    }
}

/// Only a plan that applies once and limits its attempts can run out of them.
pub proof fn attempts_are_counted_where_they_are_limited(
    mode: ExecutionMode,
    made: u32,
    limit: Option<u32>,
)
    ensures
        budget_left(mode, made, limit) <==> mode is Recurring || limit is None || made < limit->0,
{
}

/// A Secret wakes exactly the plans of its namespace that take a variable or a file from it.
pub proof fn a_secret_wakes_who_takes_from_it(
    namespace: Option<Seq<char>>,
    secret: Seq<char>,
    plan: PlaybookPlan,
)
    ensures
        applies_secret(namespace, secret)(plan) <==> text::text_of(plan.metadata.namespace)
            == namespace && ((plan.spec.template.variables is Some && exists|i: int|
            0 <= i < plan.spec.template.variables->0@.len() && (
            #[trigger] plan.spec.template.variables->0@[i]) is SecretRef
                && plan.spec.template.variables->0@[i]->SecretRef_secret_ref.name@ == secret) || (
        plan.spec.template.files is Some && exists|i: int|
            0 <= i < plan.spec.template.files->0@.len() && (
            #[trigger] plan.spec.template.files->0@[i]) is Secret
                && plan.spec.template.files->0@[i]->Secret_secret_ref.name@ == secret)),
{
    let namespaced = text::text_of(plan.metadata.namespace) == namespace;
    if plan.spec.template.variables is Some {
        let sources = plan.spec.template.variables->0@;
        assert forall|i: int| 0 <= i < sources.len() implies variable_from(
            #[trigger] sources[i],
            secret,
        ) == (sources[i] is SecretRef && sources[i]->SecretRef_secret_ref.name@ == secret) by {}
    }
    if plan.spec.template.files is Some {
        let sources = plan.spec.template.files->0@;
        assert forall|i: int| 0 <= i < sources.len() implies files_from(
            #[trigger] sources[i],
            secret,
        ) == (sources[i] is Secret && sources[i]->Secret_secret_ref.name@ == secret) by {}
    }
}

/// A key wakes the plans of its namespace that log in with it and whose last run did not succeed.
pub proof fn a_key_wakes_who_logs_in_with_it(
    inventories: Seq<StaticInventory>,
    namespace: Option<Seq<char>>,
    secret: Seq<char>,
    plan: PlaybookPlan,
    i: int,
    k: int,
)
    requires
        text::text_of(plan.metadata.namespace) == namespace,
        plan.status is Some,
        0 <= i < plan.spec.inventory_refs@.len(),
        plan.spec.inventory_refs@[i].static_inventory is Some,
        0 <= k < inventories.len(),
        text::text_of(inventories[k].metadata.namespace) == namespace,
        inventories[k].metadata.name is Some,
        inventories[k].metadata.name->0@ == plan.spec.inventory_refs@[i].static_inventory->0@,
        inventories[k].spec.ssh.secret_ref.name@ == secret,
    ensures
        logs_in_with(inventories, namespace, secret)(plan) <==> !(plan.status->0.phase
            is Succeeded),
{
    assert(keyed_by(
        inventories[k],
        namespace,
        secret,
        plan.spec.inventory_refs@[i].static_inventory->0@,
    ));
}

/// A key that none of a plan's inventories logs in with wakes nothing of it.
pub proof fn a_foreign_key_wakes_nothing(
    inventories: Seq<StaticInventory>,
    namespace: Option<Seq<char>>,
    secret: Seq<char>,
    plan: PlaybookPlan,
)
    requires
        forall|k: int|
            0 <= k < inventories.len() ==> (#[trigger] inventories[k]).spec.ssh.secret_ref.name@
                != secret || text::text_of(inventories[k].metadata.namespace) != namespace,
    ensures
        !logs_in_with(inventories, namespace, secret)(plan),
{
}

} // verus!
