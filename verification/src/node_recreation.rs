//! Whether the machine behind a recorded host is still the one that record was written for.
//!
//! Records are kept by host name, and a Node can be deleted and registered again under the same
//! name. The fresh Node inherits nothing from its predecessor but the name, so a claim made about
//! the previous machine is dropped. Both sides of the comparison are stamped by the API server.

use vstd::prelude::*;
use crate::ansible_inventory;
use crate::ansible_inventory::{managed_ssh_node_names, ResolvedInventoryGroup};
use crate::plans::{HostStatus, PlaybookPlanStatus, Timestamp};
use crate::resources;
use crate::resources::{find_node, Node};
use crate::text;
use crate::text::insert_sorted;
use crate::textmap::TextMap;

verus! {

/// Whether a Node is a different machine from the one a claim made at `claimed_at` describes:
/// created, to the second, after the claim.
pub open spec fn replaced_since(claimed_at: Option<Timestamp>, node: Node) -> bool {
    claimed_at matches Some(claimed) && node.metadata.creation_timestamp matches Some(created)
        && created > claimed.seconds
}

/// Whether `node` is a different machine from the one a claim made by a run prepared at
/// `claimed_at` describes. Missing either time answers no, and so does the same second.
pub fn node_replaced_since(claimed_at: Option<Timestamp>, node: &Node) -> (res: bool)
    ensures
        res == replaced_since(claimed_at, *node),
{
    match (claimed_at, node.metadata.creation_timestamp) {
        (Some(claimed), Some(created)) => created > claimed.seconds,
        _ => false,
    }
}

/// Whether a host's recorded claim is about a machine that has been replaced.
pub open spec fn claim_is_stale(
    nodes: Seq<Node>,
    groups: Seq<ResolvedInventoryGroup>,
    records: Map<Seq<char>, HostStatus>,
    host: Seq<char>,
) -> bool {
    &&& ansible_inventory::managed_hosts(groups).contains(host)
    &&& records.dom().contains(host)
    &&& resources::node_named(nodes, host) matches Some(node) && replaced_since(
        records[host].applied_at,
        node,
    )
}

/// Whether `after` is `before` with its claim dropped and its history kept.
pub open spec fn claim_dropped(before: HostStatus, after: HostStatus) -> bool {
    &&& after.last_applied_hash@ == Seq::<char>::empty()
    &&& after.applied_at is None
    &&& after.applied_version is None
    &&& after.last_outcome == before.last_outcome
    &&& after.applied_node_uid == before.applied_node_uid
    &&& after.last_transition_time == before.last_transition_time
}

/// Whether this is a status once the claims about replaced machines are dropped, and these the hosts
/// that lost theirs.
pub open spec fn are_dropped(
    status: PlaybookPlanStatus,
    replaced: Seq<Seq<char>>,
    before: PlaybookPlanStatus,
    nodes: Seq<Node>,
    groups: Seq<ResolvedInventoryGroup>,
) -> bool {
    &&& status == (PlaybookPlanStatus { hosts_status: status.hosts_status, ..before })
    &&& text::sorted(replaced)
    &&& match (before.hosts_status, status.hosts_status) {
        (None, None) => replaced.len() == 0,
        (Some(old_records), Some(records)) => {
            &&& forall|k: Seq<char>|
                replaced.contains(k) <==> claim_is_stale(nodes, groups, old_records@, k)
            &&& records@.dom() == old_records@.dom()
            &&& forall|k: Seq<char>| #[trigger]
                old_records@.dom().contains(k) ==> if claim_is_stale(
                    nodes,
                    groups,
                    old_records@,
                    k,
                ) {
                    claim_dropped(old_records@[k], records@[k])
                } else {
                    records@[k] == old_records@[k]
                }
        },
        _ => false,
    }
}

fn stale_hosts(
    nodes: &[Node],
    groups: &[ResolvedInventoryGroup],
    records: &TextMap<HostStatus>,
) -> (res: Vec<String>)
    ensures
        text::sorted(text::texts(res@)),
        forall|k: Seq<char>|
            text::texts(res@).contains(k) <==> claim_is_stale(nodes@, groups@, records@, k),
{
    let hosts = managed_ssh_node_names(groups);
    let ghost all = text::texts(hosts@);
    let ghost stale = |k: Seq<char>|
        records@.dom().contains(k) && (resources::node_named(nodes@, k) matches Some(node)
            && replaced_since(records@[k].applied_at, node));
    let mut out: Vec<String> = Vec::new();
    let mut i: usize = 0;
    while i < hosts.len()
        invariant
            all == text::texts(hosts@),
            i <= hosts@.len(),
            text::sorted(text::texts(out@)),
            stale == (|k: Seq<char>|
                records@.dom().contains(k) && (resources::node_named(nodes@, k) matches Some(node)
                    && replaced_since(records@[k].applied_at, node))),
            forall|k: Seq<char>|
                text::texts(out@).contains(k) <==> all.take(i as int).contains(k) && stale(k),
        decreases hosts.len() - i,
    {
        let host = hosts[i].clone();
        assert(host@ == all[i as int]);
        let replaced = match records.get(host.as_str()) {
            Some(record) => match find_node(nodes, host.as_str()) {
                Some(node) => node_replaced_since(record.applied_at, node),
                None => false,
            },
            None => false,
        };
        assert(replaced == stale(host@));
        let ghost before = text::texts(out@);
        if replaced {
            insert_sorted(&mut out, host);
        }
        proof {
            assert forall|k: Seq<char>|
                text::texts(out@).contains(k) <==> all.take(i + 1).contains(k) && stale(k) by {
                text::lemma_take_contains(all, i as int, k);
                assert(before.contains(k) <==> all.take(i as int).contains(k) && stale(k));
            }
        }
        i = i + 1;
    }
    assert(all.take(i as int) =~= all);
    out
}

/// Drops the recorded application of every managed-ssh host whose Node is newer than the run that
/// claimed it, returning the hosts that lost theirs, sorted, each once.
///
/// Only the claim is dropped, never the outcome or the time it was recorded. Hosts outside the
/// managed-ssh groups, hosts with no Node in the cache and records that cannot be dated are left
/// alone.
pub fn drop_records_for_recreated_nodes(
    nodes: &[Node],
    groups: &[ResolvedInventoryGroup],
    status: &mut PlaybookPlanStatus,
) -> (res: Vec<String>)
    ensures
        are_dropped(*final(status), text::texts(res@), *old(status), nodes@, groups@),
{
    let taken = status.hosts_status.take();
    let mut records = match taken {
        Some(records) => records,
        None => {
            return Vec::new();
        },
    };
    let replaced = stale_hosts(nodes, groups, &records);
    let ghost before = records@;
    let ghost names = text::texts(replaced@);
    let mut i: usize = 0;
    while i < replaced.len()
        invariant
            i <= replaced@.len(),
            names == text::texts(replaced@),
            text::sorted(names),
            forall|k: Seq<char>|
                names.contains(k) <==> claim_is_stale(nodes@, groups@, before, k),
            records@.dom() == before.dom(),
            forall|k: Seq<char>| #[trigger]
                before.dom().contains(k) ==> if names.take(i as int).contains(k) {
                    claim_dropped(before[k], records@[k])
                } else {
                    records@[k] == before[k]
                },
        decreases replaced.len() - i,
    {
        let host = &replaced[i];
        assert(names[i as int] == host@);
        assert(names.contains(host@));
        let ghost was = records@;
        if let Some(record) = records.get(host.as_str()) {
            let mut fresh = record.copy();
            fresh.last_applied_hash = String::new();
            fresh.applied_at = None;
            fresh.applied_version = None;
            records.insert(host.clone(), fresh);
        }
        proof {
            assert(!names.take(i as int).contains(host@)) by {
                if names.take(i as int).contains(host@) {
                    let j = choose|j: int| 0 <= j < i && names.take(i as int)[j] == host@;
                    text::lemma_text_lt_irreflexive(host@);
                    assert(text::text_lt(names[j], names[i as int]));
                }
            }
            assert(records@.dom() =~= before.dom());
            assert forall|k: Seq<char>| #[trigger] before.dom().contains(k) implies if names.take(
                i + 1,
            ).contains(k) {
                claim_dropped(before[k], records@[k])
            } else {
                records@[k] == before[k]
            } by {
                text::lemma_take_contains(names, i as int, k);
            }
        }
        i = i + 1;
    }
    assert(names.take(i as int) =~= names);
    status.hosts_status = Some(records);
    replaced
}

/// Dropping stale claims a second time drops nothing: a record without a date is never stale.
pub proof fn dropping_is_idempotent(
    nodes: Seq<Node>,
    groups: Seq<ResolvedInventoryGroup>,
    before: Map<Seq<char>, HostStatus>,
    after: Map<Seq<char>, HostStatus>,
    host: Seq<char>,
)
    requires
        after.dom() == before.dom(),
        forall|k: Seq<char>| #[trigger]
            before.dom().contains(k) ==> if claim_is_stale(nodes, groups, before, k) {
                claim_dropped(before[k], after[k])
            } else {
                after[k] == before[k]
            },
    ensures
        !claim_is_stale(nodes, groups, after, host),
{
    if after.dom().contains(host) {
        assert(before.dom().contains(host));
    }
}

/// A Node was replaced since a claim exactly where it was created in a later second.
pub proof fn a_node_was_replaced_where_it_is_younger(claimed: Timestamp, node: Node)
    ensures
        node.metadata.creation_timestamp matches Some(created) ==> (replaced_since(
            Some(claimed),
            node,
        ) <==> created > claimed.seconds),
        node.metadata.creation_timestamp is None ==> !replaced_since(Some(claimed), node),
        !replaced_since(None, node),
{
}

/// The claim about a managed host is dropped where its Node is younger than the claim: the host is listed, and
/// its record no longer says what was applied or when, but still what came of it.
pub proof fn a_claim_about_a_younger_node_is_dropped(
    status: PlaybookPlanStatus,
    replaced: Seq<Seq<char>>,
    before: PlaybookPlanStatus,
    nodes: Seq<Node>,
    groups: Seq<ResolvedInventoryGroup>,
    host: Seq<char>,
    node: Node,
    created: i64,
    at: Timestamp,
)
    requires
        are_dropped(status, replaced, before, nodes, groups),
        before.hosts_status is Some,
        before.hosts_status->0@.contains_key(host),
        before.hosts_status->0@[host].applied_at == Some(at),
        ansible_inventory::managed_hosts(groups).contains(host),
        resources::node_named(nodes, host) == Some(node),
        node.metadata.creation_timestamp == Some(created),
    ensures
        status.hosts_status is Some,
        status.hosts_status->0@.contains_key(host),
        created > at.seconds ==> replaced.contains(host)
            && status.hosts_status->0@[host].last_applied_hash@.len() == 0
            && status.hosts_status->0@[host].applied_at is None
            && status.hosts_status->0@[host].applied_version is None
            && status.hosts_status->0@[host].last_outcome
            == before.hosts_status->0@[host].last_outcome,
        created <= at.seconds ==> !replaced.contains(host) && status.hosts_status->0@[host]
            == before.hosts_status->0@[host],
{
    let records = before.hosts_status->0@;
    assert(records.dom().contains(host));
    assert(claim_is_stale(nodes, groups, records, host) <==> created > at.seconds);
}

/// Nothing but the record of a managed host that is a Node is ever dropped.
pub proof fn other_claims_are_kept(
    status: PlaybookPlanStatus,
    replaced: Seq<Seq<char>>,
    before: PlaybookPlanStatus,
    nodes: Seq<Node>,
    groups: Seq<ResolvedInventoryGroup>,
    host: Seq<char>,
)
    requires
        are_dropped(status, replaced, before, nodes, groups),
        before.hosts_status is Some,
        before.hosts_status->0@.contains_key(host),
        !ansible_inventory::managed_hosts(groups).contains(host) || resources::node_named(nodes, host)
            is None || before.hosts_status->0@[host].applied_at is None,
    ensures
        status.hosts_status is Some && status.hosts_status->0@.contains_key(host)
            && status.hosts_status->0@[host] == before.hosts_status->0@[host],
        !replaced.contains(host),
        status.phase == before.phase && status.current_hash == before.current_hash
            && status.active_run == before.active_run && status.retry_count == before.retry_count,
{
    let records = before.hosts_status->0@;
    assert(records.dom().contains(host));
    assert(!claim_is_stale(nodes, groups, records, host));
}

} // verus!
