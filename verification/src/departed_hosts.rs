//! Records describing machines that are gone for good.
//!
//! A record is dropped only where the host has left the plan's resolved inventory *and* no Node of
//! that name exists: a host leaves the inventory for reasons that say nothing about the machine.

use vstd::prelude::*;
use crate::ansible_inventory;
use crate::ansible_inventory::{distinct_hosts, ResolvedHosts};
use crate::json;
use crate::json::member;
use crate::plans::{HostStatus, PlaybookPlanStatus};
use crate::resources;
use crate::resources::{find_node, Node};
use crate::search;
use crate::search::join_texts;
use crate::seqs;
use crate::text;
use crate::text::{concat3, contains_text, sorted_distinct};
use crate::textmap;
use crate::textmap::TextMap;

verus! {

/// Whether a host is in no group of the inventory and has no Node.
pub open spec fn departed(eligible: Seq<ResolvedHosts>, nodes: Seq<Node>) -> spec_fn(Seq<char>) -> bool {
    |host: Seq<char>|
        !ansible_inventory::all_hosts(eligible).contains(host) && resources::node_named(
            nodes,
            host,
        ) is None
}

fn departed_among(
    records: &TextMap<HostStatus>,
    eligible: &[ResolvedHosts],
    nodes: &[Node],
) -> (res: Vec<String>)
    ensures
        text::texts(res@) == textmap::pair_keys(records.pairs()).filter(
            departed(eligible@, nodes@),
        ),
        text::sorted(textmap::pair_keys(records.pairs())),
{
    let targeted = distinct_hosts(eligible);
    let n = records.len();
    let ghost keys = textmap::pair_keys(records.pairs());
    let ghost p = departed(eligible@, nodes@);
    proof {
        ansible_inventory::each_host_counts_once(eligible@);
        seqs::lemma_filter_none(keys, p);
    }
    let mut out: Vec<String> = Vec::new();
    let mut i: usize = 0;
    assert(text::texts(out@) =~= keys.take(0).filter(p));
    while i < n
        invariant
            n == records.pairs().len(),
            keys == textmap::pair_keys(records.pairs()),
            p == departed(eligible@, nodes@),
            forall|k: Seq<char>|
                text::texts(targeted@).contains(k) <==> ansible_inventory::all_hosts(
                    eligible@,
                ).contains(k),
            i <= n,
            text::texts(out@) == keys.take(i as int).filter(p),
        decreases n - i,
    {
        proof {
            seqs::lemma_filter_take(keys, i as int, p);
        }
        let (host, _record) = records.entry(i);
        assert(keys[i as int] == host@);
        if !contains_text(&targeted, host) && find_node(nodes, host).is_none() {
            let ghost before = text::texts(out@);
            out.push(host.to_owned());
            assert(text::texts(out@) =~= before.push(host@));
        }
        i = i + 1;
    }
    proof {
        seqs::lemma_take_all(keys);
    }
    out
}

/// Whether this is a status once the records of departed hosts are dropped, and these the hosts whose
/// records were. Nothing is dropped while a run is in flight.
pub open spec fn are_pruned(
    status: PlaybookPlanStatus,
    gone: Seq<Seq<char>>,
    before: PlaybookPlanStatus,
    nodes: Seq<Node>,
) -> bool {
    &&& status == (PlaybookPlanStatus { hosts_status: status.hosts_status, ..before })
    &&& if before.active_run is Some {
        gone.len() == 0 && status == before
    } else {
        match (before.hosts_status, status.hosts_status) {
            (None, None) => gone.len() == 0,
            (Some(old_records), Some(records)) => {
                &&& gone == textmap::pair_keys(old_records.pairs()).filter(
                    departed(before.eligible_hosts@, nodes),
                )
                &&& records@ == old_records@.remove_keys(gone.to_set())
            },
            _ => false,
        }
    }
}

/// Drops the records of hosts that have left the inventory and no longer exist as Nodes, returning
/// the host names whose records were dropped, in the order of the records.
///
/// Skipped entirely while a run is in flight, which is going to write a result for each of its
/// hosts.
pub fn prune_departed_hosts(nodes: &[Node], status: &mut PlaybookPlanStatus) -> (res: Vec<String>)
    ensures
        are_pruned(*final(status), text::texts(res@), *old(status), nodes@),
{
    if status.active_run.is_some() {
        return Vec::new();
    }
    let taken = status.hosts_status.take();
    let mut records = match taken {
        Some(records) => records,
        None => {
            return Vec::new();
        },
    };
    let gone = departed_among(&records, &status.eligible_hosts, nodes);
    let ghost before = records@;
    let ghost names = text::texts(gone@);
    let mut i: usize = 0;
    assert(names.take(0).to_set() =~= Set::<Seq<char>>::empty());
    assert(before.remove_keys(Set::<Seq<char>>::empty()) =~= before);
    while i < gone.len()
        invariant
            i <= gone@.len(),
            names == text::texts(gone@),
            records@ == before.remove_keys(names.take(i as int).to_set()),
        decreases gone.len() - i,
    {
        records.remove(gone[i].as_str());
        proof {
            assert(names[i as int] == gone@[i as int]@);
            assert forall|k: Seq<char>| names.take(i + 1).contains(k) <==> names.take(
                i as int,
            ).contains(k) || k == names[i as int] by {
                text::lemma_take_contains(names, i as int, k);
            }
            assert(records@ =~= before.remove_keys(names.take(i + 1).to_set()));
        }
        i = i + 1;
    }
    assert(names.take(i as int) =~= names);
    status.hosts_status = Some(records);
    gone
}

/// A host that is still targeted, or still has a Node, keeps its record.
pub proof fn live_hosts_keep_their_records(
    eligible: Seq<ResolvedHosts>,
    nodes: Seq<Node>,
    keys: Seq<Seq<char>>,
    host: Seq<char>,
)
    requires
        ansible_inventory::all_hosts(eligible).contains(host) || resources::node_named(
            nodes,
            host,
        ) is Some,
    ensures
        !keys.filter(departed(eligible, nodes)).contains(host),
{
    seqs::lemma_filter_contains(keys, departed(eligible, nodes), host);
}

/// The members that null the given hosts.
pub open spec fn null_members(hosts: Seq<Seq<char>>) -> Seq<Seq<char>> {
    hosts.map_values(|host: Seq<char>| json::json_member(host, None))
}

/// Whether a text is the merge patch that nulls exactly the given hosts, each once and in order.
pub open spec fn nulls_hosts(patch: Seq<char>, hosts: Seq<Seq<char>>) -> bool {
    exists|listed: Seq<Seq<char>>|
        #![trigger null_members(listed)]
        text::sorted(listed) && (forall|k: Seq<char>| listed.contains(k) <==> hosts.contains(k))
            && patch == "{\"status\":{\"hostsStatus\":{"@ + search::join(
            null_members(listed),
            ","@,
        ) + "}}}"@
}

/// The status patch that removes `departed` from the stored records, as JSON text.
///
/// In a merge patch an absent key means "leave this one alone", so deleting a key takes an explicit
/// `null`.
pub fn hosts_status_deletion_patch(departed: &[String]) -> (res: String)
    ensures
        nulls_hosts(res@, text::texts(departed@)),
{
    let listed = sorted_distinct(departed);
    let ghost hosts = text::texts(listed@);
    let mut members: Vec<String> = Vec::new();
    let mut i: usize = 0;
    assert(text::texts(members@) =~= null_members(hosts).take(0));
    while i < listed.len()
        invariant
            hosts == text::texts(listed@),
            i <= listed@.len(),
            text::texts(members@) == null_members(hosts).take(i as int),
        decreases listed.len() - i,
    {
        let ghost before = text::texts(members@);
        members.push(member(listed[i].as_str(), None));
        assert(text::texts(members@) =~= before.push(null_members(hosts)[i as int]));
        assert(null_members(hosts).take(i + 1) =~= null_members(hosts).take(i as int).push(
            null_members(hosts)[i as int],
        ));
        i = i + 1;
    }
    assert(null_members(hosts).take(i as int) =~= null_members(hosts));
    let joined = join_texts(&members, ",");
    concat3("{\"status\":{\"hostsStatus\":{", joined.as_str(), "}}}")
}

/// A record is removed exactly where the host is neither a target nor a Node and no run is under way; every
/// other record stays as it is.
pub proof fn a_record_goes_with_its_host(
    status: PlaybookPlanStatus,
    gone: Seq<Seq<char>>,
    before: PlaybookPlanStatus,
    nodes: Seq<Node>,
    host: Seq<char>,
)
    requires
        are_pruned(status, gone, before, nodes),
        before.hosts_status is Some,
        before.hosts_status->0@.contains_key(host),
        text::sorted(textmap::pair_keys(before.hosts_status->0.pairs())),
    ensures
        before.active_run is Some ==> status == before && gone.len() == 0,
        before.active_run is None && !ansible_inventory::all_hosts(before.eligible_hosts@).contains(host)
            && resources::node_named(nodes, host) is None ==> gone.contains(host)
            && status.hosts_status is Some && !status.hosts_status->0@.contains_key(host),
        before.active_run is None && (ansible_inventory::all_hosts(before.eligible_hosts@).contains(
            host,
        ) || resources::node_named(nodes, host) is Some) ==> !gone.contains(host)
            && status.hosts_status is Some && status.hosts_status->0@.contains_key(host)
            && status.hosts_status->0@[host] == before.hosts_status->0@[host],
        status.phase == before.phase && status.current_hash == before.current_hash
            && status.retry_count == before.retry_count,
{
    let pairs = before.hosts_status->0.pairs();
    let keys = textmap::pair_keys(pairs);
    let i = choose|i: int| 0 <= i < pairs.len() && (#[trigger] pairs[i]).0 == host;
    assert(textmap::has_key(pairs, host));
    assert(keys[i] == host);
    seqs::lemma_filter_contains(keys, departed(before.eligible_hosts@, nodes), host);
    assert(gone.to_set().contains(host) <==> gone.contains(host));
}

/// Where nothing is recorded, nothing departs.
pub proof fn no_record_no_departure(
    status: PlaybookPlanStatus,
    gone: Seq<Seq<char>>,
    before: PlaybookPlanStatus,
    nodes: Seq<Node>,
)
    requires
        are_pruned(status, gone, before, nodes),
        before.hosts_status is None,
    ensures
        gone.len() == 0,
        status.hosts_status is None,
{
}

} // verus!
