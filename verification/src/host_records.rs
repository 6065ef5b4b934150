//! What a plan keeps about its hosts from run to run.

use vstd::prelude::*;
use crate::ansible_inventory;
use crate::ansible_inventory::is_node_host;
use crate::execution_evaluator;
use crate::execution_evaluator::ExecutionHash;
use crate::node_recreation;
use crate::node_recreation::node_replaced_since;
use crate::numerals;
use crate::plans::{
    HostOutcome, HostStatus, PlayHostResult, PlayStatus, PlaybookPlanStatus, Timestamp,
};
use crate::resources;
use crate::resources::{find_node, Node};
use crate::text;
use crate::text::clone_optional;
use crate::textmap;
use crate::textmap::TextMap;

verus! {

/// What a run that is over says of every host it reached: the revision it applied, the version that
/// revision provides, and when the run was prepared.
pub ghost struct ClaimView {
    pub hash: ExecutionHash,
    pub version: Option<Seq<char>>,
    pub prepared_at: Option<Timestamp>,
}

/// The Node a host is, if it is one.
pub open spec fn node_behind(
    host: Seq<char>,
    groups: Seq<ansible_inventory::ResolvedHosts>,
    nodes: Seq<Node>,
) -> Option<Node> {
    if ansible_inventory::recorded_nodes(groups).contains(host) {
        resources::node_named(nodes, host)
    } else {
        None
    }
}

/// Whether a result makes a claim about a host: it succeeded, on the machine that still stands there.
pub open spec fn claims(result: PlayHostResult, node: Option<Node>, claim: ClaimView) -> bool {
    result.outcome is Succeeded && !(node is Some && node_recreation::replaced_since(
        claim.prepared_at,
        node->0,
    ))
}

/// Whether this is what is kept about a host: what became of it last and, where that makes a claim,
/// the claim. Anything else leaves an earlier claim alone.
pub open spec fn is_kept(
    after: HostStatus,
    before: Option<HostStatus>,
    result: PlayHostResult,
    finished_at: Option<Timestamp>,
    node: Option<Node>,
    claim: ClaimView,
) -> bool {
    &&& after.last_outcome == result.outcome
    &&& after.last_transition_time == finished_at
    &&& if claims(result, node, claim) {
        &&& after.last_applied_hash@ == numerals::numeral(claim.hash.0 as nat, 16)
        &&& after.applied_at == claim.prepared_at
        &&& text::text_of(after.applied_version) == claim.version
        &&& text::text_of(after.applied_node_uid) == match node {
            Some(node) => text::text_of(node.metadata.uid),
            None => None,
        }
    } else {
        match before {
            Some(before) => {
                &&& after.last_applied_hash == before.last_applied_hash
                &&& after.applied_at == before.applied_at
                &&& after.applied_version == before.applied_version
                &&& after.applied_node_uid == before.applied_node_uid
            },
            None => {
                &&& after.last_applied_hash@ == Seq::<char>::empty()
                &&& after.applied_at is None
                &&& after.applied_version is None
                &&& after.applied_node_uid is None
            },
        }
    }
}

/// The record of a host, if there is one.
pub open spec fn record_of(records: Map<Seq<char>, HostStatus>, host: Seq<char>) -> Option<HostStatus> {
    if records.contains_key(host) {
        Some(records[host])
    } else {
        None
    }
}

/// The records of a plan's hosts.
pub open spec fn records_of(records: Option<TextMap<HostStatus>>) -> Map<Seq<char>, HostStatus> {
    match records {
        Some(records) => records@,
        None => Map::empty(),
    }
}

/// Whether these are a plan's records with the results of a run put onto them.
pub open spec fn are_kept(
    after: Map<Seq<char>, HostStatus>,
    before: Map<Seq<char>, HostStatus>,
    play: PlayStatus,
    groups: Seq<ansible_inventory::ResolvedHosts>,
    nodes: Seq<Node>,
    claim: ClaimView,
) -> bool {
    &&& forall|host: Seq<char>| #[trigger]
        after.contains_key(host) <==> before.contains_key(host) || play.hosts@.contains_key(host)
    &&& forall|host: Seq<char>| #[trigger]
        play.hosts@.contains_key(host) ==> is_kept(
            after[host],
            record_of(before, host),
            play.hosts@[host],
            play.finished_at,
            node_behind(host, groups, nodes),
            claim,
        )
    &&& forall|host: Seq<char>| #[trigger]
        before.contains_key(host) && !play.hosts@.contains_key(host) ==> after[host] == before[host]
}

/// Whether this is a plan's status with the results of a run put onto it.
pub open spec fn is_applied(
    status: PlaybookPlanStatus,
    before: PlaybookPlanStatus,
    play: PlayStatus,
    nodes: Seq<Node>,
    claim: ClaimView,
) -> bool {
    &&& status.hosts_status is Some
    &&& are_kept(
        records_of(status.hosts_status),
        records_of(before.hosts_status),
        play,
        before.eligible_hosts@,
        nodes,
        claim,
    )
    &&& status == (PlaybookPlanStatus { hosts_status: status.hosts_status, ..before })
}

fn kept_record(
    before: Option<&HostStatus>,
    result: PlayHostResult,
    finished_at: Option<Timestamp>,
    node: Option<&Node>,
    execution_hash: &ExecutionHash,
    version: &Option<String>,
    prepared_at: Option<Timestamp>,
) -> (res: HostStatus)
    ensures
        is_kept(
            res,
            match before {
                Some(before) => Some(*before),
                None => None,
            },
            result,
            finished_at,
            match node {
                Some(node) => Some(*node),
                None => None,
            },
            (ClaimView {
                hash: *execution_hash,
                version: text::text_of(*version),
                prepared_at,
            }),
        ),
{
    let replaced = match node {
        Some(node) => node_replaced_since(prepared_at, node),
        None => false,
    };
    if result.outcome == HostOutcome::Succeeded && !replaced {
        return HostStatus {
            last_applied_hash: execution_hash.to_text(),
            last_outcome: result.outcome,
            applied_at: prepared_at,
            applied_version: clone_optional(version),
            applied_node_uid: match node {
                Some(node) => clone_optional(&node.metadata.uid),
                None => None,
            },
            last_transition_time: finished_at,
        };
    }
    match before {
        Some(before) => {
            let mut record = before.copy();
            record.last_outcome = result.outcome;
            record.last_transition_time = finished_at;
            record
        },
        None => HostStatus {
            last_applied_hash: String::new(),
            last_outcome: result.outcome,
            applied_at: None,
            applied_version: None,
            applied_node_uid: None,
            last_transition_time: finished_at,
        },
    }
}

/// Puts the results of a run that is over onto its plan's records. `prepared_at` is when the run's
/// record was created, and `version` what its revision provides.
pub fn apply_terminal_play_status(
    execution_hash: &ExecutionHash,
    play_status: &PlayStatus,
    prepared_at: Option<Timestamp>,
    version: &Option<String>,
    nodes: &[Node],
    status: &mut PlaybookPlanStatus,
)
    ensures
        is_applied(
            *final(status),
            *old(status),
            *play_status,
            nodes@,
            (ClaimView {
                hash: *execution_hash,
                version: text::text_of(*version),
                prepared_at,
            }),
        ),
{
    let ghost before = records_of(status.hosts_status);
    let ghost claim = ClaimView {
        hash: *execution_hash,
        version: text::text_of(*version),
        prepared_at,
    };
    let mut records: TextMap<HostStatus> = match status.hosts_status.take() {
        Some(records) => records,
        None => TextMap::new(),
    };
    assert(records@ =~= before);
    let ghost pairs = play_status.hosts.pairs();
    let count = play_status.hosts.len();
    let mut i: usize = 0;
    while i < count
        invariant
            i <= count,
            count == pairs.len(),
            pairs == play_status.hosts.pairs(),
            text::sorted(textmap::pair_keys(pairs)),
            status.eligible_hosts == old(status).eligible_hosts,
            claim == (ClaimView {
                hash: *execution_hash,
                version: text::text_of(*version),
                prepared_at,
            }),
            forall|host: Seq<char>| #[trigger]
                records@.contains_key(host) <==> before.contains_key(host) || textmap::has_key(
                    pairs.take(i as int),
                    host,
                ),
            forall|j: int|
                0 <= j < i ==> is_kept(
                    records@[(#[trigger] pairs[j]).0],
                    record_of(before, pairs[j].0),
                    pairs[j].1,
                    play_status.finished_at,
                    node_behind(pairs[j].0, old(status).eligible_hosts@, nodes@),
                    claim,
                ),
            forall|host: Seq<char>| #[trigger]
                before.contains_key(host) && !textmap::has_key(pairs.take(i as int), host)
                    ==> records@[host] == before[host],
        decreases count - i,
    {
        let (host, result) = play_status.hosts.entry(i);
        let node: Option<&Node> = if is_node_host(&status.eligible_hosts, host) {
            find_node(nodes, host)
        } else {
            None
        };
        proof {
            lemma_new_key(pairs, i as int);
        }
        let record = kept_record(
            records.get(host),
            *result,
            play_status.finished_at,
            node,
            execution_hash,
            version,
            prepared_at,
        );
        let ghost held = records@;
        assert(record_of(held, host@) == record_of(before, host@));
        records.insert(host.to_owned(), record);
        proof {
            let key = pairs[i as int].0;
            assert forall|k: Seq<char>| textmap::has_key(pairs.take(i + 1), k)
                <==> textmap::has_key(pairs.take(i as int), k) || k == key by {
                lemma_has_key_take(pairs, i as int, k);
            }
            assert forall|j: int| 0 <= j < i + 1 implies is_kept(
                records@[(#[trigger] pairs[j]).0],
                record_of(before, pairs[j].0),
                pairs[j].1,
                play_status.finished_at,
                node_behind(pairs[j].0, old(status).eligible_hosts@, nodes@),
                claim,
            ) by {
                if j < i {
                    assert(pairs.take(i as int)[j].0 == pairs[j].0);
                    assert(textmap::has_key(pairs.take(i as int), pairs[j].0));
                    assert(pairs[j].0 != key);
                }
            }
        }
        i = i + 1;
    }
    proof {
        assert(pairs.take(i as int) =~= pairs);
        assert forall|host: Seq<char>| #[trigger] play_status.hosts@.contains_key(host) implies is_kept(
            records@[host],
            record_of(before, host),
            play_status.hosts@[host],
            play_status.finished_at,
            node_behind(host, old(status).eligible_hosts@, nodes@),
            claim,
        ) by {
            assert(textmap::has_key(pairs, host));
            let j = textmap::key_index(pairs, host);
            textmap::lemma_pairs_map(pairs, j);
        }
    }
    status.hosts_status = Some(records);
}

proof fn lemma_has_key_take<V>(pairs: Seq<(Seq<char>, V)>, i: int, key: Seq<char>)
    requires
        0 <= i < pairs.len(),
    ensures
        textmap::has_key(pairs.take(i + 1), key) <==> textmap::has_key(pairs.take(i), key) || key
            == pairs[i].0,
{
    let shorter = pairs.take(i);
    let longer = pairs.take(i + 1);
    if textmap::has_key(shorter, key) {
        let j = textmap::key_index(shorter, key);
        assert(longer[j].0 == key);
    }
    if key == pairs[i].0 {
        assert(longer[i].0 == key);
    }
    if textmap::has_key(longer, key) {
        let j = textmap::key_index(longer, key);
        if j < i {
            assert(shorter[j].0 == key);
        }
    }
}

proof fn lemma_new_key<V>(pairs: Seq<(Seq<char>, V)>, i: int)
    requires
        0 <= i < pairs.len(),
        text::sorted(textmap::pair_keys(pairs)),
    ensures
        !textmap::has_key(pairs.take(i), pairs[i].0),
{
    let shorter = pairs.take(i);
    if textmap::has_key(shorter, pairs[i].0) {
        let j = textmap::key_index(shorter, pairs[i].0);
        let keys = textmap::pair_keys(pairs);
        assert(keys[j] == pairs[j].0 && keys[i] == pairs[i].0);
        text::lemma_text_lt_irreflexive(pairs[i].0);
    }
}

// --- laws ------------------------------------------------------------------------------------

/// A host that did not succeed keeps whatever was claimed about it, and is claimed nothing new.
pub proof fn only_success_makes_a_claim(
    after: HostStatus,
    before: HostStatus,
    result: PlayHostResult,
    finished_at: Option<Timestamp>,
    node: Option<Node>,
    claim: ClaimView,
)
    requires
        is_kept(after, Some(before), result, finished_at, node, claim),
        !(result.outcome is Succeeded),
    ensures
        after.last_applied_hash == before.last_applied_hash,
        after.applied_at == before.applied_at,
        after.applied_version == before.applied_version,
{
}

/// A host that succeeded on the machine that still stands there is on the revision of its run.
pub proof fn a_host_that_succeeded_is_current(
    after: Map<Seq<char>, HostStatus>,
    before: Map<Seq<char>, HostStatus>,
    play: PlayStatus,
    groups: Seq<ansible_inventory::ResolvedHosts>,
    nodes: Seq<Node>,
    claim: ClaimView,
    records: TextMap<HostStatus>,
    host: Seq<char>,
)
    requires
        are_kept(after, before, play, groups, nodes, claim),
        play.hosts@.contains_key(host),
        claims(play.hosts@[host], node_behind(host, groups, nodes), claim),
        records@ == after,
    ensures
        execution_evaluator::is_current(Some(records), host, claim.hash),
{
}

/// A machine that replaced the one a run reached is claimed nothing of what the run did: what was
/// claimed before it stands, and where nothing was, nothing is.
pub proof fn a_replaced_machine_is_claimed_nothing(
    after: HostStatus,
    before: Option<HostStatus>,
    result: PlayHostResult,
    finished_at: Option<Timestamp>,
    node: Node,
    claim: ClaimView,
)
    requires
        node_recreation::replaced_since(claim.prepared_at, node),
        is_kept(after, before, result, finished_at, Some(node), claim),
    ensures
        match before {
            Some(before) => after.last_applied_hash == before.last_applied_hash
                && after.applied_at == before.applied_at && after.applied_version
                == before.applied_version && after.applied_node_uid == before.applied_node_uid,
            None => after.last_applied_hash@.len() == 0 && after.applied_at is None
                && after.applied_version is None && after.applied_node_uid is None,
        },
{
}

/// A host that succeeded is on the run's revision, whatever its counters say, unless it is a Node that was
/// replaced since the run was prepared: its record carries the run's revision, date and version, and it is
/// not outdated any more.
pub proof fn a_success_is_recorded_whatever_it_took(
    status: PlaybookPlanStatus,
    before: PlaybookPlanStatus,
    play: PlayStatus,
    nodes: Seq<Node>,
    claim: ClaimView,
    host: Seq<char>,
)
    requires
        is_applied(status, before, play, nodes, claim),
        play.hosts@.contains_key(host),
        play.hosts@[host].outcome is Succeeded,
        forall|i: int|
            0 <= i < nodes.len() && (#[trigger] nodes[i]).metadata.name is Some
                && nodes[i].metadata.name->0@ == host ==> !(claim.prepared_at is Some
                && nodes[i].metadata.creation_timestamp is Some
                && nodes[i].metadata.creation_timestamp->0 > claim.prepared_at->0.seconds),
    ensures
        status.hosts_status is Some,
        status.hosts_status->0@.contains_key(host),
        status.hosts_status->0@[host].last_applied_hash@ == numerals::numeral(
            claim.hash.0 as nat,
            16,
        ),
        status.hosts_status->0@[host].applied_at == claim.prepared_at,
        text::text_of(status.hosts_status->0@[host].applied_version) == claim.version,
        status.hosts_status->0@[host].last_outcome is Succeeded,
        status.hosts_status->0@[host].last_transition_time == play.finished_at,
        !ansible_inventory::distinct(
            ansible_inventory::all_hosts(status.eligible_hosts@),
        ).filter(execution_evaluator::needs_run(status.hosts_status, claim.hash)).contains(host),
{
    resources::a_node_is_found_by_its_name(nodes, host);
    execution_evaluator::a_host_is_outdated_until_it_is_recorded(status, claim.hash, host);
    let after = records_of(status.hosts_status);
    assert(after.contains_key(host));
}

/// An external machine that succeeded is on the run's revision, whatever Node has its name.
pub proof fn an_external_success_is_recorded(
    status: PlaybookPlanStatus,
    before: PlaybookPlanStatus,
    play: PlayStatus,
    nodes: Seq<Node>,
    claim: ClaimView,
    host: Seq<char>,
)
    requires
        is_applied(status, before, play, nodes, claim),
        play.hosts@.contains_key(host),
        play.hosts@[host].outcome is Succeeded,
        forall|g: int, h: int|
            0 <= g < before.eligible_hosts@.len() && 0 <= h < before.eligible_hosts@[g].hosts@.len()
                && before.eligible_hosts@[g].connection == Some(
                ansible_inventory::HostConnection::ManagedSsh,
            ) ==> (#[trigger] before.eligible_hosts@[g].hosts@[h])@ != host,
    ensures
        status.hosts_status is Some,
        status.hosts_status->0@.contains_key(host),
        status.hosts_status->0@[host].last_applied_hash@ == numerals::numeral(
            claim.hash.0 as nat,
            16,
        ),
        status.hosts_status->0@[host].applied_at == claim.prepared_at,
        text::text_of(status.hosts_status->0@[host].applied_version) == claim.version,
        status.hosts_status->0@[host].applied_node_uid is None,
{
    ansible_inventory::nodes_are_recorded_by_their_groups(before.eligible_hosts@, host);
    let after = records_of(status.hosts_status);
    assert(after.contains_key(host));
}

/// A host that did not succeed is on no other revision than before: only its outcome and when it was
/// known change. A host the run did not process keeps its record as it is, and nothing but the records
/// changes.
pub proof fn what_did_not_succeed_claims_nothing(
    status: PlaybookPlanStatus,
    before: PlaybookPlanStatus,
    play: PlayStatus,
    nodes: Seq<Node>,
    claim: ClaimView,
    host: Seq<char>,
)
    requires
        is_applied(status, before, play, nodes, claim),
        before.hosts_status is Some,
        before.hosts_status->0@.contains_key(host),
    ensures
        status.hosts_status is Some,
        status.hosts_status->0@.contains_key(host),
        !play.hosts@.contains_key(host) ==> status.hosts_status->0@[host]
            == before.hosts_status->0@[host],
        play.hosts@.contains_key(host) && !(play.hosts@[host].outcome is Succeeded)
            ==> status.hosts_status->0@[host] == (HostStatus {
            last_outcome: play.hosts@[host].outcome,
            last_transition_time: play.finished_at,
            ..before.hosts_status->0@[host]
        }),
        status.phase == before.phase,
        status.summary == before.summary,
        status.current_hash == before.current_hash,
        status.retry_count == before.retry_count,
        status.eligible_hosts == before.eligible_hosts,
        status.active_run == before.active_run,
{
    let after = records_of(status.hosts_status);
    assert(after.contains_key(host));
}

/// A Node that was replaced since the run was prepared is claimed nothing, though the run succeeded
/// there.
pub proof fn a_success_on_a_replaced_node_claims_nothing(
    status: PlaybookPlanStatus,
    before: PlaybookPlanStatus,
    play: PlayStatus,
    nodes: Seq<Node>,
    claim: ClaimView,
    host: Seq<char>,
    g: int,
    h: int,
    n: int,
)
    requires
        is_applied(status, before, play, nodes, claim),
        play.hosts@.contains_key(host),
        0 <= g < before.eligible_hosts@.len(),
        before.eligible_hosts@[g].connection == Some(ansible_inventory::HostConnection::ManagedSsh),
        0 <= h < before.eligible_hosts@[g].hosts@.len(),
        before.eligible_hosts@[g].hosts@[h]@ == host,
        0 <= n < nodes.len(),
        nodes[n].metadata.name is Some,
        nodes[n].metadata.name->0@ == host,
        forall|i: int|
            0 <= i < nodes.len() && i != n ==> !((#[trigger] nodes[i]).metadata.name is Some
                && nodes[i].metadata.name->0@ == host),
        claim.prepared_at is Some,
        nodes[n].metadata.creation_timestamp is Some,
        nodes[n].metadata.creation_timestamp->0 > claim.prepared_at->0.seconds,
        before.hosts_status is None || !before.hosts_status->0@.contains_key(host),
    ensures
        status.hosts_status is Some,
        status.hosts_status->0@.contains_key(host),
        status.hosts_status->0@[host].last_applied_hash@.len() == 0,
        status.hosts_status->0@[host].applied_at is None,
        status.hosts_status->0@[host].applied_version is None,
        status.hosts_status->0@[host].last_outcome == play.hosts@[host].outcome,
{
    ansible_inventory::nodes_are_recorded_by_their_groups(before.eligible_hosts@, host);
    resources::a_node_is_found_by_its_name(nodes, host);
    let after = records_of(status.hosts_status);
    assert(after.contains_key(host));
}

/// The results of a run leave a record of each of its hosts on the plan, keep the records of all others as they
/// were, and change nothing else about the plan.
pub proof fn every_host_of_a_run_is_recorded(
    status: PlaybookPlanStatus,
    before: PlaybookPlanStatus,
    play: PlayStatus,
    nodes: Seq<Node>,
    claim: ClaimView,
    host: Seq<char>,
)
    requires
        is_applied(status, before, play, nodes, claim),
    ensures
        status.hosts_status is Some,
        play.hosts@.contains_key(host) ==> status.hosts_status->0@.contains_key(host)
            && status.hosts_status->0@[host].last_outcome == play.hosts@[host].outcome,
        before.hosts_status is Some && before.hosts_status->0@.contains_key(host)
            && !play.hosts@.contains_key(host) ==> status.hosts_status->0@.contains_key(host)
            && status.hosts_status->0@[host] == before.hosts_status->0@[host],
        status.phase == before.phase && status.current_hash == before.current_hash
            && status.retry_count == before.retry_count && status.active_run == before.active_run
            && status.eligible_hosts == before.eligible_hosts && status.next_run == before.next_run,
{
}

} // verus!
