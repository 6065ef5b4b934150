//! Per-host locks: Leases acquired all or none, renewed while a run lasts, and given back.
//!
//! The decisions are plain functions. The passes over a set of hosts are state machines: each says
//! which cluster call to make next and is told what came of it.

use vstd::prelude::*;
use crate::digests;
use crate::digests::digest_text;
use crate::numerals;
use crate::numerals::hex;
use crate::order;
use crate::plans::Timestamp;
use crate::resources::ObjectMeta;
use crate::search;
use crate::text;
use crate::text::{clone_optional, concat, optional_is, text_eq, text_less};

verus! {

/// How long a Lease is valid without being renewed.
pub const LEASE_DURATION_SECONDS: i32 = 90;

/// What a Lease says. Times are whole seconds since the Unix epoch.
#[derive(Debug, Clone, PartialEq)]
pub struct LeaseSpec {
    pub holder_identity: Option<String>,
    pub lease_duration_seconds: Option<i32>,
    pub renew_time: Option<i64>,
    pub acquire_time: Option<i64>,
}

/// A Lease.
#[derive(Debug, Clone, PartialEq)]
pub struct Lease {
    pub metadata: ObjectMeta,
    pub spec: Option<LeaseSpec>,
}

/// A host whose lock could not be taken or kept, and who was seen holding it. A lost write race
/// shows no holder.
#[derive(Debug, Clone, PartialEq, Eq)]
pub struct BlockedBy {
    pub host: String,
    pub holder: Option<String>,
}

impl BlockedBy {
    /// The host and the holder.
    pub open spec fn view(&self) -> (Seq<char>, Option<Seq<char>>) {
        (self.host@, text::text_of(self.holder))
    }

    /// A copy.
    pub fn copy(&self) -> (res: Self)
        ensures
            res@ == self@,
    {
        BlockedBy { host: self.host.clone(), holder: clone_optional(&self.holder) }
    }
}

/// The blocked host, if there is one.
pub open spec fn blocked_view(blocked: Option<BlockedBy>) -> Option<(Seq<char>, Option<Seq<char>>)> {
    match blocked {
        Some(blocked) => Some(blocked@),
        None => None,
    }
}

/// How to acquire one lock.
#[derive(Debug, Clone, PartialEq, Eq)]
pub enum LeaseDecision {
    /// There is no Lease yet.
    Create,
    /// Someone else holds it and let it expire.
    Replace { resource_version: String },
    /// It is ours already; only its renew time moves.
    Renew { resource_version: String },
    /// Someone else holds it and it has not expired.
    HeldByOther,
}

/// Who holds a Lease.
pub open spec fn holder_of(lease: Lease) -> Option<Seq<char>> {
    match lease.spec {
        Some(spec) => text::text_of(spec.holder_identity),
        None => None,
    }
}

/// Whether a Lease ran out strictly before `now`. One that was never renewed has.
pub open spec fn expired(lease: Lease, now: Timestamp) -> bool {
    match lease.spec {
        Some(spec) => match spec.renew_time {
            Some(renewed) => {
                let end = renewed + match spec.lease_duration_seconds {
                    Some(seconds) => seconds as int,
                    None => LEASE_DURATION_SECONDS as int,
                };
                end < now.seconds || end == now.seconds && now.nanos > 0
            },
            None => true,
        },
        None => true,
    }
}

/// Whether a Lease has run out.
fn has_expired(lease: &Lease, now: Timestamp) -> (res: bool)
    ensures
        res == expired(*lease, now),
{
    match &lease.spec {
        Some(spec) => match spec.renew_time {
            Some(renewed) => {
                let seconds: i32 = match spec.lease_duration_seconds {
                    Some(seconds) => seconds,
                    None => LEASE_DURATION_SECONDS,
                };
                let end: i128 = renewed as i128 + seconds as i128;
                let current: i128 = now.seconds as i128;
                end < current || (end == current && now.nanos > 0)
            },
            None => true,
        },
        None => true,
    }
}

/// Who holds a Lease.
fn held_by(lease: &Lease, holder: &str) -> (res: bool)
    ensures
        res == (holder_of(*lease) == Some(holder@)),
{
    match &lease.spec {
        Some(spec) => optional_is(&spec.holder_identity, holder),
        None => false,
    }
}

/// Whether a holder may write a Lease that is there: it is the holder's own, or has expired.
pub open spec fn takeable(lease: Lease, holder: Seq<char>, now: Timestamp) -> bool {
    holder_of(lease) == Some(holder) || expired(lease, now)
}

/// Whether a holder may write a Lease that is there.
pub fn may_take(lease: &Lease, holder: &str, now: Timestamp) -> (res: bool)
    ensures
        res == takeable(*lease, holder@, now),
{
    held_by(lease, holder) || has_expired(lease, now)
}

/// How to acquire a lock, given the Lease that is there. A Lease is written over the version that was
/// read of it.
pub fn decide(existing: Option<&Lease>, desired_holder: &str, now: Timestamp) -> (res: LeaseDecision)
    requires
        existing matches Some(lease) ==> takeable(*lease, desired_holder@, now)
            ==> lease.metadata.resource_version is Some,
    ensures
        match existing {
            None => res is Create,
            Some(lease) => {
                if holder_of(*lease) == Some(desired_holder@) {
                    &&& res is Renew
                    &&& res->Renew_resource_version@ == lease.metadata.resource_version->0@
                } else if expired(*lease, now) {
                    &&& res is Replace
                    &&& res->Replace_resource_version@ == lease.metadata.resource_version->0@
                } else {
                    res is HeldByOther
                }
            },
        },
{
    let lease = match existing {
        Some(lease) => lease,
        None => {
            return LeaseDecision::Create;
        },
    };
    if held_by(lease, desired_holder) {
        return match &lease.metadata.resource_version {
            Some(version) => LeaseDecision::Renew { resource_version: version.clone() },
            None => LeaseDecision::HeldByOther,
        };
    }
    if has_expired(lease, now) {
        return match &lease.metadata.resource_version {
            Some(version) => LeaseDecision::Replace { resource_version: version.clone() },
            None => LeaseDecision::HeldByOther,
        };
    }
    LeaseDecision::HeldByOther
}

/// What the Lease of a host is called: its digest, so that any host name makes a valid object
/// name.
pub open spec fn lease_name_of(host: Seq<char>) -> Seq<char> {
    "ansible-lock-"@ + numerals::numeral(digests::text_digest(host) as nat, 16)
}

/// What the Lease of a host is called.
pub fn lease_name(host: &str) -> (res: String)
    ensures
        res@ == lease_name_of(host@),
{
    let digits = hex(digest_text(host));
    concat("ansible-lock-", digits.as_str())
}

/// Whether a Lease is the one this holder writes: named, held, and renewed `now`, for as long as a
/// Lease lasts.
pub open spec fn lease_of(lease: Lease, name: Seq<char>, holder: Seq<char>, now: int) -> bool {
    &&& text::text_of(lease.metadata.name) == Some(name)
    &&& lease.metadata.namespace is None
    &&& lease.metadata.unstamped()
    &&& lease.metadata.labels@ == Map::<Seq<char>, String>::empty()
    &&& lease.metadata.annotations@ == Map::<Seq<char>, String>::empty()
    &&& lease.metadata.owner_references@.len() == 0
    &&& lease.spec is Some
    &&& text::text_of(lease.spec->0.holder_identity) == Some(holder)
    &&& lease.spec->0.lease_duration_seconds == Some(LEASE_DURATION_SECONDS)
    &&& lease.spec->0.renew_time is Some
    &&& lease.spec->0.renew_time->0 == now
    &&& lease.spec->0.acquire_time is Some
    &&& lease.spec->0.acquire_time->0 == now
}

/// The Lease a holder writes, over the version it saw if it saw one.
pub fn build_lease(
    name: &str,
    holder_identity: &str,
    now: Timestamp,
    resource_version: &Option<String>,
) -> (res: Lease)
    ensures
        lease_of(res, name@, holder_identity@, now.seconds as int),
        res.metadata.resource_version == *resource_version,
{
    let mut metadata = ObjectMeta::default();
    metadata.name = Some(name.to_owned());
    metadata.resource_version = clone_optional(resource_version);
    Lease {
        metadata,
        spec: Some(
            LeaseSpec {
                holder_identity: Some(holder_identity.to_owned()),
                lease_duration_seconds: Some(LEASE_DURATION_SECONDS),
                renew_time: Some(now.seconds),
                acquire_time: Some(now.seconds),
            },
        ),
    }
}

// --- the order of acquisition ----------------------------------------------------------------

/// Whether one host's Lease sorts before another's.
pub open spec fn locks_before() -> spec_fn(Seq<char>, Seq<char>) -> bool {
    |a: Seq<char>, b: Seq<char>| text::text_lt(lease_name_of(a), lease_name_of(b))
}

/// The hosts in the order their locks are taken: by Lease name, the same for every plan.
pub open spec fn lock_order(hosts: Seq<Seq<char>>) -> Seq<Seq<char>> {
    order::stable_sorted(hosts, locks_before())
}

/// The hosts in the order their locks are taken.
pub fn acquisition_order(hosts: &[String]) -> (res: Vec<String>)
    ensures
        text::texts(res@) == lock_order(text::texts(hosts@)),
{
    let ghost all = text::texts(hosts@);
    let mut out: Vec<String> = Vec::new();
    let mut names: Vec<String> = Vec::new();
    let mut i: usize = 0;
    assert(all.take(0) =~= Seq::<Seq<char>>::empty());
    assert(text::texts(out@) =~= lock_order(all.take(0)));
    while i < hosts.len()
        invariant
            i <= hosts@.len(),
            all == text::texts(hosts@),
            names@.len() == out@.len(),
            forall|j: int|
                0 <= j < names@.len() ==> (#[trigger] names@[j])@ == lease_name_of(
                    text::texts(out@)[j],
                ),
            text::texts(out@) == lock_order(all.take(i as int)),
        decreases hosts.len() - i,
    {
        let host = &hosts[i];
        let name = lease_name(host.as_str());
        let ghost before = text::texts(out@);
        let mut k: usize = 0;
        while k < names.len() && !text_less(name.as_str(), names[k].as_str())
            invariant
                k <= names@.len(),
                before == text::texts(out@),
                name@ == lease_name_of(host@),
                names@.len() == out@.len(),
                forall|j: int|
                    0 <= j < names@.len() ==> (#[trigger] names@[j])@ == lease_name_of(before[j]),
                forall|j: int| 0 <= j < k ==> !locks_before()(host@, #[trigger] before[j]),
            decreases names.len() - k,
        {
            assert(names@[k as int]@ == lease_name_of(before[k as int]));
            k = k + 1;
        }
        proof {
            if k < names@.len() {
                assert(names@[k as int]@ == lease_name_of(before[k as int]));
            }
            order::lemma_place(before, host@, locks_before(), k as int);
            assert(all.take(i + 1).drop_last() =~= all.take(i as int));
            assert(all.take(i + 1).last() == host@);
        }
        let ghost names_before = names@;
        out.insert(k, host.clone());
        names.insert(k, name);
        assert(text::texts(out@) =~= before.insert(k as int, host@));
        assert forall|j: int| 0 <= j < names@.len() implies (#[trigger] names@[j])@
            == lease_name_of(text::texts(out@)[j]) by {
            if j < k {
                assert(names@[j] == names_before[j]);
            } else if j > k {
                assert(names@[j] == names_before[j - 1]);
            }
        }
        i = i + 1;
    }
    assert(all.take(hosts@.len() as int) =~= all);
    out
}

proof fn lemma_locks_before_is_weak_order()
    ensures
        order::weak_order(locks_before()),
{
    let before = locks_before();
    assert forall|a: Seq<char>, b: Seq<char>| #[trigger] before(a, b) implies !before(b, a) by {
        if before(b, a) {
            text::lemma_text_lt_transitive(lease_name_of(a), lease_name_of(b), lease_name_of(a));
            text::lemma_text_lt_irreflexive(lease_name_of(a));
        }
    }
    assert forall|a: Seq<char>, b: Seq<char>, c: Seq<char>|
        #![trigger before(a, b), before(c, b)]
        before(a, b) && !before(c, b) implies before(a, c) by {
        text::lemma_text_lt_total(lease_name_of(c), lease_name_of(b));
        if lease_name_of(c) != lease_name_of(b) {
            text::lemma_text_lt_transitive(lease_name_of(a), lease_name_of(b), lease_name_of(c));
        }
    }
}

/// The order of acquisition takes every host, each as often as it is listed, and ascends by Lease
/// name.
pub proof fn locks_are_taken_in_name_order(hosts: Seq<Seq<char>>)
    ensures
        lock_order(hosts).to_multiset() == hosts.to_multiset(),
        lock_order(hosts).len() == hosts.len(),
        forall|i: int, j: int|
            #![trigger lock_order(hosts)[i], lock_order(hosts)[j]]
            0 <= i < j < hosts.len() ==> !text::text_lt(
                lease_name_of(lock_order(hosts)[j]),
                lease_name_of(lock_order(hosts)[i]),
            ),
{
    lemma_locks_before_is_weak_order();
    order::stable_sorted_keeps_all(hosts, locks_before());
    order::stable_sorted_is_ordered(hosts, locks_before());
    assert forall|i: int, j: int|
        #![trigger lock_order(hosts)[i], lock_order(hosts)[j]]
        0 <= i < j < hosts.len() implies !text::text_lt(
        lease_name_of(lock_order(hosts)[j]),
        lease_name_of(lock_order(hosts)[i]),
    ) by {
        assert(!locks_before()(lock_order(hosts)[j], lock_order(hosts)[i]));
    }
}

/// Two plans over the same hosts take the locks in the same order, however each lists them, as long
/// as no two different hosts share a Lease.
pub proof fn lock_order_is_independent_of_listing(a: Seq<Seq<char>>, b: Seq<Seq<char>>)
    requires
        a.to_multiset() == b.to_multiset(),
        forall|x: Seq<char>, y: Seq<char>|
            a.contains(x) && a.contains(y) && #[trigger] lease_name_of(x)
                == #[trigger] lease_name_of(y) ==> x == y,
    ensures
        lock_order(a) == lock_order(b),
{
    broadcast use vstd::multiset::group_multiset_axioms;
    broadcast use vstd::seq_lib::group_to_multiset_ensures;

    lemma_locks_before_is_weak_order();
    order::stable_sorted_keeps_all(a, locks_before());
    order::stable_sorted_keeps_all(b, locks_before());
    order::stable_sorted_is_ordered(a, locks_before());
    order::stable_sorted_is_ordered(b, locks_before());
    let x = lock_order(a);
    let before = locks_before();
    assert forall|p: Seq<char>, q: Seq<char>|
        x.contains(p) && x.contains(q) && !#[trigger] before(p, q) && !before(q, p) implies p
        == q by {
        assert(x.to_multiset().count(p) > 0 && x.to_multiset().count(q) > 0);
        assert(a.to_multiset().count(p) > 0 && a.to_multiset().count(q) > 0);
        assert(a.contains(p) && a.contains(q));
        text::lemma_text_lt_total(lease_name_of(p), lease_name_of(q));
    }
    order::ordered_is_unique(x, lock_order(b), before);
}

// --- renewal ---------------------------------------------------------------------------------

/// What to do with a lock a run in progress expects to hold.
#[derive(Debug, Clone, PartialEq, Eq)]
pub enum RenewalAction {
    /// Still ours, or gone: write it again. A version means the Lease there is replaced.
    Reassert { resource_version: Option<String> },
    /// Another holder took it over.
    Lost { holder: String },
}

/// What to do with a lock a run in progress expects to hold. Any other holder means it is lost,
/// expired or not.
pub fn renewal_decision(existing: Option<&Lease>, holder_identity: &str) -> (res: RenewalAction)
    ensures
        match existing {
            Some(lease) => {
                if holder_of(*lease) is Some && holder_of(*lease) != Some(holder_identity@) {
                    res is Lost && res->holder@ == holder_of(*lease)->0
                } else {
                    res is Reassert && res->resource_version == lease.metadata.resource_version
                }
            },
            None => res is Reassert && res->resource_version is None,
        },
{
    let lease = match existing {
        Some(lease) => lease,
        None => {
            return RenewalAction::Reassert { resource_version: None };
        },
    };
    if let Some(spec) = &lease.spec {
        if let Some(holder) = &spec.holder_identity {
            if !text_eq(holder.as_str(), holder_identity) {
                return RenewalAction::Lost { holder: holder.clone() };
            }
        }
    }
    RenewalAction::Reassert { resource_version: clone_optional(&lease.metadata.resource_version) }
}

/// What one renewal of a run's locks found.
#[derive(Debug, Clone, PartialEq, Eq)]
pub enum RenewalOutcome {
    /// Every lock is this run's.
    Held,
    /// Another holder was seen on one of them.
    Lost(BlockedBy),
    /// A write race left one of them unconfirmed; nobody was seen to have taken it.
    Unconfirmed(BlockedBy),
}

impl RenewalOutcome {
    /// The contended host, whichever way it was contended.
    pub fn contended(&self) -> (res: Option<&BlockedBy>)
        ensures
            match self {
                RenewalOutcome::Held => res is None,
                RenewalOutcome::Lost(blocked) => res == Some(blocked),
                RenewalOutcome::Unconfirmed(blocked) => res == Some(blocked),
            },
    {
        match self {
            RenewalOutcome::Held => None,
            RenewalOutcome::Lost(blocked) => Some(blocked),
            RenewalOutcome::Unconfirmed(blocked) => Some(blocked),
        }
    }
}

/// The outcome of a renewal: an observed takeover outranks a write race.
pub open spec fn outcome_of(lost: Option<BlockedBy>, unconfirmed: Option<BlockedBy>) -> RenewalOutcome {
    match (lost, unconfirmed) {
        (Some(blocked), _) => RenewalOutcome::Lost(blocked),
        (None, Some(blocked)) => RenewalOutcome::Unconfirmed(blocked),
        (None, None) => RenewalOutcome::Held,
    }
}

/// The outcome of a renewal: an observed takeover outranks a write race.
pub fn renewal_outcome(lost: Option<BlockedBy>, unconfirmed: Option<BlockedBy>) -> (res:
    RenewalOutcome)
    ensures
        res == outcome_of(lost, unconfirmed),
{
    match (lost, unconfirmed) {
        (Some(blocked), _) => RenewalOutcome::Lost(blocked),
        (None, Some(blocked)) => RenewalOutcome::Unconfirmed(blocked),
        (None, None) => RenewalOutcome::Held,
    }
}

// --- laws ------------------------------------------------------------------------------------

/// A Lease is its holder's for as long as it says, counted from when it was renewed, to the very
/// nanosecond: until then no other holder may take it, and from then on anyone may.
pub proof fn a_lease_lasts_as_long_as_it_says(
    lease: Lease,
    holder: Seq<char>,
    renewed: i64,
    seconds: i32,
    now: Timestamp,
)
    requires
        lease.spec is Some,
        lease.spec->0.renew_time == Some(renewed),
        lease.spec->0.lease_duration_seconds == Some(seconds),
        lease.spec->0.holder_identity matches Some(other) ==> other@ != holder,
        now.nanos < 1_000_000_000,
    ensures
        takeable(lease, holder, now) <==> now.seconds * 1_000_000_000 + now.nanos > (renewed
            + seconds) * 1_000_000_000,
{
}

/// A Lease that says nothing of its length lasts as long as one that is written here, and one that was
/// never renewed can be taken at once.
pub proof fn a_lease_without_a_length_lasts_the_default(
    lease: Lease,
    holder: Seq<char>,
    now: Timestamp,
)
    requires
        lease.spec matches Some(spec) ==> (spec.holder_identity matches Some(other) ==> other@
            != holder),
        now.nanos < 1_000_000_000,
    ensures
        lease.spec is None ==> takeable(lease, holder, now),
        lease.spec matches Some(spec) ==> (spec.renew_time is None ==> takeable(lease, holder, now)),
        lease.spec matches Some(spec) ==> (spec.renew_time matches Some(renewed)
            ==> spec.lease_duration_seconds is None ==> (takeable(lease, holder, now)
            <==> now.seconds * 1_000_000_000 + now.nanos > (renewed + 90) * 1_000_000_000)),
{
}

/// A lock that was written holds off every other holder for a minute and a half, and never its own.
pub proof fn a_written_lock_holds(
    lease: Lease,
    name: Seq<char>,
    holder: Seq<char>,
    written: i64,
    other: Seq<char>,
    now: Timestamp,
)
    requires
        lease_of(lease, name, holder, written as int),
        now.nanos < 1_000_000_000,
    ensures
        takeable(lease, holder, now),
        other != holder ==> (takeable(lease, other, now) <==> now.seconds * 1_000_000_000
            + now.nanos > (written + 90) * 1_000_000_000),
{
}

/// Two hosts share a lock exactly where their digests are the same, and a lock is named by nothing
/// else.
pub proof fn locks_are_told_apart_by_their_hosts(a: Seq<char>, b: Seq<char>)
    ensures
        lease_name_of(a) == lease_name_of(b) <==> digests::text_digest(a) == digests::text_digest(
            b,
        ),
        search::has_prefix(lease_name_of(a), "ansible-lock-"@),
{
    let prefix = "ansible-lock-"@;
    let x = numerals::numeral(digests::text_digest(a) as nat, 16);
    let y = numerals::numeral(digests::text_digest(b) as nat, 16);
    numerals::numeral_round_trip(digests::text_digest(a) as nat, 16);
    numerals::numeral_round_trip(digests::text_digest(b) as nat, 16);
    assert(lease_name_of(a).skip(prefix.len() as int) =~= x);
    assert(lease_name_of(b).skip(prefix.len() as int) =~= y);
    assert(lease_name_of(a).subrange(0, prefix.len() as int) =~= prefix);
}

/// A renewal that saw a lock in another's hands says so, whatever else it saw, and one that saw neither
/// that nor a race holds every lock.
pub proof fn a_seen_loss_outweighs_a_race(lost: Option<BlockedBy>, unconfirmed: Option<BlockedBy>)
    ensures
        lost is Some ==> outcome_of(lost, unconfirmed) == RenewalOutcome::Lost(lost->0),
        lost is None && unconfirmed is Some ==> outcome_of(lost, unconfirmed)
            == RenewalOutcome::Unconfirmed(unconfirmed->0),
        outcome_of(lost, unconfirmed) == RenewalOutcome::Held <==> lost is None && unconfirmed
            is None,
{
}

/// A lock says who took it, when, and since when it was last renewed.
pub proof fn a_written_lock_says_since_when(
    lease: Lease,
    name: Seq<char>,
    holder: Seq<char>,
    now: int,
)
    requires
        lease_of(lease, name, holder, now),
    ensures
        lease.metadata.name is Some && lease.metadata.name->0@ == name,
        lease.metadata.namespace is None,
        lease.metadata.labels@.dom().is_empty(),
        lease.metadata.annotations@.dom().is_empty(),
        lease.metadata.owner_references@.len() == 0,
        lease.spec is Some,
        lease.spec->0.holder_identity is Some && lease.spec->0.holder_identity->0@ == holder,
        lease.spec->0.acquire_time is Some && lease.spec->0.acquire_time->0 == now,
        lease.spec->0.renew_time is Some && lease.spec->0.renew_time->0 == now,
        lease.spec->0.lease_duration_seconds == Some(90i32),
{
}

} // verus!
