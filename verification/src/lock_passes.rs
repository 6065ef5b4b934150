//! The passes over a run's locks: taking all of them, renewing them, giving them back.
//!
//! Each pass is a state machine over the hosts of a run. `call` says which cluster call comes next;
//! `found`, `written` and `deleted` tell the pass what came of it. A pass whose call fails for any
//! reason but a lost race is abandoned by its caller.

use vstd::prelude::*;
use crate::locking;
use crate::locking::{
    acquisition_order, build_lease, decide, lease_name, renewal_decision, renewal_outcome, BlockedBy,
    Lease, LeaseDecision, RenewalAction, RenewalOutcome,
};
use crate::plans::Timestamp;
use crate::text;
use crate::text::{clone_optional, clone_strings, optional_is};

verus! {

/// A call on the Lease API.
#[derive(Debug, Clone, PartialEq)]
pub enum LeaseCall {
    Read { name: String },
    Create { lease: Lease },
    Replace { name: String, lease: Lease },
    /// A delete that only removes the object it was decided about.
    Delete { name: String, resource_version: Option<String>, uid: Option<String> },
}

/// The call reads the Lease of a host.
pub open spec fn reads(call: Option<LeaseCall>, host: Seq<char>) -> bool {
    call matches Some(LeaseCall::Read { name }) && name@ == locking::lease_name_of(host)
}

/// The call writes the Lease of a host for a holder: over the version that was read, or anew.
pub open spec fn writes(
    call: Option<LeaseCall>,
    host: Seq<char>,
    holder: Seq<char>,
    now: int,
    over: Option<String>,
) -> bool {
    match (call, over) {
        (Some(LeaseCall::Create { lease }), None) => {
            &&& locking::lease_of(lease, locking::lease_name_of(host), holder, now)
            &&& lease.metadata.resource_version is None
        },
        (Some(LeaseCall::Replace { name, lease }), Some(_)) => {
            &&& name@ == locking::lease_name_of(host)
            &&& locking::lease_of(lease, locking::lease_name_of(host), holder, now)
            &&& lease.metadata.resource_version == over
        },
        _ => false,
    }
}

fn read_call(host: &str) -> (res: LeaseCall)
    ensures
        reads(Some(res), host@),
{
    LeaseCall::Read { name: lease_name(host) }
}

fn write_call(host: &str, holder: &str, now: Timestamp, over: &Option<String>) -> (res: LeaseCall)
    ensures
        writes(Some(res), host@, holder@, now.seconds as int, *over),
{
    let name = lease_name(host);
    let lease = build_lease(name.as_str(), holder, now, over);
    match over {
        Some(_) => LeaseCall::Replace { name, lease },
        None => LeaseCall::Create { lease },
    }
}

// --- giving locks back -----------------------------------------------------------------------

/// What a Lease looked like when it was decided to delete it.
#[derive(Debug, Clone, PartialEq)]
pub struct Observed {
    pub resource_version: Option<String>,
    pub uid: Option<String>,
}

/// Gives back the locks of a run: visits every host once and deletes the Leases the run holds.
#[derive(Debug, Clone, PartialEq)]
pub struct ReleasePass {
    pub hosts: Vec<String>,
    pub holder: String,
    /// How many hosts have been visited.
    pub visited: usize,
    /// The Lease of the host being visited, once it was seen to be this run's.
    pub deleting: Option<Observed>,
}

impl ReleasePass {
    pub open spec fn wf(&self) -> bool {
        &&& self.visited <= self.hosts@.len()
        &&& self.deleting is Some ==> self.visited < self.hosts@.len()
    }

    /// Whether every host has been visited.
    pub open spec fn done(&self) -> bool {
        self.visited == self.hosts@.len()
    }

    /// The call deletes what was observed of a host's Lease.
    pub open spec fn deletes(call: Option<LeaseCall>, host: Seq<char>, observed: Observed) -> bool {
        call matches Some(LeaseCall::Delete { name, resource_version, uid }) && name@
            == locking::lease_name_of(host) && resource_version == observed.resource_version && uid
            == observed.uid
    }

    /// The next call: the Lease of the next host is read, and deleted if it was seen to be ours.
    pub fn call(&self) -> (res: Option<LeaseCall>)
        requires
            self.wf(),
        ensures
            if self.done() {
                res is None
            } else if self.deleting is Some {
                Self::deletes(res, self.hosts@[self.visited as int]@, self.deleting->0)
            } else {
                reads(res, self.hosts@[self.visited as int]@)
            },
    {
        if self.visited == self.hosts.len() {
            return None;
        }
        let host = self.hosts[self.visited].as_str();
        match &self.deleting {
            Some(observed) => Some(
                LeaseCall::Delete {
                    name: lease_name(host),
                    resource_version: clone_optional(&observed.resource_version),
                    uid: clone_optional(&observed.uid),
                },
            ),
            None => Some(read_call(host)),
        }
    }

    /// What was read. A Lease that is missing or someone else's is left alone.
    pub fn found(&mut self, existing: Option<&Lease>)
        requires
            old(self).wf(),
            !old(self).done(),
            old(self).deleting is None,
        ensures
            final(self).wf(),
            final(self).hosts == old(self).hosts,
            final(self).holder == old(self).holder,
            if existing is Some && locking::holder_of(*existing->0) == Some(old(self).holder@) {
                &&& final(self).visited == old(self).visited
                &&& final(self).deleting == Some(
                    Observed {
                        resource_version: existing->0.metadata.resource_version,
                        uid: existing->0.metadata.uid,
                    },
                )
            } else {
                &&& final(self).visited == old(self).visited + 1
                &&& final(self).deleting is None
            },
    {
        if let Some(lease) = existing {
            let ours = match &lease.spec {
                Some(spec) => optional_is(&spec.holder_identity, self.holder.as_str()),
                None => false,
            };
            if ours {
                self.deleting = Some(
                    Observed {
                        resource_version: clone_optional(&lease.metadata.resource_version),
                        uid: clone_optional(&lease.metadata.uid),
                    },
                );
                return;
            }
        }
        assert(self.visited < self.hosts.len());
        self.visited = self.visited + 1;
    }

    /// The delete went through, or found the Lease gone or changed: either way it is not ours any
    /// more.
    pub fn deleted(&mut self)
        requires
            old(self).wf(),
            old(self).deleting is Some,
        ensures
            final(self).wf(),
            final(self).hosts == old(self).hosts,
            final(self).holder == old(self).holder,
            final(self).visited == old(self).visited + 1,
            final(self).deleting is None,
    {
        self.deleting = None;
        assert(self.visited < self.hosts.len());
        self.visited = self.visited + 1;
    }
}

/// Starts giving back the locks of a run.
pub fn release_locks(target_hosts: &[String], holder_identity: &str) -> (res: ReleasePass)
    ensures
        res.wf(),
        res.hosts@ == target_hosts@,
        res.holder@ == holder_identity@,
        res.visited == 0,
        res.deleting is None,
{
    ReleasePass {
        hosts: clone_strings(target_hosts),
        holder: holder_identity.to_owned(),
        visited: 0,
        deleting: None,
    }
}

// --- taking locks ----------------------------------------------------------------------------

/// Takes the locks of a run, all or none: in the global order, stopping at the first that cannot be
/// taken and then giving back whatever the run holds.
#[derive(Debug, Clone, PartialEq)]
pub struct LockPass {
    pub order: Vec<String>,
    pub holder: String,
    pub now: Timestamp,
    /// How many locks, in order, this pass has written.
    pub taken: usize,
    /// The Lease about to be written, by the version it replaces if there is one.
    pub writing: Option<Option<String>>,
    pub blocked: Option<BlockedBy>,
    pub release: ReleasePass,
}

impl LockPass {
    pub open spec fn wf(&self) -> bool {
        &&& text::texts(self.order@) == locking::lock_order(text::texts(self.release.hosts@))
        &&& self.taken <= self.order@.len()
        &&& self.writing is Some ==> self.taken < self.order@.len() && self.blocked is None
        &&& self.blocked is Some ==> self.taken < self.order@.len() && self.blocked->0.host@
            == self.order@[self.taken as int]@
        &&& self.blocked is None ==> self.release.visited == 0 && self.release.deleting is None
        &&& self.release.wf()
        &&& self.release.holder@ == self.holder@
    }

    /// Whether there is nothing left to do: every lock is taken, or the pass was blocked and every
    /// lock has been given back.
    pub open spec fn done(&self) -> bool {
        if self.blocked is Some {
            self.release.done()
        } else {
            self.taken == self.order@.len()
        }
    }

    /// Whether the Lease of the next host is about to be read.
    pub open spec fn acquiring(&self) -> bool {
        self.blocked is None && self.taken < self.order@.len() && self.writing is None
    }

    /// What a step that is about the run's own locks leaves alone.
    pub open spec fn same_run(&self, other: &LockPass) -> bool {
        &&& self.order == other.order
        &&& self.holder == other.holder
        &&& self.now == other.now
        &&& self.release.hosts == other.release.hosts
    }

    /// The next call.
    pub fn call(&self) -> (res: Option<LeaseCall>)
        requires
            self.wf(),
        ensures
            res is None <==> self.done(),
            self.acquiring() ==> reads(res, self.order@[self.taken as int]@),
            self.writing is Some ==> writes(
                res,
                self.order@[self.taken as int]@,
                self.holder@,
                self.now.seconds as int,
                self.writing->0,
            ),
            self.blocked is Some && !self.release.done() ==> if self.release.deleting is Some {
                ReleasePass::deletes(
                    res,
                    self.release.hosts@[self.release.visited as int]@,
                    self.release.deleting->0,
                )
            } else {
                reads(res, self.release.hosts@[self.release.visited as int]@)
            },
    {
        if self.blocked.is_some() {
            return self.release.call();
        }
        if self.taken == self.order.len() {
            return None;
        }
        let host = self.order[self.taken].as_str();
        match &self.writing {
            Some(over) => Some(write_call(host, self.holder.as_str(), self.now, over)),
            None => Some(read_call(host)),
        }
    }

    /// What was read of the next lock: it is written if it is free, expired or ours already, and
    /// blocks the pass otherwise.
    pub fn found(&mut self, existing: Option<&Lease>)
        requires
            old(self).wf(),
            old(self).acquiring(),
            existing matches Some(lease) ==> locking::takeable(
                *lease,
                old(self).holder@,
                old(self).now,
            ) ==> lease.metadata.resource_version is Some,
        ensures
            final(self).wf(),
            final(self).same_run(old(self)),
            final(self).taken == old(self).taken,
            final(self).release == old(self).release,
            match existing {
                None => final(self).writing == Some(None::<String>) && final(self).blocked is None,
                Some(lease) => {
                    if locking::takeable(*lease, old(self).holder@, old(self).now) {
                        &&& final(self).writing is Some
                        &&& text::text_of(final(self).writing->0) == text::text_of(
                            lease.metadata.resource_version,
                        )
                        &&& final(self).blocked is None
                    } else {
                        &&& final(self).writing is None
                        &&& locking::blocked_view(final(self).blocked) == Some(
                            (
                                old(self).order@[old(self).taken as int]@,
                                locking::holder_of(*lease),
                            ),
                        )
                    }
                },
            },
    {
        match decide(existing, self.holder.as_str(), self.now) {
            LeaseDecision::Create => {
                self.writing = Some(None);
            },
            LeaseDecision::Replace { resource_version } => {
                self.writing = Some(Some(resource_version));
            },
            LeaseDecision::Renew { resource_version } => {
                self.writing = Some(Some(resource_version));
            },
            LeaseDecision::HeldByOther => {
                let holder: Option<String> = match existing {
                    Some(lease) => match &lease.spec {
                        Some(spec) => clone_optional(&spec.holder_identity),
                        None => None,
                    },
                    None => None,
                };
                self.blocked = Some(BlockedBy { host: self.order[self.taken].clone(), holder });
            },
        }
    }

    /// The write went through, or lost a race: then the pass is blocked, by nobody it saw.
    pub fn written(&mut self, conflict: bool)
        requires
            old(self).wf(),
            old(self).writing is Some,
        ensures
            final(self).wf(),
            final(self).same_run(old(self)),
            final(self).writing is None,
            final(self).release == old(self).release,
            if conflict {
                &&& final(self).taken == old(self).taken
                &&& locking::blocked_view(final(self).blocked) == Some(
                    (old(self).order@[old(self).taken as int]@, None::<Seq<char>>),
                )
            } else {
                &&& final(self).taken == old(self).taken + 1
                &&& final(self).blocked is None
            },
    {
        self.writing = None;
        if conflict {
            self.blocked = Some(BlockedBy { host: self.order[self.taken].clone(), holder: None });
        } else {
            assert(self.taken < self.order.len());
            self.taken = self.taken + 1;
        }
    }

    /// What was read of a lock being given back.
    pub fn found_releasing(&mut self, existing: Option<&Lease>)
        requires
            old(self).wf(),
            old(self).blocked is Some,
            !old(self).release.done(),
            old(self).release.deleting is None,
        ensures
            final(self).wf(),
            final(self).same_run(old(self)),
            final(self).taken == old(self).taken,
            final(self).writing == old(self).writing,
            final(self).blocked == old(self).blocked,
            if existing is Some && locking::holder_of(*existing->0) == Some(old(self).holder@) {
                &&& final(self).release.visited == old(self).release.visited
                &&& final(self).release.deleting == Some(
                    Observed {
                        resource_version: existing->0.metadata.resource_version,
                        uid: existing->0.metadata.uid,
                    },
                )
            } else {
                &&& final(self).release.visited == old(self).release.visited + 1
                &&& final(self).release.deleting is None
            },
    {
        self.release.found(existing);
    }

    /// A delete of a lock being given back was made.
    pub fn deleted(&mut self)
        requires
            old(self).wf(),
            old(self).blocked is Some,
            old(self).release.deleting is Some,
        ensures
            final(self).wf(),
            final(self).same_run(old(self)),
            final(self).taken == old(self).taken,
            final(self).writing == old(self).writing,
            final(self).blocked == old(self).blocked,
            final(self).release.visited == old(self).release.visited + 1,
            final(self).release.deleting is None,
    {
        self.release.deleted();
    }

    /// What the pass came to: nothing where every lock is held, and otherwise what blocked it.
    pub fn outcome(self) -> (res: Option<BlockedBy>)
        requires
            self.wf(),
            self.done(),
        ensures
            res == self.blocked,
    {
        self.blocked
    }
}

/// Starts taking the locks of a run.
pub fn ensure_locks(target_hosts: &[String], holder_identity: &str, now: Timestamp) -> (res: LockPass)
    ensures
        res.wf(),
        res.release.hosts@ == target_hosts@,
        res.holder@ == holder_identity@,
        res.now == now,
        res.taken == 0,
        res.writing is None,
        res.blocked is None,
{
    LockPass {
        order: acquisition_order(target_hosts),
        holder: holder_identity.to_owned(),
        now,
        taken: 0,
        writing: None,
        blocked: None,
        release: release_locks(target_hosts, holder_identity),
    }
}

/// A pass is all or nothing: one that is done has either written the lock of every host, or was
/// blocked by one of them and has visited every host to give its lock back.
pub proof fn locks_are_all_or_nothing(pass: LockPass)
    requires
        pass.wf(),
        pass.done(),
    ensures
        pass.blocked is None ==> pass.taken == pass.release.hosts@.len(),
        pass.blocked is Some ==> pass.release.visited == pass.release.hosts@.len(),
        pass.blocked is Some ==> text::texts(pass.release.hosts@).contains(pass.blocked->0.host@),
{
    broadcast use vstd::multiset::group_multiset_axioms;
    broadcast use vstd::seq_lib::group_to_multiset_ensures;

    let hosts = text::texts(pass.release.hosts@);
    let order = text::texts(pass.order@);
    locking::locks_are_taken_in_name_order(hosts);
    assert(order.len() == pass.order@.len() && hosts.len() == pass.release.hosts@.len());
    if pass.blocked is Some {
        let host = pass.blocked->0.host@;
        assert(order[pass.taken as int] == host);
        assert(order.contains(host));
        assert(order.to_multiset().count(host) > 0);
        assert(hosts.to_multiset().count(host) > 0);
    }
}

// --- renewing locks --------------------------------------------------------------------------

/// Renews the locks of a run in progress: visits every host, never takes a lock from another
/// holder, and gives none back.
#[derive(Debug, Clone, PartialEq)]
pub struct RenewPass {
    pub hosts: Vec<String>,
    pub holder: String,
    pub now: Timestamp,
    /// How many hosts have been visited.
    pub visited: usize,
    /// The Lease about to be written, by the version it replaces if there is one.
    pub writing: Option<Option<String>>,
    /// The first lock seen in another's hands.
    pub lost: Option<BlockedBy>,
    /// The first lock a write race left unconfirmed.
    pub unconfirmed: Option<BlockedBy>,
}

impl RenewPass {
    pub open spec fn wf(&self) -> bool {
        &&& self.visited <= self.hosts@.len()
        &&& self.writing is Some ==> self.visited < self.hosts@.len()
    }

    /// Whether every host has been visited.
    pub open spec fn done(&self) -> bool {
        self.visited == self.hosts@.len()
    }

    pub open spec fn same_run(&self, other: &RenewPass) -> bool {
        &&& self.hosts == other.hosts
        &&& self.holder == other.holder
        &&& self.now == other.now
    }

    /// The next call.
    pub fn call(&self) -> (res: Option<LeaseCall>)
        requires
            self.wf(),
        ensures
            if self.done() {
                res is None
            } else if self.writing is Some {
                writes(
                    res,
                    self.hosts@[self.visited as int]@,
                    self.holder@,
                    self.now.seconds as int,
                    self.writing->0,
                )
            } else {
                reads(res, self.hosts@[self.visited as int]@)
            },
    {
        if self.visited == self.hosts.len() {
            return None;
        }
        let host = self.hosts[self.visited].as_str();
        match &self.writing {
            Some(over) => Some(write_call(host, self.holder.as_str(), self.now, over)),
            None => Some(read_call(host)),
        }
    }

    /// What was read of a lock: it is written again unless another holds it, and then it is lost.
    /// Only the first loss is kept.
    pub fn found(&mut self, existing: Option<&Lease>)
        requires
            old(self).wf(),
            !old(self).done(),
            old(self).writing is None,
        ensures
            final(self).wf(),
            final(self).same_run(old(self)),
            final(self).unconfirmed == old(self).unconfirmed,
            if existing is Some && locking::holder_of(*existing->0) is Some && locking::holder_of(
                *existing->0,
            ) != Some(old(self).holder@) {
                &&& final(self).visited == old(self).visited + 1
                &&& final(self).writing is None
                &&& locking::blocked_view(final(self).lost) == if old(self).lost is Some {
                    locking::blocked_view(old(self).lost)
                } else {
                    Some(
                        (
                            old(self).hosts@[old(self).visited as int]@,
                            locking::holder_of(*existing->0),
                        ),
                    )
                }
            } else {
                &&& final(self).visited == old(self).visited
                &&& final(self).lost == old(self).lost
                &&& final(self).writing == Some(
                    match existing {
                        Some(lease) => lease.metadata.resource_version,
                        None => None,
                    },
                )
            },
    {
        match renewal_decision(existing, self.holder.as_str()) {
            RenewalAction::Lost { holder } => {
                if self.lost.is_none() {
                    self.lost = Some(
                        BlockedBy { host: self.hosts[self.visited].clone(), holder: Some(holder) },
                    );
                }
                assert(self.visited < self.hosts.len());
                self.visited = self.visited + 1;
            },
            RenewalAction::Reassert { resource_version } => {
                self.writing = Some(resource_version);
            },
        }
    }

    /// The write went through, or lost a race: then the lock is unconfirmed, and the pass goes on.
    /// Only the first such lock is kept.
    pub fn written(&mut self, conflict: bool)
        requires
            old(self).wf(),
            old(self).writing is Some,
        ensures
            final(self).wf(),
            final(self).same_run(old(self)),
            final(self).visited == old(self).visited + 1,
            final(self).writing is None,
            final(self).lost == old(self).lost,
            locking::blocked_view(final(self).unconfirmed) == if conflict
                && old(self).unconfirmed is None {
                Some((old(self).hosts@[old(self).visited as int]@, None::<Seq<char>>))
            } else {
                locking::blocked_view(old(self).unconfirmed)
            },
    {
        self.writing = None;
        if conflict && self.unconfirmed.is_none() {
            self.unconfirmed = Some(
                BlockedBy { host: self.hosts[self.visited].clone(), holder: None },
            );
        }
        assert(self.visited < self.hosts.len());
        self.visited = self.visited + 1;
    }

    /// What the pass came to.
    pub fn outcome(self) -> (res: RenewalOutcome)
        requires
            self.wf(),
            self.done(),
        ensures
            res == locking::outcome_of(self.lost, self.unconfirmed),
    {
        renewal_outcome(self.lost, self.unconfirmed)
    }
}

/// Starts renewing the locks of a run in progress.
pub fn renew_locks(target_hosts: &[String], holder_identity: &str, now: Timestamp) -> (res: RenewPass)
    ensures
        res.wf(),
        res.hosts@ == target_hosts@,
        res.holder@ == holder_identity@,
        res.now == now,
        res.visited == 0,
        res.writing is None,
        res.lost is None,
        res.unconfirmed is None,
{
    RenewPass {
        hosts: clone_strings(target_hosts),
        holder: holder_identity.to_owned(),
        now,
        visited: 0,
        writing: None,
        lost: None,
        unconfirmed: None,
    }
}

/// A lock is written in the name of its holder, from now on and for a minute and a half, and over the
/// very version that was seen.
pub proof fn a_lock_is_written_for_its_holder(
    call: LeaseCall,
    host: Seq<char>,
    holder: Seq<char>,
    now: int,
    over: Option<String>,
)
    requires
        writes(Some(call), host, holder, now, over),
    ensures
        over is None <==> call is Create,
        over is Some <==> call is Replace,
        call matches LeaseCall::Create { lease } ==> locking::holder_of(lease) == Some(holder)
            && lease.spec->0.lease_duration_seconds == Some(90i32) && lease.spec->0.renew_time is Some
            && lease.spec->0.renew_time->0 == now && lease.metadata.name is Some
            && lease.metadata.name->0@ == locking::lease_name_of(host)
            && lease.metadata.resource_version is None,
        call matches LeaseCall::Replace { name, lease } ==> locking::holder_of(lease) == Some(holder)
            && lease.spec->0.lease_duration_seconds == Some(90i32) && lease.spec->0.renew_time is Some
            && lease.spec->0.renew_time->0 == now && name@ == locking::lease_name_of(host)
            && lease.metadata.name is Some && lease.metadata.name->0@ == locking::lease_name_of(host)
            && lease.metadata.resource_version == over,
{
}

/// A lock is deleted only in the version that was seen to be the holder's own.
pub proof fn a_lock_is_deleted_as_it_was_seen(call: LeaseCall, host: Seq<char>, observed: Observed)
    requires
        ReleasePass::deletes(Some(call), host, observed),
    ensures
        call matches LeaseCall::Delete { name, resource_version, uid } && name@
            == locking::lease_name_of(host) && resource_version == observed.resource_version && uid
            == observed.uid,
{
}

/// A pass that is done holds every lock it was to take, or was kept from one of them and has let go of all it
/// held.
pub proof fn a_lock_pass_takes_all_or_says_who_kept_it(pass: LockPass, host: Seq<char>)
    requires
        pass.wf(),
        pass.done(),
    ensures
        pass.blocked is None ==> pass.taken == pass.order@.len(),
        pass.blocked is None && text::texts(pass.release.hosts@).contains(host) ==> text::texts(
            pass.order@,
        ).contains(host),
        pass.blocked is Some ==> pass.release.visited == pass.release.hosts@.len(),
{
    broadcast use vstd::seq_lib::group_to_multiset_ensures;

    locking::locks_are_taken_in_name_order(text::texts(pass.release.hosts@));
    let hosts = text::texts(pass.release.hosts@);
    let order = text::texts(pass.order@);
    assert(order.to_multiset() == hosts.to_multiset());
    assert(hosts.contains(host) <==> hosts.to_multiset().count(host) > 0);
    assert(order.contains(host) <==> order.to_multiset().count(host) > 0);
}

/// A pass that is neither blocked nor writing asks for the next lock, as long as there is one, and one that is
/// about to write has one to write.
pub proof fn a_pass_takes_one_lock_after_the_other(pass: LockPass)
    requires
        pass.wf(),
    ensures
        pass.acquiring() <==> pass.blocked is None && pass.writing is None && pass.taken
            < pass.order@.len(),
        pass.writing is Some ==> pass.taken < pass.order@.len() && pass.blocked is None
            && !pass.done(),
        pass.acquiring() ==> !pass.done(),
        pass.blocked is None && pass.writing is None && !pass.acquiring() ==> pass.done(),
        pass.blocked is Some ==> text::texts(pass.order@)[pass.taken as int] == pass.blocked->0.host@,
{
    if pass.blocked is Some {
        assert(text::texts(pass.order@)[pass.taken as int] == pass.order@[pass.taken as int]@);
    }
}

} // verus!
