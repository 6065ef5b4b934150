use ansible_operator::lock_passes::{ensure_locks, release_locks, renew_locks, LeaseCall, Observed};
use ansible_operator::locking::{
    acquisition_order, build_lease, decide, lease_name, may_take, renewal_decision, renewal_outcome, BlockedBy,
    Lease, LeaseDecision, LeaseSpec, RenewalAction, RenewalOutcome, LEASE_DURATION_SECONDS,
};
use ansible_operator::plans::Timestamp;
use ansible_operator::resources::ObjectMeta;
use std::collections::BTreeMap;
use std::hash::{Hash as _, Hasher as _};

fn now() -> Timestamp {
    Timestamp {
        seconds: 1_786_000_000,
        nanos: 0,
        offset_seconds: 0,
    }
}

fn later(time: Timestamp, seconds: i64) -> Timestamp {
    Timestamp {
        seconds: time.seconds + seconds,
        ..time
    }
}

fn lease_with(holder: &str, renew_time: Timestamp, duration_seconds: i32) -> Lease {
    Lease {
        metadata: ObjectMeta {
            name: Some("some-lease".into()),
            resource_version: Some("42".into()),
            ..Default::default()
        },
        spec: Some(LeaseSpec {
            holder_identity: Some(holder.to_string()),
            lease_duration_seconds: Some(duration_seconds),
            renew_time: Some(renew_time.seconds),
            acquire_time: None,
        }),
    }
}

#[test]
fn decide_creates_when_absent() {
    let now = now();
    assert_eq!(decide(None, "ns/plan/hash", now), LeaseDecision::Create);
}

#[test]
fn decide_renews_when_held_by_us() {
    let now = now();
    let lease = lease_with("ns/plan/hash", later(now, -10), 90);
    assert_eq!(
        decide(Some(&lease), "ns/plan/hash", now),
        LeaseDecision::Renew {
            resource_version: "42".into()
        }
    );
}

#[test]
fn decide_blocks_when_held_by_other_and_not_expired() {
    let now = now();
    let lease = lease_with("ns/other-plan/hash", later(now, -10), 90);
    assert_eq!(
        decide(Some(&lease), "ns/plan/hash", now),
        LeaseDecision::HeldByOther
    );
}

#[test]
fn decide_replaces_when_held_by_other_but_expired() {
    let now = now();
    let lease = lease_with("ns/other-plan/hash", later(now, -200), 90);
    assert_eq!(
        decide(Some(&lease), "ns/plan/hash", now),
        LeaseDecision::Replace {
            resource_version: "42".into()
        }
    );
}

#[test]
fn decide_treats_missing_renew_time_as_expired() {
    let now = now();
    let lease = Lease {
        metadata: ObjectMeta {
            name: Some("some-lease".into()),
            resource_version: Some("42".into()),
            ..Default::default()
        },
        spec: Some(LeaseSpec {
            holder_identity: Some("ns/other-plan/hash".into()),
            lease_duration_seconds: None,
            renew_time: None,
            acquire_time: None,
        }),
    };
    assert_eq!(
        decide(Some(&lease), "ns/plan/hash", now),
        LeaseDecision::Replace {
            resource_version: "42".into()
        }
    );
}

#[test]
fn acquisition_order_is_independent_of_input_ordering() {
    // Two plans may enumerate the same hosts in different orders (different inventory groups).
    // The acquisition order must come out identical for both so they contend for the same lock
    // first — that shared ordering is what makes the all-or-nothing acquisition deadlock-free.
    let one = vec![
        "homelab-ctrl-0".to_string(),
        "homelab-worker-1".to_string(),
        "homelab-worker-0".to_string(),
    ];
    let two = vec![
        "homelab-worker-0".to_string(),
        "homelab-ctrl-0".to_string(),
        "homelab-worker-1".to_string(),
    ];

    assert_eq!(acquisition_order(&one), acquisition_order(&two));

    // ...and that order is ascending by lease name.
    let ordered_names: Vec<String> = acquisition_order(&one)
        .iter()
        .map(|host| lease_name(host))
        .collect();
    let mut sorted = ordered_names.clone();
    sorted.sort();
    assert_eq!(ordered_names, sorted);
}

#[test]
fn renewal_reasserts_when_still_ours_or_object_missing() {
    let now = now();

    // Lease object gone -> recreate it (no resourceVersion to replace).
    assert_eq!(
        renewal_decision(None, "ns/plan/hash"),
        RenewalAction::Reassert {
            resource_version: None
        }
    );

    // Still held by us -> replace in place, carrying its resourceVersion.
    let ours = lease_with("ns/plan/hash", later(now, -10), 90);
    assert_eq!(
        renewal_decision(Some(&ours), "ns/plan/hash"),
        RenewalAction::Reassert {
            resource_version: Some("42".into())
        }
    );
}

#[test]
fn renewal_reports_loss_when_another_holder_took_over() {
    // Another holder's identity means we lost the lock mid-run — even if it's expired we do not
    // reclaim it here, we report it, so we never resurrect a lock a live run is now holding.
    let stolen = lease_with("ns/other/hash", later(now(), -500), 90);
    assert_eq!(
        renewal_decision(Some(&stolen), "ns/plan/hash"),
        RenewalAction::Lost {
            holder: "ns/other/hash".into()
        }
    );
}

#[test]
fn observed_takeover_outweighs_a_later_unconfirmed_write() {
    let lost = BlockedBy {
        host: "worker-1".into(),
        holder: Some("ns/other/run".into()),
    };
    let unconfirmed = BlockedBy {
        host: "worker-2".into(),
        holder: None,
    };

    assert_eq!(
        renewal_outcome(Some(lost), Some(unconfirmed)),
        RenewalOutcome::Lost(BlockedBy {
            host: "worker-1".into(),
            holder: Some("ns/other/run".into()),
        })
    );
    assert_eq!(
        renewal_outcome(
            None,
            Some(BlockedBy {
                host: "worker-2".into(),
                holder: None,
            })
        ),
        RenewalOutcome::Unconfirmed(BlockedBy {
            host: "worker-2".into(),
            holder: None,
        })
    );
    assert_eq!(renewal_outcome(None, None), RenewalOutcome::Held);
}

#[test]
fn lease_name_is_deterministic_and_dns_safe() {
    let a = lease_name("worker-1");
    let b = lease_name("worker-1");
    let c = lease_name("192.168.1.42");
    assert_eq!(a, b);
    assert_ne!(a, c);
    assert!(a.chars().all(|ch| ch.is_ascii_alphanumeric() || ch == '-'));
}

/// A store of Leases, with versions that move on every write.
struct Leases {
    stored: BTreeMap<String, Lease>,
    version: u32,
}

impl Leases {
    fn new() -> Self {
        Leases {
            stored: BTreeMap::new(),
            version: 0,
        }
    }

    fn hold(&mut self, host: &str, holder: &str, renewed: Timestamp) {
        self.put(build_lease(&lease_name(host), holder, renewed, &None));
    }

    fn put(&mut self, mut lease: Lease) {
        self.version += 1;
        lease.metadata.resource_version = Some(self.version.to_string());
        lease.metadata.uid = Some("uid".into());
        self.stored.insert(lease.metadata.name.clone().unwrap(), lease);
    }

    fn holders(&self) -> Vec<String> {
        let mut holders: Vec<String> = self
            .stored
            .values()
            .map(|lease| lease.spec.clone().unwrap().holder_identity.unwrap())
            .collect();
        holders.sort();
        holders
    }

    fn take(&mut self, hosts: &[String], holder: &str) -> Option<BlockedBy> {
        let mut pass = ensure_locks(hosts, holder, now());
        while let Some(call) = pass.call() {
            match call {
                LeaseCall::Read { name } => {
                    let found = self.stored.get(&name).cloned();
                    if pass.blocked.is_some() {
                        pass.found_releasing(found.as_ref());
                    } else {
                        pass.found(found.as_ref());
                    }
                }
                LeaseCall::Create { lease } | LeaseCall::Replace { lease, .. } => {
                    self.put(lease);
                    pass.written(false);
                }
                LeaseCall::Delete { name, .. } => {
                    self.stored.remove(&name);
                    pass.deleted();
                }
            }
        }
        pass.outcome()
    }
}

#[test]
fn locks_are_taken_all_or_not_at_all() {
    let hosts: Vec<String> = ["a", "b", "c", "d"].iter().map(|h| (*h).to_string()).collect();
    let mut leases = Leases::new();
    assert_eq!(leases.take(&hosts, "one"), None);
    assert_eq!(leases.holders(), ["one", "one", "one", "one"]);
    assert_eq!(leases.take(&hosts, "one"), None, "taking them again renews them");

    let mut contended = Leases::new();
    let last = acquisition_order(&hosts)[3].clone();
    contended.hold(&last, "two", now());
    assert_eq!(
        contended.take(&hosts, "one"),
        Some(BlockedBy {
            host: last.clone(),
            holder: Some("two".into()),
        })
    );
    assert_eq!(contended.holders(), ["two"], "what was taken is given back");

    let mut expired = Leases::new();
    expired.hold(&last, "two", later(now(), -i64::from(LEASE_DURATION_SECONDS) - 1));
    assert_eq!(expired.take(&hosts, "one"), None);
    assert_eq!(expired.holders(), ["one", "one", "one", "one"]);
}

#[test]
fn a_lease_that_is_not_taken_needs_no_version() {
    let hosts = vec!["a".to_string()];
    let mut held = lease_with("two", now(), 90);
    held.metadata.resource_version = None;
    assert!(!may_take(&held, "one", now()));
    assert!(may_take(&held, "two", now()));
    assert!(may_take(&held, "one", later(now(), 91)));
    let mut pass = ensure_locks(&hosts, "one", now());
    pass.found(Some(&held));
    assert_eq!(
        pass.blocked,
        Some(BlockedBy {
            host: "a".into(),
            holder: Some("two".into()),
        })
    );
}

#[test]
fn a_lost_write_race_blocks_without_a_holder() {
    let hosts = vec!["a".to_string()];
    let mut pass = ensure_locks(&hosts, "one", now());
    pass.found(None);
    assert!(matches!(pass.call(), Some(LeaseCall::Create { .. })));
    pass.written(true);
    pass.found_releasing(Some(&lease_with("two", now(), 90)));
    assert_eq!(pass.call(), None);
    assert_eq!(
        pass.outcome(),
        Some(BlockedBy {
            host: "a".into(),
            holder: None,
        })
    );
}

#[test]
fn a_release_deletes_only_what_it_saw_itself_hold() {
    let hosts = vec!["a".to_string(), "b".to_string(), "c".to_string()];
    let mut pass = release_locks(&hosts, "one");
    pass.found(None);
    pass.found(Some(&lease_with("two", now(), 90)));
    pass.found(Some(&lease_with("one", now(), 90)));
    assert_eq!(
        pass.deleting,
        Some(Observed {
            resource_version: Some("42".into()),
            uid: None,
        })
    );
    assert_eq!(
        pass.call(),
        Some(LeaseCall::Delete {
            name: lease_name("c"),
            resource_version: Some("42".into()),
            uid: None,
        })
    );
    pass.deleted();
    assert_eq!(pass.call(), None);
}

#[test]
fn a_renewal_visits_every_host_and_reports_the_first_takeover() {
    let hosts = vec!["a".to_string(), "b".to_string(), "c".to_string()];
    let mut pass = renew_locks(&hosts, "one", now());
    pass.found(None);
    pass.written(true);
    pass.found(Some(&lease_with("two", now(), 90)));
    pass.found(Some(&lease_with("one", now(), 90)));
    match pass.call() {
        Some(LeaseCall::Replace { name, lease }) => {
            assert_eq!(name, lease_name("c"));
            assert_eq!(lease.metadata.resource_version.as_deref(), Some("42"));
            assert_eq!(lease.spec.unwrap().renew_time, Some(now().seconds));
        }
        other => panic!("expected the Lease to be replaced, got {other:?}"),
    }
    pass.written(false);
    let outcome = pass.outcome();
    assert_eq!(
        outcome.contended().map(|blocked| blocked.host.as_str()),
        Some("b"),
        "a takeover that was seen outweighs a write that was not confirmed"
    );
    assert_eq!(RenewalOutcome::Held.contended(), None);
}

#[test]
fn a_lease_name_is_the_digest_of_its_host() {
    let mut hasher = twox_hash::XxHash3_64::new();
    "worker-1".hash(&mut hasher);
    assert_eq!(lease_name("worker-1"), format!("ansible-lock-{:x}", hasher.finish()));
}
