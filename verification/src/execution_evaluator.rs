//! Which revision a plan applies, and which hosts are not on it yet.

use vstd::prelude::*;
use crate::ansible_inventory;
use crate::ansible_inventory::{distinct_hosts, renders_group_vars};
use crate::digests;
use crate::digests::{add_bytes, add_text, digest, digest_text, sum_digests};
use crate::numerals;
use crate::numerals::{hex, parse_numeral};
use crate::plans::{HostStatus, PlaybookPlanStatus};
use crate::resources::GenericMap;
use crate::seqs;
use crate::text;
use crate::text::text_eq;
use crate::textmap::TextMap;

verus! {

/// The data of a Secret: byte strings by key.
pub type SecretData = TextMap<Vec<u8>>;

/// The revision a run applies.
#[derive(Debug, Clone, Copy, PartialEq, Eq, Structural)]
pub struct ExecutionHash(pub u64);

/// The entries of a Secret as a digest reads them, in the order of their keys.
pub open spec fn secret_items(pairs: Seq<(Seq<char>, Vec<u8>)>) -> Seq<u8>
    decreases pairs.len(),
{
    if pairs.len() == 0 {
        Seq::empty()
    } else {
        secret_items(pairs.drop_last()) + digests::text_item(pairs.last().0) + digests::bytes_item(
            pairs.last().1@,
        )
    }
}

/// The digest of one Secret's data.
pub open spec fn secret_digest(secret: SecretData) -> u64 {
    digests::xxh3_64(secret_items(secret.pairs()))
}

/// Adds the digest of a Secret to a sum.
pub open spec fn add_secret() -> spec_fn(u64, SecretData) -> u64 {
    |sum: u64, secret: SecretData| digests::wrapping_sum(sum, secret_digest(secret))
}

/// The sum of the digests of some Secrets, on top of `start`.
pub open spec fn secrets_total(start: u64, secrets: Seq<SecretData>) -> u64 {
    secrets.fold_left(start, add_secret())
}

/// The canonical JSON text of the value that a JSON text writes down; empty where it writes down
/// none.
pub uninterp spec fn canonical_json(json: Seq<char>) -> Seq<char>;

/// `serde_json::from_str` into a `Value` and `serde_json::to_string` of it: the value written out
/// again, a function of the text alone.
#[verifier::external_body]
pub(crate) fn canonicalize(json: &str) -> (res: String)
    ensures
        res@ == canonical_json(json@),
{
    let value = serde_json::from_str::<serde_json::Value>(json).ok();
    value.and_then(|value| serde_json::to_string(&value).ok()).unwrap_or_default()
}

/// An inventory group's variables, under the group's name.
#[derive(Debug, Clone, PartialEq, Eq)]
pub struct GroupVariables {
    pub group: String,
    pub variables: GenericMap,
}

/// The digest of a group's variables under its name.
pub open spec fn variables_digest(group: Seq<char>, canonical: Seq<char>) -> u64 {
    digests::xxh3_64(digests::text_item(group) + digests::text_item(canonical))
}

/// Adds what a group's variables contribute to a sum: their digest where they reach the rendered
/// inventory, else nothing.
pub open spec fn add_variables() -> spec_fn(u64, GroupVariables) -> u64 {
    |sum: u64, entry: GroupVariables|
        if ansible_inventory::keys_render(
            ansible_inventory::json_object_keys(entry.variables.json@),
        ) {
            digests::wrapping_sum(
                sum,
                variables_digest(entry.group@, canonical_json(entry.variables.json@)),
            )
        } else {
            sum
        }
}

/// The digest of a group's variables under its name.
pub fn digest_variables(group: &str, canonical: &str) -> (res: u64)
    ensures
        res == variables_digest(group@, canonical@),
{
    let mut bytes: Vec<u8> = Vec::new();
    add_text(&mut bytes, group);
    add_text(&mut bytes, canonical);
    assert(bytes@ =~= digests::text_item(group@) + digests::text_item(canonical@));
    digest(&bytes)
}

impl ExecutionHash {
    /// The hash in its canonical form: lower-case hexadecimal without leading zeros.
    pub fn to_text(&self) -> (res: String)
        ensures
            res@ == numerals::numeral(self.0 as nat, 16),
    {
        hex(self.0)
    }

    /// Reads a persisted execution hash: hexadecimal digits, in whichever case and with whatever leading
    /// zeros it was written down.
    pub fn from_hex(value: &str) -> (res: Option<Self>)
        ensures
            match res {
                Some(hash) => numerals::numeral_value(value@, 16) == Some(hash.0 as nat),
                None => numerals::numeral_value(value@, 16) matches Some(n) ==> n > u64::MAX,
            },
    {
        match parse_numeral(value, 16) {
            Some(n) => Some(ExecutionHash(n)),
            None => None,
        }
    }

    /// This hash with one more digest folded in.
    pub fn fold_digest(self, digest: u64) -> (res: ExecutionHash)
        ensures
            res.0 == digests::wrapping_sum(self.0, digest),
    {
        ExecutionHash(sum_digests(self.0, digest))
    }

    /// Folds the variables of inventory groups into the hash. A group whose variables reach no
    /// rendered inventory contributes nothing.
    pub fn fold_inventory_variables(self, variables: &[GroupVariables]) -> (res: ExecutionHash)
        ensures
            res.0 == variables@.fold_left(self.0, add_variables()),
    {
        let mut hash = self;
        let mut i: usize = 0;
        assert(variables@.take(0) =~= Seq::<GroupVariables>::empty());
        while i < variables.len()
            invariant
                i <= variables@.len(),
                hash.0 == variables@.take(i as int).fold_left(self.0, add_variables()),
            decreases variables.len() - i,
        {
            let ghost longer = variables@.take(i + 1);
            assert(longer.drop_last() =~= variables@.take(i as int));
            assert(longer.last() == variables@[i as int]);
            let entry = &variables[i];
            if renders_group_vars(&entry.variables) {
                let canonical = canonicalize(entry.variables.json.as_str());
                hash = hash.fold_digest(digest_variables(entry.group.as_str(), canonical.as_str()));
            }
            i = i + 1;
        }
        assert(variables@.take(i as int) =~= variables@);
        hash
    }

    /// Folds the version a plan provides into the hash; a plan that provides none keeps its hash.
    pub fn fold_provides_version(self, version: Option<&str>) -> (res: ExecutionHash)
        ensures
            res.0 == match version {
                Some(version) => digests::wrapping_sum(self.0, digests::text_digest(version@)),
                None => self.0,
            },
    {
        match version {
            Some(version) => self.fold_digest(digest_text(version)),
            None => self,
        }
    }
}

fn digest_secret(secret: &SecretData) -> (res: u64)
    ensures
        res == secret_digest(*secret),
{
    let n = secret.len();
    let ghost pairs = secret.pairs();
    let mut bytes: Vec<u8> = Vec::new();
    let mut i: usize = 0;
    assert(pairs.take(0) =~= Seq::<(Seq<char>, Vec<u8>)>::empty());
    while i < n
        invariant
            n == pairs.len(),
            pairs == secret.pairs(),
            i <= n,
            bytes@ == secret_items(pairs.take(i as int)),
        decreases n - i,
    {
        let ghost longer = pairs.take(i + 1);
        assert(longer.drop_last() =~= pairs.take(i as int));
        assert(longer.last() == pairs[i as int]);
        let (key, value) = secret.entry(i);
        add_text(&mut bytes, key);
        add_bytes(&mut bytes, value);
        i = i + 1;
    }
    assert(pairs.take(i as int) =~= pairs);
    digest(&bytes)
}

fn sum_secrets(start: u64, secrets: &[SecretData]) -> (res: u64)
    ensures
        res == secrets_total(start, secrets@),
{
    let mut sum: u64 = start;
    let mut i: usize = 0;
    assert(secrets@.take(0) =~= Seq::<SecretData>::empty());
    while i < secrets.len()
        invariant
            i <= secrets@.len(),
            sum == secrets_total(start, secrets@.take(i as int)),
        decreases secrets.len() - i,
    {
        let ghost longer = secrets@.take(i + 1);
        assert(longer.drop_last() =~= secrets@.take(i as int));
        assert(longer.last() == secrets@[i as int]);
        sum = sum_digests(sum, digest_secret(&secrets[i]));
        i = i + 1;
    }
    assert(secrets@.take(i as int) =~= secrets@);
    sum
}

/// A hash over a playbook and some Secrets that changes only if they do. The order of the Secrets
/// does not matter.
pub fn calculate_execution_hash(playbook: &str, secrets: &[SecretData]) -> (res: ExecutionHash)
    ensures
        res.0 == secrets_total(digests::text_digest(playbook@), secrets@),
{
    ExecutionHash(sum_secrets(digest_text(playbook), secrets))
}

/// A content fingerprint over a set of Secrets, for an input a plan must be able to notice without
/// it becoming part of the execution hash. The order of the Secrets does not matter.
pub fn hash_secret_data(secrets: &[SecretData]) -> (res: String)
    ensures
        res@ == numerals::numeral(secrets_total(0, secrets@) as nat, 16),
{
    hex(sum_secrets(0, secrets))
}

/// Whether a host is recorded as being on a revision.
pub open spec fn is_current(
    hosts_status: Option<TextMap<HostStatus>>,
    host: Seq<char>,
    hash: ExecutionHash,
) -> bool {
    hosts_status matches Some(records) && records@.dom().contains(host)
        && records@[host].last_applied_hash@ == numerals::numeral(hash.0 as nat, 16)
}

/// The hosts that are not on a revision.
pub open spec fn needs_run(
    hosts_status: Option<TextMap<HostStatus>>,
    hash: ExecutionHash,
) -> spec_fn(Seq<char>) -> bool {
    |host: Seq<char>| !is_current(hosts_status, host, hash)
}

/// The hosts where a plan needs to be (re)applied, each once, in first-seen order.
pub fn find_outdated_hosts(status: &PlaybookPlanStatus, execution_hash: &ExecutionHash) -> (res: Vec<
    String,
>)
    ensures
        text::texts(res@) == ansible_inventory::distinct(
            ansible_inventory::all_hosts(status.eligible_hosts@),
        ).filter(needs_run(status.hosts_status, *execution_hash)),
{
    let hosts = distinct_hosts(&status.eligible_hosts);
    let hash = execution_hash.to_text();
    let ghost all = text::texts(hosts@);
    let ghost p = needs_run(status.hosts_status, *execution_hash);
    let mut out: Vec<String> = Vec::new();
    let mut i: usize = 0;
    proof {
        seqs::lemma_filter_none(all, p);
    }
    assert(text::texts(out@) =~= all.take(0).filter(p));
    while i < hosts.len()
        invariant
            all == text::texts(hosts@),
            p == needs_run(status.hosts_status, *execution_hash),
            hash@ == numerals::numeral(execution_hash.0 as nat, 16),
            i <= hosts@.len(),
            text::texts(out@) == all.take(i as int).filter(p),
        decreases hosts.len() - i,
    {
        proof {
            seqs::lemma_filter_take(all, i as int, p);
        }
        assert(all[i as int] == hosts@[i as int]@);
        let current = match &status.hosts_status {
            Some(records) => match records.get(hosts[i].as_str()) {
                Some(record) => text_eq(record.last_applied_hash.as_str(), hash.as_str()),
                None => false,
            },
            None => false,
        };
        if !current {
            let ghost before = text::texts(out@);
            out.push(hosts[i].clone());
            assert(text::texts(out@) =~= before.push(hosts@[i as int]@));
        }
        i = i + 1;
    }
    proof {
        seqs::lemma_take_all(all);
    }
    out
}

/// Every host a plan targets, each once, in first-seen order.
pub fn find_all_hosts(status: &PlaybookPlanStatus) -> (res: Vec<String>)
    ensures
        text::texts(res@) == ansible_inventory::distinct(
            ansible_inventory::all_hosts(status.eligible_hosts@),
        ),
{
    distinct_hosts(&status.eligible_hosts)
}

/// The order in which Secrets are read changes neither the execution hash nor the fingerprint over
/// them.
pub proof fn secret_order_does_not_matter(
    start: u64,
    secrets: Seq<SecretData>,
    reordered: Seq<SecretData>,
)
    requires
        secrets.to_multiset() == reordered.to_multiset(),
    ensures
        secrets_total(start, secrets) == secrets_total(start, reordered),
{
    let f = add_secret();
    assert forall|x: SecretData, y: SecretData, v: u64| #[trigger] f(f(v, x), y) == f(
        f(v, y),
        x,
    ) by {
        digests::wrapping_sum_commutes(v, secret_digest(x), secret_digest(y));
    }
    vstd::seq_lib::lemma_fold_left_permutation(secrets, reordered, f, start);
}

/// The order in which inventory groups are resolved does not change the hash they are folded into.
pub proof fn group_order_does_not_matter(
    start: u64,
    variables: Seq<GroupVariables>,
    reordered: Seq<GroupVariables>,
)
    requires
        variables.to_multiset() == reordered.to_multiset(),
    ensures
        variables.fold_left(start, add_variables()) == reordered.fold_left(start, add_variables()),
{
    let f = add_variables();
    assert forall|x: GroupVariables, y: GroupVariables, v: u64| #[trigger] f(f(v, x), y) == f(
        f(v, y),
        x,
    ) by {
        digests::wrapping_sum_commutes(
            v,
            variables_digest(x.group@, canonical_json(x.variables.json@)),
            variables_digest(y.group@, canonical_json(y.variables.json@)),
        );
    }
    vstd::seq_lib::lemma_fold_left_permutation(variables, reordered, f, start);
}

/// Groups whose variables reach no rendered inventory leave the hash as it is.
pub proof fn silent_groups_leave_the_hash(start: u64, variables: Seq<GroupVariables>)
    requires
        forall|i: int|
            0 <= i < variables.len() ==> !ansible_inventory::keys_render(
                ansible_inventory::json_object_keys((#[trigger] variables[i]).variables.json@),
            ),
    ensures
        variables.fold_left(start, add_variables()) == start,
    decreases variables.len(),
{
    if variables.len() > 0 {
        let head = variables.drop_last();
        assert forall|i: int| 0 <= i < head.len() implies !ansible_inventory::keys_render(
            ansible_inventory::json_object_keys((#[trigger] head[i]).variables.json@),
        ) by {
            assert(head[i] == variables[i]);
        }
        silent_groups_leave_the_hash(start, head);
        assert(variables.last() == variables[variables.len() - 1]);
    }
}

/// The canonical form of a hash reads back as that hash.
pub proof fn hash_round_trips(hash: ExecutionHash)
    ensures
        numerals::numeral_value(numerals::numeral(hash.0 as nat, 16), 16) == Some(hash.0 as nat),
{
    numerals::numeral_round_trip(hash.0 as nat, 16);
}

/// A host just recorded on a revision is no longer outdated for it.
pub proof fn recorded_host_is_current(
    records: TextMap<HostStatus>,
    host: Seq<char>,
    hash: ExecutionHash,
)
    requires
        records@.dom().contains(host),
        records@[host].last_applied_hash@ == numerals::numeral(hash.0 as nat, 16),
    ensures
        !needs_run(Some(records), hash)(host),
{
}

// --- what a revision is made of --------------------------------------------------------------

/// What is digested of a Secret is each of its entries, one after the other: the key, closed, and then
/// the value with its length. Nothing is left out, and nothing is added.
pub proof fn every_entry_of_a_secret_is_digested(
    pairs: Seq<(Seq<char>, Vec<u8>)>,
    key: Seq<char>,
    value: Vec<u8>,
)
    ensures
        secret_items(Seq::<(Seq<char>, Vec<u8>)>::empty()).len() == 0,
        secret_items(pairs.push((key, value))) == secret_items(pairs) + digests::text_item(key)
            + digests::bytes_item(value@),
        secret_items(seq![(key, value)] + pairs) == digests::text_item(key) + digests::bytes_item(
            value@,
        ) + secret_items(pairs),
    decreases pairs.len(),
{
    assert(pairs.push((key, value)).drop_last() =~= pairs);
    let item = digests::text_item(key) + digests::bytes_item(value@);
    let whole = seq![(key, value)] + pairs;
    if pairs.len() == 0 {
        assert(whole.drop_last() =~= pairs);
        assert(secret_items(whole) =~= item + secret_items(pairs));
    } else {
        every_entry_of_a_secret_is_digested(pairs.drop_last(), key, value);
        assert(whole.drop_last() =~= seq![(key, value)] + pairs.drop_last());
        assert(whole.last() == pairs.last());
        assert(secret_items(whole) =~= item + secret_items(pairs));
    }
}

/// What is digested of a Secret determines the Secret: two that differ in a key or in a value are
/// digested as different bytes.
pub proof fn different_secrets_are_digested_differently(
    a: Seq<(Seq<char>, Vec<u8>)>,
    b: Seq<(Seq<char>, Vec<u8>)>,
)
    requires
        secret_items(a) == secret_items(b),
    ensures
        a.len() == b.len(),
        forall|i: int|
            0 <= i < a.len() ==> (#[trigger] a[i]).0 == b[i].0 && a[i].1@ == b[i].1@,
    decreases a.len(),
{
    if a.len() == 0 && b.len() > 0 {
        let tail = b.drop_first();
        every_entry_of_a_secret_is_digested(tail, b[0].0, b[0].1);
        assert(seq![b[0]] + tail =~= b);
        assert(secret_items(b).len() > 0);
    } else if b.len() == 0 && a.len() > 0 {
        let tail = a.drop_first();
        every_entry_of_a_secret_is_digested(tail, a[0].0, a[0].1);
        assert(seq![a[0]] + tail =~= a);
        assert(secret_items(a).len() > 0);
    } else if a.len() > 0 {
        let s = a.drop_first();
        let t = b.drop_first();
        every_entry_of_a_secret_is_digested(s, a[0].0, a[0].1);
        every_entry_of_a_secret_is_digested(t, b[0].0, b[0].1);
        assert(seq![a[0]] + s =~= a);
        assert(seq![b[0]] + t =~= b);
        let x = digests::bytes_item(a[0].1@) + secret_items(s);
        let y = digests::bytes_item(b[0].1@) + secret_items(t);
        assert(secret_items(a) =~= digests::text_item(a[0].0) + x);
        assert(secret_items(b) =~= digests::text_item(b[0].0) + y);
        digests::a_text_ends_where_it_ends(a[0].0, b[0].0, x, y);
        assert(a[0].1.len() <= usize::MAX);
        assert(b[0].1.len() <= usize::MAX);
        digests::bytes_end_where_they_end(
            a[0].1@,
            b[0].1@,
            secret_items(s),
            secret_items(t),
        );
        different_secrets_are_digested_differently(s, t);
        assert forall|i: int| 0 <= i < a.len() implies (#[trigger] a[i]).0 == b[i].0 && a[i].1@
            == b[i].1@ by {
            if i > 0 {
                assert(s[i - 1] == a[i]);
                assert(t[i - 1] == b[i]);
            }
        }
    }
}

/// Every Secret moves the revision: each adds its own digest to what the playbook and the others gave,
/// so a Secret whose digest changes changes the revision, and no Secrets change nothing.
pub proof fn every_secret_moves_the_revision(
    start: u64,
    secrets: Seq<SecretData>,
    a: SecretData,
    b: SecretData,
)
    ensures
        secrets_total(start, Seq::<SecretData>::empty()) == start,
        secrets_total(start, secrets.push(a)) == digests::wrapping_sum(
            secrets_total(start, secrets),
            digests::xxh3_64(secret_items(a.pairs())),
        ),
        secrets_total(start, secrets.push(a)) == secrets_total(start, secrets.push(b)) <==>
            digests::xxh3_64(secret_items(a.pairs())) == digests::xxh3_64(secret_items(b.pairs())),
{
    assert(secrets.push(a).drop_last() =~= secrets);
    assert(secrets.push(b).drop_last() =~= secrets);
    let total = secrets_total(start, secrets);
    digests::sums_tell_their_summands_apart(total, secret_digest(a), secret_digest(b));
}

/// The playbook moves the revision: with the same Secrets, two playbooks have one revision exactly
/// where they have one digest.
pub proof fn the_playbook_moves_the_revision(a: u64, b: u64, secrets: Seq<SecretData>)
    ensures
        secrets_total(a, secrets) == secrets_total(b, secrets) <==> a == b,
    decreases secrets.len(),
{
    if secrets.len() > 0 {
        let rest = secrets.drop_last();
        the_playbook_moves_the_revision(a, b, rest);
        let d = secret_digest(secrets.last());
        digests::sums_tell_their_summands_apart(
            d,
            secrets_total(a, rest),
            secrets_total(b, rest),
        );
        digests::sums_tell_their_summands_apart(secrets_total(a, rest), d, d);
        digests::sums_tell_their_summands_apart(secrets_total(b, rest), d, d);
    }
}

/// The variables of every group that renders some move the revision, by the name of the group and by
/// what they say.
pub proof fn every_groups_variables_move_the_revision(
    start: u64,
    variables: Seq<GroupVariables>,
    entry: GroupVariables,
)
    requires
        ansible_inventory::json_object_keys(entry.variables.json@) matches Some(keys) && keys.len()
            > 0,
    ensures
        variables.push(entry).fold_left(start, add_variables()) == digests::wrapping_sum(
            variables.fold_left(start, add_variables()),
            digests::xxh3_64(
                digests::text_item(entry.group@) + digests::text_item(
                    canonical_json(entry.variables.json@),
                ),
            ),
        ),
        Seq::<GroupVariables>::empty().fold_left(start, add_variables()) == start,
{
    assert(variables.push(entry).drop_last() =~= variables);
}

/// What is digested of a group's variables determines the group and what they say.
pub proof fn different_variables_are_digested_differently(
    group: Seq<char>,
    canonical: Seq<char>,
    other_group: Seq<char>,
    other_canonical: Seq<char>,
)
    requires
        digests::text_item(group) + digests::text_item(canonical) == digests::text_item(other_group)
            + digests::text_item(other_canonical),
    ensures
        group == other_group,
        canonical == other_canonical,
        variables_digest(group, canonical) == digests::xxh3_64(
            digests::text_item(group) + digests::text_item(canonical),
        ),
{
    digests::a_text_ends_where_it_ends(
        group,
        other_group,
        digests::text_item(canonical),
        digests::text_item(other_canonical),
    );
    let none = Seq::<u8>::empty();
    assert(digests::text_item(canonical) + none =~= digests::text_item(canonical));
    assert(digests::text_item(other_canonical) + none =~= digests::text_item(other_canonical));
    digests::a_text_ends_where_it_ends(canonical, other_canonical, none, none);
}

/// A host is outdated exactly where it is targeted and no record says it is on the revision; it is listed
/// once, and where the plan first lists it.
pub proof fn a_host_is_outdated_until_it_is_recorded(
    status: PlaybookPlanStatus,
    hash: ExecutionHash,
    host: Seq<char>,
)
    ensures
        ansible_inventory::distinct(
            ansible_inventory::all_hosts(status.eligible_hosts@),
        ).filter(needs_run(status.hosts_status, hash)).contains(host) <==>
            ansible_inventory::all_hosts(status.eligible_hosts@).contains(host) && !(
        status.hosts_status is Some && status.hosts_status->0@.contains_key(host)
            && status.hosts_status->0@[host].last_applied_hash@ == numerals::numeral(
            hash.0 as nat,
            16,
        )),
{
    let all = ansible_inventory::all_hosts(status.eligible_hosts@);
    ansible_inventory::distinct_keeps_each_once(all);
    seqs::lemma_filter_contains(
        ansible_inventory::distinct(all),
        needs_run(status.hosts_status, hash),
        host,
    );
}

/// Two revisions are written alike only where they are one.
pub proof fn revisions_are_told_apart(a: ExecutionHash, b: ExecutionHash)
    ensures
        numerals::numeral(a.0 as nat, 16) == numerals::numeral(b.0 as nat, 16) <==> a.0 == b.0,
{
    numerals::numeral_round_trip(a.0 as nat, 16);
    numerals::numeral_round_trip(b.0 as nat, 16);
}

} // verus!
