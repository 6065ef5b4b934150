//! What a run was prepared from, reduced to one value. As long as it stays the same, a run that has
//! not launched is still the run its plan wants.

use vstd::prelude::*;
use crate::ansible_inventory;
use crate::ansible_inventory::{renders_group_vars, ResolvedInventoryGroup};
use crate::digests;
use crate::digests::{add_number, add_text, digest};
use crate::execution_evaluator;
use crate::execution_evaluator::canonicalize;
use crate::numerals;
use crate::numerals::hex;
use crate::resources::{GenericMap, Toleration};
use crate::text;

verus! {

/// Some texts as the fingerprint reads them, one behind the other.
pub open spec fn text_items(list: Seq<Seq<char>>) -> Seq<u8>
    decreases list.len(),
{
    if list.len() == 0 {
        Seq::empty()
    } else {
        text_items(list.drop_last()) + digests::text_item(list.last())
    }
}

/// A text that may be missing.
pub open spec fn optional_item(s: Option<Seq<char>>) -> Seq<u8> {
    match s {
        Some(s) => digests::number_item(1) + digests::text_item(s),
        None => digests::number_item(0),
    }
}

/// A toleration as the fingerprint reads it.
pub open spec fn toleration_item(t: Toleration) -> Seq<u8> {
    optional_item(text::text_of(t.key)) + optional_item(text::text_of(t.operator)) + optional_item(
        text::text_of(t.value),
    ) + optional_item(text::text_of(t.effect)) + match t.toleration_seconds {
        Some(seconds) => digests::number_item(1) + digests::number_item(seconds as u64 as nat),
        None => digests::number_item(0),
    }
}

/// Some tolerations as the fingerprint reads them.
pub open spec fn toleration_items(list: Seq<Toleration>) -> Seq<u8>
    decreases list.len(),
{
    if list.len() == 0 {
        Seq::empty()
    } else {
        toleration_items(list.drop_last()) + toleration_item(list.last())
    }
}

/// Whether a group's variables reach the rendered inventory.
pub open spec fn seen(variables: Option<GenericMap>) -> bool {
    variables matches Some(variables) && ansible_inventory::keys_render(
        ansible_inventory::json_object_keys(variables.json@),
    )
}

/// A group's variables as the fingerprint reads them: those that reach no rendered inventory are none.
pub open spec fn variables_item(variables: Option<GenericMap>) -> Seq<u8> {
    if seen(variables) {
        digests::number_item(1) + digests::text_item(
            execution_evaluator::canonical_json(variables->0.json@),
        )
    } else {
        digests::number_item(0)
    }
}

/// How a group is reached, as the fingerprint reads it.
pub open spec fn access_item(group: ResolvedInventoryGroup) -> Seq<u8> {
    match group {
        ResolvedInventoryGroup::ManagedSsh { tolerations, .. } => digests::number_item(0)
            + match tolerations {
            Some(list) => digests::number_item(1) + digests::number_item(list@.len())
                + toleration_items(list@),
            None => digests::number_item(0),
        },
        ResolvedInventoryGroup::Ssh { static_inventory_name, config, .. } => digests::number_item(1)
            + digests::text_item(static_inventory_name@) + digests::text_item(config.user@)
            + digests::text_item(config.secret_ref.name@),
    }
}

/// A group as the fingerprint reads it: its name, its hosts, how they are reached, and the variables
/// they see.
pub open spec fn group_item(group: ResolvedInventoryGroup) -> Seq<u8> {
    digests::text_item(group.hosts_of().name@) + digests::number_item(group.names().len())
        + text_items(group.names()) + access_item(group) + variables_item(group.variables_of())
}

/// Some groups as the fingerprint reads them.
pub open spec fn group_items(groups: Seq<ResolvedInventoryGroup>) -> Seq<u8>
    decreases groups.len(),
{
    if groups.len() == 0 {
        Seq::empty()
    } else {
        group_items(groups.drop_last()) + group_item(groups.last())
    }
}

/// What a run is prepared from: what its plan asks for, written out, and the groups it targets.
pub open spec fn preparation(spec: Seq<char>, groups: Seq<ResolvedInventoryGroup>) -> Seq<u8> {
    digests::text_item(spec) + digests::number_item(groups.len()) + group_items(groups)
}

fn add_texts(out: &mut Vec<u8>, list: &[String])
    ensures
        final(out)@ == old(out)@ + digests::number_item(list@.len()) + text_items(text::texts(list@)),
{
    let ghost names = text::texts(list@);
    add_number(out, list.len() as u64);
    let ghost start = out@;
    let mut i: usize = 0;
    assert(start + text_items(names.take(0)) =~= start);
    while i < list.len()
        invariant
            i <= list@.len(),
            names == text::texts(list@),
            out@ == start + text_items(names.take(i as int)),
        decreases list.len() - i,
    {
        add_text(out, list[i].as_str());
        proof {
            let longer = names.take(i + 1);
            assert(longer.drop_last() =~= names.take(i as int));
            assert(out@ =~= start + text_items(longer));
        }
        i = i + 1;
    }
    assert(names.take(i as int) =~= names);
}

fn add_optional(out: &mut Vec<u8>, s: &Option<String>)
    ensures
        final(out)@ == old(out)@ + optional_item(text::text_of(*s)),
{
    match s {
        Some(s) => {
            add_number(out, 1);
            add_text(out, s.as_str());
            assert(out@ =~= old(out)@ + optional_item(Some(s@)));
        },
        None => {
            add_number(out, 0);
        },
    }
}

fn add_toleration(out: &mut Vec<u8>, t: &Toleration)
    ensures
        final(out)@ == old(out)@ + toleration_item(*t),
{
    add_optional(out, &t.key);
    add_optional(out, &t.operator);
    add_optional(out, &t.value);
    add_optional(out, &t.effect);
    match t.toleration_seconds {
        Some(seconds) => {
            add_number(out, 1);
            add_number(out, seconds as u64);
        },
        None => {
            add_number(out, 0);
        },
    }
    assert(out@ =~= old(out)@ + toleration_item(*t));
}

fn add_tolerations(out: &mut Vec<u8>, list: &[Toleration])
    ensures
        final(out)@ == old(out)@ + digests::number_item(list@.len()) + toleration_items(list@),
{
    add_number(out, list.len() as u64);
    let ghost start = out@;
    let mut i: usize = 0;
    assert(start + toleration_items(list@.take(0)) =~= start);
    while i < list.len()
        invariant
            i <= list@.len(),
            out@ == start + toleration_items(list@.take(i as int)),
        decreases list.len() - i,
    {
        add_toleration(out, &list[i]);
        proof {
            let longer = list@.take(i + 1);
            assert(longer.drop_last() =~= list@.take(i as int));
            assert(out@ =~= start + toleration_items(longer));
        }
        i = i + 1;
    }
    assert(list@.take(i as int) =~= list@);
}

fn add_group(out: &mut Vec<u8>, group: &ResolvedInventoryGroup)
    ensures
        final(out)@ == old(out)@ + group_item(*group),
{
    let hosts = group.hosts();
    add_text(out, hosts.name.as_str());
    add_texts(out, &hosts.hosts);
    let ghost named = out@;
    match group {
        ResolvedInventoryGroup::ManagedSsh { tolerations, .. } => {
            add_number(out, 0);
            match tolerations {
                Some(list) => {
                    add_number(out, 1);
                    add_tolerations(out, list);
                },
                None => {
                    add_number(out, 0);
                },
            }
        },
        ResolvedInventoryGroup::Ssh { static_inventory_name, config, .. } => {
            add_number(out, 1);
            add_text(out, static_inventory_name.as_str());
            add_text(out, config.user.as_str());
            add_text(out, config.secret_ref.name.as_str());
        },
    }
    assert(out@ =~= named + access_item(*group));
    let ghost reached = out@;
    match group.variables() {
        Some(variables) => if renders_group_vars(variables) {
            let canonical = canonicalize(variables.json.as_str());
            add_number(out, 1);
            add_text(out, canonical.as_str());
        } else {
            add_number(out, 0);
        },
        None => {
            add_number(out, 0);
        },
    }
    assert(out@ =~= reached + variables_item(group.variables_of()));
    assert(out@ =~= old(out)@ + group_item(*group));
}

/// The fingerprint of what a run is prepared from: what its plan asks for, written out, and the groups
/// it targets.
pub fn preparation_fingerprint(spec: &str, groups: &[ResolvedInventoryGroup]) -> (res: String)
    ensures
        res@ == numerals::numeral(digests::xxh3_64(preparation(spec@, groups@)) as nat, 16),
{
    let mut out: Vec<u8> = Vec::new();
    add_text(&mut out, spec);
    add_number(&mut out, groups.len() as u64);
    let ghost start = out@;
    let mut i: usize = 0;
    assert(start =~= digests::text_item(spec@) + digests::number_item(groups@.len()));
    assert(start + group_items(groups@.take(0)) =~= start);
    while i < groups.len()
        invariant
            i <= groups@.len(),
            out@ == start + group_items(groups@.take(i as int)),
        decreases groups.len() - i,
    {
        add_group(&mut out, &groups[i]);
        proof {
            let longer = groups@.take(i + 1);
            assert(longer.drop_last() =~= groups@.take(i as int));
            assert(out@ =~= start + group_items(longer));
        }
        i = i + 1;
    }
    assert(groups@.take(i as int) =~= groups@);
    assert(out@ =~= preparation(spec@, groups@));
    hex(digest(&out))
}

// --- laws ------------------------------------------------------------------------------------

/// Whether two groups differ at most in variables that no host sees.
pub open spec fn same_to_its_hosts(a: ResolvedInventoryGroup, b: ResolvedInventoryGroup) -> bool {
    &&& a.hosts_of().name@ == b.hosts_of().name@
    &&& a.names() == b.names()
    &&& access_item(a) == access_item(b)
    &&& a.variables_of() == b.variables_of() || (!seen(a.variables_of()) && !seen(b.variables_of()))
}

/// An edit that no host can see leaves a prepared run as it is: variables that reach no rendered
/// inventory do not move the fingerprint.
pub proof fn an_unseen_edit_keeps_the_fingerprint(
    spec: Seq<char>,
    a: Seq<ResolvedInventoryGroup>,
    b: Seq<ResolvedInventoryGroup>,
)
    requires
        a.len() == b.len(),
        forall|i: int| 0 <= i < a.len() ==> same_to_its_hosts(#[trigger] a[i], b[i]),
    ensures
        preparation(spec, a) == preparation(spec, b),
{
    lemma_same_items(a, b);
}

proof fn lemma_same_items(a: Seq<ResolvedInventoryGroup>, b: Seq<ResolvedInventoryGroup>)
    requires
        a.len() == b.len(),
        forall|i: int| 0 <= i < a.len() ==> same_to_its_hosts(#[trigger] a[i], b[i]),
    ensures
        group_items(a) == group_items(b),
    decreases a.len(),
{
    if a.len() > 0 {
        assert(same_to_its_hosts(a[a.len() - 1], b[b.len() - 1]));
        lemma_same_items(a.drop_last(), b.drop_last());
    }
}

// --- what a fingerprint covers ---------------------------------------------------------------

proof fn lemma_text_items_front(list: Seq<Seq<char>>)
    requires
        list.len() > 0,
    ensures
        text_items(list) == digests::text_item(list[0]) + text_items(list.drop_first()),
    decreases list.len(),
{
    if list.len() == 1 {
        assert(list.drop_last() =~= Seq::<Seq<char>>::empty());
        assert(list.drop_first() =~= Seq::<Seq<char>>::empty());
        assert(text_items(list) =~= digests::text_item(list[0]) + text_items(list.drop_first()));
    } else {
        lemma_text_items_front(list.drop_last());
        assert(list.drop_last().drop_first() =~= list.drop_first().drop_last());
        assert(text_items(list) =~= digests::text_item(list[0]) + text_items(list.drop_first()));
    }
}

proof fn lemma_text_items_end(a: Seq<Seq<char>>, b: Seq<Seq<char>>, x: Seq<u8>, y: Seq<u8>)
    requires
        a.len() == b.len(),
        text_items(a) + x == text_items(b) + y,
    ensures
        a == b,
        x == y,
    decreases a.len(),
{
    if a.len() == 0 {
        assert(a =~= b);
        assert(text_items(a) + x =~= x);
        assert(text_items(b) + y =~= y);
    } else {
        lemma_text_items_front(a);
        lemma_text_items_front(b);
        let s = text_items(a.drop_first()) + x;
        let t = text_items(b.drop_first()) + y;
        assert(text_items(a) + x =~= digests::text_item(a[0]) + s);
        assert(text_items(b) + y =~= digests::text_item(b[0]) + t);
        digests::a_text_ends_where_it_ends(a[0], b[0], s, t);
        lemma_text_items_end(a.drop_first(), b.drop_first(), x, y);
        assert(a =~= seq![a[0]] + a.drop_first());
        assert(b =~= seq![b[0]] + b.drop_first());
    }
}

proof fn lemma_optional_end(a: Option<Seq<char>>, b: Option<Seq<char>>, x: Seq<u8>, y: Seq<u8>)
    requires
        optional_item(a) + x == optional_item(b) + y,
    ensures
        a == b,
        x == y,
{
    let s = match a {
        Some(t) => digests::text_item(t) + x,
        None => x,
    };
    let t = match b {
        Some(t) => digests::text_item(t) + y,
        None => y,
    };
    let m: nat = if a is Some {
        1
    } else {
        0
    };
    let n: nat = if b is Some {
        1
    } else {
        0
    };
    assert(optional_item(a) + x =~= digests::number_item(m) + s);
    assert(optional_item(b) + y =~= digests::number_item(n) + t);
    digests::numbers_end_where_they_end(m, n, s, t);
    if a is Some {
        digests::a_text_ends_where_it_ends(a->0, b->0, x, y);
    }
}

spec fn seconds_item(seconds: Option<i64>) -> Seq<u8> {
    match seconds {
        Some(seconds) => digests::number_item(1) + digests::number_item(seconds as u64 as nat),
        None => digests::number_item(0),
    }
}

proof fn lemma_seconds_end(a: Option<i64>, b: Option<i64>, x: Seq<u8>, y: Seq<u8>)
    requires
        seconds_item(a) + x == seconds_item(b) + y,
    ensures
        a == b,
        x == y,
{
    let s = match a {
        Some(n) => digests::number_item(n as u64 as nat) + x,
        None => x,
    };
    let t = match b {
        Some(n) => digests::number_item(n as u64 as nat) + y,
        None => y,
    };
    let m: nat = if a is Some {
        1
    } else {
        0
    };
    let n: nat = if b is Some {
        1
    } else {
        0
    };
    assert(seconds_item(a) + x =~= digests::number_item(m) + s);
    assert(seconds_item(b) + y =~= digests::number_item(n) + t);
    digests::numbers_end_where_they_end(m, n, s, t);
    if a is Some {
        let p = a->0;
        let q = b->0;
        digests::numbers_end_where_they_end(p as u64 as nat, q as u64 as nat, x, y);
        assert(p as u64 == q as u64 ==> p == q) by (bit_vector);
    }
}

/// What a toleration says, as texts.
pub open spec fn toleration_texts(t: Toleration) -> (
    Option<Seq<char>>,
    Option<Seq<char>>,
    Option<Seq<char>>,
    Option<Seq<char>>,
    Option<i64>,
) {
    (
        text::text_of(t.key),
        text::text_of(t.operator),
        text::text_of(t.value),
        text::text_of(t.effect),
        t.toleration_seconds,
    )
}

proof fn lemma_chain(
    p: Seq<u8>,
    q: Seq<u8>,
    r: Seq<u8>,
    s: Seq<u8>,
    t: Seq<u8>,
    x: Seq<u8>,
)
    ensures
        p + q + r + s + t + x == p + (q + (r + (s + (t + x)))),
        p + q + r + s + x == p + (q + (r + (s + x))),
        p + q + r + x == p + (q + (r + x)),
        p + q + x == p + (q + x),
{
    assert(p + q + r + s + t + x =~= p + (q + (r + (s + (t + x)))));
    assert(p + q + r + s + x =~= p + (q + (r + (s + x))));
    assert(p + q + r + x =~= p + (q + (r + x)));
    assert(p + q + x =~= p + (q + x));
}

proof fn lemma_toleration_end(a: Toleration, b: Toleration, x: Seq<u8>, y: Seq<u8>)
    requires
        toleration_item(a) + x == toleration_item(b) + y,
    ensures
        toleration_texts(a) == toleration_texts(b),
        x == y,
{
    let a5 = seconds_item(a.toleration_seconds) + x;
    let b5 = seconds_item(b.toleration_seconds) + y;
    let a4 = optional_item(text::text_of(a.effect)) + a5;
    let b4 = optional_item(text::text_of(b.effect)) + b5;
    let a3 = optional_item(text::text_of(a.value)) + a4;
    let b3 = optional_item(text::text_of(b.value)) + b4;
    let a2 = optional_item(text::text_of(a.operator)) + a3;
    let b2 = optional_item(text::text_of(b.operator)) + b3;
    lemma_chain(
        optional_item(text::text_of(a.key)),
        optional_item(text::text_of(a.operator)),
        optional_item(text::text_of(a.value)),
        optional_item(text::text_of(a.effect)),
        seconds_item(a.toleration_seconds),
        x,
    );
    lemma_chain(
        optional_item(text::text_of(b.key)),
        optional_item(text::text_of(b.operator)),
        optional_item(text::text_of(b.value)),
        optional_item(text::text_of(b.effect)),
        seconds_item(b.toleration_seconds),
        y,
    );
    lemma_optional_end(text::text_of(a.key), text::text_of(b.key), a2, b2);
    lemma_optional_end(text::text_of(a.operator), text::text_of(b.operator), a3, b3);
    lemma_optional_end(text::text_of(a.value), text::text_of(b.value), a4, b4);
    lemma_optional_end(text::text_of(a.effect), text::text_of(b.effect), a5, b5);
    lemma_seconds_end(a.toleration_seconds, b.toleration_seconds, x, y);
}

proof fn lemma_toleration_items_front(list: Seq<Toleration>)
    requires
        list.len() > 0,
    ensures
        toleration_items(list) == toleration_item(list[0]) + toleration_items(list.drop_first()),
    decreases list.len(),
{
    if list.len() == 1 {
        assert(list.drop_last() =~= Seq::<Toleration>::empty());
        assert(list.drop_first() =~= Seq::<Toleration>::empty());
        assert(toleration_items(list) =~= toleration_item(list[0]) + toleration_items(
            list.drop_first(),
        ));
    } else {
        lemma_toleration_items_front(list.drop_last());
        assert(list.drop_last().drop_first() =~= list.drop_first().drop_last());
        assert(toleration_items(list) =~= toleration_item(list[0]) + toleration_items(
            list.drop_first(),
        ));
    }
}

proof fn lemma_toleration_items_end(a: Seq<Toleration>, b: Seq<Toleration>, x: Seq<u8>, y: Seq<u8>)
    requires
        a.len() == b.len(),
        toleration_items(a) + x == toleration_items(b) + y,
    ensures
        forall|i: int|
            0 <= i < a.len() ==> toleration_texts(#[trigger] a[i]) == toleration_texts(b[i]),
        x == y,
    decreases a.len(),
{
    if a.len() == 0 {
        assert(toleration_items(a) + x =~= x);
        assert(toleration_items(b) + y =~= y);
    } else {
        lemma_toleration_items_front(a);
        lemma_toleration_items_front(b);
        let p = a.drop_first();
        let q = b.drop_first();
        let s = toleration_items(p) + x;
        let t = toleration_items(q) + y;
        assert(toleration_items(a) + x =~= toleration_item(a[0]) + s);
        assert(toleration_items(b) + y =~= toleration_item(b[0]) + t);
        lemma_toleration_end(a[0], b[0], s, t);
        lemma_toleration_items_end(p, q, x, y);
        assert forall|i: int| 0 <= i < a.len() implies toleration_texts(#[trigger] a[i])
            == toleration_texts(b[i]) by {
            if i > 0 {
                assert(p[i - 1] == a[i]);
                assert(q[i - 1] == b[i]);
            }
        }
    }
}

/// Whether the hosts of two groups are reached alike: as Nodes under the same tolerations, or from outside with
/// the same inventory's user and key.
pub open spec fn reached_alike(a: ResolvedInventoryGroup, b: ResolvedInventoryGroup) -> bool {
    match (a, b) {
        (
            ResolvedInventoryGroup::ManagedSsh { tolerations: p, .. },
            ResolvedInventoryGroup::ManagedSsh { tolerations: q, .. },
        ) => match (p, q) {
            (None, None) => true,
            (Some(p), Some(q)) => p@.len() == q@.len() && forall|i: int|
                0 <= i < p@.len() ==> toleration_texts(#[trigger] p@[i]) == toleration_texts(q@[i]),
            _ => false,
        },
        (
            ResolvedInventoryGroup::Ssh { static_inventory_name: p, config: c, .. },
            ResolvedInventoryGroup::Ssh { static_inventory_name: q, config: d, .. },
        ) => p@ == q@ && c.user@ == d.user@ && c.secret_ref.name@ == d.secret_ref.name@,
        _ => false,
    }
}

spec fn tolerations_item(tolerations: Option<Vec<Toleration>>) -> Seq<u8> {
    match tolerations {
        Some(list) => digests::number_item(1) + digests::number_item(list@.len()) + toleration_items(
            list@,
        ),
        None => digests::number_item(0),
    }
}

proof fn lemma_tolerations_end(
    p: Option<Vec<Toleration>>,
    q: Option<Vec<Toleration>>,
    x: Seq<u8>,
    y: Seq<u8>,
)
    requires
        tolerations_item(p) + x == tolerations_item(q) + y,
    ensures
        p is Some <==> q is Some,
        p is Some ==> p->0@.len() == q->0@.len() && forall|i: int|
            0 <= i < p->0@.len() ==> toleration_texts(#[trigger] p->0@[i]) == toleration_texts(
                q->0@[i],
            ),
        x == y,
{
    let none = Seq::<u8>::empty();
    match (p, q) {
        (Some(u), Some(v)) => {
            let s = toleration_items(u@) + x;
            let t = toleration_items(v@) + y;
            let s1 = digests::number_item(u@.len()) + s;
            let t1 = digests::number_item(v@.len()) + t;
            lemma_chain(
                digests::number_item(1),
                digests::number_item(u@.len()),
                toleration_items(u@),
                none,
                none,
                x,
            );
            lemma_chain(
                digests::number_item(1),
                digests::number_item(v@.len()),
                toleration_items(v@),
                none,
                none,
                y,
            );
            digests::numbers_end_where_they_end(1, 1, s1, t1);
            assert(u@.len() == u.len());
            assert(v@.len() == v.len());
            digests::numbers_end_where_they_end(u@.len(), v@.len(), s, t);
            lemma_toleration_items_end(u@, v@, x, y);
        },
        (Some(u), None) => {
            lemma_chain(
                digests::number_item(1),
                digests::number_item(u@.len()),
                toleration_items(u@),
                none,
                none,
                x,
            );
            digests::numbers_end_where_they_end(
                1,
                0,
                digests::number_item(u@.len()) + (toleration_items(u@) + x),
                y,
            );
        },
        (None, Some(v)) => {
            lemma_chain(
                digests::number_item(1),
                digests::number_item(v@.len()),
                toleration_items(v@),
                none,
                none,
                y,
            );
            digests::numbers_end_where_they_end(
                0,
                1,
                x,
                digests::number_item(v@.len()) + (toleration_items(v@) + y),
            );
        },
        (None, None) => {
            digests::numbers_end_where_they_end(0, 0, x, y);
        },
    }
}

spec fn ssh_rest(inventory: Seq<char>, user: Seq<char>, secret: Seq<char>, x: Seq<u8>) -> Seq<u8> {
    digests::text_item(inventory) + (digests::text_item(user) + (digests::text_item(secret) + x))
}

proof fn lemma_ssh_item(inventory: Seq<char>, user: Seq<char>, secret: Seq<char>, x: Seq<u8>)
    ensures
        digests::number_item(1) + digests::text_item(inventory) + digests::text_item(user)
            + digests::text_item(secret) + x == digests::number_item(1) + ssh_rest(
            inventory,
            user,
            secret,
            x,
        ),
{
    lemma_chain(
        digests::number_item(1),
        digests::text_item(inventory),
        digests::text_item(user),
        digests::text_item(secret),
        Seq::empty(),
        x,
    );
}

proof fn lemma_access_end(
    a: ResolvedInventoryGroup,
    b: ResolvedInventoryGroup,
    x: Seq<u8>,
    y: Seq<u8>,
)
    requires
        access_item(a) + x == access_item(b) + y,
    ensures
        reached_alike(a, b),
        x == y,
{
    match a {
        ResolvedInventoryGroup::ManagedSsh { tolerations: p, .. } => {
            let s = tolerations_item(p) + x;
            lemma_chain(
                digests::number_item(0),
                tolerations_item(p),
                Seq::empty(),
                Seq::empty(),
                Seq::empty(),
                x,
            );
            match b {
                ResolvedInventoryGroup::ManagedSsh { tolerations: q, .. } => {
                    let t = tolerations_item(q) + y;
                    lemma_chain(
                        digests::number_item(0),
                        tolerations_item(q),
                        Seq::empty(),
                        Seq::empty(),
                        Seq::empty(),
                        y,
                    );
                    digests::numbers_end_where_they_end(0, 0, s, t);
                    lemma_tolerations_end(p, q, x, y);
                },
                ResolvedInventoryGroup::Ssh { static_inventory_name: q, config: d, .. } => {
                    lemma_ssh_item(q@, d.user@, d.secret_ref.name@, y);
                    digests::numbers_end_where_they_end(
                        0,
                        1,
                        s,
                        ssh_rest(q@, d.user@, d.secret_ref.name@, y),
                    );
                },
            }
        },
        ResolvedInventoryGroup::Ssh { static_inventory_name: p, config: c, .. } => {
            let s = ssh_rest(p@, c.user@, c.secret_ref.name@, x);
            lemma_ssh_item(p@, c.user@, c.secret_ref.name@, x);
            match b {
                ResolvedInventoryGroup::ManagedSsh { tolerations: q, .. } => {
                    lemma_chain(
                        digests::number_item(0),
                        tolerations_item(q),
                        Seq::empty(),
                        Seq::empty(),
                        Seq::empty(),
                        y,
                    );
                    digests::numbers_end_where_they_end(1, 0, s, tolerations_item(q) + y);
                },
                ResolvedInventoryGroup::Ssh { static_inventory_name: q, config: d, .. } => {
                    let t = ssh_rest(q@, d.user@, d.secret_ref.name@, y);
                    lemma_ssh_item(q@, d.user@, d.secret_ref.name@, y);
                    digests::numbers_end_where_they_end(1, 1, s, t);
                    let s3 = digests::text_item(c.secret_ref.name@) + x;
                    let t3 = digests::text_item(d.secret_ref.name@) + y;
                    let s2 = digests::text_item(c.user@) + s3;
                    let t2 = digests::text_item(d.user@) + t3;
                    digests::a_text_ends_where_it_ends(p@, q@, s2, t2);
                    digests::a_text_ends_where_it_ends(c.user@, d.user@, s3, t3);
                    digests::a_text_ends_where_it_ends(
                        c.secret_ref.name@,
                        d.secret_ref.name@,
                        x,
                        y,
                    );
                },
            }
        },
    }
}

/// Whether two groups show their hosts the same variables.
pub open spec fn varied_alike(a: ResolvedInventoryGroup, b: ResolvedInventoryGroup) -> bool {
    &&& seen(a.variables_of()) == seen(b.variables_of())
    &&& seen(a.variables_of()) ==> execution_evaluator::canonical_json(a.variables_of()->0.json@)
        == execution_evaluator::canonical_json(b.variables_of()->0.json@)
}

proof fn lemma_variables_end(
    a: ResolvedInventoryGroup,
    b: ResolvedInventoryGroup,
    x: Seq<u8>,
    y: Seq<u8>,
)
    requires
        variables_item(a.variables_of()) + x == variables_item(b.variables_of()) + y,
    ensures
        varied_alike(a, b),
        x == y,
{
    let p = a.variables_of();
    let q = b.variables_of();
    let one: Option<Seq<char>> = if seen(p) {
        Some(execution_evaluator::canonical_json(p->0.json@))
    } else {
        None
    };
    let other: Option<Seq<char>> = if seen(q) {
        Some(execution_evaluator::canonical_json(q->0.json@))
    } else {
        None
    };
    assert(variables_item(p) == optional_item(one));
    assert(variables_item(q) == optional_item(other));
    lemma_optional_end(one, other, x, y);
}

proof fn lemma_group_end(
    a: ResolvedInventoryGroup,
    b: ResolvedInventoryGroup,
    x: Seq<u8>,
    y: Seq<u8>,
)
    requires
        group_item(a) + x == group_item(b) + y,
    ensures
        a.hosts_of().name@ == b.hosts_of().name@,
        a.names() == b.names(),
        reached_alike(a, b),
        varied_alike(a, b),
        x == y,
{
    let a5 = variables_item(a.variables_of()) + x;
    let b5 = variables_item(b.variables_of()) + y;
    let a4 = access_item(a) + a5;
    let b4 = access_item(b) + b5;
    let a3 = text_items(a.names()) + a4;
    let b3 = text_items(b.names()) + b4;
    let a2 = digests::number_item(a.names().len()) + a3;
    let b2 = digests::number_item(b.names().len()) + b3;
    lemma_chain(
        digests::text_item(a.hosts_of().name@),
        digests::number_item(a.names().len()),
        text_items(a.names()),
        access_item(a),
        variables_item(a.variables_of()),
        x,
    );
    lemma_chain(
        digests::text_item(b.hosts_of().name@),
        digests::number_item(b.names().len()),
        text_items(b.names()),
        access_item(b),
        variables_item(b.variables_of()),
        y,
    );
    digests::a_text_ends_where_it_ends(a.hosts_of().name@, b.hosts_of().name@, a2, b2);
    assert(a.names().len() == a.hosts_of().hosts.len());
    assert(b.names().len() == b.hosts_of().hosts.len());
    digests::numbers_end_where_they_end(a.names().len(), b.names().len(), a3, b3);
    lemma_text_items_end(a.names(), b.names(), a4, b4);
    lemma_access_end(a, b, a5, b5);
    lemma_variables_end(a, b, x, y);
}

proof fn lemma_group_items_front(groups: Seq<ResolvedInventoryGroup>)
    requires
        groups.len() > 0,
    ensures
        group_items(groups) == group_item(groups[0]) + group_items(groups.drop_first()),
    decreases groups.len(),
{
    if groups.len() == 1 {
        assert(groups.drop_last() =~= Seq::<ResolvedInventoryGroup>::empty());
        assert(groups.drop_first() =~= Seq::<ResolvedInventoryGroup>::empty());
        assert(group_items(groups) =~= group_item(groups[0]) + group_items(groups.drop_first()));
    } else {
        lemma_group_items_front(groups.drop_last());
        assert(groups.drop_last().drop_first() =~= groups.drop_first().drop_last());
        assert(group_items(groups) =~= group_item(groups[0]) + group_items(groups.drop_first()));
    }
}

proof fn lemma_group_items_end(
    a: Seq<ResolvedInventoryGroup>,
    b: Seq<ResolvedInventoryGroup>,
    i: int,
)
    requires
        a.len() == b.len(),
        group_items(a) == group_items(b),
        0 <= i < a.len(),
    ensures
        a[i].hosts_of().name@ == b[i].hosts_of().name@,
        a[i].names() == b[i].names(),
        reached_alike(a[i], b[i]),
        varied_alike(a[i], b[i]),
    decreases a.len(),
{
    lemma_group_items_front(a);
    lemma_group_items_front(b);
    lemma_group_end(a[0], b[0], group_items(a.drop_first()), group_items(b.drop_first()));
    if i > 0 {
        lemma_group_items_end(a.drop_first(), b.drop_first(), i - 1);
    }
}

/// What a run is prepared from is told apart wherever the plan, a group, one of its hosts, how the hosts are
/// reached or the variables they see differ.
pub proof fn what_a_run_is_prepared_from_is_told_apart(
    spec: Seq<char>,
    other_spec: Seq<char>,
    a: Seq<ResolvedInventoryGroup>,
    b: Seq<ResolvedInventoryGroup>,
    i: int,
)
    requires
        a.len() < 0x1_0000_0000_0000_0000,
        b.len() < 0x1_0000_0000_0000_0000,
        preparation(spec, a) == preparation(other_spec, b),
    ensures
        spec == other_spec,
        a.len() == b.len(),
        0 <= i < a.len() ==> a[i].hosts_of().name@ == b[i].hosts_of().name@ && a[i].names()
            == b[i].names() && reached_alike(a[i], b[i]) && varied_alike(a[i], b[i]),
{
    let s = digests::number_item(a.len()) + group_items(a);
    let t = digests::number_item(b.len()) + group_items(b);
    assert(preparation(spec, a) =~= digests::text_item(spec) + s);
    assert(preparation(other_spec, b) =~= digests::text_item(other_spec) + t);
    digests::a_text_ends_where_it_ends(spec, other_spec, s, t);
    digests::numbers_end_where_they_end(a.len(), b.len(), group_items(a), group_items(b));
    if 0 <= i < a.len() {
        lemma_group_items_end(a, b, i);
    }
}

} // verus!
