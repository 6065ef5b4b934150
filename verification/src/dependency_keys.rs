//! The Node label key a plan publishes its provided version under, and its inverse.
//!
//! The plan controller writes `<namespace>.plan.ansible.cloudbending.dev/<plan-name>` onto the
//! Nodes a providing plan converged; the inventory controller reads the same key out of a selector
//! to tell a dependency on another plan from an ordinary label term. The operator owns the key: it
//! is derived from the plan's own namespace and name and nothing else.

use vstd::prelude::*;
use crate::search;
use crate::search::{find_from, stands_at, text_contains};
use crate::text::{concat, to_chars};

verus! {

/// The domain every operator-owned Node label key ends its prefix with.
pub const KEY_DOMAIN: &'static str = ".plan.ansible.cloudbending.dev";

/// The key of the plan `plan` in `namespace`.
pub open spec fn key_of(namespace: Seq<char>, plan: Seq<char>) -> Seq<char> {
    namespace + KEY_DOMAIN@ + "/"@ + plan
}

/// Whether a key is one the operator manages.
pub open spec fn operator_key(key: Seq<char>) -> bool {
    search::contains_part(key, KEY_DOMAIN@ + "/"@)
}

/// The namespace and plan name a key encodes: what stands before the domain at the end of the
/// prefix, and what follows the first slash, where neither is empty.
pub open spec fn decoded(key: Seq<char>) -> Option<(Seq<char>, Seq<char>)> {
    let slash = search::find_char(key, '/');
    let prefix = key.take(slash);
    let plan = key.skip(slash + 1);
    let namespace = prefix.take(prefix.len() - KEY_DOMAIN@.len());
    if slash < key.len() && search::has_suffix(prefix, KEY_DOMAIN@) && namespace.len() > 0
        && plan.len() > 0 {
        Some((namespace, plan))
    } else {
        None
    }
}

/// The label key a plan publishes under: `<namespace>.plan.ansible.cloudbending.dev/<plan-name>`.
pub fn label_key(namespace: &str, plan: &str) -> (res: String)
    ensures
        res@ == key_of(namespace@, plan@),
{
    let mut key = concat(namespace, KEY_DOMAIN);
    key.append("/");
    key.append(plan);
    key
}

/// Whether `key` is one the operator manages, for any namespace and any plan.
pub fn is_operator_key(key: &str) -> (res: bool)
    ensures
        res == operator_key(key@),
{
    let mark = concat(KEY_DOMAIN, "/");
    text_contains(key, mark.as_str())
}

/// The namespace and plan name an operator-owned key encodes, or `None` for any other key.
pub fn decode_key(key: &str) -> (res: Option<(&str, &str)>)
    ensures
        match res {
            Some((namespace, plan)) => decoded(key@) == Some((namespace@, plan@)),
            None => decoded(key@) is None,
        },
{
    let chars = to_chars(key);
    let domain = to_chars(KEY_DOMAIN);
    assert(chars@.skip(0) =~= key@);
    let slash = find_from(&chars, 0, '/');
    if slash == chars.len() || slash < domain.len() {
        return None;
    }
    let cut = slash - domain.len();
    let ghost prefix = key@.take(slash as int);
    assert(prefix.subrange(cut as int, slash as int) =~= key@.subrange(
        cut as int,
        slash as int,
    ));
    assert(prefix.take(cut as int) =~= key@.subrange(0, cut as int));
    if !stands_at(&chars, &domain, cut) || cut == 0 || slash + 1 == chars.len() {
        return None;
    }
    assert(key@.skip(slash + 1) =~= key@.subrange(slash + 1, chars@.len() as int));
    Some((key.substring_char(0, cut), key.substring_char(slash + 1, chars.len())))
}

/// The domain holds no slash, so the slash of a key is the one after it.
proof fn lemma_domain()
    ensures
        KEY_DOMAIN@.len() > 0,
        !KEY_DOMAIN@.contains('/'),
        "/"@ == seq!['/'],
{
    reveal_strlit(".plan.ansible.cloudbending.dev");
    reveal_strlit("/");
    assert("/"@ =~= seq!['/']);
}

/// A key decodes back to the plan that wrote it, for every namespace and plan name that are not
/// empty and a namespace without a slash.
pub proof fn key_decodes_to_its_plan(namespace: Seq<char>, plan: Seq<char>)
    requires
        namespace.len() > 0,
        plan.len() > 0,
        !namespace.contains('/'),
    ensures
        decoded(key_of(namespace, plan)) == Some((namespace, plan)),
{
    lemma_domain();
    let key = key_of(namespace, plan);
    let slash: int = namespace.len() as int + KEY_DOMAIN@.len();
    assert forall|j: int| 0 <= j < slash implies key[j] != '/' by {
        if j < namespace.len() {
            assert(key[j] == namespace[j]);
        } else {
            assert(key[j] == KEY_DOMAIN@[j - namespace.len()]);
        }
    }
    search::lemma_find_char(key, '/', slash as int);
    let prefix = key.take(slash as int);
    assert(prefix =~= namespace + KEY_DOMAIN@);
    assert(prefix.subrange(namespace.len() as int, slash as int) =~= KEY_DOMAIN@);
    assert(prefix.take(namespace.len() as int) =~= namespace);
    assert(key.skip(slash + 1) =~= plan);
}

/// No two plans publish under one key, so no plan overwrites another's claim.
pub proof fn keys_are_not_shared(
    namespace: Seq<char>,
    plan: Seq<char>,
    other_namespace: Seq<char>,
    other_plan: Seq<char>,
)
    requires
        namespace.len() > 0,
        plan.len() > 0,
        !namespace.contains('/'),
        other_namespace.len() > 0,
        other_plan.len() > 0,
        !other_namespace.contains('/'),
        key_of(namespace, plan) == key_of(other_namespace, other_plan),
    ensures
        namespace == other_namespace,
        plan == other_plan,
{
    key_decodes_to_its_plan(namespace, plan);
    key_decodes_to_its_plan(other_namespace, other_plan);
}

/// A key is within what Kubernetes allows of a label key: at most 253 characters before the slash
/// and at most 63 after it, for every namespace and plan name of at most 63 characters.
pub proof fn published_keys_fit(namespace: Seq<char>, plan: Seq<char>)
    requires
        namespace.len() <= 63,
        plan.len() <= 63,
    ensures
        exists|prefix: Seq<char>|
            key_of(namespace, plan) == prefix + "/"@ + plan && #[trigger] prefix.len() <= 253,
{
    reveal_strlit(".plan.ansible.cloudbending.dev");
    let prefix = namespace + KEY_DOMAIN@;
    assert(prefix.len() <= 93);
    assert(key_of(namespace, plan) == prefix + "/"@ + plan);
}

/// Every key a plan publishes under is recognised as the operator's own.
pub proof fn published_key_is_operator_key(namespace: Seq<char>, plan: Seq<char>)
    ensures
        operator_key(key_of(namespace, plan)),
{
    let key = key_of(namespace, plan);
    let mark = KEY_DOMAIN@ + "/"@;
    assert(key.subrange(namespace.len() as int, namespace.len() as int + mark.len()) =~= mark);
    assert(search::occurs_at(key, mark, namespace.len() as int));
}

/// A key that decodes is the key its plan publishes under, so no two keys decode to one plan, and
/// it is one the operator recognises.
pub proof fn decoded_key_is_the_plans_own(key: Seq<char>)
    requires
        decoded(key) is Some,
    ensures
        key == key_of(decoded(key)->Some_0.0, decoded(key)->Some_0.1),
        operator_key(key),
{
    lemma_domain();
    search::lemma_find_char_bounds(key, '/');
    let slash = search::find_char(key, '/');
    let prefix = key.take(slash);
    let (namespace, plan) = decoded(key)->Some_0;
    assert(prefix =~= namespace + prefix.subrange(namespace.len() as int, prefix.len() as int));
    assert(key =~= key_of(namespace, plan));
    published_key_is_operator_key(namespace, plan);
}

} // verus!
