//! Label selectors: which label sets satisfy one.

use vstd::prelude::*;
use crate::resources::{LabelMap, Node, NodeSelectorTerm, SelectorExpression, SelectorOperator};
use crate::text;
use crate::text::{contains_text, text_eq};
use crate::textmap;
use crate::version;
use crate::version::Version;

verus! {

/// Whether a label is present and has this value.
pub open spec fn label_is(labels: Map<Seq<char>, String>, key: Seq<char>, value: Seq<char>) -> bool {
    labels.dom().contains(key) && labels[key]@ == value
}

/// The values a term lists.
pub open spec fn listed(expr: SelectorExpression) -> Seq<Seq<char>> {
    match expr.values {
        Some(values) => text::texts(values@),
        None => Seq::empty(),
    }
}

/// The version a label carries and the version a term compares it with, where both are versions
/// and the term lists exactly one value.
pub open spec fn compared(labels: Map<Seq<char>, String>, expr: SelectorExpression) -> Option<
    (version::VersionView, version::VersionView),
> {
    if listed(expr).len() == 1 && labels.dom().contains(expr.key@) {
        match (version::version_of(labels[expr.key@]@), version::version_of(listed(expr)[0])) {
            (Some(actual), Some(bound)) => Some((actual, bound)),
            _ => None,
        }
    } else {
        None
    }
}

/// Whether a label set satisfies one `matchExpressions` term.
pub open spec fn expression_holds(labels: Map<Seq<char>, String>, expr: SelectorExpression) -> bool {
    let key = expr.key@;
    match expr.operator {
        SelectorOperator::In => labels.dom().contains(key) && listed(expr).contains(labels[key]@),
        SelectorOperator::NotIn => !(labels.dom().contains(key) && listed(expr).contains(
            labels[key]@,
        )),
        SelectorOperator::Exists => labels.dom().contains(key),
        SelectorOperator::DoesNotExist => !labels.dom().contains(key),
        SelectorOperator::Gt => compared(labels, expr) matches Some((actual, bound))
            && version::version_lt(bound, actual),
        SelectorOperator::Ge => compared(labels, expr) matches Some((actual, bound))
            && !version::version_lt(actual, bound),
        SelectorOperator::Lt => compared(labels, expr) matches Some((actual, bound))
            && version::version_lt(actual, bound),
        SelectorOperator::Le => compared(labels, expr) matches Some((actual, bound))
            && !version::version_lt(bound, actual),
    }
}

/// Whether a label set satisfies every entry of `matchLabels`.
pub open spec fn labels_hold(labels: Map<Seq<char>, String>, wanted: Map<Seq<char>, String>) -> bool {
    forall|key: Seq<char>| #[trigger]
        wanted.dom().contains(key) ==> label_is(labels, key, wanted[key]@)
}

/// Whether a label set satisfies every `matchExpressions` term.
pub open spec fn expressions_hold(
    labels: Map<Seq<char>, String>,
    exprs: Seq<SelectorExpression>,
) -> bool {
    forall|i: int| 0 <= i < exprs.len() ==> expression_holds(labels, #[trigger] exprs[i])
}

/// Whether a label set satisfies a selector; an absent half imposes nothing.
pub open spec fn selector_holds(labels: Map<Seq<char>, String>, selector: NodeSelectorTerm) -> bool {
    &&& selector.match_labels matches Some(wanted) ==> labels_hold(labels, wanted@)
    &&& selector.match_expressions matches Some(exprs) ==> expressions_hold(labels, exprs@)
}

/// Whether a selector writes no requirement at all.
pub open spec fn selector_is_empty(selector: NodeSelectorTerm) -> bool {
    &&& selector.match_labels matches Some(wanted) ==> wanted.pairs().len() == 0
    &&& selector.match_expressions matches Some(exprs) ==> exprs@.len() == 0
}

/// Whether a selector grants access to what has these labels: one that writes no requirement grants
/// none.
pub open spec fn selector_grants(labels: Map<Seq<char>, String>, selector: NodeSelectorTerm) -> bool {
    !selector_is_empty(selector) && selector_holds(labels, selector)
}

/// Whether a Node satisfies a selector. No selector at all is satisfied by every Node.
pub open spec fn node_holds(node: Node, selector: Option<&NodeSelectorTerm>) -> bool {
    selector matches Some(selector) ==> selector_holds(node.metadata.labels@, *selector)
}

/// Evaluates one `matchLabels` entry: equality, and an absent label never satisfies one.
pub fn eval_match_label(labels: &LabelMap, key: &str, value: &str) -> (res: bool)
    ensures
        res == label_is(labels@, key@, value@),
{
    match labels.get(key) {
        Some(actual) => text_eq(actual.as_str(), value),
        None => false,
    }
}

fn value_listed(labels: &LabelMap, expr: &SelectorExpression) -> (res: bool)
    ensures
        res == (labels@.dom().contains(expr.key@) && listed(*expr).contains(labels@[expr.key@]@)),
{
    match (labels.get(expr.key.as_str()), &expr.values) {
        (Some(actual), Some(values)) => contains_text(values, actual.as_str()),
        _ => false,
    }
}

fn versions(labels: &LabelMap, expr: &SelectorExpression) -> (res: Option<(Version, Version)>)
    ensures
        match res {
            Some((actual, bound)) => compared(labels@, *expr) == Some((actual@, bound@)),
            None => compared(labels@, *expr) is None,
        },
{
    match (labels.get(expr.key.as_str()), &expr.values) {
        (Some(actual), Some(values)) => {
            if values.len() != 1 {
                return None;
            }
            assert(listed(*expr)[0] == values@[0]@);
            match (version::parse(actual.as_str()), version::parse(values[0].as_str())) {
                (Some(actual), Some(bound)) => Some((actual, bound)),
                _ => None,
            }
        },
        _ => None,
    }
}

/// Evaluates one `matchExpressions` term against a label set.
///
/// An ordered operator that cannot be answered — an absent label, anything but exactly one value,
/// or either side not being a version — does not match.
pub fn eval_expression(labels: &LabelMap, expr: &SelectorExpression) -> (res: bool)
    ensures
        res == expression_holds(labels@, *expr),
{
    match expr.operator {
        SelectorOperator::In => value_listed(labels, expr),
        SelectorOperator::NotIn => !value_listed(labels, expr),
        SelectorOperator::Exists => labels.contains_key(expr.key.as_str()),
        SelectorOperator::DoesNotExist => !labels.contains_key(expr.key.as_str()),
        SelectorOperator::Gt => match versions(labels, expr) {
            Some((actual, bound)) => bound.is_below(&actual),
            None => false,
        },
        SelectorOperator::Ge => match versions(labels, expr) {
            Some((actual, bound)) => !actual.is_below(&bound),
            None => false,
        },
        SelectorOperator::Lt => match versions(labels, expr) {
            Some((actual, bound)) => actual.is_below(&bound),
            None => false,
        },
        SelectorOperator::Le => match versions(labels, expr) {
            Some((actual, bound)) => !bound.is_below(&actual),
            None => false,
        },
    }
}

/// Whether a label set satisfies every entry of `wanted`.
pub fn matches_labels(labels: &LabelMap, wanted: &LabelMap) -> (res: bool)
    ensures
        res == labels_hold(labels@, wanted@),
{
    let n = wanted.len();
    let ghost pairs = wanted.pairs();
    let mut i: usize = 0;
    while i < n
        invariant
            i <= n,
            n == pairs.len(),
            pairs == wanted.pairs(),
            text::sorted(textmap::pair_keys(pairs)),
            forall|j: int| 0 <= j < i ==> label_is(labels@, (#[trigger] pairs[j]).0, pairs[j].1@),
        decreases n - i,
    {
        let (key, value) = wanted.entry(i);
        if !eval_match_label(labels, key, value.as_str()) {
            proof {
                textmap::lemma_pairs_map(pairs, i as int);
                assert(wanted@.dom().contains(key@));
            }
            return false;
        }
        i = i + 1;
    }
    proof {
        assert forall|key: Seq<char>| #[trigger] wanted@.dom().contains(key) implies label_is(
            labels@,
            key,
            wanted@[key]@,
        ) by {
            let j = textmap::key_index(pairs, key);
            assert(textmap::has_key(pairs, key));
            textmap::lemma_pairs_map(pairs, j);
        }
    }
    true
}

/// Whether a label set satisfies every term of `exprs`.
pub fn matches_expressions(labels: &LabelMap, exprs: &[SelectorExpression]) -> (res: bool)
    ensures
        res == expressions_hold(labels@, exprs@),
{
    let mut i: usize = 0;
    while i < exprs.len()
        invariant
            i <= exprs@.len(),
            forall|j: int| 0 <= j < i ==> expression_holds(labels@, #[trigger] exprs@[j]),
        decreases exprs.len() - i,
    {
        if !eval_expression(labels, &exprs[i]) {
            assert(!expression_holds(labels@, exprs@[i as int]));
            return false;
        }
        i = i + 1;
    }
    true
}

/// Evaluates a label selector with Kubernetes' default semantics: an absent half imposes no
/// constraint, so an entirely empty selector matches everything.
pub fn selector_matches(labels: &LabelMap, selector: &NodeSelectorTerm) -> (res: bool)
    ensures
        res == selector_holds(labels@, *selector),
{
    let labels_match = match &selector.match_labels {
        Some(wanted) => matches_labels(labels, wanted),
        None => true,
    };
    let expressions_match = match &selector.match_expressions {
        Some(exprs) => matches_expressions(labels, exprs),
        None => true,
    };
    labels_match && expressions_match
}

/// Fail-closed variant for authorization ceilings: an empty selector matches nothing rather than
/// everything, and any other is evaluated exactly as [`selector_matches`].
pub fn selector_matches_fail_closed(labels: &LabelMap, selector: &NodeSelectorTerm) -> (res: bool)
    ensures
        res == selector_grants(labels@, *selector),
{
    let no_labels = match &selector.match_labels {
        Some(wanted) => wanted.is_empty(),
        None => true,
    };
    let no_expressions = match &selector.match_expressions {
        Some(exprs) => exprs.len() == 0,
        None => true,
    };
    !(no_labels && no_expressions) && selector_matches(labels, selector)
}

/// Whether a Node satisfies a selector term: all of its `matchLabels` and all of its
/// `matchExpressions`. No selector matches unconditionally.
pub fn node_matches(node: &Node, selector: Option<&NodeSelectorTerm>) -> (res: bool)
    ensures
        res == node_holds(*node, selector),
{
    match selector {
        Some(selector) => selector_matches(&node.metadata.labels, selector),
        None => true,
    }
}

/// An empty selector is satisfied by every label set under the default semantics, and by none
/// under the fail-closed ones.
pub proof fn empty_selector_inverts(labels: Map<Seq<char>, String>, selector: NodeSelectorTerm)
    requires
        selector_is_empty(selector),
    ensures
        selector_holds(labels, selector),
        !selector_grants(labels, selector),
{
    if let Some(wanted) = selector.match_labels {
        assert forall|key: Seq<char>| #[trigger] wanted@.dom().contains(key) implies label_is(
            labels,
            key,
            wanted@[key]@,
        ) by {
            assert(textmap::has_key(wanted.pairs(), key));
        }
    }
}

/// `In` and `NotIn`, and `Exists` and `DoesNotExist`, are each other's negation on every label
/// set.
pub proof fn exclusions_negate_inclusions(
    labels: Map<Seq<char>, String>,
    positive: SelectorExpression,
    negative: SelectorExpression,
)
    requires
        positive.key == negative.key,
        positive.values == negative.values,
        (positive.operator == SelectorOperator::In && negative.operator == SelectorOperator::NotIn)
            || (positive.operator == SelectorOperator::Exists && negative.operator
            == SelectorOperator::DoesNotExist),
    ensures
        expression_holds(labels, positive) == !expression_holds(labels, negative),
{
}

/// An ordered term that cannot be answered matches under none of the four operators, and one that
/// can be matches under exactly one of `Gt` and `Le`, and exactly one of `Ge` and `Lt`.
pub proof fn ordered_terms_fail_closed(
    labels: Map<Seq<char>, String>,
    gt: SelectorExpression,
    le: SelectorExpression,
    ge: SelectorExpression,
    lt: SelectorExpression,
)
    requires
        gt.operator == SelectorOperator::Gt,
        le == (SelectorExpression { operator: SelectorOperator::Le, ..gt }),
        ge == (SelectorExpression { operator: SelectorOperator::Ge, ..gt }),
        lt == (SelectorExpression { operator: SelectorOperator::Lt, ..gt }),
    ensures
        compared(labels, gt) is None ==> !expression_holds(labels, gt) && !expression_holds(
            labels,
            le,
        ) && !expression_holds(labels, ge) && !expression_holds(labels, lt),
        compared(labels, gt) is Some ==> expression_holds(labels, gt) != expression_holds(
            labels,
            le,
        ) && expression_holds(labels, ge) != expression_holds(labels, lt),
{
    assert(listed(gt) == listed(le) && listed(gt) == listed(ge) && listed(gt) == listed(lt));
}

// --- what the operators ask ------------------------------------------------------------------

/// A label is matched by its very value, and the operators that ask for a value or for a label ask of the
/// Node's own: one that is listed, one that is not, one at all, or none.
pub proof fn operators_ask_of_the_nodes_own_label(
    labels: Map<Seq<char>, String>,
    expr: SelectorExpression,
    value: Seq<char>,
)
    ensures
        label_is(labels, expr.key@, value) <==> labels.contains_key(expr.key@)
            && labels[expr.key@]@ == value,
        expr.operator is In ==> (expression_holds(labels, expr) <==> labels.contains_key(expr.key@)
            && expr.values is Some && exists|i: int|
            0 <= i < expr.values->0@.len() && (#[trigger] expr.values->0@[i])@
                == labels[expr.key@]@),
        expr.operator is NotIn ==> (expression_holds(labels, expr) <==> !labels.contains_key(
            expr.key@,
        ) || expr.values is None || forall|i: int|
            0 <= i < expr.values->0@.len() ==> (#[trigger] expr.values->0@[i])@
                != labels[expr.key@]@),
        expr.operator is Exists ==> (expression_holds(labels, expr) <==> labels.contains_key(
            expr.key@,
        )),
        expr.operator is DoesNotExist ==> (expression_holds(labels, expr) <==> !labels.contains_key(
            expr.key@,
        )),
{
    if expr.values is Some {
        let values = expr.values->0@;
        let names = text::texts(values);
        let own = labels[expr.key@]@;
        if names.contains(own) {
            let i = choose|i: int| 0 <= i < names.len() && names[i] == own;
            assert(values[i]@ == own);
        }
        if exists|i: int| 0 <= i < values.len() && (#[trigger] values[i])@ == own {
            let i = choose|i: int| 0 <= i < values.len() && (#[trigger] values[i])@ == own;
            assert(names[i] == own);
        }
    }
}

/// The operators that compare hold where the Node's own label and the one value listed are both versions,
/// and stand in that order.
pub proof fn ordered_operators_compare_versions(
    labels: Map<Seq<char>, String>,
    expr: SelectorExpression,
    actual: version::VersionView,
    bound: version::VersionView,
)
    requires
        expr.values is Some,
        expr.values->0@.len() == 1,
        labels.contains_key(expr.key@),
        version::version_of(labels[expr.key@]@) == Some(actual),
        version::version_of(expr.values->0@[0]@) == Some(bound),
    ensures
        expr.operator is Gt ==> (expression_holds(labels, expr) <==> version::version_lt(bound, actual)),
        expr.operator is Lt ==> (expression_holds(labels, expr) <==> version::version_lt(actual, bound)),
        expr.operator is Ge ==> (expression_holds(labels, expr) <==> version::version_lt(bound, actual)
            || actual == bound),
        expr.operator is Le ==> (expression_holds(labels, expr) <==> version::version_lt(actual, bound)
            || actual == bound),
{
    version::version_order_is_total(actual, bound);
    assert(text::texts(expr.values->0@)[0] == expr.values->0@[0]@);
}

/// The operators that compare hold of nothing that cannot be compared: no label, no version, or not just one
/// value.
pub proof fn ordered_operators_hold_of_nothing_else(
    labels: Map<Seq<char>, String>,
    expr: SelectorExpression,
)
    requires
        expr.operator is Gt || expr.operator is Ge || expr.operator is Lt || expr.operator is Le,
        !labels.contains_key(expr.key@) || expr.values is None || expr.values->0@.len() != 1
            || version::version_of(labels[expr.key@]@) is None || version::version_of(
            expr.values->0@[0]@,
        ) is None,
    ensures
        !expression_holds(labels, expr),
{
    if expr.values is Some && expr.values->0@.len() == 1 {
        assert(text::texts(expr.values->0@)[0] == expr.values->0@[0]@);
    }
}

/// A selector asks for all it lists, every label and every expression, and a Node without a selector is
/// selected.
pub proof fn a_selector_asks_for_all_it_lists(node: Node, selector: NodeSelectorTerm)
    ensures
        node_holds(node, None),
        node_holds(node, Some(&selector)) <==> selector_holds(node.metadata.labels@, selector),
        selector_holds(node.metadata.labels@, selector) <==> (selector.match_labels is Some
            ==> forall|key: Seq<char>| #[trigger]
            selector.match_labels->0@.contains_key(key) ==> node.metadata.labels@.contains_key(key)
                && node.metadata.labels@[key]@ == selector.match_labels->0@[key]@) && (
        selector.match_expressions is Some ==> forall|i: int|
            0 <= i < selector.match_expressions->0@.len() ==> expression_holds(
                node.metadata.labels@,
                #[trigger] selector.match_expressions->0@[i],
            )),
        selector_grants(node.metadata.labels@, selector) ==> selector_holds(
            node.metadata.labels@,
            selector,
        ),
        selector_holds(node.metadata.labels@, selector) && selector.match_expressions is Some
            && selector.match_expressions->0@.len() > 0 ==> selector_grants(
            node.metadata.labels@,
            selector,
        ),
        selector_holds(node.metadata.labels@, selector) && selector.match_labels is Some
            && selector.match_labels->0.pairs().len() > 0 ==> selector_grants(
            node.metadata.labels@,
            selector,
        ),
        selector.match_labels is None && selector.match_expressions is None ==> !selector_grants(
            node.metadata.labels@,
            selector,
        ),
{
    let labels = node.metadata.labels@;
    if selector.match_labels is Some {
        let wanted = selector.match_labels->0@;
        assert(labels_hold(labels, wanted) <==> forall|key: Seq<char>| #[trigger]
            wanted.contains_key(key) ==> labels.contains_key(key) && labels[key]@ == wanted[key]@) by {
            if labels_hold(labels, wanted) {
                assert forall|key: Seq<char>| #[trigger] wanted.contains_key(key) implies
                    labels.contains_key(key) && labels[key]@ == wanted[key]@ by {
                    assert(wanted.dom().contains(key));
                }
            }
            if forall|key: Seq<char>| #[trigger]
                wanted.contains_key(key) ==> labels.contains_key(key) && labels[key]@
                    == wanted[key]@ {
                assert forall|key: Seq<char>| #[trigger] wanted.dom().contains(key) implies label_is(
                    labels,
                    key,
                    wanted[key]@,
                ) by {
                    assert(wanted.contains_key(key));
                }
            }
        }
    }
}

} // verus!
