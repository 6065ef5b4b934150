//! Which of a group's Nodes are kept out by another plan, rather than by the group's own selector.
//!
//! Every term is judged by the same evaluator that decides the matching. Waiting is measured
//! against the group as its author wrote it, which is every term that is not itself a dependency: a
//! Node excluded for an unrelated reason is not waiting for anything, and a Node held back by two
//! dependencies is waiting for both.

use vstd::prelude::*;
use crate::dependency_keys;
use crate::dependency_keys::{decode_key, is_operator_key};
use crate::nodeselector;
use crate::nodeselector::{eval_expression, eval_match_label};
use crate::resources::{LabelMap, Node, NodeSelectorTerm, SelectorExpression, SelectorOperator};
use crate::search;
use crate::search::join_texts;
use crate::seqs;
use crate::text;
use crate::text::{concat3, slice_chars, to_chars};
use crate::textmap;
use crate::version;

verus! {

/// The most requirements one inventory publishes. Beyond it the entries are dropped rather than the
/// write, so the hosts are still published and the waiting count stays exact.
pub const MAX_DEPENDENCIES: usize = 256;

/// The most characters a published string keeps. A longer one is cut and ends in an ellipsis.
pub const MAX_FIELD_CHARS: usize = 317;

/// What one dependency requirement of a group is holding back.
#[derive(Debug, Clone, PartialEq, Eq)]
pub struct DependencyStatus {
    pub group: String,
    pub key: String,
    pub provider_namespace: String,
    pub provider_name: String,
    pub requirement: String,
    pub waiting: usize,
    pub satisfied: usize,
    pub invalid_value: bool,
    pub malformed_term: bool,
    pub unparseable_hosts: usize,
}

/// What one group's selector is waiting on, and which of its Nodes are waiting.
#[derive(Debug, PartialEq, Eq)]
pub struct GroupDependencies {
    /// One entry per dependency requirement in the group's selector, in the order they are written.
    pub dependencies: Vec<DependencyStatus>,
    /// The Nodes kept out of this group by a dependency alone. A Node waiting on two requirements
    /// appears once.
    pub waiting_hosts: Vec<String>,
}

impl Default for GroupDependencies {
    fn default() -> (res: Self)
        ensures
            res.dependencies@.len() == 0,
            res.waiting_hosts@.len() == 0,
    {
        GroupDependencies { dependencies: Vec::new(), waiting_hosts: Vec::new() }
    }
}

/// A text cut to what a status field keeps.
pub open spec fn cut(text: Seq<char>) -> Seq<char> {
    if text.len() <= MAX_FIELD_CHARS {
        text
    } else {
        text.take(MAX_FIELD_CHARS as int).push('\u{2026}')
    }
}

/// Cuts a text to what a status field keeps, on a character boundary.
pub fn bounded(text: &str) -> (res: String)
    ensures
        res@ == cut(text@),
{
    let chars = to_chars(text);
    if chars.len() <= MAX_FIELD_CHARS {
        return text.to_owned();
    }
    let mut out = slice_chars(&chars, 0, MAX_FIELD_CHARS);
    out.push('\u{2026}');
    assert(out@ =~= cut(text@));
    out
}

/// One requirement of a group's selector, whichever half of the selector wrote it.
enum Term<'a> {
    Equals { key: &'a str, value: &'a str },
    Expression(&'a SelectorExpression),
}

/// One requirement of a group's selector: a label equal to a value, or an expression.
pub ghost enum TermView {
    Equals { key: Seq<char>, value: Seq<char> },
    Expression(SelectorExpression),
}

/// The requirements of a selector: its labels in the order of their keys, then its expressions.
pub open spec fn terms_of(selector: NodeSelectorTerm) -> Seq<TermView> {
    let labels = match selector.match_labels {
        Some(wanted) => wanted.pairs().map_values(
            |p: (Seq<char>, String)| TermView::Equals { key: p.0, value: p.1@ },
        ),
        None => Seq::empty(),
    };
    let expressions = match selector.match_expressions {
        Some(exprs) => exprs@.map_values(|e: SelectorExpression| TermView::Expression(e)),
        None => Seq::empty(),
    };
    labels + expressions
}

pub open spec fn term_key(term: TermView) -> Seq<char> {
    match term {
        TermView::Equals { key, .. } => key,
        TermView::Expression(expr) => expr.key@,
    }
}

/// Whether a label set satisfies a requirement.
pub open spec fn term_holds(labels: Map<Seq<char>, String>, term: TermView) -> bool {
    match term {
        TermView::Equals { key, value } => nodeselector::label_is(labels, key, value),
        TermView::Expression(expr) => nodeselector::expression_holds(labels, expr),
    }
}

/// Whether a requirement waits for a provider: a positive requirement on a key the operator
/// publishes.
pub open spec fn is_dependency(term: TermView) -> bool {
    &&& dependency_keys::operator_key(term_key(term))
    &&& term matches TermView::Expression(expr) ==> expr.operator != SelectorOperator::NotIn
        && expr.operator != SelectorOperator::DoesNotExist
}

/// Whether a requirement is an ordered comparison.
pub open spec fn is_ordered(term: TermView) -> bool {
    term matches TermView::Expression(expr) && (expr.operator == SelectorOperator::Gt
        || expr.operator == SelectorOperator::Ge || expr.operator == SelectorOperator::Lt
        || expr.operator == SelectorOperator::Le)
}

/// The single value an ordered comparison is made against.
pub open spec fn ordered_bound(term: TermView) -> Option<Seq<char>> {
    match term {
        TermView::Expression(expr) => if is_ordered(term) && nodeselector::listed(expr).len() == 1 {
            Some(nodeselector::listed(expr)[0])
        } else {
            None
        },
        _ => None,
    }
}

/// A requirement that can match nothing because of how it is written: an ordered operator not
/// listing exactly one value, or an `In` listing none.
pub open spec fn is_malformed(term: TermView) -> bool {
    match term {
        TermView::Expression(expr) => if expr.operator == SelectorOperator::In {
            nodeselector::listed(expr).len() == 0
        } else {
            is_ordered(term) && nodeselector::listed(expr).len() != 1
        },
        _ => false,
    }
}

pub open spec fn operator_text(operator: SelectorOperator) -> Seq<char> {
    match operator {
        SelectorOperator::In => "In"@,
        SelectorOperator::NotIn => "NotIn"@,
        SelectorOperator::Exists => "Exists"@,
        SelectorOperator::DoesNotExist => "DoesNotExist"@,
        SelectorOperator::Gt => "Gt"@,
        SelectorOperator::Ge => "Ge"@,
        SelectorOperator::Lt => "Lt"@,
        SelectorOperator::Le => "Le"@,
    }
}

/// A requirement written back for a human, in the shape the selector used.
pub open spec fn rendered(term: TermView) -> Seq<char> {
    match term {
        TermView::Equals { value, .. } => "= "@ + value,
        TermView::Expression(expr) => {
            let operator = operator_text(expr.operator);
            let values = nodeselector::listed(expr);
            if expr.operator == SelectorOperator::Exists || expr.operator
                == SelectorOperator::DoesNotExist {
                operator
            } else if is_ordered(term) && values.len() == 1 {
                operator + " "@ + values[0]
            } else {
                operator + " ["@ + search::join(values, ", "@) + "]"@
            }
        },
    }
}

/// Whether a Node is one of the group's, before any dependency narrows it.
pub open spec fn in_group(terms: Seq<TermView>, node: Node) -> bool {
    forall|i: int|
        0 <= i < terms.len() ==> term_holds(node.metadata.labels@, #[trigger] terms[i])
            || is_dependency(terms[i])
}

/// The group's Nodes that a requirement is holding back.
pub open spec fn waits_for(terms: Seq<TermView>, term: TermView) -> spec_fn(Node) -> bool {
    |node: Node| in_group(terms, node) && !term_holds(node.metadata.labels@, term)
}

/// The group's Nodes that have got past a requirement.
pub open spec fn gets_past(terms: Seq<TermView>, term: TermView) -> spec_fn(Node) -> bool {
    |node: Node| in_group(terms, node) && term_holds(node.metadata.labels@, term)
}

/// The group's Nodes that an ordered requirement holds back because the value they carry is not a
/// version.
pub open spec fn unanswerable(terms: Seq<TermView>, term: TermView) -> spec_fn(Node) -> bool {
    |node: Node|
        {
            let labels = node.metadata.labels@;
            in_group(terms, node) && !term_holds(labels, term) && is_ordered(term)
                && labels.dom().contains(term_key(term)) && version::version_of(
                labels[term_key(term)]@,
            ) is None
        }
}

/// The named Nodes that some dependency holds back.
pub open spec fn waits_at_all(terms: Seq<TermView>) -> spec_fn(Node) -> bool {
    |node: Node|
        node.metadata.name is Some && in_group(terms, node) && exists|i: int|
            0 <= i < terms.len() && is_dependency(#[trigger] terms[i]) && !term_holds(
                node.metadata.labels@,
                terms[i],
            )
}

/// The requirements that wait for a provider, in the order they are written.
pub open spec fn dependency_terms(terms: Seq<TermView>) -> Seq<TermView> {
    terms.filter(|term: TermView| is_dependency(term))
}

/// The provider a key names, or the key itself where it names none.
pub open spec fn provider(key: Seq<char>) -> (Seq<char>, Seq<char>) {
    match dependency_keys::decoded(key) {
        Some(decoded) => decoded,
        None => (Seq::empty(), key),
    }
}

impl DependencyStatus {
    /// Whether an entry reports what a requirement of the group holds back among `nodes`.
    pub open spec fn reports(
        &self,
        group: Seq<char>,
        term: TermView,
        terms: Seq<TermView>,
        nodes: Seq<Node>,
    ) -> bool {
        &&& self.group@ == cut(group)
        &&& self.key@ == cut(term_key(term))
        &&& self.provider_namespace@ == cut(provider(term_key(term)).0)
        &&& self.provider_name@ == cut(provider(term_key(term)).1)
        &&& self.requirement@ == cut(rendered(term))
        &&& self.waiting == nodes.filter(waits_for(terms, term)).len()
        &&& self.satisfied == nodes.filter(gets_past(terms, term)).len()
        &&& self.invalid_value == (ordered_bound(term) matches Some(bound) && version::version_of(
            bound,
        ) is None)
        &&& self.malformed_term == is_malformed(term)
        &&& self.unparseable_hosts == nodes.filter(unanswerable(terms, term)).len()
    }
}

impl GroupDependencies {
    /// Whether this is what the group's selector is waiting on among `nodes`.
    pub open spec fn reports(
        &self,
        group: Seq<char>,
        terms: Seq<TermView>,
        nodes: Seq<Node>,
    ) -> bool {
        let deps = dependency_terms(terms);
        &&& self.dependencies@.len() == deps.len()
        &&& forall|i: int|
            0 <= i < deps.len() ==> (#[trigger] self.dependencies@[i]).reports(
                group,
                deps[i],
                terms,
                nodes,
            )
        &&& text::texts(self.waiting_hosts@) == nodes.filter(waits_at_all(terms)).map_values(
            |node: Node| node.metadata.name->Some_0@,
        )
    }
}

/// The requirements of an optional selector; a group without one has none.
pub open spec fn selector_terms(selector: Option<&NodeSelectorTerm>) -> Seq<TermView> {
    match selector {
        Some(selector) => terms_of(*selector),
        None => Seq::empty(),
    }
}

fn operator_name(operator: SelectorOperator) -> (res: &'static str)
    ensures
        res@ == operator_text(operator),
{
    match operator {
        SelectorOperator::In => "In",
        SelectorOperator::NotIn => "NotIn",
        SelectorOperator::Exists => "Exists",
        SelectorOperator::DoesNotExist => "DoesNotExist",
        SelectorOperator::Gt => "Gt",
        SelectorOperator::Ge => "Ge",
        SelectorOperator::Lt => "Lt",
        SelectorOperator::Le => "Le",
    }
}

impl<'a> Term<'a> {
    spec fn model(&self) -> TermView {
        match self {
            Term::Equals { key, value } => TermView::Equals { key: key@, value: value@ },
            Term::Expression(expr) => TermView::Expression(**expr),
        }
    }

    fn key(&self) -> (res: &str)
        ensures
            res@ == term_key(self.model()),
    {
        match self {
            Term::Equals { key, .. } => key,
            Term::Expression(expr) => expr.key.as_str(),
        }
    }

    fn matches(&self, labels: &LabelMap) -> (res: bool)
        ensures
            res == term_holds(labels@, self.model()),
    {
        match self {
            Term::Equals { key, value } => eval_match_label(labels, key, value),
            Term::Expression(expr) => eval_expression(labels, expr),
        }
    }

    fn is_dependency(&self) -> (res: bool)
        ensures
            res == is_dependency(self.model()),
    {
        if !is_operator_key(self.key()) {
            return false;
        }
        match self {
            Term::Equals { .. } => true,
            Term::Expression(expr) => match expr.operator {
                SelectorOperator::In
                | SelectorOperator::Exists
                | SelectorOperator::Gt
                | SelectorOperator::Ge
                | SelectorOperator::Lt
                | SelectorOperator::Le => true,
                SelectorOperator::NotIn | SelectorOperator::DoesNotExist => false,
            },
        }
    }

    fn is_ordered(&self) -> (res: bool)
        ensures
            res == is_ordered(self.model()),
    {
        match self {
            Term::Equals { .. } => false,
            Term::Expression(expr) => match expr.operator {
                SelectorOperator::Gt
                | SelectorOperator::Ge
                | SelectorOperator::Lt
                | SelectorOperator::Le => true,
                _ => false,
            },
        }
    }

    fn ordered_bound(&self) -> (res: Option<&str>)
        ensures
            text::str_of(res) == ordered_bound(self.model()),
    {
        match self {
            Term::Equals { .. } => None,
            Term::Expression(expr) => {
                if !self.is_ordered() {
                    return None;
                }
                match &expr.values {
                    Some(values) => {
                        if values.len() == 1 {
                            assert(nodeselector::listed(**expr)[0] == values@[0]@);
                            Some(values[0].as_str())
                        } else {
                            None
                        }
                    },
                    None => None,
                }
            },
        }
    }

    fn is_malformed(&self) -> (res: bool)
        ensures
            res == is_malformed(self.model()),
    {
        match self {
            Term::Equals { .. } => false,
            Term::Expression(expr) => {
                let listed: usize = match &expr.values {
                    Some(values) => values.len(),
                    None => 0,
                };
                if expr.operator == SelectorOperator::In {
                    listed == 0
                } else {
                    self.is_ordered() && listed != 1
                }
            },
        }
    }

    fn render(&self) -> (res: String)
        ensures
            res@ == rendered(self.model()),
    {
        match self {
            Term::Equals { value, .. } => text::concat("= ", value),
            Term::Expression(expr) => {
                let operator = operator_name(expr.operator);
                if expr.operator == SelectorOperator::Exists || expr.operator
                    == SelectorOperator::DoesNotExist {
                    return operator.to_owned();
                }
                let joined = match &expr.values {
                    Some(values) => {
                        if values.len() == 1 && self.is_ordered() {
                            assert(nodeselector::listed(**expr)[0] == values@[0]@);
                            return concat3(operator, " ", values[0].as_str());
                        }
                        join_texts(values, ", ")
                    },
                    None => String::new(),
                };
                let mut out = concat3(operator, " [", joined.as_str());
                out.append("]");
                out
            },
        }
    }
}

spec fn models(terms: Seq<Term<'_>>) -> Seq<TermView> {
    terms.map_values(|t: Term<'_>| t.model())
}

fn collect_terms<'a>(selector: &'a NodeSelectorTerm) -> (res: Vec<Term<'a>>)
    ensures
        models(res@) == terms_of(*selector),
{
    let mut terms: Vec<Term<'a>> = Vec::new();
    let ghost labels: Seq<TermView> = Seq::empty();
    if let Some(wanted) = &selector.match_labels {
        let n = wanted.len();
        let ghost all = wanted.pairs().map_values(
            |p: (Seq<char>, String)| TermView::Equals { key: p.0, value: p.1@ },
        );
        proof {
            labels = all;
        }
        let mut i: usize = 0;
        while i < n
            invariant
                n == wanted.pairs().len(),
                i <= n,
                all == wanted.pairs().map_values(
                    |p: (Seq<char>, String)| TermView::Equals { key: p.0, value: p.1@ },
                ),
                models(terms@) == all.take(i as int),
            decreases n - i,
        {
            let (key, value) = wanted.entry(i);
            let ghost before = terms@;
            terms.push(Term::Equals { key, value: value.as_str() });
            assert(models(terms@) =~= models(before).push(all[i as int]));
            assert(all.take(i + 1) =~= all.take(i as int).push(all[i as int]));
            i = i + 1;
        }
        assert(all.take(i as int) =~= all);
    }
    assert(models(terms@) =~= labels);
    let ghost expressions: Seq<TermView> = Seq::empty();
    if let Some(exprs) = &selector.match_expressions {
        let ghost all = exprs@.map_values(|e: SelectorExpression| TermView::Expression(e));
        proof {
            expressions = all;
        }
        let mut i: usize = 0;
        assert(labels + all.take(0) =~= labels);
        while i < exprs.len()
            invariant
                i <= exprs@.len(),
                all == exprs@.map_values(|e: SelectorExpression| TermView::Expression(e)),
                models(terms@) == labels + all.take(i as int),
            decreases exprs.len() - i,
        {
            let ghost before = terms@;
            terms.push(Term::Expression(&exprs[i]));
            assert(models(terms@) =~= models(before).push(all[i as int]));
            assert(labels + all.take(i + 1) =~= (labels + all.take(i as int)).push(all[i as int]));
            i = i + 1;
        }
        assert(all.take(i as int) =~= all);
    }
    assert(models(terms@) =~= terms_of(*selector));
    terms
}

fn node_in_group(terms: &[Term<'_>], node: &Node) -> (res: bool)
    ensures
        res == in_group(models(terms@), *node),
{
    let ghost all = models(terms@);
    let mut i: usize = 0;
    while i < terms.len()
        invariant
            all == models(terms@),
            i <= terms@.len(),
            forall|j: int|
                0 <= j < i ==> term_holds(node.metadata.labels@, #[trigger] all[j])
                    || is_dependency(all[j]),
        decreases terms.len() - i,
    {
        assert(all[i as int] == terms@[i as int].model());
        if !terms[i].matches(&node.metadata.labels) && !terms[i].is_dependency() {
            return false;
        }
        i = i + 1;
    }
    true
}

fn node_waits(terms: &[Term<'_>], node: &Node) -> (res: bool)
    ensures
        res == (exists|i: int|
            0 <= i < terms@.len() && is_dependency(#[trigger] models(terms@)[i]) && !term_holds(
                node.metadata.labels@,
                models(terms@)[i],
            )),
{
    let ghost all = models(terms@);
    let mut i: usize = 0;
    while i < terms.len()
        invariant
            all == models(terms@),
            i <= terms@.len(),
            forall|j: int|
                0 <= j < i ==> !(is_dependency(#[trigger] all[j]) && !term_holds(
                    node.metadata.labels@,
                    all[j],
                )),
        decreases terms.len() - i,
    {
        assert(all[i as int] == terms@[i as int].model());
        if terms[i].is_dependency() && !terms[i].matches(&node.metadata.labels) {
            return true;
        }
        i = i + 1;
    }
    false
}

fn names_waiting(terms: &[Term<'_>], nodes: &[Node]) -> (res: Vec<String>)
    ensures
        text::texts(res@) == nodes@.filter(waits_at_all(models(terms@))).map_values(
            |node: Node| node.metadata.name->Some_0@,
        ),
{
    let mut out: Vec<String> = Vec::new();
    let ghost p = waits_at_all(models(terms@));
    let ghost name = |node: Node| node.metadata.name->Some_0@;
    let mut i: usize = 0;
    proof {
        seqs::lemma_filter_none(nodes@, p);
    }
    assert(text::texts(out@) =~= nodes@.take(0).filter(p).map_values(name));
    while i < nodes.len()
        invariant
            p == waits_at_all(models(terms@)),
            name == (|node: Node| node.metadata.name->Some_0@),
            i <= nodes@.len(),
            text::texts(out@) == nodes@.take(i as int).filter(p).map_values(name),
        decreases nodes.len() - i,
    {
        proof {
            seqs::lemma_filter_take(nodes@, i as int, p);
        }
        let ghost kept = nodes@.take(i as int).filter(p);
        if let Some(host) = &nodes[i].metadata.name {
            if node_in_group(terms, &nodes[i]) && node_waits(terms, &nodes[i]) {
                let ghost before = text::texts(out@);
                out.push(host.clone());
                assert(text::texts(out@) =~= before.push(host@));
                assert(kept.push(nodes@[i as int]).map_values(name) =~= kept.map_values(name).push(
                    host@,
                ));
            }
        }
        i = i + 1;
    }
    proof {
        seqs::lemma_take_all(nodes@);
    }
    out
}

fn describe(group: &str, term: &Term<'_>, terms: &[Term<'_>], nodes: &[Node]) -> (res:
    DependencyStatus)
    ensures
        res.reports(group@, term.model(), models(terms@), nodes@),
{
    let ghost all = models(terms@);
    let ghost t = term.model();
    let ghost waits = waits_for(all, t);
    let ghost past = gets_past(all, t);
    let ghost odd = unanswerable(all, t);
    let mut waiting: usize = 0;
    let mut satisfied: usize = 0;
    let mut unparseable_hosts: usize = 0;
    let mut i: usize = 0;
    proof {
        seqs::lemma_filter_none(nodes@, waits);
        seqs::lemma_filter_none(nodes@, past);
        seqs::lemma_filter_none(nodes@, odd);
    }
    while i < nodes.len()
        invariant
            all == models(terms@),
            t == term.model(),
            waits == waits_for(all, t),
            past == gets_past(all, t),
            odd == unanswerable(all, t),
            i <= nodes@.len(),
            waiting <= i,
            satisfied <= i,
            unparseable_hosts <= i,
            waiting == nodes@.take(i as int).filter(waits).len(),
            satisfied == nodes@.take(i as int).filter(past).len(),
            unparseable_hosts == nodes@.take(i as int).filter(odd).len(),
        decreases nodes.len() - i,
    {
        proof {
            seqs::lemma_filter_take(nodes@, i as int, waits);
            seqs::lemma_filter_take(nodes@, i as int, past);
            seqs::lemma_filter_take(nodes@, i as int, odd);
        }
        if node_in_group(terms, &nodes[i]) {
            let labels = &nodes[i].metadata.labels;
            if term.matches(labels) {
                satisfied = satisfied + 1;
            } else {
                waiting = waiting + 1;
                if term.is_ordered() {
                    if let Some(value) = labels.get(term.key()) {
                        if version::parse(value.as_str()).is_none() {
                            unparseable_hosts = unparseable_hosts + 1;
                        }
                    }
                }
            }
        }
        i = i + 1;
    }
    proof {
        seqs::lemma_take_all(nodes@);
    }
    let key = term.key();
    let (namespace, plan) = match decode_key(key) {
        Some((namespace, plan)) => (namespace.to_owned(), plan.to_owned()),
        None => (String::new(), key.to_owned()),
    };
    let invalid_value = match term.ordered_bound() {
        Some(bound) => version::parse(bound).is_none(),
        None => false,
    };
    DependencyStatus {
        group: bounded(group),
        key: bounded(key),
        provider_namespace: bounded(namespace.as_str()),
        provider_name: bounded(plan.as_str()),
        requirement: bounded(term.render().as_str()),
        waiting,
        satisfied,
        invalid_value,
        malformed_term: term.is_malformed(),
        unparseable_hosts,
    }
}

/// Splits a group's selector into its requirements and counts what each is holding back.
///
/// A Node counts towards a requirement only when it passes every term that is not a dependency, so
/// `satisfied + waiting` is the same denominator for every requirement of the group.
pub fn waits(group: &str, selector: Option<&NodeSelectorTerm>, nodes: &[Node]) -> (res:
    GroupDependencies)
    ensures
        res.reports(group@, selector_terms(selector), nodes@),
{
    let terms: Vec<Term<'_>> = match selector {
        Some(selector) => collect_terms(selector),
        None => Vec::new(),
    };
    let ghost all = models(terms@);
    assert(all =~= selector_terms(selector));
    let ghost p = |term: TermView| is_dependency(term);
    let mut dependencies: Vec<DependencyStatus> = Vec::new();
    let mut i: usize = 0;
    proof {
        seqs::lemma_filter_none(all, p);
    }
    while i < terms.len()
        invariant
            all == models(terms@),
            p == (|term: TermView| is_dependency(term)),
            i <= terms@.len(),
            dependencies@.len() == all.take(i as int).filter(p).len(),
            forall|j: int|
                0 <= j < dependencies@.len() ==> (#[trigger] dependencies@[j]).reports(
                    group@,
                    all.take(i as int).filter(p)[j],
                    all,
                    nodes@,
                ),
        decreases terms.len() - i,
    {
        proof {
            seqs::lemma_filter_take(all, i as int, p);
        }
        assert(all[i as int] == terms@[i as int].model());
        if terms[i].is_dependency() {
            dependencies.push(describe(group, &terms[i], &terms, nodes));
        }
        i = i + 1;
    }
    proof {
        seqs::lemma_take_all(all);
    }
    let waiting_hosts = names_waiting(&terms, nodes);
    GroupDependencies { dependencies, waiting_hosts }
}

/// Every Node of the group either waits for a requirement or has got past it, so waiting and
/// satisfied add up to the same number for every requirement of the group.
pub proof fn waiting_and_satisfied_add_up(
    terms: Seq<TermView>,
    one: TermView,
    other: TermView,
    nodes: Seq<Node>,
)
    ensures
        nodes.filter(waits_for(terms, one)).len() + nodes.filter(gets_past(terms, one)).len()
            == nodes.filter(|node: Node| in_group(terms, node)).len(),
        nodes.filter(waits_for(terms, one)).len() + nodes.filter(gets_past(terms, one)).len()
            == nodes.filter(waits_for(terms, other)).len() + nodes.filter(
            gets_past(terms, other),
        ).len(),
    decreases nodes.len(),
{
    reveal(Seq::filter);
    if nodes.len() > 0 {
        waiting_and_satisfied_add_up(terms, one, other, nodes.drop_last());
    }
}

/// A Node satisfies the whole selector exactly where it is one of the group's and waits for nothing,
/// so the group's named Nodes are those it resolves to and those that wait.
pub proof fn a_group_node_matches_or_waits(selector: NodeSelectorTerm, node: Node)
    requires
        text::sorted(
            match selector.match_labels {
                Some(wanted) => textmap::pair_keys(wanted.pairs()),
                None => Seq::empty(),
            },
        ),
        node.metadata.name is Some,
    ensures
        nodeselector::selector_holds(node.metadata.labels@, selector) <==> in_group(
            terms_of(selector),
            node,
        ) && !waits_at_all(terms_of(selector))(node),
{
    let terms = terms_of(selector);
    let labels = node.metadata.labels@;
    let count = match selector.match_labels {
        Some(wanted) => wanted.pairs().len() as int,
        None => 0,
    };
    if nodeselector::selector_holds(labels, selector) {
        assert forall|i: int| 0 <= i < terms.len() implies term_holds(labels, #[trigger] terms[i]) by {
            if i < count {
                let wanted = selector.match_labels->Some_0;
                textmap::lemma_pairs_map(wanted.pairs(), i);
                assert(wanted@.dom().contains(wanted.pairs()[i].0));
            } else {
                let exprs = selector.match_expressions->Some_0@;
                assert(terms[i] == TermView::Expression(exprs[i - count]));
                assert(nodeselector::expression_holds(labels, exprs[i - count]));
            }
        }
    }
    if in_group(terms, node) && !waits_at_all(terms)(node) {
        assert forall|i: int| 0 <= i < terms.len() implies term_holds(labels, #[trigger] terms[i]) by {}
        if let Some(wanted) = selector.match_labels {
            assert forall|key: Seq<char>| #[trigger] wanted@.dom().contains(key) implies nodeselector::label_is(
                labels,
                key,
                wanted@[key]@,
            ) by {
                let i = textmap::key_index(wanted.pairs(), key);
                textmap::lemma_pairs_map(wanted.pairs(), i);
                assert(term_holds(labels, terms[i]));
            }
        }
        if let Some(exprs) = selector.match_expressions {
            assert forall|i: int| 0 <= i < exprs@.len() implies nodeselector::expression_holds(
                labels,
                #[trigger] exprs@[i],
            ) by {
                assert(terms[count + i] == TermView::Expression(exprs@[i]));
            }
        }
    }
}

/// A requirement waits for another plan exactly where it is on a label of the operator's own and asks for
/// something to be there.
pub proof fn a_dependency_asks_for_an_operators_label(key: Seq<char>, value: Seq<char>, expr: SelectorExpression)
    ensures
        is_dependency(TermView::Equals { key, value }) <==> dependency_keys::operator_key(key),
        is_dependency(TermView::Expression(expr)) <==> dependency_keys::operator_key(expr.key@) && (
        expr.operator is In || expr.operator is Exists || expr.operator is Gt || expr.operator is Ge
            || expr.operator is Lt || expr.operator is Le),
{
}

/// A Node belongs to a group exactly where its labels meet every requirement that waits for no plan.
pub proof fn a_group_is_what_its_other_requirements_select(terms: Seq<TermView>, node: Node, i: int)
    requires
        0 <= i < terms.len(),
    ensures
        !is_dependency(terms[i]) && !term_holds(node.metadata.labels@, terms[i]) ==> !in_group(
            terms,
            node,
        ),
        in_group(terms, node) <==> in_group(terms.remove(i), node) && (is_dependency(terms[i])
            || term_holds(node.metadata.labels@, terms[i])),
        in_group(Seq::<TermView>::empty(), node),
{
    let rest = terms.remove(i);
    if in_group(terms, node) {
        assert forall|k: int| 0 <= k < rest.len() implies term_holds(
            node.metadata.labels@,
            #[trigger] rest[k],
        ) || is_dependency(rest[k]) by {
            let from = if k < i {
                k
            } else {
                k + 1
            };
            assert(terms[from] == rest[k]);
        }
    }
    if in_group(rest, node) && (is_dependency(terms[i]) || term_holds(node.metadata.labels@, terms[i])) {
        assert forall|k: int| 0 <= k < terms.len() implies term_holds(
            node.metadata.labels@,
            #[trigger] terms[k],
        ) || is_dependency(terms[k]) by {
            if k < i {
                assert(rest[k] == terms[k]);
            } else if k > i {
                assert(rest[k - 1] == terms[k]);
            }
        }
    }
}

/// Every requirement of a selector is weighed: the pairs of labels in order, and then the expressions.
pub proof fn every_requirement_is_weighed(selector: NodeSelectorTerm, i: int)
    ensures
        selector.match_labels matches Some(wanted) && 0 <= i < wanted.pairs().len() ==> 0 <= i
            < terms_of(selector).len() && terms_of(selector)[i] == (TermView::Equals {
            key: selector.match_labels->0.pairs()[i].0,
            value: selector.match_labels->0.pairs()[i].1@,
        }),
        selector.match_labels is None && selector.match_expressions is Some && 0 <= i
            < selector.match_expressions->0@.len() ==> terms_of(selector)[i]
            == TermView::Expression(selector.match_expressions->0@[i]),
        selector.match_labels is Some && selector.match_expressions is Some && 0 <= i
            < selector.match_expressions->0@.len() ==> terms_of(
            selector,
        )[selector.match_labels->0.pairs().len() + i] == TermView::Expression(
            selector.match_expressions->0@[i],
        ),
{
}

/// A Node is counted once for each requirement of its group: as satisfied where its labels meet it, and as
/// waiting where they do not.
pub proof fn a_node_is_counted_once_for_a_requirement(
    before: DependencyStatus,
    after: DependencyStatus,
    group: Seq<char>,
    term: TermView,
    terms: Seq<TermView>,
    nodes: Seq<Node>,
    node: Node,
)
    requires
        before.reports(group, term, terms, nodes),
        after.reports(group, term, terms, nodes.push(node)),
    ensures
        in_group(terms, node) && term_holds(node.metadata.labels@, term) ==> after.satisfied
            == before.satisfied + 1 && after.waiting == before.waiting && after.unparseable_hosts
            == before.unparseable_hosts,
        in_group(terms, node) && !term_holds(node.metadata.labels@, term) ==> after.satisfied
            == before.satisfied && after.waiting == before.waiting + 1,
        !in_group(terms, node) ==> after.satisfied == before.satisfied && after.waiting
            == before.waiting && after.unparseable_hosts == before.unparseable_hosts,
        in_group(terms, node) && !term_holds(node.metadata.labels@, term) ==> after.unparseable_hosts
            == before.unparseable_hosts + if is_ordered(term) && node.metadata.labels@.contains_key(
            term_key(term),
        ) && version::version_of(node.metadata.labels@[term_key(term)]@) is None {
            1int
        } else {
            0
        },
{
    reveal(Seq::filter);
    assert(nodes.push(node).drop_last() =~= nodes);
}

/// A requirement that no label can meet is flagged: a list to choose from that is empty, or a comparison with
/// anything but one value; and a comparison with something that is no version is flagged as that.
pub proof fn a_requirement_nothing_can_meet_is_flagged(
    status: DependencyStatus,
    group: Seq<char>,
    expr: SelectorExpression,
    terms: Seq<TermView>,
    nodes: Seq<Node>,
)
    requires
        status.reports(group, TermView::Expression(expr), terms, nodes),
    ensures
        expr.operator is In && (expr.values is None || expr.values->0@.len() == 0)
            ==> status.malformed_term,
        expr.operator is In && expr.values is Some && expr.values->0@.len() > 0
            ==> !status.malformed_term,
        expr.operator is Exists ==> !status.malformed_term && !status.invalid_value,
        (expr.operator is Gt || expr.operator is Ge || expr.operator is Lt || expr.operator is Le)
            && (expr.values is None || expr.values->0@.len() != 1) ==> status.malformed_term
            && !status.invalid_value,
        (expr.operator is Gt || expr.operator is Ge || expr.operator is Lt || expr.operator is Le)
            && expr.values is Some && expr.values->0@.len() == 1 ==> !status.malformed_term && (
        status.invalid_value <==> version::version_of(expr.values->0@[0]@) is None),
        expr.operator is In ==> !status.invalid_value,
{
    if expr.values is Some && expr.values->0@.len() == 1 {
        assert(text::texts(expr.values->0@)[0] == expr.values->0@[0]@);
    }
}

/// A field is reported whole up to a length, and past it as its beginning with a mark that it was cut.
pub proof fn a_field_is_reported_up_to_a_length(text: Seq<char>)
    ensures
        text.len() <= 317 ==> cut(text) == text,
        text.len() > 317 ==> cut(text) == text.take(317) + seq!['\u{2026}'],
{
    if text.len() > 317 {
        assert(cut(text) =~= text.take(317) + seq!['\u{2026}']);
    }
}

/// A dependency names the plan whose label it asks for.
pub proof fn a_dependency_names_its_provider(
    status: DependencyStatus,
    group: Seq<char>,
    term: TermView,
    terms: Seq<TermView>,
    nodes: Seq<Node>,
    namespace: Seq<char>,
    plan: Seq<char>,
)
    requires
        status.reports(group, term, terms, nodes),
        term_key(term) == dependency_keys::key_of(namespace, plan),
        namespace.len() > 0,
        plan.len() > 0,
        !namespace.contains('/'),
    ensures
        status.provider_namespace@ == cut(namespace),
        status.provider_name@ == cut(plan),
        status.group@ == cut(group),
        status.key@ == cut(dependency_keys::key_of(namespace, plan)),
{
    dependency_keys::key_decodes_to_its_plan(namespace, plan);
}

/// A requirement is shown as it is written.
pub proof fn a_requirement_is_shown_as_written(expr: SelectorExpression, value: Seq<char>, key: Seq<char>)
    ensures
        rendered(TermView::Equals { key, value }) == "= "@ + value,
        expr.operator is Exists ==> rendered(TermView::Expression(expr)) == "Exists"@,
        nodeselector::listed(expr) == seq![value] ==> (expr.operator is Ge ==> rendered(
            TermView::Expression(expr),
        ) == "Ge"@ + " "@ + value) && (expr.operator is Gt ==> rendered(TermView::Expression(expr))
            == "Gt"@ + " "@ + value) && (expr.operator is Le ==> rendered(TermView::Expression(expr))
            == "Le"@ + " "@ + value) && (expr.operator is Lt ==> rendered(TermView::Expression(expr))
            == "Lt"@ + " "@ + value),
        expr.operator is In ==> rendered(TermView::Expression(expr)) == "In"@ + " ["@ + search::join(
            nodeselector::listed(expr),
            ", "@,
        ) + "]"@,
{
}

} // verus!
