//! Facts about sequences that the loops of this crate share.

use vstd::prelude::*;

verus! {

/// Filtering a prefix that is one element longer keeps that element exactly when it passes.
pub proof fn lemma_filter_take<A>(s: Seq<A>, i: int, p: spec_fn(A) -> bool)
    requires
        0 <= i < s.len(),
    ensures
        s.take(i + 1).filter(p) == if p(s[i]) {
            s.take(i).filter(p).push(s[i])
        } else {
            s.take(i).filter(p)
        },
        s.take(i).filter(p).len() <= i,
{
    reveal(Seq::filter);
    assert(s.take(i + 1).drop_last() =~= s.take(i));
    assert(s.take(i + 1).last() == s[i]);
    s.take(i).lemma_filter_len(p);
}

/// The whole sequence is its longest prefix.
pub proof fn lemma_take_all<A>(s: Seq<A>)
    ensures
        s.take(s.len() as int) == s,
{
    assert(s.take(s.len() as int) =~= s);
}

/// Filtering nothing leaves nothing.
pub proof fn lemma_filter_none<A>(s: Seq<A>, p: spec_fn(A) -> bool)
    ensures
        s.take(0).filter(p) == Seq::<A>::empty(),
{
    reveal(Seq::filter);
    assert(s.take(0) =~= Seq::<A>::empty());
}

/// An element of a filtered sequence passes the filter and is an element of the sequence.
pub proof fn lemma_filter_contains<A>(s: Seq<A>, p: spec_fn(A) -> bool, x: A)
    ensures
        s.filter(p).contains(x) <==> s.contains(x) && p(x),
    decreases s.len(),
{
    reveal(Seq::filter);
    if s.len() > 0 {
        let head = s.drop_last();
        lemma_filter_contains(head, p, x);
        let kept = s.filter(p);
        let kept_head = head.filter(p);
        if s.contains(x) && p(x) {
            let i = choose|i: int| 0 <= i < s.len() && s[i] == x;
            if i < s.len() - 1 {
                assert(head[i] == x);
                let j = choose|j: int| 0 <= j < kept_head.len() && kept_head[j] == x;
                assert(kept[j] == x);
            } else {
                assert(kept[kept.len() - 1] == x);
            }
        }
        if kept.contains(x) {
            let j = choose|j: int| 0 <= j < kept.len() && kept[j] == x;
            if j < kept_head.len() {
                assert(kept_head[j] == x);
                let i = choose|i: int| 0 <= i < head.len() && head[i] == x;
                assert(s[i] == x);
            } else {
                assert(s[s.len() - 1] == x);
            }
        }
    }
}

/// A sequence without the elements at its start that pass.
pub open spec fn strip_start<A>(s: Seq<A>, p: spec_fn(A) -> bool) -> Seq<A>
    decreases s.len(),
{
    if s.len() > 0 && p(s[0]) {
        strip_start(s.drop_first(), p)
    } else {
        s
    }
}

/// A sequence without the elements at its end that pass.
pub open spec fn strip_end<A>(s: Seq<A>, p: spec_fn(A) -> bool) -> Seq<A>
    decreases s.len(),
{
    if s.len() > 0 && p(s.last()) {
        strip_end(s.drop_last(), p)
    } else {
        s
    }
}

/// A sequence without the elements around it that pass.
pub open spec fn strip<A>(s: Seq<A>, p: spec_fn(A) -> bool) -> Seq<A> {
    strip_end(strip_start(s, p), p)
}

proof fn lemma_strip_start_after<A>(before: Seq<A>, s: Seq<A>, p: spec_fn(A) -> bool)
    requires
        forall|i: int| 0 <= i < before.len() ==> p(#[trigger] before[i]),
    ensures
        strip_start(before + s, p) == strip_start(s, p),
    decreases before.len(),
{
    if before.len() == 0 {
        assert(before + s =~= s);
    } else {
        let rest = before.drop_first();
        assert forall|i: int| 0 <= i < rest.len() implies p(#[trigger] rest[i]) by {
            assert(rest[i] == before[i + 1]);
        }
        assert((before + s)[0] == before[0]);
        assert((before + s).drop_first() =~= rest + s);
        lemma_strip_start_after(rest, s, p);
    }
}

proof fn lemma_strip_end_before<A>(s: Seq<A>, after: Seq<A>, p: spec_fn(A) -> bool)
    requires
        forall|i: int| 0 <= i < after.len() ==> p(#[trigger] after[i]),
    ensures
        strip_end(s + after, p) == strip_end(s, p),
    decreases after.len(),
{
    if after.len() == 0 {
        assert(s + after =~= s);
    } else {
        let rest = after.drop_last();
        assert((s + after).last() == after[after.len() - 1]);
        assert((s + after).drop_last() =~= s + rest);
        lemma_strip_end_before(s, rest, p);
    }
}

proof fn lemma_strip_start_before<A>(s: Seq<A>, after: Seq<A>, p: spec_fn(A) -> bool)
    requires
        forall|i: int| 0 <= i < after.len() ==> p(#[trigger] after[i]),
    ensures
        strip_end(strip_start(s + after, p), p) == strip(s, p),
    decreases s.len(),
{
    if s.len() == 0 {
        let none = Seq::<A>::empty();
        assert(s + after =~= after + none);
        lemma_strip_start_after(after, none, p);
        assert(s =~= none);
    } else if p(s[0]) {
        assert((s + after)[0] == s[0]);
        assert((s + after).drop_first() =~= s.drop_first() + after);
        lemma_strip_start_before(s.drop_first(), after, p);
    } else {
        assert((s + after)[0] == s[0]);
        lemma_strip_end_before(s, after, p);
    }
}

/// Passing elements put around a sequence are stripped again.
pub proof fn lemma_strip_padded<A>(before: Seq<A>, s: Seq<A>, after: Seq<A>, p: spec_fn(A) -> bool)
    requires
        forall|i: int| 0 <= i < before.len() ==> p(#[trigger] before[i]),
        forall|i: int| 0 <= i < after.len() ==> p(#[trigger] after[i]),
    ensures
        strip(before + s + after, p) == strip(s, p),
{
    assert(before + s + after =~= before + (s + after));
    lemma_strip_start_after(before, s + after, p);
    lemma_strip_start_before(s, after, p);
}

} // verus!
