//! Stable ordering of sequences.

use vstd::prelude::*;

verus! {

/// A strict order whose ties are ties for everyone: what a sort can be keyed by.
pub open spec fn weak_order<A>(before: spec_fn(A, A) -> bool) -> bool {
    &&& forall|a: A, b: A| #[trigger] before(a, b) ==> !before(b, a)
    &&& forall|a: A, b: A, c: A| #![trigger before(a, b), before(c, b)]
        before(a, b) && !before(c, b) ==> before(a, c)
}

/// Where an element goes in an ordered sequence: behind everything it does not precede.
pub open spec fn place<A>(s: Seq<A>, x: A, before: spec_fn(A, A) -> bool) -> int
    decreases s.len(),
{
    if s.len() == 0 || before(x, s[0]) {
        0
    } else {
        1 + place(s.drop_first(), x, before)
    }
}

/// The sequence ordered, with elements that neither precede the other left in their order.
pub open spec fn stable_sorted<A>(s: Seq<A>, before: spec_fn(A, A) -> bool) -> Seq<A>
    decreases s.len(),
{
    if s.len() == 0 {
        s
    } else {
        let rest = stable_sorted(s.drop_last(), before);
        rest.insert(place(rest, s.last(), before), s.last())
    }
}

/// Whether no element precedes an earlier one.
pub open spec fn ordered<A>(s: Seq<A>, before: spec_fn(A, A) -> bool) -> bool {
    forall|i: int, j: int|
        #![trigger s[i], s[j]]
        0 <= i < j < s.len() ==> !before(s[j], s[i])
}

/// `k` is where an element goes exactly when it precedes the one there and none before that.
pub proof fn lemma_place<A>(s: Seq<A>, x: A, before: spec_fn(A, A) -> bool, k: int)
    requires
        0 <= k <= s.len(),
        forall|i: int| 0 <= i < k ==> !before(x, #[trigger] s[i]),
        k < s.len() ==> before(x, s[k]),
    ensures
        place(s, x, before) == k,
    decreases k,
{
    if k > 0 {
        assert(!before(x, s[0]));
        let rest = s.drop_first();
        assert forall|i: int| 0 <= i < k - 1 implies !before(x, #[trigger] rest[i]) by {
            assert(rest[i] == s[i + 1]);
        }
        lemma_place(rest, x, before, k - 1);
    }
}

proof fn lemma_place_bounds<A>(s: Seq<A>, x: A, before: spec_fn(A, A) -> bool)
    ensures
        0 <= place(s, x, before) <= s.len(),
        forall|i: int| 0 <= i < place(s, x, before) ==> !before(x, #[trigger] s[i]),
        place(s, x, before) < s.len() ==> before(x, s[place(s, x, before)]),
    decreases s.len(),
{
    if s.len() != 0 && !before(x, s[0]) {
        let rest = s.drop_first();
        lemma_place_bounds(rest, x, before);
        assert forall|i: int| 0 <= i < place(s, x, before) implies !before(
            x,
            #[trigger] s[i],
        ) by {
            if i > 0 {
                assert(rest[i - 1] == s[i]);
            }
        }
    }
}

/// A stably sorted sequence has the elements it was sorted from, each as often.
pub proof fn stable_sorted_keeps_all<A>(s: Seq<A>, before: spec_fn(A, A) -> bool)
    ensures
        stable_sorted(s, before).to_multiset() == s.to_multiset(),
        stable_sorted(s, before).len() == s.len(),
    decreases s.len(),
{
    broadcast use vstd::seq_lib::group_to_multiset_ensures;

    if s.len() > 0 {
        let rest = stable_sorted(s.drop_last(), before);
        stable_sorted_keeps_all(s.drop_last(), before);
        lemma_place_bounds(rest, s.last(), before);
        assert(s =~= s.drop_last().push(s.last()));
    }
}

/// A stably sorted sequence is ordered.
pub proof fn stable_sorted_is_ordered<A>(s: Seq<A>, before: spec_fn(A, A) -> bool)
    requires
        weak_order(before),
    ensures
        ordered(stable_sorted(s, before), before),
    decreases s.len(),
{
    if s.len() > 0 {
        let x = s.last();
        let rest = stable_sorted(s.drop_last(), before);
        stable_sorted_is_ordered(s.drop_last(), before);
        lemma_place_bounds(rest, x, before);
        let k = place(rest, x, before);
        let out = rest.insert(k, x);
        assert forall|i: int, j: int|
            #![trigger out[i], out[j]]
            0 <= i < j < out.len() implies !before(out[j], out[i]) by {
            if j < k {
                assert(out[i] == rest[i] && out[j] == rest[j]);
            } else if j == k {
                assert(out[i] == rest[i]);
            } else if i < k {
                assert(out[i] == rest[i] && out[j] == rest[j - 1]);
            } else if i == k {
                assert(out[j] == rest[j - 1]);
                assert(before(x, rest[k]));
                if j - 1 > k {
                    assert(!before(rest[j - 1], rest[k]));
                    assert(before(x, rest[j - 1]));
                }
            } else {
                assert(out[i] == rest[i - 1] && out[j] == rest[j - 1]);
            }
        }
    }
}

/// Elements none of which precedes another keep their order.
pub proof fn stable_sorted_keeps_ties<A>(
    s: Seq<A>,
    before: spec_fn(A, A) -> bool,
    tied: spec_fn(A) -> bool,
)
    requires
        weak_order(before),
        forall|a: A, b: A| tied(a) && tied(b) ==> !#[trigger] before(a, b),
    ensures
        stable_sorted(s, before).filter(tied) == s.filter(tied),
    decreases s.len(),
{
    reveal(Seq::filter);
    if s.len() > 0 {
        let x = s.last();
        let rest = stable_sorted(s.drop_last(), before);
        stable_sorted_keeps_ties(s.drop_last(), before, tied);
        stable_sorted_is_ordered(s.drop_last(), before);
        lemma_place_bounds(rest, x, before);
        let k = place(rest, x, before);
        let head = rest.take(k);
        let tail = rest.skip(k);
        assert(rest =~= head + tail);
        assert(rest.insert(k, x) =~= head.push(x) + tail);
        Seq::filter_distributes_over_add(head, tail, tied);
        Seq::filter_distributes_over_add(head.push(x), tail, tied);
        assert(head.push(x).drop_last() =~= head);
        if tied(x) {
            assert forall|i: int| 0 <= i < tail.len() implies !tied(#[trigger] tail[i]) by {
                assert(tail[i] == rest[k + i]);
                assert(before(x, rest[k]));
                if i > 0 {
                    assert(!before(rest[k + i], rest[k]));
                }
                assert(before(x, tail[i]));
            }
            tail.lemma_all_neg_filter_empty(tied);
            assert(head.filter(tied) + tail.filter(tied) =~= head.filter(tied));
            assert(head.filter(tied).push(x) + tail.filter(tied) =~= head.filter(tied).push(x));
        }
    }
}

/// Two ordered sequences of the same elements are the same, where only equal elements tie.
pub proof fn ordered_is_unique<A>(a: Seq<A>, b: Seq<A>, before: spec_fn(A, A) -> bool)
    requires
        weak_order(before),
        ordered(a, before),
        ordered(b, before),
        a.to_multiset() == b.to_multiset(),
        forall|x: A, y: A|
            a.contains(x) && a.contains(y) && !#[trigger] before(x, y) && !before(y, x) ==> x == y,
    ensures
        a == b,
    decreases a.len(),
{
    broadcast use vstd::multiset::group_multiset_axioms;
    broadcast use vstd::seq_lib::group_to_multiset_ensures;

    assert(a.len() == a.to_multiset().len());
    assert(b.len() == b.to_multiset().len());
    if a.len() == 0 {
        assert(a =~= b);
    } else {
        let x = a.last();
        let y = b.last();
        assert(a[a.len() - 1] == x && a.contains(x));
        assert(b[b.len() - 1] == y && b.contains(y));
        assert(b.to_multiset().count(x) > 0);
        assert(a.to_multiset().count(y) > 0);
        assert(a.contains(y) && b.contains(x));
        let i = choose|i: int| 0 <= i < a.len() && a[i] == y;
        let j = choose|j: int| 0 <= j < b.len() && b[j] == x;
        if i < a.len() - 1 {
            assert(!before(a[a.len() - 1], a[i]));
        }
        if j < b.len() - 1 {
            assert(!before(b[b.len() - 1], b[j]));
        }
        assert(x == y);
        let a1 = a.drop_last();
        let b1 = b.drop_last();
        assert(a =~= a1.push(x) && b =~= b1.push(y));
        assert(a1.to_multiset() =~= a.to_multiset().remove(x));
        assert(b1.to_multiset() =~= b.to_multiset().remove(y));
        assert forall|p: A, q: A|
            a1.contains(p) && a1.contains(q) && !#[trigger] before(p, q) && !before(q, p) implies p
            == q by {
            let m = choose|m: int| 0 <= m < a1.len() && a1[m] == p;
            let n = choose|n: int| 0 <= n < a1.len() && a1[n] == q;
            assert(a[m] == p && a[n] == q);
            assert(a.contains(p) && a.contains(q));
        }
        ordered_is_unique(a1, b1, before);
    }
}

} // verus!
