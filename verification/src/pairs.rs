//! Sorted lists of pairs of strings.

use vstd::prelude::*;
use crate::text;
use crate::text::{text_eq, text_less};

verus! {

/// A pair of strings as the model reads it.
pub open spec fn pair_of(p: (String, String)) -> (Seq<char>, Seq<char>) {
    (p.0@, p.1@)
}

/// The characters of a list of pairs.
pub open spec fn pair_texts(pairs: Seq<(String, String)>) -> Seq<(Seq<char>, Seq<char>)> {
    pairs.map_values(|p: (String, String)| pair_of(p))
}

/// Whether one pair sorts strictly before another: by the first strings, then by the second.
pub open spec fn pair_lt(a: (Seq<char>, Seq<char>), b: (Seq<char>, Seq<char>)) -> bool {
    text::text_lt(a.0, b.0) || (a.0 == b.0 && text::text_lt(a.1, b.1))
}

/// Strictly increasing pairs: sorted, and none occurs twice.
pub open spec fn pairs_sorted(pairs: Seq<(Seq<char>, Seq<char>)>) -> bool {
    forall|i: int, j: int|
        #![trigger pairs[i], pairs[j]]
        0 <= i < j < pairs.len() ==> pair_lt(pairs[i], pairs[j])
}

proof fn lemma_pair_lt_transitive(
    a: (Seq<char>, Seq<char>),
    b: (Seq<char>, Seq<char>),
    c: (Seq<char>, Seq<char>),
)
    requires
        pair_lt(a, b),
        pair_lt(b, c),
    ensures
        pair_lt(a, c),
{
    if text::text_lt(a.0, b.0) && text::text_lt(b.0, c.0) {
        text::lemma_text_lt_transitive(a.0, b.0, c.0);
    }
    if text::text_lt(a.1, b.1) && text::text_lt(b.1, c.1) {
        text::lemma_text_lt_transitive(a.1, b.1, c.1);
    }
}

fn pair_less(a: &(String, String), b: &(String, String)) -> (res: bool)
    ensures
        res == pair_lt(pair_of(*a), pair_of(*b)),
{
    text_less(a.0.as_str(), b.0.as_str()) || (text_eq(a.0.as_str(), b.0.as_str()) && text_less(
        a.1.as_str(),
        b.1.as_str(),
    ))
}

/// Puts a pair in its place in a strictly increasing list, unless it is already there.
pub fn insert_pair(list: &mut Vec<(String, String)>, item: (String, String))
    requires
        pairs_sorted(pair_texts(old(list)@)),
    ensures
        pairs_sorted(pair_texts(final(list)@)),
        forall|k: (Seq<char>, Seq<char>)|
            pair_texts(final(list)@).contains(k) <==> pair_texts(old(list)@).contains(k) || k
                == pair_of(item),
{
    let ghost before = pair_texts(list@);
    let ghost key = pair_of(item);
    let mut i: usize = 0;
    while i < list.len() && pair_less(&list[i], &item)
        invariant
            i <= list.len(),
            key == pair_of(item),
            before == pair_texts(list@),
            forall|j: int| 0 <= j < i ==> pair_lt(#[trigger] before[j], key),
        decreases list.len() - i,
    {
        i = i + 1;
    }
    if i < list.len() && list[i].0 == item.0 && list[i].1 == item.1 {
        assert(before[i as int] == key);
        return;
    }
    proof {
        if i < list.len() {
            text::lemma_text_lt_total(before[i as int].0, key.0);
            text::lemma_text_lt_total(before[i as int].1, key.1);
            assert forall|j: int| i < j < before.len() implies pair_lt(key, #[trigger] before[j]) by {
                lemma_pair_lt_transitive(key, before[i as int], before[j]);
            }
        }
    }
    list.insert(i, item);
    proof {
        let after = pair_texts(list@);
        assert(after =~= before.insert(i as int, key));
        assert forall|k: (Seq<char>, Seq<char>)| after.contains(k) <==> before.contains(k) || k
            == key by {
            if before.contains(k) {
                let j = choose|j: int| 0 <= j < before.len() && before[j] == k;
                if j < i {
                    assert(after[j] == k);
                } else {
                    assert(after[j + 1] == k);
                }
            }
            if k == key {
                assert(after[i as int] == k);
            }
            if after.contains(k) {
                let j = choose|j: int| 0 <= j < after.len() && after[j] == k;
                if j < i {
                    assert(before[j] == k);
                } else if j > i {
                    assert(before[j - 1] == k);
                }
            }
        }
    }
}

/// Pairs sort by their first texts, and by their second where the first are the same.
pub proof fn pairs_sort_by_their_first_text(a: (Seq<char>, Seq<char>), b: (Seq<char>, Seq<char>))
    ensures
        text::text_lt(a.0, b.0) ==> pair_lt(a, b),
        a.0 == b.0 ==> (pair_lt(a, b) <==> text::text_lt(a.1, b.1)),
        text::text_lt(b.0, a.0) ==> !pair_lt(a, b),
{
    if text::text_lt(b.0, a.0) {
        if text::text_lt(a.0, b.0) {
            text::lemma_text_lt_transitive(a.0, b.0, a.0);
        }
        text::lemma_text_lt_irreflexive(a.0);
    }
    if a.0 == b.0 {
        text::lemma_text_lt_irreflexive(a.0);
    }
}

} // verus!
