//! A map from strings, kept in the order of its keys.

use vstd::prelude::*;
use crate::text;
use crate::text::{text_eq, text_less};

verus! {

/// Whether one of the pairs has this key.
pub open spec fn has_key<V>(pairs: Seq<(Seq<char>, V)>, key: Seq<char>) -> bool {
    exists|i: int| 0 <= i < pairs.len() && (#[trigger] pairs[i]).0 == key
}

/// Where a key stands among the pairs, if it does.
pub open spec fn key_index<V>(pairs: Seq<(Seq<char>, V)>, key: Seq<char>) -> int {
    choose|i: int| 0 <= i < pairs.len() && (#[trigger] pairs[i]).0 == key
}

/// The map that the pairs write down.
pub open spec fn pairs_map<V>(pairs: Seq<(Seq<char>, V)>) -> Map<Seq<char>, V> {
    Map::new(
        |key: Seq<char>| has_key(pairs, key),
        |key: Seq<char>| pairs[key_index(pairs, key)].1,
    )
}

/// The keys of the pairs.
pub open spec fn pair_keys<V>(pairs: Seq<(Seq<char>, V)>) -> Seq<Seq<char>> {
    pairs.map_values(|p: (Seq<char>, V)| p.0)
}

/// With no key twice, each pair is an entry of the map.
pub proof fn lemma_pairs_map<V>(pairs: Seq<(Seq<char>, V)>, i: int)
    requires
        text::sorted(pair_keys(pairs)),
        0 <= i < pairs.len(),
    ensures
        pairs_map(pairs).dom().contains(pairs[i].0),
        pairs_map(pairs)[pairs[i].0] == pairs[i].1,
{
    let key = pairs[i].0;
    assert(has_key(pairs, key));
    let j = key_index(pairs, key);
    let keys = pair_keys(pairs);
    assert(keys[i] == key && keys[j] == key);
    text::lemma_text_lt_irreflexive(key);
    assert(i == j);
}

/// A map from strings. Its entries are listed in increasing order of their keys.
#[derive(Debug, PartialEq)]
pub struct TextMap<V> {
    entries: Vec<(String, V)>,
}

impl<V> View for TextMap<V> {
    type V = Map<Seq<char>, V>;

    open spec fn view(&self) -> Map<Seq<char>, V> {
        pairs_map(self.pairs())
    }
}

impl<V> TextMap<V> {
    /// The entries in the order of their keys.
    pub closed spec fn pairs(&self) -> Seq<(Seq<char>, V)> {
        self.entries@.map_values(|e: (String, V)| (e.0@, e.1))
    }

    #[verifier::type_invariant]
    spec fn keys_increase(&self) -> bool {
        text::sorted(pair_keys(self.pairs()))
    }

    /// A map with no entries.
    pub fn new() -> (res: Self)
        ensures
            res@ == Map::<Seq<char>, V>::empty(),
            res.pairs() == Seq::<(Seq<char>, V)>::empty(),
    {
        let res = TextMap { entries: Vec::new() };
        proof {
            assert(res.pairs() =~= Seq::<(Seq<char>, V)>::empty());
            assert(res@ =~= Map::<Seq<char>, V>::empty());
        }
        res
    }

    /// How many entries the map has. Its keys are listed in increasing order.
    pub fn len(&self) -> (res: usize)
        ensures
            res == self.pairs().len(),
            text::sorted(pair_keys(self.pairs())),
    {
        proof {
            use_type_invariant(self);
        }
        self.entries.len()
    }

    /// Whether the map has no entries.
    pub fn is_empty(&self) -> (res: bool)
        ensures
            res == (self.pairs().len() == 0),
    {
        self.entries.len() == 0
    }

    /// The entry at `i`, in the order of the keys.
    pub fn entry(&self, i: usize) -> (res: (&str, &V))
        requires
            i < self.pairs().len(),
        ensures
            res.0@ == self.pairs()[i as int].0,
            *res.1 == self.pairs()[i as int].1,
    {
        let entry = &self.entries[i];
        (entry.0.as_str(), &entry.1)
    }

    fn position(&self, key: &str) -> (res: usize)
        ensures
            res <= self.entries@.len(),
            forall|j: int| 0 <= j < res ==> text::text_lt((#[trigger] self.pairs()[j]).0, key@),
            res < self.entries@.len() ==> !text::text_lt(self.pairs()[res as int].0, key@),
    {
        let mut i: usize = 0;
        while i < self.entries.len() && text_less(self.entries[i].0.as_str(), key)
            invariant
                i <= self.entries@.len(),
                forall|j: int| 0 <= j < i ==> text::text_lt((#[trigger] self.pairs()[j]).0, key@),
            decreases self.entries.len() - i,
        {
            i = i + 1;
        }
        i
    }

    /// The value under a key.
    pub fn get(&self, key: &str) -> (res: Option<&V>)
        ensures
            match res {
                Some(v) => self@.dom().contains(key@) && self@[key@] == *v,
                None => !self@.dom().contains(key@),
            },
    {
        proof {
            use_type_invariant(self);
        }
        let i = self.position(key);
        let ghost pairs = self.pairs();
        let ghost keys = pair_keys(pairs);
        if i < self.entries.len() && text_eq(self.entries[i].0.as_str(), key) {
            proof {
                lemma_pairs_map(pairs, i as int);
            }
            return Some(&self.entries[i].1);
        }
        proof {
            if has_key(pairs, key@) {
                let j = choose|j: int| 0 <= j < pairs.len() && (#[trigger] pairs[j]).0 == key@;
                text::lemma_text_lt_irreflexive(key@);
                assert(keys[j] == key@ && keys[i as int] == pairs[i as int].0);
                if j > i {
                    assert(text::text_lt(keys[i as int], keys[j]));
                }
            }
        }
        None
    }

    /// Whether the map has a key.
    pub fn contains_key(&self, key: &str) -> (res: bool)
        ensures
            res == self@.dom().contains(key@),
    {
        self.get(key).is_some()
    }

    /// Sets the value under a key.
    pub fn insert(&mut self, key: String, value: V)
        ensures
            final(self)@ == old(self)@.insert(key@, value),
    {
        proof {
            use_type_invariant(&*self);
        }
        let i = self.position(key.as_str());
        let ghost before = self.pairs();
        let ghost keys = pair_keys(before);
        let ghost k = key@;
        let mut entries: Vec<(String, V)> = Vec::new();
        std::mem::swap(&mut entries, &mut self.entries);
        let replace = i < entries.len() && entries[i].0 == key;
        proof {
            if i < entries@.len() {
                assert(keys[i as int] == before[i as int].0);
                text::lemma_text_lt_total(before[i as int].0, k);
            }
        }
        if replace {
            entries.set(i, (key, value));
        } else {
            entries.insert(i, (key, value));
        }
        let ghost after = entries@.map_values(|e: (String, V)| (e.0@, e.1));
        proof {
            if replace {
                assert(after =~= before.update(i as int, (k, value)));
                assert(pair_keys(after) =~= keys);
            } else {
                assert(after =~= before.insert(i as int, (k, value)));
                assert(pair_keys(after) =~= keys.insert(i as int, k));
                assert forall|a: int, b: int|
                    #![trigger pair_keys(after)[a], pair_keys(after)[b]]
                    0 <= a < b < after.len() implies text::text_lt(
                    pair_keys(after)[a],
                    pair_keys(after)[b],
                ) by {
                    if a == i {
                        if i < keys.len() && b - 1 > i {
                            assert(keys[b - 1] == before[b - 1].0);
                            text::lemma_text_lt_transitive(k, keys[i as int], keys[b - 1]);
                        }
                    } else if b == i {
                        assert(before[a].0 == keys[a]);
                    }
                }
            }
            lemma_insert(before, after, i as int, k, value, replace);
        }
        self.entries = entries;
    }

    /// Removes a key, if it is there.
    pub fn remove(&mut self, key: &str)
        ensures
            final(self)@ == old(self)@.remove(key@),
    {
        proof {
            use_type_invariant(&*self);
        }
        let i = self.position(key);
        let ghost before = self.pairs();
        let ghost keys = pair_keys(before);
        let mut entries: Vec<(String, V)> = Vec::new();
        std::mem::swap(&mut entries, &mut self.entries);
        let ghost full = entries@;
        if i < entries.len() && text_eq(entries[i].0.as_str(), key) {
            entries.remove(i);
            let ghost after = entries@.map_values(|e: (String, V)| (e.0@, e.1));
            proof {
                assert(after =~= before.remove(i as int));
                assert(pair_keys(after) =~= keys.remove(i as int));
                assert(pairs_map(after) =~= pairs_map(before).remove(key@)) by {
                    assert forall|q: Seq<char>| has_key(after, q) <==> has_key(before, q) && q
                        != key@ by {
                        text::lemma_text_lt_irreflexive(q);
                        if has_key(after, q) {
                            let j = choose|j: int|
                                0 <= j < after.len() && (#[trigger] after[j]).0 == q;
                            let b = if j < i {
                                j
                            } else {
                                j + 1
                            };
                            assert(before[b].0 == q);
                            assert(keys[b] == q && keys[i as int] == key@);
                        }
                        if has_key(before, q) && q != key@ {
                            let j = choose|j: int|
                                0 <= j < before.len() && (#[trigger] before[j]).0 == q;
                            let a = if j < i {
                                j
                            } else {
                                j - 1
                            };
                            assert(after[a].0 == q);
                        }
                    }
                    assert forall|q: Seq<char>| has_key(after, q) implies pairs_map(after)[q]
                        == pairs_map(before)[q] by {
                        let j = choose|j: int| 0 <= j < after.len() && (#[trigger] after[j]).0 == q;
                        lemma_pairs_map(after, j);
                        let b = if j < i {
                            j
                        } else {
                            j + 1
                        };
                        lemma_pairs_map(before, b);
                    }
                }
            }
        } else {
            proof {
                assert(entries@.map_values(|e: (String, V)| (e.0@, e.1)) =~= before);
                if has_key(before, key@) {
                    let j = choose|j: int| 0 <= j < before.len() && (#[trigger] before[j]).0 == key@;
                    text::lemma_text_lt_irreflexive(key@);
                    assert(keys[j] == key@ && keys[i as int] == before[i as int].0);
                    if j > i {
                        assert(text::text_lt(keys[i as int], keys[j]));
                    }
                }
                assert(pairs_map(before).remove(key@) =~= pairs_map(before));
            }
        }
        self.entries = entries;
    }
}

impl<V> Default for TextMap<V> {
    fn default() -> (res: Self)
        ensures
            res@ == Map::<Seq<char>, V>::empty(),
            res.pairs() == Seq::<(Seq<char>, V)>::empty(),
    {
        TextMap::new()
    }
}

impl<V: Clone> Clone for TextMap<V> {
    /// A map with the same keys, each with a clone of its value.
    fn clone(&self) -> (res: Self)
        ensures
            pair_keys(res.pairs()) == pair_keys(self.pairs()),
            forall|i: int|
                0 <= i < self.pairs().len() ==> cloned::<V>(
                    self.pairs()[i].1,
                    (#[trigger] res.pairs()[i]).1,
                ),
    {
        proof {
            use_type_invariant(self);
        }
        let mut entries: Vec<(String, V)> = Vec::new();
        let mut i: usize = 0;
        while i < self.entries.len()
            invariant
                i <= self.entries@.len(),
                entries@.len() == i,
                forall|j: int| 0 <= j < i ==> (#[trigger] entries@[j]).0 == self.entries@[j].0,
                forall|j: int|
                    0 <= j < i ==> cloned::<V>(self.entries@[j].1, (#[trigger] entries@[j]).1),
            decreases self.entries.len() - i,
        {
            let entry = &self.entries[i];
            entries.push((entry.0.clone(), entry.1.clone()));
            i = i + 1;
        }
        proof {
            let pairs = entries@.map_values(|e: (String, V)| (e.0@, e.1));
            assert(pair_keys(pairs) =~= pair_keys(self.pairs()));
        }
        TextMap { entries }
    }
}

/// The characters of the values of a map of strings.
pub open spec fn label_texts(labels: Map<Seq<char>, String>) -> Map<Seq<char>, Seq<char>> {
    labels.map_values(|s: String| s@)
}

/// Sets one entry of a map of strings.
pub fn set_text(labels: &mut TextMap<String>, key: &str, value: &str)
    ensures
        label_texts(final(labels)@) == label_texts(old(labels)@).insert(key@, value@),
{
    labels.insert(key.to_owned(), value.to_owned());
    assert(label_texts(labels@) =~= label_texts(old(labels)@).insert(key@, value@));
}

/// A map of strings with no entries.
pub fn no_texts() -> (res: TextMap<String>)
    ensures
        label_texts(res@) == Map::<Seq<char>, Seq<char>>::empty(),
{
    let res: TextMap<String> = TextMap::new();
    assert(label_texts(res@) =~= Map::<Seq<char>, Seq<char>>::empty());
    res
}

proof fn lemma_insert<V>(
    before: Seq<(Seq<char>, V)>,
    after: Seq<(Seq<char>, V)>,
    i: int,
    k: Seq<char>,
    value: V,
    replace: bool,
)
    requires
        text::sorted(pair_keys(before)),
        text::sorted(pair_keys(after)),
        0 <= i <= before.len(),
        replace ==> i < before.len() && before[i].0 == k && after == before.update(i, (k, value)),
        !replace ==> after == before.insert(i, (k, value)),
    ensures
        pairs_map(after) == pairs_map(before).insert(k, value),
{
    assert(after[i] == (k, value));
    lemma_pairs_map(after, i);
    assert forall|q: Seq<char>| has_key(after, q) <==> has_key(before, q) || q == k by {
        if has_key(after, q) {
            let j = choose|j: int| 0 <= j < after.len() && (#[trigger] after[j]).0 == q;
            if j != i {
                let b = if replace || j < i {
                    j
                } else {
                    j - 1
                };
                assert(before[b].0 == q);
            }
        }
        if has_key(before, q) {
            let j = choose|j: int| 0 <= j < before.len() && (#[trigger] before[j]).0 == q;
            let a = if replace || j < i {
                j
            } else {
                j + 1
            };
            assert(after[a].0 == q);
        }
    }
    assert forall|q: Seq<char>| has_key(after, q) && q != k implies pairs_map(after)[q]
        == pairs_map(before)[q] by {
        let j = choose|j: int| 0 <= j < after.len() && (#[trigger] after[j]).0 == q;
        lemma_pairs_map(after, j);
        let b = if replace || j < i {
            j
        } else {
            j - 1
        };
        lemma_pairs_map(before, b);
    }
    assert(pairs_map(after) =~= pairs_map(before).insert(k, value));
}

} // verus!
