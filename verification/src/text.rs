//! Text primitives, stated over sequences of characters.
//!
//! Every string is modelled by the sequence of its characters, and the order of strings is the
//! order of their code points, which is also the byte order of their UTF-8 encodings.

use vstd::prelude::*;

verus! {

/// `String::push` appends one character.
pub assume_specification[ String::push ](s: &mut String, c: char)
    ensures
        final(s)@ == old(s)@.push(c),
;

/// The characters of a sequence of strings.
pub open spec fn texts(strings: Seq<String>) -> Seq<Seq<char>> {
    strings.map_values(|s: String| s@)
}

/// The characters of an optional string.
pub open spec fn text_of(s: Option<String>) -> Option<Seq<char>> {
    match s {
        Some(s) => Some(s@),
        None => None,
    }
}

/// The characters of an optional borrowed string.
pub open spec fn str_of(s: Option<&str>) -> Option<Seq<char>> {
    match s {
        Some(s) => Some(s@),
        None => None,
    }
}

/// The characters of a string, one by one.
pub fn to_chars(s: &str) -> (res: Vec<char>)
    ensures
        res@ == s@,
{
    let mut out: Vec<char> = Vec::new();
    for c in it: s.chars()
        invariant
            out@ == it.seq().take(it.index() as int),
            it.seq() == s@,
    {
        out.push(c);
    }
    out
}

/// The string made of the characters of `chars` from `from` up to `to`.
pub fn slice_chars(chars: &[char], from: usize, to: usize) -> (res: String)
    requires
        from <= to <= chars@.len(),
    ensures
        res@ == chars@.subrange(from as int, to as int),
{
    let mut out = String::new();
    let mut i: usize = from;
    while i < to
        invariant
            from <= i <= to <= chars@.len(),
            out@ == chars@.subrange(from as int, i as int),
        decreases to - i,
    {
        out.push(chars[i]);
        i = i + 1;
    }
    out
}

/// Two strings, one after the other.
pub fn concat(a: &str, b: &str) -> (res: String)
    ensures
        res@ == a@ + b@,
{
    let mut out = a.to_owned();
    out.append(b);
    out
}

/// Three strings, one after the other.
pub fn concat3(a: &str, b: &str, c: &str) -> (res: String)
    ensures
        res@ == a@ + b@ + c@,
{
    let mut out = a.to_owned();
    out.append(b);
    out.append(c);
    out
}

/// A copy of a list of strings.
pub fn clone_strings(strings: &[String]) -> (res: Vec<String>)
    ensures
        res@ == strings@,
{
    let mut out: Vec<String> = Vec::new();
    let mut i: usize = 0;
    while i < strings.len()
        invariant
            i <= strings.len(),
            out@ == strings@.take(i as int),
        decreases strings.len() - i,
    {
        out.push(strings[i].clone());
        i = i + 1;
    }
    out
}

/// A copy of an optional string.
pub fn clone_optional(s: &Option<String>) -> (res: Option<String>)
    ensures
        res == *s,
{
    match s {
        Some(s) => Some(s.clone()),
        None => None,
    }
}

/// Whether an optional string holds exactly `expected`.
pub fn optional_is(s: &Option<String>, expected: &str) -> (res: bool)
    ensures
        res == (text_of(*s) == Some(expected@)),
{
    match s {
        Some(s) => text_eq(s.as_str(), expected),
        None => false,
    }
}

/// Whether two optional strings are equal.
pub fn optional_eq(a: &Option<String>, b: &Option<String>) -> (res: bool)
    ensures
        res == (text_of(*a) == text_of(*b)),
{
    match (a, b) {
        (Some(a), Some(b)) => *a == *b,
        (None, None) => true,
        _ => false,
    }
}

/// Whether one of the strings is `wanted`.
pub fn contains_text(strings: &[String], wanted: &str) -> (res: bool)
    ensures
        res == texts(strings@).contains(wanted@),
{
    let mut i: usize = 0;
    while i < strings.len()
        invariant
            i <= strings.len(),
            forall|j: int| 0 <= j < i ==> texts(strings@)[j] != wanted@,
        decreases strings.len() - i,
    {
        if text_eq(strings[i].as_str(), wanted) {
            assert(texts(strings@)[i as int] == wanted@);
            return true;
        }
        i = i + 1;
    }
    false
}

// --- order -----------------------------------------------------------------------------------

/// Whether `a` sorts strictly before `b`.
pub open spec fn text_lt(a: Seq<char>, b: Seq<char>) -> bool
    decreases a.len(),
{
    if b.len() == 0 {
        false
    } else if a.len() == 0 {
        true
    } else if a[0] != b[0] {
        (a[0] as int) < (b[0] as int)
    } else {
        text_lt(a.drop_first(), b.drop_first())
    }
}

pub proof fn lemma_text_lt_irreflexive(a: Seq<char>)
    ensures
        !text_lt(a, a),
    decreases a.len(),
{
    if a.len() > 0 {
        lemma_text_lt_irreflexive(a.drop_first());
    }
}

pub proof fn lemma_text_lt_transitive(a: Seq<char>, b: Seq<char>, c: Seq<char>)
    requires
        text_lt(a, b),
        text_lt(b, c),
    ensures
        text_lt(a, c),
    decreases a.len(),
{
    if a.len() > 0 && a[0] == b[0] && b[0] == c[0] {
        lemma_text_lt_transitive(a.drop_first(), b.drop_first(), c.drop_first());
    }
}

pub proof fn lemma_text_lt_total(a: Seq<char>, b: Seq<char>)
    ensures
        a == b || text_lt(a, b) || text_lt(b, a),
    decreases a.len(),
{
    if a.len() > 0 && b.len() > 0 && a[0] == b[0] {
        lemma_text_lt_total(a.drop_first(), b.drop_first());
        if a.drop_first() == b.drop_first() {
            assert(a =~= seq![a[0]] + a.drop_first());
            assert(b =~= seq![b[0]] + b.drop_first());
        }
    } else if a.len() == 0 && b.len() == 0 {
        assert(a =~= b);
    }
}

/// Whether two texts are the same.
pub(crate) fn text_eq(a: &str, b: &str) -> (res: bool)
    ensures
        res == (a@ == b@),
{
    let xs = to_chars(a);
    let ys = to_chars(b);
    if xs.len() != ys.len() {
        return false;
    }
    let mut i: usize = 0;
    while i < xs.len()
        invariant
            xs@ == a@,
            ys@ == b@,
            xs@.len() == ys@.len(),
            i <= xs@.len(),
            xs@.take(i as int) == ys@.take(i as int),
        decreases xs.len() - i,
    {
        if xs[i] != ys[i] {
            return false;
        }
        assert(xs@.take(i + 1) =~= xs@.take(i as int).push(xs@[i as int]));
        assert(ys@.take(i + 1) =~= ys@.take(i as int).push(ys@[i as int]));
        i = i + 1;
    }
    assert(xs@.take(i as int) =~= xs@);
    assert(ys@.take(i as int) =~= ys@);
    true
}

/// Whether the code point of `x` is below that of `y`.
fn char_less(x: char, y: char) -> (res: bool)
    ensures
        res == ((x as int) < (y as int)),
{
    x < y
}

/// Whether `a` sorts strictly before `b`.
pub fn text_less(a: &str, b: &str) -> (res: bool)
    ensures
        res == text_lt(a@, b@),
{
    let xs = to_chars(a);
    let ys = to_chars(b);
    let mut i: usize = 0;
    assert(xs@.skip(0) =~= xs@ && ys@.skip(0) =~= ys@);
    while i < xs.len() && i < ys.len()
        invariant
            xs@ == a@,
            ys@ == b@,
            i <= xs.len(),
            i <= ys.len(),
            text_lt(a@, b@) == text_lt(xs@.skip(i as int), ys@.skip(i as int)),
        decreases xs.len() - i,
    {
        let x = xs[i];
        let y = ys[i];
        if x != y {
            return char_less(x, y);
        }
        assert(xs@.skip(i as int).drop_first() =~= xs@.skip(i + 1));
        assert(ys@.skip(i as int).drop_first() =~= ys@.skip(i + 1));
        i = i + 1;
    }
    i < ys.len()
}

/// Strictly increasing texts: sorted, and none occurs twice.
pub open spec fn sorted(keys: Seq<Seq<char>>) -> bool {
    forall|i: int, j: int|
        #![trigger keys[i], keys[j]]
        0 <= i < j < keys.len() ==> text_lt(keys[i], keys[j])
}

/// Two strictly increasing lists over the same texts are the same list.
pub proof fn lemma_sorted_unique(a: Seq<Seq<char>>, b: Seq<Seq<char>>)
    requires
        sorted(a),
        sorted(b),
        forall|k: Seq<char>| a.contains(k) <==> b.contains(k),
    ensures
        a == b,
    decreases a.len(),
{
    if a.len() == 0 {
        if b.len() > 0 {
            assert(b.contains(b[0]));
        }
        assert(a =~= b);
    } else if b.len() == 0 {
        assert(a.contains(a[0]));
    } else {
        let x = a.last();
        let y = b.last();
        if x != y {
            lemma_text_lt_total(x, y);
            assert(a.contains(x) && b.contains(y));
            if text_lt(x, y) {
                let i = choose|i: int| 0 <= i < a.len() && a[i] == y;
                if i < a.len() - 1 {
                    lemma_text_lt_transitive(x, y, x);
                }
                lemma_text_lt_irreflexive(x);
            } else {
                let i = choose|i: int| 0 <= i < b.len() && b[i] == x;
                if i < b.len() - 1 {
                    lemma_text_lt_transitive(y, x, y);
                }
                lemma_text_lt_irreflexive(y);
            }
        }
        let a1 = a.drop_last();
        let b1 = b.drop_last();
        assert forall|k: Seq<char>| a1.contains(k) <==> b1.contains(k) by {
            lemma_text_lt_irreflexive(x);
            if a1.contains(k) {
                let i = choose|i: int| 0 <= i < a1.len() && a1[i] == k;
                assert(a[i] == k && a.contains(k));
                let j = choose|j: int| 0 <= j < b.len() && b[j] == k;
                assert(j < b.len() - 1);
                assert(b1[j] == k);
            }
            if b1.contains(k) {
                let i = choose|i: int| 0 <= i < b1.len() && b1[i] == k;
                assert(b[i] == k && b.contains(k));
                let j = choose|j: int| 0 <= j < a.len() && a[j] == k;
                assert(j < a.len() - 1);
                assert(a1[j] == k);
            }
        }
        lemma_sorted_unique(a1, b1);
        assert(a =~= a1.push(x));
        assert(b =~= b1.push(y));
    }
}

/// Puts `item` in its place in a strictly increasing list, unless it is already there.
pub fn insert_sorted(list: &mut Vec<String>, item: String)
    requires
        sorted(texts(old(list)@)),
    ensures
        sorted(texts(final(list)@)),
        forall|k: Seq<char>|
            texts(final(list)@).contains(k) <==> texts(old(list)@).contains(k) || k == item@,
{
    let ghost before = texts(list@);
    let mut i: usize = 0;
    while i < list.len() && text_less(list[i].as_str(), item.as_str())
        invariant
            i <= list.len(),
            before == texts(list@),
            forall|j: int| 0 <= j < i ==> text_lt(#[trigger] before[j], item@),
        decreases list.len() - i,
    {
        i = i + 1;
    }
    if i < list.len() && list[i] == item {
        assert(before[i as int] == item@);
        return;
    }
    proof {
        if i < list.len() {
            lemma_text_lt_total(before[i as int], item@);
            assert forall|j: int| i < j < before.len() implies text_lt(item@, #[trigger] before[j]) by {
                lemma_text_lt_transitive(item@, before[i as int], before[j]);
            }
        }
    }
    let ghost key = item@;
    list.insert(i, item);
    proof {
        let after = texts(list@);
        assert(after =~= before.insert(i as int, key));
        assert forall|k: Seq<char>| after.contains(k) <==> before.contains(k) || k == key by {
            if before.contains(k) {
                let j = choose|j: int| 0 <= j < before.len() && before[j] == k;
                if j < i {
                    assert(after[j] == k);
                } else {
                    assert(after[j + 1] == k);
                }
            }
            if k == key {
                assert(after[i as int] == k);
            }
            if after.contains(k) {
                let j = choose|j: int| 0 <= j < after.len() && after[j] == k;
                if j < i {
                    assert(before[j] == k);
                } else if j > i {
                    assert(before[j - 1] == k);
                }
            }
        }
    }
}

/// One more element of a prefix is one more element it contains.
pub proof fn lemma_take_contains<A>(s: Seq<A>, i: int, k: A)
    requires
        0 <= i < s.len(),
    ensures
        s.take(i + 1).contains(k) <==> s.take(i).contains(k) || k == s[i],
{
    let shorter = s.take(i);
    let longer = s.take(i + 1);
    if shorter.contains(k) {
        let j = choose|j: int| 0 <= j < shorter.len() && shorter[j] == k;
        assert(longer[j] == k);
    }
    if k == s[i] {
        assert(longer[i] == k);
    }
    if longer.contains(k) {
        let j = choose|j: int| 0 <= j < longer.len() && longer[j] == k;
        if j < i {
            assert(shorter[j] == k);
        }
    }
}

/// The distinct strings of `strings`, sorted.
pub fn sorted_distinct(strings: &[String]) -> (res: Vec<String>)
    ensures
        sorted(texts(res@)),
        forall|k: Seq<char>| texts(res@).contains(k) <==> texts(strings@).contains(k),
{
    let mut out: Vec<String> = Vec::new();
    let mut i: usize = 0;
    while i < strings.len()
        invariant
            i <= strings.len(),
            sorted(texts(out@)),
            forall|k: Seq<char>|
                texts(out@).contains(k) <==> texts(strings@).take(i as int).contains(k),
        decreases strings.len() - i,
    {
        let ghost seen = texts(strings@);
        let item = strings[i].clone();
        assert(item@ == seen[i as int]);
        insert_sorted(&mut out, item);
        proof {
            assert forall|k: Seq<char>| texts(out@).contains(k) <==> seen.take(i + 1).contains(k) by {
                lemma_take_contains(seen, i as int, k);
            }
        }
        i = i + 1;
    }
    proof {
        assert(texts(strings@).take(strings@.len() as int) =~= texts(strings@));
    }
    out
}

/// Of two texts that agree up to some place, the one that ends there sorts first, and where neither ends the one
/// whose character there comes first.
pub proof fn texts_sort_by_their_first_difference(a: Seq<char>, b: Seq<char>, i: int)
    requires
        0 <= i <= a.len(),
        i <= b.len(),
        forall|k: int| 0 <= k < i ==> a[k] == #[trigger] b[k],
        i < a.len() && i < b.len() ==> a[i] != b[i],
    ensures
        i == b.len() ==> !text_lt(a, b),
        i == a.len() && i < b.len() ==> text_lt(a, b),
        i < a.len() && i < b.len() ==> text_lt(a, b) == ((a[i] as int) < (b[i] as int)),
    decreases i,
{
    if i > 0 {
        let x = a.drop_first();
        let y = b.drop_first();
        assert(a[0] == b[0]);
        assert forall|k: int| 0 <= k < i - 1 implies x[k] == #[trigger] y[k] by {
            assert(a[k + 1] == b[k + 1]);
        }
        texts_sort_by_their_first_difference(x, y, i - 1);
    }
}

/// Texts are taken one for one, and an optional text is one exactly where there is a string.
pub proof fn texts_are_their_strings(strings: Seq<String>, optional: Option<String>, i: int)
    ensures
        texts(strings).len() == strings.len(),
        0 <= i < strings.len() ==> texts(strings)[i] == strings[i]@,
        optional matches Some(s) ==> text_of(optional) == Some(s@),
        optional is None ==> text_of(optional) is None,
{
}

} // verus!
