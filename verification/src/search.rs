//! Finding, splitting, joining and trimming text.

use vstd::prelude::*;
use crate::seqs;
use crate::text;
use crate::text::{slice_chars, to_chars};

verus! {

/// Where `c` first occurs in `s`, or the length of `s` where it does not.
pub open spec fn find_char(s: Seq<char>, c: char) -> int
    decreases s.len(),
{
    if s.len() == 0 || s[0] == c {
        0
    } else {
        1 + find_char(s.drop_first(), c)
    }
}

/// The first occurrence is where it stands and nowhere before.
pub proof fn lemma_find_char(s: Seq<char>, c: char, i: int)
    requires
        0 <= i <= s.len(),
        i < s.len() ==> s[i] == c,
        forall|j: int| 0 <= j < i ==> s[j] != c,
    ensures
        find_char(s, c) == i,
    decreases s.len(),
{
    if i > 0 {
        let rest = s.drop_first();
        assert forall|j: int| 0 <= j < i - 1 implies rest[j] != c by {
            assert(rest[j] == s[j + 1]);
        }
        lemma_find_char(rest, c, i - 1);
    }
}

pub proof fn lemma_find_char_bounds(s: Seq<char>, c: char)
    ensures
        0 <= find_char(s, c) <= s.len(),
        find_char(s, c) < s.len() ==> s[find_char(s, c)] == c,
        forall|j: int| 0 <= j < find_char(s, c) ==> s[j] != c,
        find_char(s, c) < s.len() <==> s.contains(c),
    decreases s.len(),
{
    if s.len() > 0 && s[0] != c {
        let rest = s.drop_first();
        lemma_find_char_bounds(rest, c);
        assert forall|j: int| 0 <= j < find_char(s, c) implies s[j] != c by {
            if j > 0 {
                assert(rest[j - 1] == s[j]);
            }
        }
        if s.contains(c) {
            let j = choose|j: int| 0 <= j < s.len() && s[j] == c;
            assert(rest[j - 1] == c);
        }
        if rest.contains(c) {
            let j = choose|j: int| 0 <= j < rest.len() && rest[j] == c;
            assert(s[j + 1] == c);
        }
    } else if s.len() > 0 {
        assert(s[0] == c);
    }
}

/// Where `c` first occurs in `chars` from `from` on, or the end where it does not.
pub fn find_from(chars: &[char], from: usize, c: char) -> (res: usize)
    requires
        from <= chars@.len(),
    ensures
        from <= res <= chars@.len(),
        res - from == find_char(chars@.skip(from as int), c),
{
    let mut i: usize = from;
    while i < chars.len() && chars[i] != c
        invariant
            from <= i <= chars@.len(),
            forall|j: int| from <= j < i ==> chars@[j] != c,
        decreases chars.len() - i,
    {
        i = i + 1;
    }
    proof {
        lemma_find_char(chars@.skip(from as int), c, i - from);
    }
    i
}

/// The parts of `s` between occurrences of `sep`; always at least one.
pub open spec fn split(s: Seq<char>, sep: char) -> Seq<Seq<char>>
    decreases s.len(),
{
    let i = find_char(s, sep);
    if 0 <= i < s.len() {
        seq![s.take(i)] + split(s.skip(i + 1), sep)
    } else {
        seq![s]
    }
}

/// The parts of a string between occurrences of `sep`.
pub fn split_text(s: &str, sep: char) -> (res: Vec<String>)
    ensures
        text::texts(res@) == split(s@, sep),
{
    let chars = to_chars(s);
    let mut parts: Vec<String> = Vec::new();
    let mut from: usize = 0;
    assert(chars@.skip(0) =~= s@);
    assert(text::texts(parts@) + split(s@, sep) =~= split(s@, sep));
    loop
        invariant
            chars@ == s@,
            from <= chars@.len(),
            text::texts(parts@) + split(chars@.skip(from as int), sep) == split(s@, sep),
        decreases chars.len() - from,
    {
        let ghost rest = chars@.skip(from as int);
        let end = find_from(&chars, from, sep);
        let part = slice_chars(&chars, from, end);
        let ghost before = text::texts(parts@);
        parts.push(part);
        assert(text::texts(parts@) =~= before.push(part@));
        assert(part@ =~= rest.take(end - from));
        if end == chars.len() {
            assert(rest.take(end - from) =~= rest);
            assert(text::texts(parts@) =~= before + split(rest, sep));
            return parts;
        }
        assert(chars@.skip(end + 1) =~= rest.skip(end - from + 1));
        assert(text::texts(parts@) + split(chars@.skip(end + 1), sep) =~= before + split(rest, sep));
        from = end + 1;
    }
}

/// The texts one after the other, with `sep` between neighbours.
pub open spec fn join(parts: Seq<Seq<char>>, sep: Seq<char>) -> Seq<char>
    decreases parts.len(),
{
    if parts.len() == 0 {
        Seq::empty()
    } else if parts.len() == 1 {
        parts[0]
    } else {
        join(parts.drop_last(), sep) + sep + parts.last()
    }
}

/// The strings one after the other, with `sep` between neighbours.
pub fn join_texts(parts: &[String], sep: &str) -> (res: String)
    ensures
        res@ == join(text::texts(parts@), sep@),
{
    let mut out = String::new();
    let mut i: usize = 0;
    let ghost all = text::texts(parts@);
    assert(out@ =~= join(all.take(0), sep@));
    while i < parts.len()
        invariant
            all == text::texts(parts@),
            i <= parts@.len(),
            out@ == join(all.take(i as int), sep@),
        decreases parts.len() - i,
    {
        assert(all.take(i + 1).drop_last() =~= all.take(i as int));
        if i > 0 {
            out.append(sep);
        }
        out.append(parts[i].as_str());
        assert(out@ =~= join(all.take(i + 1), sep@));
        i = i + 1;
    }
    assert(all.take(i as int) =~= all);
    out
}

/// Whether `part` stands in `s` at `i`.
pub open spec fn occurs_at(s: Seq<char>, part: Seq<char>, i: int) -> bool {
    0 <= i && i + part.len() <= s.len() && s.subrange(i, i + part.len()) == part
}

/// Whether `part` stands anywhere in `s`.
pub open spec fn contains_part(s: Seq<char>, part: Seq<char>) -> bool {
    exists|i: int| occurs_at(s, part, i)
}

/// Whether `s` ends in `suffix`.
pub open spec fn has_suffix(s: Seq<char>, suffix: Seq<char>) -> bool {
    s.len() >= suffix.len() && occurs_at(s, suffix, s.len() - suffix.len())
}

/// Whether `s` begins with `prefix`.
pub open spec fn has_prefix(s: Seq<char>, prefix: Seq<char>) -> bool {
    occurs_at(s, prefix, 0)
}

/// Whether `part` stands in `chars` at `at`.
pub fn stands_at(chars: &[char], part: &[char], at: usize) -> (res: bool)
    ensures
        res == occurs_at(chars@, part@, at as int),
{
    if at > chars.len() || chars.len() - at < part.len() {
        return false;
    }
    let mut i: usize = 0;
    while i < part.len()
        invariant
            at + part@.len() <= chars@.len(),
            i <= part@.len(),
            forall|j: int| 0 <= j < i ==> chars@[at + j] == part@[j],
        decreases part.len() - i,
    {
        assert(at + i < chars.len());
        if chars[at + i] != part[i] {
            assert(chars@.subrange(at as int, at + part@.len())[i as int] != part@[i as int]);
            return false;
        }
        i = i + 1;
    }
    assert(chars@.subrange(at as int, at + part@.len()) =~= part@);
    true
}

/// Whether `part` stands anywhere in `s`.
pub fn text_contains(s: &str, part: &str) -> (res: bool)
    ensures
        res == contains_part(s@, part@),
{
    let chars = to_chars(s);
    let wanted = to_chars(part);
    let mut i: usize = 0;
    while i <= chars.len()
        invariant
            chars@ == s@,
            wanted@ == part@,
            i <= chars@.len() + 1,
            forall|j: int| 0 <= j < i ==> !occurs_at(s@, part@, j),
        decreases chars.len() + 1 - i,
    {
        if stands_at(&chars, &wanted, i) {
            return true;
        }
        if i == chars.len() {
            return false;
        }
        i = i + 1;
    }
    false
}

/// Whether `s` begins with `prefix`.
pub fn starts_with(s: &str, prefix: &str) -> (res: bool)
    ensures
        res == has_prefix(s@, prefix@),
{
    stands_at(&to_chars(s), &to_chars(prefix), 0)
}

/// Whether a character is white space, by the Unicode property of that name.
pub open spec fn is_space(c: char) -> bool {
    let n = c as int;
    ||| 9 <= n <= 13
    ||| n == 0x20
    ||| n == 0x85
    ||| n == 0xa0
    ||| n == 0x1680
    ||| 0x2000 <= n <= 0x200a
    ||| n == 0x2028
    ||| n == 0x2029
    ||| n == 0x202f
    ||| n == 0x205f
    ||| n == 0x3000
}

fn char_is_space(c: char) -> (res: bool)
    ensures
        res == is_space(c),
{
    let n: u32 = c as u32;
    (9 <= n && n <= 13) || n == 0x20 || n == 0x85 || n == 0xa0 || n == 0x1680 || (0x2000 <= n && n
        <= 0x200a) || n == 0x2028 || n == 0x2029 || n == 0x202f || n == 0x205f || n == 0x3000
}

/// `s` without the white space around it.
pub open spec fn trim(s: Seq<char>) -> Seq<char> {
    seqs::strip(s, |c: char| is_space(c))
}

/// The string without the white space around it.
pub fn trim_text(s: &str) -> (res: String)
    ensures
        res@ == trim(s@),
{
    let ghost space = |c: char| is_space(c);
    let chars = to_chars(s);
    let mut from: usize = 0;
    assert(chars@.skip(0) =~= s@);
    while from < chars.len() && char_is_space(chars[from])
        invariant
            chars@ == s@,
            space == (|c: char| is_space(c)),
            from <= chars@.len(),
            seqs::strip_start(s@, space) == seqs::strip_start(chars@.skip(from as int), space),
        decreases chars.len() - from,
    {
        assert(chars@.skip(from as int).drop_first() =~= chars@.skip(from + 1));
        from = from + 1;
    }
    let mut to: usize = chars.len();
    assert(chars@.subrange(from as int, to as int) =~= chars@.skip(from as int));
    while from < to && char_is_space(chars[to - 1])
        invariant
            chars@ == s@,
            space == (|c: char| is_space(c)),
            from <= to <= chars@.len(),
            trim(s@) == seqs::strip_end(chars@.subrange(from as int, to as int), space),
        decreases to - from,
    {
        assert(chars@.subrange(from as int, to as int).drop_last() =~= chars@.subrange(
            from as int,
            to - 1,
        ));
        to = to - 1;
    }
    slice_chars(&chars, from, to)
}

/// White space around a text is trimmed off, whatever the text.
pub proof fn lemma_trim_padded(before: Seq<char>, s: Seq<char>, after: Seq<char>)
    requires
        forall|i: int| 0 <= i < before.len() ==> is_space(#[trigger] before[i]),
        forall|i: int| 0 <= i < after.len() ==> is_space(#[trigger] after[i]),
    ensures
        trim(before + s + after) == trim(s),
{
    seqs::lemma_strip_padded(before, s, after, |c: char| is_space(c));
}

/// The parts of a text, joined again, are the text, and the separator stands in none of them.
pub proof fn parts_join_to_the_whole(s: Seq<char>, sep: char, i: int)
    requires
        0 <= i < split(s, sep).len(),
    ensures
        join(split(s, sep), seq![sep]) == s,
        !split(s, sep)[i].contains(sep),
    decreases s.len(),
{
    let at = find_char(s, sep);
    lemma_find_char_bounds(s, sep);
    if at < s.len() {
        let rest = s.skip(at + 1);
        let parts = split(rest, sep);
        assert(split(s, sep) =~= seq![s.take(at)] + parts);
        lemma_split_some(rest, sep);
        if i == 0 {
            parts_join_to_the_whole(rest, sep, 0);
            if s.take(at).contains(sep) {
                let k = choose|k: int| 0 <= k < at && s.take(at)[k] == sep;
                assert(s[k] == sep);
            }
        } else {
            parts_join_to_the_whole(rest, sep, i - 1);
        }
        lemma_join_front(s.take(at), parts, seq![sep]);
        assert(s.take(at) + seq![sep] + rest =~= s);
    }
}

proof fn lemma_split_some(s: Seq<char>, sep: char)
    ensures
        split(s, sep).len() > 0,
{
}

proof fn lemma_join_front(first: Seq<char>, parts: Seq<Seq<char>>, sep: Seq<char>)
    requires
        parts.len() > 0,
    ensures
        join(seq![first] + parts, sep) == first + sep + join(parts, sep),
    decreases parts.len(),
{
    let all = seq![first] + parts;
    if parts.len() == 1 {
        assert(all.drop_last() =~= seq![first]);
        assert(join(seq![first], sep) == first);
        assert(all.last() == parts[0]);
    } else {
        assert(all.drop_last() =~= seq![first] + parts.drop_last());
        assert(all.last() == parts.last());
        lemma_join_front(first, parts.drop_last(), sep);
        assert(join(all, sep) =~= first + sep + join(parts, sep));
    }
}

/// Texts are joined in their order, with the separator between neighbours and nowhere else.
pub proof fn texts_join_in_their_order(parts: Seq<Seq<char>>, part: Seq<char>, sep: Seq<char>)
    ensures
        join(Seq::<Seq<char>>::empty(), sep).len() == 0,
        join(seq![part], sep) == part,
        parts.len() > 0 ==> join(parts.push(part), sep) == join(parts, sep) + sep + part,
{
    if parts.len() > 0 {
        assert(parts.push(part).drop_last() =~= parts);
    }
}

/// What is left of a trimmed text neither begins nor ends with white space.
pub proof fn a_trimmed_text_has_no_space_around_it(s: Seq<char>)
    requires
        trim(s).len() > 0,
    ensures
        !is_space(trim(s)[0]),
        !is_space(trim(s).last()),
        s.contains(' ') || s.contains('\n') || s.contains('\t') || trim(s).len() <= s.len(),
{
    let p = |c: char| is_space(c);
    lemma_stripped_start(s, p);
    lemma_stripped_end(seqs::strip_start(s, p), p);
}

proof fn lemma_stripped_start(s: Seq<char>, p: spec_fn(char) -> bool)
    ensures
        seqs::strip_start(s, p).len() <= s.len(),
        seqs::strip_start(s, p).len() > 0 ==> !p(seqs::strip_start(s, p)[0]),
    decreases s.len(),
{
    if s.len() > 0 && p(s[0]) {
        lemma_stripped_start(s.drop_first(), p);
    }
}

proof fn lemma_stripped_end(s: Seq<char>, p: spec_fn(char) -> bool)
    ensures
        seqs::strip_end(s, p).len() <= s.len(),
        seqs::strip_end(s, p).len() > 0 ==> !p(seqs::strip_end(s, p).last()) && seqs::strip_end(s, p)[0]
            == s[0],
    decreases s.len(),
{
    if s.len() > 0 && p(s.last()) {
        lemma_stripped_end(s.drop_last(), p);
    }
}

/// The blanks of a keyboard are white space, and what is written with one is not.
pub proof fn blanks_are_white_space(c: char)
    ensures
        is_space(' ') && is_space('\n') && is_space('\t') && is_space('\r'),
        '!' <= c <= '~' ==> !is_space(c),
{
}

/// A part stands in a text where the text has the part's characters from there on.
pub proof fn a_part_stands_where_its_characters_do(s: Seq<char>, part: Seq<char>, at: int)
    ensures
        occurs_at(s, part, at) <==> 0 <= at && at + part.len() <= s.len() && forall|k: int|
            0 <= k < part.len() ==> s[at + k] == #[trigger] part[k],
        occurs_at(s, part, at) ==> contains_part(s, part),
        has_prefix(s, part) <==> occurs_at(s, part, 0),
        has_suffix(s, part) ==> occurs_at(s, part, s.len() - part.len()),
{
    if 0 <= at && at + part.len() <= s.len() {
        let piece = s.subrange(at, at + part.len());
        if piece == part {
            assert forall|k: int| 0 <= k < part.len() implies s[at + k] == #[trigger] part[k] by {
                assert(piece[k] == s[at + k]);
            }
        }
        if forall|k: int| 0 <= k < part.len() ==> s[at + k] == #[trigger] part[k] {
            assert(piece =~= part);
        }
    }
}

} // verus!
