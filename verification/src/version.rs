//! Versions as they are written in label values, and their order.
//!
//! A version is one to three numbers separated by dots, after an optional leading `v`. Missing
//! numbers are zero. A part after `-` marks a pre-release, which sorts below the release it leads
//! to; a part after `_` or `+` is build metadata and does not count.

use vstd::prelude::*;
use crate::numerals;
use crate::numerals::parse_numeral;
use crate::search;
use crate::search::{find_from, split_text};
use crate::text;
use crate::text::{slice_chars, text_less, to_chars};

verus! {

/// One dot-separated identifier of a pre-release.
#[derive(Debug, Clone)]
pub enum Identifier {
    Number(u64),
    Word(String),
}

/// A parsed version.
#[derive(Debug, Clone)]
pub struct Version {
    pub major: u64,
    pub minor: u64,
    pub patch: u64,
    /// The identifiers of the pre-release; none for a release.
    pub pre: Vec<Identifier>,
}

pub ghost enum IdentifierView {
    Number(nat),
    Word(Seq<char>),
}

#[verifier::ext_equal]
pub ghost struct VersionView {
    pub major: nat,
    pub minor: nat,
    pub patch: nat,
    pub pre: Seq<IdentifierView>,
}

impl View for Identifier {
    type V = IdentifierView;

    open spec fn view(&self) -> IdentifierView {
        match self {
            Identifier::Number(n) => IdentifierView::Number(*n as nat),
            Identifier::Word(w) => IdentifierView::Word(w@),
        }
    }
}

impl View for Version {
    type V = VersionView;

    open spec fn view(&self) -> VersionView {
        VersionView {
            major: self.major as nat,
            minor: self.minor as nat,
            patch: self.patch as nat,
            pre: self.pre@.map_values(|i: Identifier| i@),
        }
    }
}

/// Where the build metadata begins, or the length where there is none.
pub open spec fn build_start(s: Seq<char>) -> int {
    let underscore = search::find_char(s, '_');
    let plus = search::find_char(s, '+');
    if underscore < plus {
        underscore
    } else {
        plus
    }
}

/// `s` without the leading `v` and the build metadata.
pub open spec fn core_part(s: Seq<char>) -> Seq<char> {
    let bare = if s.len() > 0 && s[0] == 'v' {
        s.skip(1)
    } else {
        s
    };
    bare.take(build_start(bare))
}

/// A number of a version.
pub open spec fn number_part(s: Seq<char>) -> Option<nat> {
    match numerals::numeral_value(s, 10) {
        Some(n) => if n <= u64::MAX {
            Some(n)
        } else {
            None
        },
        None => None,
    }
}

pub open spec fn is_identifier_char(c: char) -> bool {
    '0' <= c <= '9' || 'a' <= c <= 'z' || 'A' <= c <= 'Z' || c == '-'
}

/// One identifier of a pre-release: a number where it is all digits, else a word.
pub open spec fn identifier_of(s: Seq<char>) -> Option<IdentifierView> {
    if s.len() == 0 || exists|i: int| 0 <= i < s.len() && !is_identifier_char(#[trigger] s[i]) {
        None
    } else {
        match numerals::numeral_value(s, 10) {
            Some(n) => if n <= u64::MAX {
                Some(IdentifierView::Number(n))
            } else {
                None
            },
            None => Some(IdentifierView::Word(s)),
        }
    }
}

/// The identifiers that the parts write down, if each does.
pub open spec fn identifiers_of(parts: Seq<Seq<char>>) -> Option<Seq<IdentifierView>>
    decreases parts.len(),
{
    if parts.len() == 0 {
        Some(Seq::empty())
    } else {
        match (identifiers_of(parts.drop_last()), identifier_of(parts.last())) {
            (Some(before), Some(last)) => Some(before.push(last)),
            _ => None,
        }
    }
}

/// The version that a text writes down, if it does.
pub open spec fn version_of(s: Seq<char>) -> Option<VersionView> {
    let core = core_part(s);
    let dash = search::find_char(core, '-');
    let numbers = search::split(core.take(dash), '.');
    let pre = if dash < core.len() {
        identifiers_of(search::split(core.skip(dash + 1), '.'))
    } else {
        Some(Seq::empty())
    };
    let major = number_part(numbers[0]);
    let minor = if numbers.len() > 1 {
        number_part(numbers[1])
    } else {
        Some(0)
    };
    let patch = if numbers.len() > 2 {
        number_part(numbers[2])
    } else {
        Some(0)
    };
    if numbers.len() > 3 {
        None
    } else {
        match (major, minor, patch, pre) {
            (Some(major), Some(minor), Some(patch), Some(pre)) => Some(
                VersionView { major, minor, patch, pre },
            ),
            _ => None,
        }
    }
}

/// Whether one identifier sorts strictly before another: numbers by value and before words, words
/// as texts.
pub open spec fn identifier_lt(a: IdentifierView, b: IdentifierView) -> bool {
    match (a, b) {
        (IdentifierView::Number(x), IdentifierView::Number(y)) => x < y,
        (IdentifierView::Number(_), IdentifierView::Word(_)) => true,
        (IdentifierView::Word(_), IdentifierView::Number(_)) => false,
        (IdentifierView::Word(x), IdentifierView::Word(y)) => text::text_lt(x, y),
    }
}

/// Whether one list of identifiers sorts strictly before another, the first difference deciding
/// and a proper prefix coming first.
pub open spec fn identifiers_lt(a: Seq<IdentifierView>, b: Seq<IdentifierView>) -> bool
    decreases a.len(),
{
    if b.len() == 0 {
        false
    } else if a.len() == 0 {
        true
    } else if a[0] != b[0] {
        identifier_lt(a[0], b[0])
    } else {
        identifiers_lt(a.drop_first(), b.drop_first())
    }
}

/// Whether one version sorts strictly before another.
pub open spec fn version_lt(a: VersionView, b: VersionView) -> bool {
    if a.major != b.major {
        a.major < b.major
    } else if a.minor != b.minor {
        a.minor < b.minor
    } else if a.patch != b.patch {
        a.patch < b.patch
    } else if a.pre.len() == 0 || b.pre.len() == 0 {
        a.pre.len() > 0 && b.pre.len() == 0
    } else {
        identifiers_lt(a.pre, b.pre)
    }
}

/// The order of versions is strict and total: of two versions, exactly one sorts first or they are
/// the same.
pub proof fn version_order_is_total(a: VersionView, b: VersionView)
    ensures
        !version_lt(a, a),
        a == b || version_lt(a, b) || version_lt(b, a),
        !(version_lt(a, b) && version_lt(b, a)),
{
    lemma_identifiers_total(a.pre, a.pre);
    lemma_identifiers_total(a.pre, b.pre);
    if a.pre.len() == 0 && b.pre.len() == 0 {
        assert(a.pre =~= b.pre);
    }
}

proof fn lemma_identifiers_total(a: Seq<IdentifierView>, b: Seq<IdentifierView>)
    ensures
        a == b || identifiers_lt(a, b) || identifiers_lt(b, a),
        !(identifiers_lt(a, b) && identifiers_lt(b, a)),
        a == b ==> !identifiers_lt(a, b),
    decreases a.len(),
{
    if a.len() > 0 && b.len() > 0 {
        if a[0] == b[0] {
            lemma_identifiers_total(a.drop_first(), b.drop_first());
            if a.drop_first() == b.drop_first() {
                assert(a =~= seq![a[0]] + a.drop_first());
                assert(b =~= seq![b[0]] + b.drop_first());
            }
        } else if let (IdentifierView::Word(x), IdentifierView::Word(y)) = (a[0], b[0]) {
            text::lemma_text_lt_total(x, y);
            if text::text_lt(x, y) && text::text_lt(y, x) {
                text::lemma_text_lt_transitive(x, y, x);
                text::lemma_text_lt_irreflexive(x);
            }
        }
    } else if a.len() == 0 && b.len() == 0 {
        assert(a =~= b);
    }
}

/// The order of versions is transitive.
pub proof fn version_order_is_transitive(a: VersionView, b: VersionView, c: VersionView)
    requires
        version_lt(a, b),
        version_lt(b, c),
    ensures
        version_lt(a, c),
{
    if identifiers_lt(a.pre, b.pre) && identifiers_lt(b.pre, c.pre) {
        lemma_identifiers_transitive(a.pre, b.pre, c.pre);
    }
}

proof fn lemma_identifiers_transitive(
    a: Seq<IdentifierView>,
    b: Seq<IdentifierView>,
    c: Seq<IdentifierView>,
)
    requires
        identifiers_lt(a, b),
        identifiers_lt(b, c),
    ensures
        identifiers_lt(a, c),
    decreases a.len(),
{
    if a.len() > 0 {
        if a[0] == b[0] && b[0] == c[0] {
            lemma_identifiers_transitive(a.drop_first(), b.drop_first(), c.drop_first());
        } else if a[0] != b[0] && b[0] != c[0] {
            if let (
                IdentifierView::Word(x),
                IdentifierView::Word(y),
                IdentifierView::Word(z),
            ) = (a[0], b[0], c[0]) {
                text::lemma_text_lt_transitive(x, y, z);
                text::lemma_text_lt_irreflexive(x);
            }
        }
    }
}

/// No text of a version's numbers holds a plus sign, so a number is read as its digits.
proof fn lemma_no_plus(s: Seq<char>, parts: Seq<Seq<char>>, sep: char)
    requires
        parts == search::split(s, sep),
        !s.contains('+'),
    ensures
        forall|i: int| 0 <= i < parts.len() ==> !(#[trigger] parts[i]).contains('+'),
        parts.len() >= 1,
    decreases s.len(),
{
    search::lemma_find_char_bounds(s, sep);
    let i = search::find_char(s, sep);
    if i < s.len() {
        let rest = s.skip(i + 1);
        assert forall|j: int| 0 <= j < rest.len() implies rest[j] != '+' by {
            assert(rest[j] == s[i + 1 + j]);
        }
        lemma_no_plus(rest, search::split(rest, sep), sep);
        assert forall|j: int| 0 <= j < parts.len() implies !(#[trigger] parts[j]).contains('+') by {
            if j == 0 {
                assert(parts[0] =~= s.take(i));
            } else {
                assert(parts[j] == search::split(rest, sep)[j - 1]);
            }
        }
    } else {
        assert(parts =~= seq![s]);
    }
}

fn parse_part(s: &str) -> (res: Option<u64>)
    requires
        !s@.contains('+'),
    ensures
        match res {
            Some(n) => number_part(s@) == Some(n as nat),
            None => number_part(s@) is None,
        },
{
    parse_numeral(s, 10)
}

fn parse_identifier(s: &str) -> (res: Option<Identifier>)
    requires
        !s@.contains('+'),
    ensures
        match res {
            Some(i) => identifier_of(s@) == Some(i@),
            None => identifier_of(s@) is None,
        },
{
    let chars = to_chars(s);
    if chars.len() == 0 {
        return None;
    }
    let mut digits = true;
    let mut i: usize = 0;
    while i < chars.len()
        invariant
            chars@ == s@,
            i <= chars@.len(),
            forall|j: int| 0 <= j < i ==> is_identifier_char(#[trigger] chars@[j]),
            digits <==> (forall|j: int| 0 <= j < i ==> '0' <= (#[trigger] chars@[j]) <= '9'),
        decreases chars.len() - i,
    {
        let c = chars[i];
        let is_digit = '0' <= c && c <= '9';
        if !is_digit && !('a' <= c && c <= 'z') && !('A' <= c && c <= 'Z') && c != '-' {
            assert(!is_identifier_char(s@[i as int]));
            return None;
        }
        digits = digits && is_digit;
        i = i + 1;
    }
    proof {
        lemma_digits(s@);
    }
    if digits {
        match parse_part(s) {
            Some(n) => Some(Identifier::Number(n)),
            None => None,
        }
    } else {
        Some(Identifier::Word(s.to_owned()))
    }
}

/// A text reads as a decimal number exactly when it is a non-empty run of digits.
proof fn lemma_digits(s: Seq<char>)
    ensures
        numerals::numeral_value(s, 10) is Some <==> s.len() > 0 && (forall|j: int|
            0 <= j < s.len() ==> '0' <= (#[trigger] s[j]) <= '9'),
    decreases s.len(),
{
    if s.len() > 1 {
        let head = s.drop_last();
        lemma_digits(head);
        if numerals::numeral_value(s, 10) is Some {
            assert forall|j: int| 0 <= j < s.len() implies '0' <= (#[trigger] s[j]) <= '9' by {
                if j < s.len() - 1 {
                    assert(head[j] == s[j]);
                }
            }
        }
        if forall|j: int| 0 <= j < s.len() ==> '0' <= (#[trigger] s[j]) <= '9' {
            assert forall|j: int| 0 <= j < head.len() implies '0' <= (#[trigger] head[j]) <= '9' by {
                assert(head[j] == s[j]);
            }
            assert('0' <= s[s.len() - 1] <= '9');
        }
    } else if s.len() == 1 {
        assert(s.last() == s[0]);
    }
}

fn parse_identifiers(parts: &[String]) -> (res: Option<Vec<Identifier>>)
    requires
        forall|i: int| 0 <= i < parts@.len() ==> !(#[trigger] text::texts(parts@)[i]).contains('+'),
    ensures
        match res {
            Some(ids) => identifiers_of(text::texts(parts@)) == Some(
                ids@.map_values(|i: Identifier| i@),
            ),
            None => identifiers_of(text::texts(parts@)) is None,
        },
{
    let mut out: Vec<Identifier> = Vec::new();
    let mut i: usize = 0;
    let ghost all = text::texts(parts@);
    assert(out@.map_values(|i: Identifier| i@) =~= Seq::<IdentifierView>::empty());
    while i < parts.len()
        invariant
            all == text::texts(parts@),
            i <= parts@.len(),
            forall|i: int| 0 <= i < parts@.len() ==> !(#[trigger] all[i]).contains('+'),
            identifiers_of(all.take(i as int)) == Some(out@.map_values(|i: Identifier| i@)),
        decreases parts.len() - i,
    {
        assert(all.take(i + 1).drop_last() =~= all.take(i as int));
        assert(all.take(i + 1).last() == parts@[i as int]@);
        assert(!all[i as int].contains('+'));
        match parse_identifier(parts[i].as_str()) {
            Some(id) => {
                let ghost before = out@;
                out.push(id);
                assert(out@.map_values(|i: Identifier| i@) =~= before.map_values(
                    |i: Identifier| i@,
                ).push(id@));
            },
            None => {
                proof {
                    lemma_bad_identifier(all, i as int);
                }
                return None;
            },
        }
        i = i + 1;
    }
    assert(all.take(i as int) =~= all);
    Some(out)
}

proof fn lemma_bad_identifier(parts: Seq<Seq<char>>, i: int)
    requires
        0 <= i < parts.len(),
        identifier_of(parts[i]) is None,
    ensures
        identifiers_of(parts) is None,
    decreases parts.len(),
{
    if i < parts.len() - 1 {
        lemma_bad_identifier(parts.drop_last(), i);
    }
}

/// The version a text writes down, or none where it is not one.
pub fn parse(s: &str) -> (res: Option<Version>)
    ensures
        match res {
            Some(v) => version_of(s@) == Some(v@),
            None => version_of(s@) is None,
        },
{
    let chars = to_chars(s);
    let start: usize = if chars.len() > 0 && chars[0] == 'v' {
        1
    } else {
        0
    };
    let ghost bare = chars@.skip(start as int);
    assert(start == 0 ==> bare =~= s@);
    let underscore = find_from(&chars, start, '_');
    let plus = find_from(&chars, start, '+');
    let end: usize = if underscore < plus {
        underscore
    } else {
        plus
    };
    let core = slice_chars(&chars, start, end);
    assert(core@ =~= core_part(s@));
    proof {
        search::lemma_find_char_bounds(bare, '+');
        assert forall|j: int| 0 <= j < core@.len() implies core@[j] != '+' by {
            assert(core@[j] == bare[j]);
        }
    }
    let core_chars = to_chars(core.as_str());
    assert(core_chars@.skip(0) =~= core@);
    let dash = find_from(&core_chars, 0, '-');
    let head = slice_chars(&core_chars, 0, dash);
    assert(head@ =~= core@.take(dash as int));
    let numbers = split_text(head.as_str(), '.');
    proof {
        assert(!head@.contains('+'));
        lemma_no_plus(head@, text::texts(numbers@), '.');
        assert(forall|i: int| 0 <= i < numbers@.len() ==> (#[trigger] text::texts(numbers@)[i]) == numbers@[i]@);
    }
    if numbers.len() > 3 {
        return None;
    }
    assert(text::texts(numbers@)[0] == numbers@[0]@);
    let pre: Vec<Identifier> = if dash < core_chars.len() {
        let tail = slice_chars(&core_chars, dash + 1, core_chars.len());
        assert(tail@ =~= core@.skip(dash + 1));
        let parts = split_text(tail.as_str(), '.');
        proof {
            assert(!tail@.contains('+'));
            lemma_no_plus(tail@, text::texts(parts@), '.');
        }
        match parse_identifiers(&parts) {
            Some(ids) => ids,
            None => {
                return None;
            },
        }
    } else {
        Vec::new()
    };
    assert(dash == core@.len() ==> pre@.map_values(|i: Identifier| i@) =~= Seq::<IdentifierView>::empty());
    let major = match parse_part(numbers[0].as_str()) {
        Some(n) => n,
        None => {
            return None;
        },
    };
    let minor: u64 = if numbers.len() > 1 {
        assert(text::texts(numbers@)[1] == numbers@[1]@);
        match parse_part(numbers[1].as_str()) {
            Some(n) => n,
            None => {
                return None;
            },
        }
    } else {
        0
    };
    let patch: u64 = if numbers.len() > 2 {
        assert(text::texts(numbers@)[2] == numbers@[2]@);
        match parse_part(numbers[2].as_str()) {
            Some(n) => n,
            None => {
                return None;
            },
        }
    } else {
        0
    };
    Some(Version { major, minor, patch, pre })
}

fn identifier_less(a: &Identifier, b: &Identifier) -> (res: bool)
    ensures
        res == identifier_lt(a@, b@),
{
    match (a, b) {
        (Identifier::Number(x), Identifier::Number(y)) => *x < *y,
        (Identifier::Number(_), Identifier::Word(_)) => true,
        (Identifier::Word(_), Identifier::Number(_)) => false,
        (Identifier::Word(x), Identifier::Word(y)) => text_less(x.as_str(), y.as_str()),
    }
}

fn identifier_same(a: &Identifier, b: &Identifier) -> (res: bool)
    ensures
        res == (a@ == b@),
{
    match (a, b) {
        (Identifier::Number(x), Identifier::Number(y)) => *x == *y,
        (Identifier::Word(x), Identifier::Word(y)) => *x == *y,
        _ => false,
    }
}

impl Version {
    /// Whether this version sorts strictly before another.
    pub fn is_below(&self, other: &Version) -> (res: bool)
        ensures
            res == version_lt(self@, other@),
    {
        if self.major != other.major {
            return self.major < other.major;
        }
        if self.minor != other.minor {
            return self.minor < other.minor;
        }
        if self.patch != other.patch {
            return self.patch < other.patch;
        }
        if self.pre.len() == 0 || other.pre.len() == 0 {
            return self.pre.len() > 0 && other.pre.len() == 0;
        }
        let ghost xs = self@.pre;
        let ghost ys = other@.pre;
        let mut i: usize = 0;
        assert(xs.skip(0) =~= xs && ys.skip(0) =~= ys);
        while i < self.pre.len() && i < other.pre.len()
            invariant
                xs == self@.pre,
                ys == other@.pre,
                i <= self.pre@.len(),
                i <= other.pre@.len(),
                identifiers_lt(xs, ys) == identifiers_lt(xs.skip(i as int), ys.skip(i as int)),
                version_lt(self@, other@) == identifiers_lt(xs, ys),
            decreases self.pre.len() - i,
        {
            assert(xs.skip(i as int)[0] == self.pre@[i as int]@);
            assert(ys.skip(i as int)[0] == other.pre@[i as int]@);
            if !identifier_same(&self.pre[i], &other.pre[i]) {
                return identifier_less(&self.pre[i], &other.pre[i]);
            }
            assert(xs.skip(i as int).drop_first() =~= xs.skip(i + 1));
            assert(ys.skip(i as int).drop_first() =~= ys.skip(i + 1));
            i = i + 1;
        }
        i < other.pre.len()
    }
}

// --- how versions compare --------------------------------------------------------------------

/// Versions compare by their first number that differs, and a release comes after everything released before
/// it.
pub proof fn versions_compare_number_by_number(a: VersionView, b: VersionView)
    ensures
        a.major < b.major ==> version_lt(a, b),
        a.major == b.major && a.minor < b.minor ==> version_lt(a, b),
        a.major == b.major && a.minor == b.minor && a.patch < b.patch ==> version_lt(a, b),
        a.major == b.major && a.minor == b.minor && a.patch == b.patch && a.pre.len() > 0
            && b.pre.len() == 0 ==> version_lt(a, b) && !version_lt(b, a),
        a.major == b.major && a.minor == b.minor && a.patch == b.patch && a.pre.len() > 0
            && b.pre.len() > 0 ==> version_lt(a, b) == identifiers_lt(a.pre, b.pre),
{
}

/// The identifiers of two pre-releases compare one by one: the first that differ decide, by number where both
/// are numbers and by text where both are words, with a number before any word; where none differ, the shorter
/// list comes first.
pub proof fn pre_releases_compare_identifier_by_identifier(
    a: Seq<IdentifierView>,
    b: Seq<IdentifierView>,
    i: int,
)
    requires
        0 <= i <= a.len(),
        i <= b.len(),
        forall|k: int| 0 <= k < i ==> a[k] == #[trigger] b[k],
        i < a.len() && i < b.len() ==> a[i] != b[i],
    ensures
        i == b.len() ==> !identifiers_lt(a, b),
        i == a.len() && i < b.len() ==> identifiers_lt(a, b),
        i < a.len() && i < b.len() ==> identifiers_lt(a, b) == match (a[i], b[i]) {
            (IdentifierView::Number(x), IdentifierView::Number(y)) => x < y,
            (IdentifierView::Word(x), IdentifierView::Word(y)) => text::text_lt(x, y),
            (IdentifierView::Number(_), IdentifierView::Word(_)) => true,
            (IdentifierView::Word(_), IdentifierView::Number(_)) => false,
        },
    decreases i,
{
    if i > 0 {
        let x = a.drop_first();
        let y = b.drop_first();
        assert(a[0] == b[0]);
        assert forall|k: int| 0 <= k < i - 1 implies x[k] == #[trigger] y[k] by {
            assert(a[k + 1] == b[k + 1]);
        }
        pre_releases_compare_identifier_by_identifier(x, y, i - 1);
    }
}

proof fn lemma_absent(s: Seq<char>, c: char)
    requires
        !s.contains(c),
    ensures
        search::find_char(s, c) == s.len(),
{
    assert forall|j: int| 0 <= j < s.len() implies s[j] != c by {
        assert(s.contains(s[j]));
    }
    search::lemma_find_char(s, c, s.len() as int);
}

proof fn lemma_first(head: Seq<char>, c: char, tail: Seq<char>)
    requires
        !head.contains(c),
    ensures
        search::find_char(head.push(c) + tail, c) == head.len(),
{
    let s = head.push(c) + tail;
    assert forall|j: int| 0 <= j < head.len() implies s[j] != c by {
        assert(s[j] == head[j]);
        assert(head.contains(head[j]));
    }
    search::lemma_find_char(s, c, head.len() as int);
}

/// What is written behind a version to tell builds apart says nothing about which version it is.
pub proof fn a_build_is_no_part_of_a_version(s: Seq<char>, mark: char, build: Seq<char>)
    requires
        mark == '+' || mark == '_',
        !s.contains('+'),
        !s.contains('_'),
    ensures
        version_of(s.push(mark) + build) == version_of(s),
{
    let whole = s.push(mark) + build;
    let bare = if s.len() > 0 && s[0] == 'v' {
        s.skip(1)
    } else {
        s
    };
    assert forall|c: char| !s.contains(c) implies !#[trigger] bare.contains(c) by {
        if bare.contains(c) {
            let j = choose|j: int| 0 <= j < bare.len() && bare[j] == c;
            if s.len() > 0 && s[0] == 'v' {
                assert(s[j + 1] == c);
            }
        }
    }
    lemma_absent(bare, '+');
    lemma_absent(bare, '_');
    let rest = bare.push(mark) + build;
    if s.len() == 0 {
        assert(whole[0] == mark);
    }
    assert(rest =~= if whole.len() > 0 && whole[0] == 'v' {
        whole.skip(1)
    } else {
        whole
    });
    lemma_first(bare, mark, build);
    let other = if mark == '+' {
        '_'
    } else {
        '+'
    };
    search::lemma_find_char_bounds(rest, other);
    if search::find_char(rest, other) < bare.len() {
        let j = search::find_char(rest, other);
        assert(rest[j] == bare[j]);
        assert(bare.contains(other));
    }
    assert(bare.take(build_start(bare)) =~= bare);
    assert(rest.take(build_start(rest)) =~= bare);
}

/// A leading `v` says nothing about which version it is either.
pub proof fn a_leading_letter_is_no_part_of_a_version(s: Seq<char>)
    requires
        s.len() == 0 || s[0] != 'v',
    ensures
        version_of(seq!['v'] + s) == version_of(s),
{
    assert((seq!['v'] + s).skip(1) =~= s);
}

proof fn lemma_numeral_plain(n: nat)
    ensures
        forall|c: char|
            c == '.' || c == '-' || c == '+' || c == '_' || c == 'v' ==> !#[trigger] numerals::numeral(
                n,
                10,
            ).contains(c),
        numerals::numeral(n, 10).len() > 0,
{
    numerals::numeral_round_trip(n, 10);
    let s = numerals::numeral(n, 10);
    assert forall|c: char| c == '.' || c == '-' || c == '+' || c == '_' || c == 'v' implies
        !#[trigger] s.contains(c) by {
        if s.contains(c) {
            let i = choose|i: int| 0 <= i < s.len() && s[i] == c;
            numerals::digits_stay_below_their_base(n, 10, i);
        }
    }
}

proof fn lemma_joined_plain(a: Seq<char>, b: Seq<char>, c: char)
    requires
        !a.contains(c),
        !b.contains(c),
    ensures
        !(a + b).contains(c),
{
    if (a + b).contains(c) {
        let i = choose|i: int| 0 <= i < (a + b).len() && (a + b)[i] == c;
        if i < a.len() {
            assert(a[i] == c);
        } else {
            assert(b[i - a.len()] == c);
        }
    }
}

proof fn lemma_split_joined(x: Seq<char>, rest: Seq<char>)
    requires
        !x.contains('.'),
    ensures
        search::split(x.push('.') + rest, '.') == seq![x] + search::split(rest, '.'),
{
    let s = x.push('.') + rest;
    lemma_first(x, '.', rest);
    assert(s.take(x.len() as int) =~= x);
    assert(s.skip((x.len() + 1) as int) =~= rest);
}

proof fn lemma_dotted_plain(x: Seq<char>, y: Seq<char>, z: Seq<char>, c: char)
    requires
        c != '.',
        !x.contains(c),
        !y.contains(c),
        !z.contains(c),
    ensures
        !(x + seq!['.'] + y + seq!['.'] + z).contains(c),
{
    let dot = seq!['.'];
    if dot.contains(c) {
        let i = choose|i: int| 0 <= i < dot.len() && dot[i] == c;
        assert(dot[i] == '.');
    }
    lemma_joined_plain(x, dot, c);
    lemma_joined_plain(x + dot, y, c);
    lemma_joined_plain(x + dot + y, dot, c);
    lemma_joined_plain(x + dot + y + dot, z, c);
}

/// A version that is written down is read as that version.
pub proof fn a_written_version_reads_back(major: u64, minor: u64, patch: u64)
    ensures
        version_of(
            numerals::numeral(major as nat, 10) + seq!['.'] + numerals::numeral(minor as nat, 10)
                + seq!['.'] + numerals::numeral(patch as nat, 10),
        ) == Some(
            VersionView {
                major: major as nat,
                minor: minor as nat,
                patch: patch as nat,
                pre: Seq::empty(),
            },
        ),
{
    let x = numerals::numeral(major as nat, 10);
    let y = numerals::numeral(minor as nat, 10);
    let z = numerals::numeral(patch as nat, 10);
    let dot = seq!['.'];
    let s = x + dot + y + dot + z;
    lemma_numeral_plain(major as nat);
    lemma_numeral_plain(minor as nat);
    lemma_numeral_plain(patch as nat);
    numerals::numeral_round_trip(major as nat, 10);
    numerals::numeral_round_trip(minor as nat, 10);
    numerals::numeral_round_trip(patch as nat, 10);
    lemma_dotted_plain(x, y, z, '+');
    lemma_dotted_plain(x, y, z, '_');
    lemma_dotted_plain(x, y, z, '-');
    lemma_dotted_plain(x, y, z, 'v');
    assert(s[0] != 'v') by {
        assert(s.contains(s[0]));
    }
    lemma_absent(s, '+');
    lemma_absent(s, '_');
    lemma_absent(s, '-');
    assert(s.take(s.len() as int) =~= s);
    let rest = y + dot + z;
    assert(s =~= x.push('.') + rest);
    assert(rest =~= y.push('.') + z);
    lemma_split_joined(x, rest);
    lemma_split_joined(y, z);
    lemma_absent(z, '.');
    assert(search::split(z, '.') == seq![z]);
    let parts = search::split(s, '.');
    assert(parts =~= seq![x, y, z]);
}

/// What stands behind the first dash of a version is its pre-release, and what stands before it its numbers.
pub proof fn a_pre_release_stands_behind_a_dash(s: Seq<char>, pre: Seq<char>)
    requires
        !s.contains('-'),
        !s.contains('+'),
        !s.contains('_'),
        !pre.contains('+'),
        !pre.contains('_'),
    ensures
        version_of(s.push('-') + pre) is Some <==> version_of(s) is Some && identifiers_of(
            search::split(pre, '.'),
        ) is Some,
        version_of(s.push('-') + pre) matches Some(v) ==> v == (VersionView {
            pre: identifiers_of(search::split(pre, '.'))->Some_0,
            ..version_of(s)->Some_0
        }) && version_of(s)->Some_0.pre.len() == 0,
{
    let whole = s.push('-') + pre;
    let bare = if s.len() > 0 && s[0] == 'v' {
        s.skip(1)
    } else {
        s
    };
    assert forall|c: char| !s.contains(c) implies !#[trigger] bare.contains(c) by {
        if bare.contains(c) {
            let j = choose|j: int| 0 <= j < bare.len() && bare[j] == c;
            if s.len() > 0 && s[0] == 'v' {
                assert(s[j + 1] == c);
            }
        }
    }
    let rest = bare.push('-') + pre;
    if s.len() == 0 {
        assert(whole[0] == '-');
    }
    assert(rest =~= if whole.len() > 0 && whole[0] == 'v' {
        whole.skip(1)
    } else {
        whole
    });
    assert(!rest.contains('+')) by {
        if rest.contains('+') {
            let j = choose|j: int| 0 <= j < rest.len() && rest[j] == '+';
            if j < bare.len() {
                assert(bare[j] == '+');
            } else if j > bare.len() {
                assert(pre[j - bare.len() - 1] == '+');
            }
        }
    }
    assert(!rest.contains('_')) by {
        if rest.contains('_') {
            let j = choose|j: int| 0 <= j < rest.len() && rest[j] == '_';
            if j < bare.len() {
                assert(bare[j] == '_');
            } else if j > bare.len() {
                assert(pre[j - bare.len() - 1] == '_');
            }
        }
    }
    lemma_absent(rest, '+');
    lemma_absent(rest, '_');
    lemma_absent(bare, '+');
    lemma_absent(bare, '_');
    lemma_absent(bare, '-');
    lemma_first(bare, '-', pre);
    assert(bare.take(bare.len() as int) =~= bare);
    assert(rest.take(rest.len() as int) =~= rest);
    assert(rest.take(bare.len() as int) =~= bare);
    assert(rest.skip((bare.len() + 1) as int) =~= pre);
}

/// Each part of a pre-release is one identifier: a number where it is all digits, and else the word it is.
pub proof fn every_part_of_a_pre_release_is_an_identifier(parts: Seq<Seq<char>>, i: int)
    requires
        identifiers_of(parts) is Some,
        0 <= i < parts.len(),
    ensures
        identifiers_of(parts)->Some_0.len() == parts.len(),
        numerals::numeral_value(parts[i], 10) matches Some(n) ==> identifiers_of(parts)->Some_0[i]
            == IdentifierView::Number(n),
        numerals::numeral_value(parts[i], 10) is None ==> identifiers_of(parts)->Some_0[i]
            == IdentifierView::Word(parts[i]),
    decreases parts.len(),
{
    let head = parts.drop_last();
    if i < head.len() {
        every_part_of_a_pre_release_is_an_identifier(head, i);
    } else if head.len() > 0 {
        every_part_of_a_pre_release_is_an_identifier(head, 0);
    }
}

/// An identifier is made of letters, digits and dashes, of one at least, and is a number where it is all digits.
pub proof fn an_identifier_is_letters_digits_and_dashes(s: Seq<char>)
    ensures
        s.len() == 0 ==> identifier_of(s) is None,
        s.len() > 0 && (forall|i: int|
            0 <= i < s.len() ==> '0' <= #[trigger] s[i] <= '9' || 'a' <= s[i] <= 'z' || 'A' <= s[i]
                <= 'Z' || s[i] == '-') && numerals::numeral_value(s, 10) is None ==> identifier_of(s)
            == Some(IdentifierView::Word(s)),
        (exists|i: int|
            0 <= i < s.len() && !('0' <= #[trigger] s[i] <= '9' || 'a' <= s[i] <= 'z' || 'A' <= s[i]
                <= 'Z' || s[i] == '-')) ==> identifier_of(s) is None,
{
}

/// A number that is an identifier is read as that number.
pub proof fn a_numeric_identifier_reads_back(n: u64)
    ensures
        identifier_of(numerals::numeral(n as nat, 10)) == Some(IdentifierView::Number(n as nat)),
{
    let s = numerals::numeral(n as nat, 10);
    numerals::numeral_round_trip(n as nat, 10);
    lemma_numeral_plain(n as nat);
    assert forall|i: int| 0 <= i < s.len() implies is_identifier_char(#[trigger] s[i]) by {
        numerals::digits_stay_below_their_base(n as nat, 10, i);
    }
}

} // verus!
