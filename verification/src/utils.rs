//! Conditions and short identifiers.

use vstd::prelude::*;
use crate::plans::Timestamp;
use crate::text;
use crate::text::{slice_chars, text_eq};

verus! {

/// One condition of a status: what it is about, whether it holds, why, and since when.
pub trait Condition: Sized {
    spec fn type_text(&self) -> Seq<char>;

    spec fn status_text(&self) -> Seq<char>;

    spec fn reason_text(&self) -> Option<Seq<char>>;

    spec fn message_text(&self) -> Option<Seq<char>>;

    spec fn transitioned(&self) -> Option<Timestamp>;

    fn type_(&self) -> (res: &str)
        ensures
            res@ == self.type_text(),
    ;

    fn status(&self) -> (res: &str)
        ensures
            res@ == self.status_text(),
    ;

    fn reason(&self) -> (res: Option<&str>)
        ensures
            text::str_of(res) == self.reason_text(),
    ;

    fn message(&self) -> (res: Option<&str>)
        ensures
            text::str_of(res) == self.message_text(),
    ;

    fn last_transition_time(&self) -> (res: Option<Timestamp>)
        ensures
            res == self.transitioned(),
    ;

    fn set_last_transition_time(&mut self, value: Option<Timestamp>)
        ensures
            final(self).transitioned() == value,
            final(self).type_text() == old(self).type_text(),
            final(self).status_text() == old(self).status_text(),
            final(self).reason_text() == old(self).reason_text(),
            final(self).message_text() == old(self).message_text(),
    ;
}

/// A condition of a plan's status.
#[derive(Debug, Clone, PartialEq, Eq)]
pub struct PlaybookPlanCondition {
    pub type_: String,
    pub status: String,
    pub reason: Option<String>,
    pub message: Option<String>,
    pub last_transition_time: Option<Timestamp>,
}

fn borrowed(s: &Option<String>) -> (res: Option<&str>)
    ensures
        text::str_of(res) == text::text_of(*s),
{
    match s {
        Some(s) => Some(s.as_str()),
        None => None,
    }
}

impl Condition for PlaybookPlanCondition {
    open spec fn type_text(&self) -> Seq<char> {
        self.type_@
    }

    open spec fn status_text(&self) -> Seq<char> {
        self.status@
    }

    open spec fn reason_text(&self) -> Option<Seq<char>> {
        text::text_of(self.reason)
    }

    open spec fn message_text(&self) -> Option<Seq<char>> {
        text::text_of(self.message)
    }

    open spec fn transitioned(&self) -> Option<Timestamp> {
        self.last_transition_time
    }

    fn type_(&self) -> (res: &str) {
        self.type_.as_str()
    }

    fn status(&self) -> (res: &str) {
        self.status.as_str()
    }

    fn reason(&self) -> (res: Option<&str>) {
        borrowed(&self.reason)
    }

    fn message(&self) -> (res: Option<&str>) {
        borrowed(&self.message)
    }

    fn last_transition_time(&self) -> (res: Option<Timestamp>) {
        self.last_transition_time
    }

    fn set_last_transition_time(&mut self, value: Option<Timestamp>) {
        self.last_transition_time = value;
    }
}

/// Where the first condition of a type stands, or the number of conditions where there is none.
pub open spec fn condition_index<T: Condition>(conditions: Seq<T>, type_: Seq<char>) -> int
    decreases conditions.len(),
{
    if conditions.len() == 0 || conditions[0].type_text() == type_ {
        0
    } else {
        1 + condition_index(conditions.drop_first(), type_)
    }
}

/// Whether two conditions say the same thing: status, reason and message.
pub open spec fn says_the_same<T: Condition>(a: T, b: T) -> bool {
    a.status_text() == b.status_text() && a.reason_text() == b.reason_text() && a.message_text()
        == b.message_text()
}

/// Whether `after` is `before` with `new` in the place of the condition of its type: appended where
/// there is none, unchanged where it says nothing new, and keeping the time of the last transition
/// where the status is the same.
pub open spec fn upserted<T: Condition>(before: Seq<T>, new: T, after: Seq<T>) -> bool {
    let i = condition_index(before, new.type_text());
    if i >= before.len() {
        after == before.push(new)
    } else if says_the_same(before[i], new) {
        after == before
    } else {
        &&& after.len() == before.len()
        &&& forall|j: int| 0 <= j < before.len() && j != i ==> after[j] == before[j]
        &&& after[i].type_text() == new.type_text()
        &&& says_the_same(after[i], new)
        &&& after[i].transitioned() == if before[i].status_text() == new.status_text() {
            before[i].transitioned()
        } else {
            new.transitioned()
        }
        &&& before[i].status_text() != new.status_text() ==> after[i] == new
    }
}

proof fn lemma_condition_index<T: Condition>(conditions: Seq<T>, type_: Seq<char>, i: int)
    requires
        0 <= i <= conditions.len(),
        i < conditions.len() ==> conditions[i].type_text() == type_,
        forall|j: int| 0 <= j < i ==> (#[trigger] conditions[j]).type_text() != type_,
    ensures
        condition_index(conditions, type_) == i,
    decreases conditions.len(),
{
    if i > 0 {
        let rest = conditions.drop_first();
        assert(conditions[0].type_text() != type_);
        assert forall|j: int| 0 <= j < i - 1 implies (#[trigger] rest[j]).type_text() != type_ by {
            assert(rest[j] == conditions[j + 1]);
        }
        lemma_condition_index(rest, type_, i - 1);
    }
}

fn same_optional(a: Option<&str>, b: Option<&str>) -> (res: bool)
    ensures
        res == (text::str_of(a) == text::str_of(b)),
{
    match (a, b) {
        (Some(a), Some(b)) => text_eq(a, b),
        (None, None) => true,
        _ => false,
    }
}

/// Replaces the condition of the same `type` with `new_condition`, or appends it.
///
/// The message is part of what makes two conditions different, and the time of the last transition
/// still marks the last time the *status* changed.
pub fn upsert_condition<T: Condition>(conditions: &mut Vec<T>, new_condition: T)
    ensures
        upserted(old(conditions)@, new_condition, final(conditions)@),
{
    let mut i: usize = 0;
    while i < conditions.len() && !text_eq(conditions[i].type_(), new_condition.type_())
        invariant
            conditions@ == old(conditions)@,
            i <= conditions@.len(),
            forall|j: int|
                0 <= j < i ==> (#[trigger] conditions@[j]).type_text()
                    != new_condition.type_text(),
        decreases conditions.len() - i,
    {
        i = i + 1;
    }
    proof {
        lemma_condition_index(conditions@, new_condition.type_text(), i as int);
    }
    if i == conditions.len() {
        conditions.push(new_condition);
        return;
    }
    let status_unchanged = text_eq(conditions[i].status(), new_condition.status());
    if status_unchanged && same_optional(conditions[i].reason(), new_condition.reason())
        && same_optional(conditions[i].message(), new_condition.message()) {
        return;
    }
    let mut replacement = new_condition;
    if status_unchanged {
        replacement.set_last_transition_time(conditions[i].last_transition_time());
    }
    conditions.set(i, replacement);
}

/// Writing the same condition a second time changes nothing.
pub proof fn upsert_is_idempotent<T: Condition>(before: Seq<T>, new: T, after: Seq<T>, again: Seq<T>)
    requires
        upserted(before, new, after),
        upserted(after, new, again),
    ensures
        again == after,
{
    let i = condition_index(before, new.type_text());
    lemma_condition_index_bounds(before, new.type_text());
    if i >= before.len() {
        assert forall|j: int| 0 <= j < before.len() implies (#[trigger] after[j]).type_text()
            != new.type_text() by {
            assert(after[j] == before[j]);
        }
        lemma_condition_index(after, new.type_text(), before.len() as int);
    } else {
        assert forall|j: int| 0 <= j < i implies (#[trigger] after[j]).type_text()
            != new.type_text() by {
            assert(after[j] == before[j]);
        }
        lemma_condition_index(after, new.type_text(), i);
    }
}

proof fn lemma_condition_index_bounds<T: Condition>(conditions: Seq<T>, type_: Seq<char>)
    ensures
        0 <= condition_index(conditions, type_) <= conditions.len(),
        condition_index(conditions, type_) < conditions.len() ==> conditions[condition_index(
            conditions,
            type_,
        )].type_text() == type_,
        forall|j: int|
            0 <= j < condition_index(conditions, type_) ==> (#[trigger] conditions[j]).type_text()
                != type_,
    decreases conditions.len(),
{
    if conditions.len() > 0 && conditions[0].type_text() != type_ {
        let rest = conditions.drop_first();
        lemma_condition_index_bounds(rest, type_);
        assert forall|j: int| 0 <= j < condition_index(conditions, type_) implies (
        #[trigger] conditions[j]).type_text() != type_ by {
            if j > 0 {
                assert(conditions[j] == rest[j - 1]);
            }
        }
    }
}

/// The symbols an identifier is written in: no vowels, and no digits that read as letters.
pub const ID_ALPHABET: &'static str = "bcdfghjklmnpqrstvwxz2456789";

/// The digits of a positive number in the identifier alphabet, most significant first.
pub open spec fn id_digits(n: nat) -> Seq<char>
    decreases n,
{
    if n < 27 {
        seq![ID_ALPHABET@[n as int]]
    } else {
        id_digits(n / 27).push(ID_ALPHABET@[(n % 27) as int])
    }
}

/// A number in the identifier alphabet; zero is six padding symbols.
pub open spec fn encoded_id(n: nat) -> Seq<char> {
    if n == 0 {
        seq!['a', 'a', 'a', 'a', 'a', 'a']
    } else {
        id_digits(n)
    }
}

/// The identifier of a number: its encoding, cut on the left or padded with `a` to the length.
pub open spec fn id_of(n: nat, length: nat) -> Seq<char> {
    let encoded = encoded_id(n);
    if encoded.len() >= length {
        encoded.skip(encoded.len() - length)
    } else {
        Seq::new((length - encoded.len()) as nat, |i: int| 'a') + encoded
    }
}

/// Whether a character may stand in a generated name: a lower-case letter or a digit.
pub open spec fn is_id_char(c: char) -> bool {
    'a' <= c <= 'z' || '0' <= c <= '9'
}

proof fn lemma_alphabet()
    ensures
        ID_ALPHABET@.len() == 27,
        forall|i: int| 0 <= i < 27 ==> is_id_char(#[trigger] ID_ALPHABET@[i]),
{
    reveal_strlit("bcdfghjklmnpqrstvwxz2456789");
}

fn push_id_digits(out: &mut Vec<char>, n: u64)
    ensures
        final(out)@ == old(out)@ + id_digits(n as nat),
    decreases n,
{
    proof {
        lemma_alphabet();
    }
    if n < 27 {
        out.push(ID_ALPHABET.get_char(n as usize));
    } else {
        push_id_digits(out, n / 27);
        out.push(ID_ALPHABET.get_char((n % 27) as usize));
    }
    assert(out@ =~= old(out)@ + id_digits(n as nat));
}

fn encode_kubelike(num: u64) -> (res: Vec<char>)
    ensures
        res@ == encoded_id(num as nat),
{
    let mut out: Vec<char> = Vec::new();
    if num == 0 {
        let mut i: usize = 0;
        while i < 6
            invariant
                i <= 6,
                out@ == encoded_id(0).take(i as int),
            decreases 6 - i,
        {
            out.push('a');
            i = i + 1;
        }
        assert(out@ =~= encoded_id(0));
    } else {
        push_id_digits(&mut out, num);
        assert(out@ =~= encoded_id(num as nat));
    }
    out
}

/// A short identifier for use in resource names.
pub fn generate_id(num: u64) -> (res: String)
    ensures
        res@ == id_of(num as nat, 5),
{
    generate_id_with_length(num, 5)
}

/// [`generate_id`] with an explicit length.
pub fn generate_id_with_length(num: u64, length: usize) -> (res: String)
    ensures
        res@ == id_of(num as nat, length as nat),
{
    let encoded = encode_kubelike(num);
    let n = encoded.len();
    if n >= length {
        let res = slice_chars(&encoded, n - length, n);
        assert(res@ =~= encoded@.skip(n - length));
        return res;
    }
    let mut out = String::new();
    let pad = length - n;
    let mut i: usize = 0;
    while i < pad
        invariant
            i <= pad,
            out@ == Seq::new(i as nat, |i: int| 'a'),
        decreases pad - i,
    {
        out.push('a');
        assert(out@ =~= Seq::new((i + 1) as nat, |i: int| 'a'));
        i = i + 1;
    }
    let digits = slice_chars(&encoded, 0, n);
    out.append(digits.as_str());
    assert(out@ =~= id_of(num as nat, length as nat));
    out
}

proof fn lemma_id_digits(n: nat)
    ensures
        id_digits(n).len() > 0,
        forall|i: int| 0 <= i < id_digits(n).len() ==> is_id_char(#[trigger] id_digits(n)[i]),
    decreases n,
{
    lemma_alphabet();
    if n >= 27 {
        lemma_id_digits(n / 27);
        let s = id_digits(n);
        assert forall|i: int| 0 <= i < s.len() implies is_id_char(#[trigger] s[i]) by {
            if i < s.len() - 1 {
                assert(s[i] == id_digits(n / 27)[i]);
            }
        }
    }
}

/// Every identifier has exactly the length asked for and is made of lower-case letters and digits,
/// so it can stand in a resource name.
pub proof fn ids_fit_names(n: nat, length: nat)
    ensures
        id_of(n, length).len() == length,
        forall|i: int| 0 <= i < length ==> is_id_char(#[trigger] id_of(n, length)[i]),
{
    lemma_id_digits(n);
    let encoded = encoded_id(n);
    let id = id_of(n, length);
    assert forall|i: int| 0 <= i < length implies is_id_char(#[trigger] id[i]) by {
        if encoded.len() >= length {
            assert(id[i] == encoded[encoded.len() - length + i]);
        } else if i >= length - encoded.len() {
            assert(id[i] == encoded[i - (length - encoded.len())]);
        }
    }
}

/// A condition is added where none is of its type, and left alone where the one there says the same.
pub proof fn a_new_condition_is_added<T: Condition>(before: Seq<T>, new: T, after: Seq<T>)
    requires
        upserted(before, new, after),
        forall|k: int| 0 <= k < before.len() ==> (#[trigger] before[k]).type_text() != new.type_text(),
    ensures
        after == before.push(new),
{
    lemma_condition_index_at(before, new.type_text(), before.len() as int);
}

proof fn lemma_condition_index_at<T: Condition>(conditions: Seq<T>, type_: Seq<char>, i: int)
    requires
        0 <= i <= conditions.len(),
        forall|k: int| 0 <= k < i ==> (#[trigger] conditions[k]).type_text() != type_,
        i < conditions.len() ==> conditions[i].type_text() == type_,
    ensures
        condition_index(conditions, type_) == i,
    decreases i,
{
    if i > 0 {
        assert(conditions[0].type_text() != type_);
        let rest = conditions.drop_first();
        assert forall|k: int| 0 <= k < i - 1 implies (#[trigger] rest[k]).type_text() != type_ by {
            assert(rest[k] == conditions[k + 1]);
        }
        lemma_condition_index_at(rest, type_, i - 1);
    }
}

/// The first condition of a type is the one that is renewed, and it alone: it says what the new one says, and
/// its time moves exactly where its status does.
pub proof fn a_conditions_time_moves_with_its_status<T: Condition>(
    before: Seq<T>,
    new: T,
    after: Seq<T>,
    i: int,
)
    requires
        upserted(before, new, after),
        0 <= i < before.len(),
        before[i].type_text() == new.type_text(),
        forall|k: int| 0 <= k < i ==> (#[trigger] before[k]).type_text() != new.type_text(),
    ensures
        after.len() == before.len(),
        after[i].type_text() == new.type_text(),
        after[i].status_text() == new.status_text(),
        after[i].reason_text() == new.reason_text(),
        after[i].message_text() == new.message_text(),
        before[i].status_text() == new.status_text() ==> after[i].transitioned()
            == before[i].transitioned(),
        before[i].status_text() != new.status_text() ==> after[i].transitioned()
            == new.transitioned(),
        forall|k: int| 0 <= k < before.len() && k != i ==> after[k] == before[k],
{
    lemma_condition_index_at(before, new.type_text(), i);
}

/// An identifier is written digit by digit in the twenty-seven characters of its alphabet, and keeps its last
/// characters where it is too long and is filled up in front where it is too short.
pub proof fn an_identifier_is_written_digit_by_digit(n: nat, d: nat, length: nat)
    requires
        n > 0,
        d < 27,
    ensures
        id_digits(d) == seq!["bcdfghjklmnpqrstvwxz2456789"@[d as int]],
        id_digits(n * 27 + d) == id_digits(n) + id_digits(d),
        id_digits(n).len() >= length ==> id_of(n, length) == id_digits(n).skip(
            id_digits(n).len() - length,
        ),
        id_digits(n).len() < length ==> id_of(n, length).skip(length - id_digits(n).len())
            == id_digits(n) && forall|i: int|
            0 <= i < length - id_digits(n).len() ==> #[trigger] id_of(n, length)[i] == 'a',
{
    assert((n * 27 + d) / 27 == n && (n * 27 + d) % 27 == d);
    assert(id_digits(n * 27 + d) =~= id_digits(n) + id_digits(d));
    if id_digits(n).len() < length {
        assert(id_of(n, length).skip(length - id_digits(n).len()) =~= id_digits(n));
    }
}

} // verus!
