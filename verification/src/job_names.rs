//! The names of a run's Job and policy: readable, unique to the plan and revision, and short enough
//! for a DNS label.

use vstd::prelude::*;
use crate::digests;
use crate::digests::{add_number, add_text, digest};
use crate::execution_evaluator::ExecutionHash;
use crate::numerals;
use crate::numerals::{decimal, parse_number};
use crate::resources::MAX_DNS_LABEL_LEN;
use crate::text::{concat, concat3, slice_chars, to_chars};
use crate::utils;
use crate::utils::{generate_id, generate_id_with_length};

verus! {

/// How many symbols of a run name tell plans and revisions apart.
pub const RUN_SHORT_ID_LENGTH: usize = 10;

/// A name with its dots as hyphens, so that it is one DNS label.
pub open spec fn one_label(name: Seq<char>) -> Seq<char> {
    name.map_values(
        |c: char|
            if c == '.' {
                '-'
            } else {
                c
            },
    )
}

/// A text without the hyphens it ends in.
pub open spec fn without_trailing_hyphens(s: Seq<char>) -> Seq<char>
    decreases s.len(),
{
    if s.len() > 0 && s.last() == '-' {
        without_trailing_hyphens(s.drop_last())
    } else {
        s
    }
}

/// The readable part of a generated name: at most `budget` characters of the plan's name, fit to be
/// followed by a hyphen.
pub open spec fn segment(plan_name: Seq<char>, budget: nat) -> Seq<char> {
    let label = one_label(plan_name);
    without_trailing_hyphens(
        if label.len() <= budget {
            label
        } else {
            label.take(budget as int)
        },
    )
}

/// The readable part of a generated name.
pub fn plan_name_segment(plan_name: &str, budget: usize) -> (res: String)
    ensures
        res@ == segment(plan_name@, budget as nat),
{
    let chars = to_chars(plan_name);
    let ghost label = one_label(plan_name@);
    let count: usize = if chars.len() <= budget {
        chars.len()
    } else {
        budget
    };
    let mut kept: Vec<char> = Vec::new();
    let mut i: usize = 0;
    while i < count
        invariant
            i <= count <= chars@.len(),
            chars@ == plan_name@,
            label == one_label(plan_name@),
            kept@ == label.take(i as int),
        decreases count - i,
    {
        let c = chars[i];
        kept.push(
            if c == '.' {
                '-'
            } else {
                c
            },
        );
        assert(kept@ =~= label.take(i + 1));
        i = i + 1;
    }
    let mut end: usize = kept.len();
    let ghost whole = kept@;
    assert(whole.take(end as int) =~= whole);
    assert(whole =~= if label.len() <= budget {
        label
    } else {
        label.take(budget as int)
    });
    while end > 0 && kept[end - 1] == '-'
        invariant
            end <= kept@.len(),
            kept@ == whole,
            without_trailing_hyphens(whole) == without_trailing_hyphens(whole.take(end as int)),
        decreases end,
    {
        assert(whole.take(end as int).drop_last() =~= whole.take(end - 1));
        end = end - 1;
    }
    let res = slice_chars(&kept, 0, end);
    assert(res@ =~= whole.take(end as int));
    res
}

/// The part of a run name that tells plans and revisions apart.
pub open spec fn short_id(plan_uid: Seq<char>, hash: ExecutionHash) -> Seq<char> {
    utils::id_of(
        digests::xxh3_64(digests::text_item(plan_uid) + digests::number_item(hash.0 as nat)) as nat,
        RUN_SHORT_ID_LENGTH as nat,
    )
}

/// The part of a run name that tells plans and revisions apart.
pub fn run_short_id(plan_uid: &str, hash: &ExecutionHash) -> (res: String)
    ensures
        res@ == short_id(plan_uid@, *hash),
{
    let mut bytes: Vec<u8> = Vec::new();
    add_text(&mut bytes, plan_uid);
    add_number(&mut bytes, hash.0);
    assert(bytes@ =~= digests::text_item(plan_uid@) + digests::number_item(hash.0 as nat));
    generate_id_with_length(digest(&bytes), RUN_SHORT_ID_LENGTH)
}

/// What is left of the room in a DNS label.
pub open spec fn room_beside(taken: nat) -> nat {
    if taken <= MAX_DNS_LABEL_LEN {
        (MAX_DNS_LABEL_LEN - taken) as nat
    } else {
        0
    }
}

/// How a run name ends: the short id and the attempt.
pub open spec fn run_suffix(plan_uid: Seq<char>, hash: ExecutionHash, attempt: u32) -> Seq<char> {
    "-"@ + short_id(plan_uid, hash) + "-"@ + numerals::numeral(attempt as nat, 10)
}

/// The name of an attempt's Job, and of its record.
pub open spec fn job_name_of(
    plan_name: Seq<char>,
    plan_uid: Seq<char>,
    hash: ExecutionHash,
    attempt: u32,
) -> Seq<char> {
    let suffix = run_suffix(plan_uid, hash, attempt);
    "apply-"@ + segment(plan_name, room_beside("apply-"@.len() + suffix.len())) + suffix
}

fn with_suffix(prefix: &str, plan_name: &str, suffix: &str) -> (res: String)
    requires
        prefix@.len() + suffix@.len() <= usize::MAX,
    ensures
        res@ == prefix@ + segment(plan_name@, room_beside(prefix@.len() + suffix@.len())) + suffix@,
{
    let taken: usize = to_chars(prefix).len() + to_chars(suffix).len();
    let budget: usize = if taken <= MAX_DNS_LABEL_LEN {
        MAX_DNS_LABEL_LEN - taken
    } else {
        0
    };
    let readable = plan_name_segment(plan_name, budget);
    concat3(prefix, readable.as_str(), suffix)
}

/// The name of an attempt's Job, and of its record.
pub fn job_name(plan_name: &str, plan_uid: &str, hash: &ExecutionHash, retry_count: u32) -> (res: String)
    ensures
        res@ == job_name_of(plan_name@, plan_uid@, *hash, retry_count),
{
    let id = run_short_id(plan_uid, hash);
    let number = decimal(retry_count as u64);
    let start = concat3("-", id.as_str(), "-");
    let suffix = concat(start.as_str(), number.as_str());
    proof {
        lemma_run_suffix(plan_uid@, *hash, retry_count);
        reveal_strlit("apply-");
    }
    with_suffix("apply-", plan_name, suffix.as_str())
}

/// How the name of a run's egress policy ends.
pub open spec fn policy_suffix(plan_name: Seq<char>, hash: ExecutionHash) -> Seq<char> {
    "-"@ + utils::id_of(digests::text_digest(plan_name) as nat, 5) + "-"@ + utils::id_of(
        hash.0 as nat,
        5,
    ) + "-egress"@
}

/// The name of a run's egress policy: the plan's name, and a digest of it for where it was cut.
pub open spec fn policy_name_of(plan_name: Seq<char>, hash: ExecutionHash) -> Seq<char> {
    let suffix = policy_suffix(plan_name, hash);
    "playbook-"@ + segment(plan_name, room_beside("playbook-"@.len() + suffix.len())) + suffix
}

/// The name of a run's egress policy.
pub fn job_network_policy_name(plan_name: &str, hash: &ExecutionHash) -> (res: String)
    ensures
        res@ == policy_name_of(plan_name@, *hash),
{
    let mut bytes: Vec<u8> = Vec::new();
    add_text(&mut bytes, plan_name);
    assert(bytes@ =~= digests::text_item(plan_name@));
    let plan_id = generate_id(digest(&bytes));
    let hash_id = generate_id(hash.0);
    let start = concat3("-", plan_id.as_str(), "-");
    let suffix = concat3(start.as_str(), hash_id.as_str(), "-egress");
    proof {
        lemma_policy_suffix(plan_name@, *hash);
        reveal_strlit("playbook-");
    }
    with_suffix("playbook-", plan_name, suffix.as_str())
}

/// What stands behind the last `c` of a text, or the whole text where there is none.
pub open spec fn after_last(s: Seq<char>, c: char) -> Seq<char>
    decreases s.len(),
{
    if s.len() == 0 || s.last() == c {
        Seq::empty()
    } else {
        after_last(s.drop_last(), c).push(s.last())
    }
}

/// The attempt a Job name ends in.
pub open spec fn attempt_in(job_name: Seq<char>) -> Option<u32> {
    match numerals::number_value(after_last(job_name, '-'), 10) {
        Some(n) => if n <= u32::MAX {
            Some(n as u32)
        } else {
            None
        },
        None => None,
    }
}

/// The attempt a Job name ends in.
pub fn retry_count_from_job_name(job_name: &str) -> (res: Option<u32>)
    ensures
        res == attempt_in(job_name@),
{
    let chars = to_chars(job_name);
    let ghost s = job_name@;
    let mut from: usize = chars.len();
    assert(s.take(from as int) =~= s);
    assert(s.skip(from as int) =~= Seq::<char>::empty());
    assert(after_last(s, '-') =~= after_last(s.take(from as int), '-') + s.skip(from as int));
    while from > 0 && chars[from - 1] != '-'
        invariant
            from <= chars@.len(),
            chars@ == s,
            after_last(s, '-') == after_last(s.take(from as int), '-') + s.skip(from as int),
        decreases from,
    {
        proof {
            let shorter = s.take(from - 1);
            assert(s.take(from as int).drop_last() =~= shorter);
            assert(after_last(shorter, '-').push(s[from - 1]) + s.skip(from as int) =~= after_last(
                shorter,
                '-',
            ) + s.skip(from - 1));
        }
        from = from - 1;
    }
    assert(after_last(s, '-') =~= s.skip(from as int));
    let tail = slice_chars(&chars, from, chars.len());
    assert(tail@ =~= s.skip(from as int));
    match parse_number(tail.as_str(), 10) {
        Some(n) => if n <= u32::MAX as u64 {
            Some(n as u32)
        } else {
            None
        },
        None => None,
    }
}

// --- laws ------------------------------------------------------------------------------------

/// Whether a character may stand in a DNS label.
pub open spec fn is_label_char(c: char) -> bool {
    utils::is_id_char(c) || c == '-'
}

/// Whether a text is a DNS label: short enough, of the right characters, and with a letter or digit
/// at either end.
pub open spec fn is_dns_label(s: Seq<char>) -> bool {
    &&& 0 < s.len() <= MAX_DNS_LABEL_LEN
    &&& utils::is_id_char(s[0])
    &&& utils::is_id_char(s.last())
    &&& forall|i: int| 0 <= i < s.len() ==> is_label_char(#[trigger] s[i])
}

/// Whether a text is made of what object names are made of: lower-case letters, digits, hyphens and
/// dots.
pub open spec fn is_name_text(s: Seq<char>) -> bool {
    forall|i: int| 0 <= i < s.len() ==> is_label_char(#[trigger] s[i]) || s[i] == '.'
}

proof fn lemma_decimal(n: nat, digits: nat)
    requires
        n < vstd::arithmetic::power::pow(10, digits),
        digits >= 1,
    ensures
        0 < numerals::numeral(n, 10).len() <= digits,
        forall|i: int|
            0 <= i < numerals::numeral(n, 10).len() ==> '0' <= #[trigger] numerals::numeral(n, 10)[i]
                <= '9',
    decreases digits,
{
    let s = numerals::numeral(n, 10);
    vstd::arithmetic::power::lemma_pow1(10);
    if n >= 10 {
        if digits == 1 {
            assert(false);
        }
        vstd::arithmetic::power::lemma_pow_adds(10, (digits - 1) as nat, 1);
        assert(vstd::arithmetic::power::pow(10, digits) == vstd::arithmetic::power::pow(
            10,
            (digits - 1) as nat,
        ) * 10);
        lemma_decimal(n / 10, (digits - 1) as nat);
        let shorter = numerals::numeral(n / 10, 10);
        assert forall|i: int| 0 <= i < s.len() implies '0' <= #[trigger] s[i] <= '9' by {
            if i < s.len() - 1 {
                assert(s[i] == shorter[i]);
            }
        }
    }
}

proof fn lemma_u32_numeral(n: u32)
    ensures
        0 < numerals::numeral(n as nat, 10).len() <= 10,
        forall|i: int|
            0 <= i < numerals::numeral(n as nat, 10).len() ==> '0' <= #[trigger] numerals::numeral(
                n as nat,
                10,
            )[i] <= '9',
{
    assert(vstd::arithmetic::power::pow(10, 10) == 10_000_000_000) by {
        reveal(vstd::arithmetic::power::pow);
        reveal_with_fuel(vstd::arithmetic::power::pow, 11);
    }
    lemma_decimal(n as nat, 10);
}

proof fn lemma_run_suffix(plan_uid: Seq<char>, hash: ExecutionHash, attempt: u32)
    ensures
        13 <= run_suffix(plan_uid, hash, attempt).len() <= 22,
        run_suffix(plan_uid, hash, attempt)[0] == '-',
        utils::is_id_char(run_suffix(plan_uid, hash, attempt).last()),
        forall|i: int|
            0 <= i < run_suffix(plan_uid, hash, attempt).len() ==> is_label_char(
                #[trigger] run_suffix(plan_uid, hash, attempt)[i],
            ),
{
    reveal_strlit("-");
    let n = digests::xxh3_64(
        digests::text_item(plan_uid) + digests::number_item(hash.0 as nat),
    ) as nat;
    utils::ids_fit_names(n, RUN_SHORT_ID_LENGTH as nat);
    lemma_u32_numeral(attempt);
    let id = short_id(plan_uid, hash);
    let digits = numerals::numeral(attempt as nat, 10);
    let s = run_suffix(plan_uid, hash, attempt);
    assert(s.last() == digits.last());
    assert forall|i: int| 0 <= i < s.len() implies is_label_char(#[trigger] s[i]) by {
        if i == 0 || i == 11 {
            assert(s[i] == '-');
        } else if i < 11 {
            assert(s[i] == id[i - 1]);
        } else {
            assert(s[i] == digits[i - 12]);
        }
    }
}

proof fn lemma_policy_suffix(plan_name: Seq<char>, hash: ExecutionHash)
    ensures
        policy_suffix(plan_name, hash).len() == 19,
        utils::is_id_char(policy_suffix(plan_name, hash).last()),
        forall|i: int|
            0 <= i < 19 ==> is_label_char(#[trigger] policy_suffix(plan_name, hash)[i]),
{
    reveal_strlit("-");
    reveal_strlit("-egress");
    utils::ids_fit_names(digests::text_digest(plan_name) as nat, 5);
    utils::ids_fit_names(hash.0 as nat, 5);
    let plan_id = utils::id_of(digests::text_digest(plan_name) as nat, 5);
    let hash_id = utils::id_of(hash.0 as nat, 5);
    let s = policy_suffix(plan_name, hash);
    assert forall|i: int| 0 <= i < 19 implies is_label_char(#[trigger] s[i]) by {
        if i == 0 || i == 6 {
            assert(s[i] == '-');
        } else if i < 6 {
            assert(s[i] == plan_id[i - 1]);
        } else if i < 12 {
            assert(s[i] == hash_id[i - 7]);
        } else {
            assert(s[i] == "-egress"@[i - 12]);
        }
    }
}

proof fn lemma_without_trailing_hyphens(s: Seq<char>)
    ensures
        without_trailing_hyphens(s).len() <= s.len(),
        without_trailing_hyphens(s) == s.take(without_trailing_hyphens(s).len() as int),
    decreases s.len(),
{
    if s.len() > 0 && s.last() == '-' {
        lemma_without_trailing_hyphens(s.drop_last());
        let shorter = without_trailing_hyphens(s);
        assert(s.drop_last().take(shorter.len() as int) =~= s.take(shorter.len() as int));
    } else {
        assert(s =~= s.take(s.len() as int));
    }
}

proof fn lemma_segment(plan_name: Seq<char>, budget: nat)
    ensures
        segment(plan_name, budget).len() <= budget,
        is_name_text(plan_name) ==> forall|i: int|
            0 <= i < segment(plan_name, budget).len() ==> is_label_char(
                #[trigger] segment(plan_name, budget)[i],
            ),
{
    let label = one_label(plan_name);
    let cut = if label.len() <= budget {
        label
    } else {
        label.take(budget as int)
    };
    lemma_without_trailing_hyphens(cut);
    let s = segment(plan_name, budget);
    if is_name_text(plan_name) {
        assert forall|i: int| 0 <= i < s.len() implies is_label_char(#[trigger] s[i]) by {
            assert(s[i] == cut[i]);
            assert(cut[i] == label[i]);
            assert(is_label_char(plan_name[i]) || plan_name[i] == '.');
        }
    }
}

/// Every Job name is a DNS label, whatever the length of the plan's name, dots in it or the number
/// of the attempt.
pub proof fn job_names_are_dns_labels(
    plan_name: Seq<char>,
    plan_uid: Seq<char>,
    hash: ExecutionHash,
    attempt: u32,
)
    ensures
        job_name_of(plan_name, plan_uid, hash, attempt).len() <= MAX_DNS_LABEL_LEN,
        is_name_text(plan_name) ==> is_dns_label(job_name_of(plan_name, plan_uid, hash, attempt)),
{
    reveal_strlit("apply-");
    lemma_run_suffix(plan_uid, hash, attempt);
    let suffix = run_suffix(plan_uid, hash, attempt);
    let budget = room_beside("apply-"@.len() + suffix.len());
    lemma_segment(plan_name, budget);
    let readable = segment(plan_name, budget);
    let s = job_name_of(plan_name, plan_uid, hash, attempt);
    assert(s.len() == 6 + readable.len() + suffix.len());
    if is_name_text(plan_name) {
        assert(s[0] == 'a');
        assert(s.last() == suffix.last());
        assert forall|i: int| 0 <= i < s.len() implies is_label_char(#[trigger] s[i]) by {
            if i < 6 {
                assert(s[i] == "apply-"@[i]);
            } else if i < 6 + readable.len() {
                assert(s[i] == readable[i - 6]);
            } else {
                assert(s[i] == suffix[i - 6 - readable.len()]);
            }
        }
    }
}

/// Every policy name is a DNS label, whatever the length of the plan's name or dots in it.
pub proof fn policy_names_are_dns_labels(plan_name: Seq<char>, hash: ExecutionHash)
    ensures
        policy_name_of(plan_name, hash).len() <= MAX_DNS_LABEL_LEN,
        is_name_text(plan_name) ==> is_dns_label(policy_name_of(plan_name, hash)),
{
    reveal_strlit("playbook-");
    lemma_policy_suffix(plan_name, hash);
    let suffix = policy_suffix(plan_name, hash);
    let budget = room_beside("playbook-"@.len() + suffix.len());
    lemma_segment(plan_name, budget);
    let readable = segment(plan_name, budget);
    let s = policy_name_of(plan_name, hash);
    assert(s.len() == 9 + readable.len() + suffix.len());
    if is_name_text(plan_name) {
        assert(s[0] == 'p');
        assert(s.last() == suffix.last());
        assert forall|i: int| 0 <= i < s.len() implies is_label_char(#[trigger] s[i]) by {
            if i < 9 {
                assert(s[i] == "playbook-"@[i]);
            } else if i < 9 + readable.len() {
                assert(s[i] == readable[i - 9]);
            } else {
                assert(s[i] == suffix[i - 9 - readable.len()]);
            }
        }
    }
}

proof fn lemma_after_last(head: Seq<char>, tail: Seq<char>, c: char)
    requires
        head.len() > 0,
        head.last() == c,
        forall|i: int| 0 <= i < tail.len() ==> #[trigger] tail[i] != c,
    ensures
        after_last(head + tail, c) == tail,
    decreases tail.len(),
{
    let s = head + tail;
    if tail.len() == 0 {
        assert(s =~= head);
        assert(after_last(s, c) =~= tail);
    } else {
        lemma_after_last(head, tail.drop_last(), c);
        assert(s.drop_last() =~= head + tail.drop_last());
        assert(s.last() == tail.last());
        assert(after_last(s, c) =~= tail);
    }
}

/// The attempt reads back from the name, so names of different attempts differ.
pub proof fn attempts_read_back_from_names(
    plan_name: Seq<char>,
    plan_uid: Seq<char>,
    hash: ExecutionHash,
    attempt: u32,
)
    ensures
        attempt_in(job_name_of(plan_name, plan_uid, hash, attempt)) == Some(attempt),
{
    reveal_strlit("-");
    let suffix = run_suffix(plan_uid, hash, attempt);
    let digits = numerals::numeral(attempt as nat, 10);
    let budget = room_beside("apply-"@.len() + suffix.len());
    let head = "apply-"@ + segment(plan_name, budget) + "-"@ + short_id(plan_uid, hash) + "-"@;
    lemma_u32_numeral(attempt);
    numerals::numeral_round_trip(attempt as nat, 10);
    assert(job_name_of(plan_name, plan_uid, hash, attempt) =~= head + digits);
    assert(head.last() == '-');
    lemma_after_last(head, digits, '-');
}

/// A Job's name begins and ends with what makes it the run's: it says that it applies, and which run and
/// attempt of which plan it is of. Two attempts of a plan at a revision never share a name.
pub proof fn a_job_name_says_its_attempt(
    plan_name: Seq<char>,
    plan_uid: Seq<char>,
    hash: ExecutionHash,
    attempt: u32,
    other: u32,
)
    ensures
        ({
            let name = job_name_of(plan_name, plan_uid, hash, attempt);
            let end = "-"@ + short_id(plan_uid, hash) + "-"@ + numerals::numeral(attempt as nat, 10);
            &&& name.len() >= "apply-"@.len() + end.len()
            &&& name.take("apply-"@.len() as int) == "apply-"@
            &&& name.skip(name.len() - end.len()) == end
        }),
        job_name_of(plan_name, plan_uid, hash, attempt) == job_name_of(
            plan_name,
            plan_uid,
            hash,
            other,
        ) <==> attempt == other,
{
    let name = job_name_of(plan_name, plan_uid, hash, attempt);
    let end = "-"@ + short_id(plan_uid, hash) + "-"@ + numerals::numeral(attempt as nat, 10);
    assert(name.take("apply-"@.len() as int) =~= "apply-"@);
    assert(name.skip(name.len() - end.len()) =~= end);
    attempts_read_back_from_names(plan_name, plan_uid, hash, attempt);
    attempts_read_back_from_names(plan_name, plan_uid, hash, other);
}

/// A plan's name is kept in the names made of it as far as there is room, with hyphens for its dots and
/// none of them at the end.
pub proof fn a_plan_name_is_kept_as_far_as_it_fits(plan_name: Seq<char>, budget: nat, i: int)
    ensures
        segment(plan_name, budget).len() <= budget,
        segment(plan_name, budget).len() <= plan_name.len(),
        segment(plan_name, budget).len() > 0 ==> segment(plan_name, budget).last() != '-',
        0 <= i < segment(plan_name, budget).len() ==> segment(plan_name, budget)[i] == if plan_name[i]
            == '.' {
            '-'
        } else {
            plan_name[i]
        },
        forall|k: int|
            segment(plan_name, budget).len() <= k < plan_name.len() && k < budget ==> #[trigger] plan_name[k]
                == '.' || plan_name[k] == '-',
{
    let label = one_label(plan_name);
    let cut = if label.len() <= budget {
        label
    } else {
        label.take(budget as int)
    };
    lemma_without_hyphens(cut);
    assert forall|k: int|
        segment(plan_name, budget).len() <= k < plan_name.len() && k < budget implies #[trigger] plan_name[k]
        == '.' || plan_name[k] == '-' by {
        assert(cut[k] == '-');
        assert(label[k] == cut[k]);
    }
}

proof fn lemma_without_hyphens(s: Seq<char>)
    ensures
        without_trailing_hyphens(s).len() <= s.len(),
        without_trailing_hyphens(s) == s.take(without_trailing_hyphens(s).len() as int),
        without_trailing_hyphens(s).len() > 0 ==> without_trailing_hyphens(s).last() != '-',
        forall|k: int| without_trailing_hyphens(s).len() <= k < s.len() ==> #[trigger] s[k] == '-',
    decreases s.len(),
{
    if s.len() > 0 && s.last() == '-' {
        lemma_without_hyphens(s.drop_last());
        let kept = without_trailing_hyphens(s);
        assert(kept =~= s.take(kept.len() as int));
        assert forall|k: int| kept.len() <= k < s.len() implies #[trigger] s[k] == '-' by {
            if k < s.len() - 1 {
                assert(s.drop_last()[k] == s[k]);
            }
        }
    } else {
        assert(s =~= s.take(s.len() as int));
    }
}

/// A DNS label has at most sixty-three characters, all of them small letters, digits or dashes, with no dash at
/// either end.
pub proof fn a_dns_label_is_what_dns_takes(s: Seq<char>, i: int)
    requires
        is_dns_label(s),
    ensures
        0 < s.len() <= 63,
        s[0] != '-',
        s.last() != '-',
        0 <= i < s.len() ==> 'a' <= s[i] <= 'z' || '0' <= s[i] <= '9' || s[i] == '-',
{
}

} // verus!
