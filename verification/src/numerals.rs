//! Numbers written as text, in base ten and base sixteen, and read back.

use vstd::prelude::*;
use crate::text::{to_chars};

verus! {

/// The digit that stands for `d`, lower case.
pub open spec fn digit_char(d: nat) -> char {
    if d < 10 {
        (48 + d) as char
    } else {
        (87 + d) as char
    }
}

/// `n` written in `base`, most significant digit first, without leading zeros.
pub open spec fn numeral(n: nat, base: nat) -> Seq<char>
    decreases n,
{
    if n < base || base < 2 {
        seq![digit_char(n)]
    } else {
        proof {
            assert(n / base < n) by (nonlinear_arith)
                requires
                    base >= 2,
                    n >= base,
            ;
        }
        numeral(n / base, base).push(digit_char(n % base))
    }
}

/// The number a digit stands for, in either case.
pub open spec fn digit_value(c: char) -> Option<nat> {
    if '0' <= c <= '9' {
        Some((c as int - 48) as nat)
    } else if 'a' <= c <= 'z' {
        Some((c as int - 87) as nat)
    } else if 'A' <= c <= 'Z' {
        Some((c as int - 55) as nat)
    } else {
        None
    }
}

/// The number a non-empty run of digits of `base` stands for, read left to right.
pub open spec fn numeral_value(s: Seq<char>, base: nat) -> Option<nat>
    decreases s.len(),
{
    if s.len() == 0 {
        None
    } else {
        match digit_value(s.last()) {
            Some(d) => if d >= base {
                None
            } else if s.len() == 1 {
                Some(d)
            } else {
                match numeral_value(s.drop_last(), base) {
                    Some(n) => Some(n * base + d),
                    None => None,
                }
            },
            None => None,
        }
    }
}

/// A number as it may be written: digits, with at most one leading plus sign.
pub open spec fn number_value(s: Seq<char>, base: nat) -> Option<nat> {
    if s.len() > 1 && s[0] == '+' {
        numeral_value(s.skip(1), base)
    } else {
        numeral_value(s, base)
    }
}

fn digit(d: u64) -> (res: char)
    requires
        d < 16,
    ensures
        res == digit_char(d as nat),
{
    if d < 10 {
        (48 + d as u8) as char
    } else {
        (87 + d as u8) as char
    }
}

fn push_numeral(out: &mut String, n: u64, base: u64)
    requires
        2 <= base <= 16,
    ensures
        final(out)@ == old(out)@ + numeral(n as nat, base as nat),
    decreases n,
{
    if n < base {
        out.push(digit(n));
    } else {
        let quotient: u64 = n / base;
        let remainder: u64 = n % base;
        proof {
            assert(n / base < n) by (nonlinear_arith)
                requires
                    base >= 2,
                    n >= base,
            ;
        }
        push_numeral(out, quotient, base);
        out.push(digit(remainder));
    }
    proof {
        let s = numeral(n as nat, base as nat);
        assert(s =~= s.drop_last().push(s.last()));
        assert(out@ =~= old(out)@ + s);
    }
}

/// `n` in base ten.
pub fn decimal(n: u64) -> (res: String)
    ensures
        res@ == numeral(n as nat, 10),
{
    let mut out = String::new();
    push_numeral(&mut out, n, 10);
    assert(out@ =~= numeral(n as nat, 10));
    out
}

/// `n` in base sixteen, lower case.
pub fn hex(n: u64) -> (res: String)
    ensures
        res@ == numeral(n as nat, 16),
{
    let mut out = String::new();
    push_numeral(&mut out, n, 16);
    assert(out@ =~= numeral(n as nat, 16));
    out
}

fn char_digit(c: char) -> (res: Option<u64>)
    ensures
        match res {
            Some(d) => digit_value(c) == Some(d as nat),
            None => digit_value(c) is None,
        },
        res matches Some(d) ==> d < 36,
{
    if '0' <= c && c <= '9' {
        Some((c as u32 - 48) as u64)
    } else if 'a' <= c && c <= 'z' {
        Some((c as u32 - 87) as u64)
    } else if 'A' <= c && c <= 'Z' {
        Some((c as u32 - 55) as u64)
    } else {
        None
    }
}

/// A prefix of a numeral that does not read as a number, or is already too large, never becomes
/// one that fits.
proof fn lemma_prefix_value(s: Seq<char>, i: int, base: nat)
    requires
        0 < i <= s.len(),
        base >= 1,
    ensures
        numeral_value(s, base) matches Some(n) ==> (numeral_value(s.take(i), base) matches Some(m)
            && m <= n),
    decreases s.len() - i,
{
    if i == s.len() {
        assert(s.take(i) =~= s);
    } else {
        lemma_prefix_value(s, i + 1, base);
        let longer = s.take(i + 1);
        assert(longer.drop_last() =~= s.take(i));
        if numeral_value(s, base) is Some {
            let m = numeral_value(s.take(i), base)->Some_0;
            let d = digit_value(longer.last())->Some_0;
            assert(m * base + d >= m) by (nonlinear_arith)
                requires
                    base >= 1,
            ;
        }
    }
}

/// Reads the digits from `start` on as a number in `base` that fits 64 bits.
fn parse_digits(chars: &[char], start: usize, base: u64) -> (res: Option<u64>)
    requires
        2 <= base <= 16,
        start <= chars@.len(),
    ensures
        match res {
            Some(n) => numeral_value(chars@.skip(start as int), base as nat) == Some(n as nat),
            None => numeral_value(chars@.skip(start as int), base as nat) matches Some(n) ==> n
                > u64::MAX,
        },
{
    let ghost body = chars@.skip(start as int);
    if chars.len() == start {
        return None;
    }
    let mut total: u64 = 0;
    let mut i: usize = start;
    while i < chars.len()
        invariant
            2 <= base <= 16,
            start <= i <= chars@.len(),
            start < chars@.len(),
            body == chars@.skip(start as int),
            i == start ==> total == 0,
            i > start ==> numeral_value(body.take(i - start), base as nat) == Some(total as nat),
        decreases chars.len() - i,
    {
        let ghost k = i - start;
        proof {
            assert(body.take(k + 1).drop_last() =~= body.take(k));
            assert(body.take(k + 1).last() == chars@[i as int]);
            lemma_prefix_value(body, k + 1, base as nat);
        }
        match char_digit(chars[i]) {
            Some(d) => {
                if d >= base {
                    return None;
                }
                match total.checked_mul(base) {
                    Some(scaled) => {
                        match scaled.checked_add(d) {
                            Some(sum) => {
                                total = sum;
                            },
                            None => {
                                return None;
                            },
                        }
                    },
                    None => {
                        return None;
                    },
                }
            },
            None => {
                return None;
            },
        }
        i = i + 1;
    }
    assert(body.take(i - start) =~= body);
    Some(total)
}

/// Reads a run of digits as a number in `base` that fits 64 bits.
pub fn parse_numeral(s: &str, base: u64) -> (res: Option<u64>)
    requires
        2 <= base <= 16,
    ensures
        match res {
            Some(n) => numeral_value(s@, base as nat) == Some(n as nat),
            None => numeral_value(s@, base as nat) matches Some(n) ==> n > u64::MAX,
        },
{
    let chars = to_chars(s);
    assert(chars@.skip(0) =~= s@);
    parse_digits(&chars, 0, base)
}

/// Reads a number in `base` that fits 64 bits, which may have a leading plus sign.
pub fn parse_number(s: &str, base: u64) -> (res: Option<u64>)
    requires
        2 <= base <= 16,
    ensures
        match res {
            Some(n) => number_value(s@, base as nat) == Some(n as nat),
            None => number_value(s@, base as nat) matches Some(n) ==> n > u64::MAX,
        },
{
    let chars = to_chars(s);
    let start: usize = if chars.len() > 1 && chars[0] == '+' {
        1
    } else {
        0
    };
    assert(chars@.skip(0) =~= s@);
    parse_digits(&chars, start, base)
}

/// Reading back a written number gives the number.
pub proof fn numeral_round_trip(n: nat, base: nat)
    requires
        2 <= base <= 16,
    ensures
        numeral_value(numeral(n, base), base) == Some(n),
        number_value(numeral(n, base), base) == Some(n),
        numeral(n, base).len() > 0,
        forall|i: int|
            0 <= i < numeral(n, base).len() ==> digit_value(#[trigger] numeral(n, base)[i]) is Some
                && !('A' <= numeral(n, base)[i] <= 'Z'),
    decreases n,
{
    let s = numeral(n, base);
    if n < base {
        assert(s =~= seq![digit_char(n)]);
    } else {
        assert(n / base < n) by (nonlinear_arith)
            requires
                base >= 2,
                n >= base,
        ;
        numeral_round_trip(n / base, base);
        let d = n % base;
        assert(s.drop_last() =~= numeral(n / base, base));
        assert((n / base) * base + d == n) by (nonlinear_arith)
            requires
                base >= 2,
                d == n % base,
        ;
        assert(digit_value(s.last()) == Some(d));
        assert forall|i: int| 0 <= i < s.len() implies digit_value(#[trigger] s[i]) is Some && !(
        'A' <= s[i] <= 'Z') by {
            if i < s.len() - 1 {
                assert(s[i] == numeral(n / base, base)[i]);
            }
        }
    }
    assert(digit_value(s[0]) is Some);
}

/// A numeral is written digit by digit, in the smallest of letters and without a zero in front, and each digit
/// is one of its base.
pub proof fn a_numeral_is_written_digit_by_digit(n: nat, d: nat, base: nat)
    requires
        2 <= base <= 16,
        d < base,
    ensures
        numeral(d, base) == seq![
            if d < 10 {
                (48 + d) as char
            } else {
                (87 + d) as char
            },
        ],
        n > 0 ==> numeral(n * base + d, base) == numeral(n, base) + numeral(d, base),
{
    if n > 0 {
        assert(n * base >= base) by (nonlinear_arith)
            requires
                n > 0,
                base >= 2,
        ;
        assert((n * base + d) / base == n) by (nonlinear_arith)
            requires
                d < base,
                base >= 2,
        ;
        assert((n * base + d) % base == d) by (nonlinear_arith)
            requires
                d < base,
                base >= 2,
        ;
        assert(numeral(n * base + d, base) =~= numeral(n, base) + numeral(d, base));
    }
}

/// Every digit of a numeral has a value below its base.
pub proof fn digits_stay_below_their_base(n: nat, base: nat, i: int)
    requires
        2 <= base <= 16,
        0 <= i < numeral(n, base).len(),
    ensures
        digit_value(numeral(n, base)[i]) matches Some(d) && d < base,
        '0' <= numeral(n, base)[i] <= '9' || 'a' <= numeral(n, base)[i] <= 'f',
        base <= 10 ==> '0' <= numeral(n, base)[i] <= '9',
    decreases n,
{
    if n >= base {
        assert(n / base < n) by (nonlinear_arith)
            requires
                base >= 2,
                n >= base,
        ;
        assert(0 <= n % base < base) by (nonlinear_arith)
            requires
                base >= 2,
        ;
        let rest = numeral(n / base, base);
        if i < rest.len() {
            assert(numeral(n, base)[i] == rest[i]);
            digits_stay_below_their_base(n / base, base, i);
        }
    }
}

} // verus!
