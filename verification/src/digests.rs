//! Content digests.
//!
//! A digest is taken over an unambiguous encoding: a text is its UTF-8 bytes and a closing `0xff`,
//! which occurs in no UTF-8 text; a byte string is its length and its bytes; a number is its eight
//! little-endian bytes.

use vstd::prelude::*;
use vstd::utf8;

verus! {

/// The XXH3 64-bit digest of some bytes, with the default seed.
pub uninterp spec fn xxh3_64(bytes: Seq<u8>) -> u64;

/// `twox_hash::XxHash3_64::oneshot`: the XXH3 64-bit digest of the bytes, a function of the bytes
/// alone.
#[verifier::external_body]
pub(crate) fn digest(bytes: &[u8]) -> (res: u64)
    ensures
        res == xxh3_64(bytes@),
{
    twox_hash::XxHash3_64::oneshot(bytes)
}

/// A text as a digest reads it.
pub open spec fn text_item(s: Seq<char>) -> Seq<u8> {
    utf8::encode_utf8(s).push(0xff)
}

/// The `count` lowest bytes of a number, lowest first.
pub open spec fn low_bytes(n: nat, count: nat) -> Seq<u8>
    decreases count,
{
    if count == 0 {
        Seq::empty()
    } else {
        seq![(n % 256) as u8] + low_bytes(n / 256, (count - 1) as nat)
    }
}

/// A number as a digest reads it.
pub open spec fn number_item(n: nat) -> Seq<u8> {
    low_bytes(n, 8)
}

/// A byte string as a digest reads it.
pub open spec fn bytes_item(bytes: Seq<u8>) -> Seq<u8> {
    number_item(bytes.len()) + bytes
}

fn append_bytes(out: &mut Vec<u8>, bytes: &[u8])
    ensures
        final(out)@ == old(out)@ + bytes@,
{
    let ghost before = out@;
    let mut i: usize = 0;
    assert(before + bytes@.take(0) =~= before);
    while i < bytes.len()
        invariant
            i <= bytes@.len(),
            out@ == before + bytes@.take(i as int),
        decreases bytes.len() - i,
    {
        out.push(bytes[i]);
        assert(before + bytes@.take(i + 1) =~= (before + bytes@.take(i as int)).push(
            bytes@[i as int],
        ));
        i = i + 1;
    }
    assert(bytes@.take(i as int) =~= bytes@);
}

/// Adds a text to what a digest is taken over.
pub fn add_text(out: &mut Vec<u8>, s: &str)
    ensures
        final(out)@ == old(out)@ + text_item(s@),
{
    append_bytes(out, s.as_bytes());
    out.push(0xff);
    assert(out@ =~= old(out)@ + text_item(s@));
}

/// Adds a number to what a digest is taken over.
pub fn add_number(out: &mut Vec<u8>, n: u64)
    ensures
        final(out)@ == old(out)@ + number_item(n as nat),
{
    let ghost before = out@;
    let mut rest: u64 = n;
    let mut i: usize = 0;
    while i < 8
        invariant
            i <= 8,
            out@ + low_bytes(rest as nat, (8 - i) as nat) == before + number_item(n as nat),
        decreases 8 - i,
    {
        let byte: u8 = (rest % 256) as u8;
        let ghost was = out@;
        out.push(byte);
        assert(was + low_bytes(rest as nat, (8 - i) as nat) =~= out@ + low_bytes(
            rest as nat / 256,
            (8 - i - 1) as nat,
        ));
        rest = rest / 256;
        i = i + 1;
    }
    assert(out@ + low_bytes(rest as nat, 0) =~= out@);
}

/// Adds a sixteen-byte number to what a digest is taken over.
pub fn add_wide_number(out: &mut Vec<u8>, n: u128)
    ensures
        final(out)@ == old(out)@ + low_bytes(n as nat, 16),
{
    let ghost before = out@;
    let mut rest: u128 = n;
    let mut i: usize = 0;
    while i < 16
        invariant
            i <= 16,
            out@ + low_bytes(rest as nat, (16 - i) as nat) == before + low_bytes(n as nat, 16),
        decreases 16 - i,
    {
        let byte: u8 = (rest % 256) as u8;
        let ghost was = out@;
        out.push(byte);
        assert(was + low_bytes(rest as nat, (16 - i) as nat) =~= out@ + low_bytes(
            rest as nat / 256,
            (16 - i - 1) as nat,
        ));
        rest = rest / 256;
        i = i + 1;
    }
    assert(out@ + low_bytes(rest as nat, 0) =~= out@);
}

/// Adds a byte string to what a digest is taken over.
pub fn add_bytes(out: &mut Vec<u8>, bytes: &[u8])
    ensures
        final(out)@ == old(out)@ + bytes_item(bytes@),
{
    add_number(out, bytes.len() as u64);
    append_bytes(out, bytes);
    assert(out@ =~= old(out)@ + bytes_item(bytes@));
}

/// The digest of one text.
pub open spec fn text_digest(s: Seq<char>) -> u64 {
    xxh3_64(text_item(s))
}

/// The digest of one text.
pub fn digest_text(s: &str) -> (res: u64)
    ensures
        res == text_digest(s@),
{
    let mut bytes: Vec<u8> = Vec::new();
    add_text(&mut bytes, s);
    assert(bytes@ =~= text_item(s@));
    digest(&bytes)
}

/// The sum of two digests, as far as 64 bits hold it.
#[verifier::opaque]
pub open spec fn wrapping_sum(a: u64, b: u64) -> u64 {
    ((a + b) % 0x1_0000_0000_0000_0000) as u64
}

/// The sum of two digests, as far as 64 bits hold it.
pub fn sum_digests(a: u64, b: u64) -> (res: u64)
    ensures
        res == wrapping_sum(a, b),
{
    proof {
        reveal(wrapping_sum);
    }
    a.wrapping_add(b)
}

/// The order in which digests are summed does not matter.
pub proof fn wrapping_sum_commutes(a: u64, b: u64, c: u64)
    ensures
        wrapping_sum(wrapping_sum(a, b), c) == wrapping_sum(wrapping_sum(a, c), b),
{
    reveal(wrapping_sum);
}

// --- the encoding is unambiguous -------------------------------------------------------------

proof fn lemma_no_closing_byte(s: Seq<char>)
    ensures
        forall|i: int| 0 <= i < utf8::encode_utf8(s).len() ==> #[trigger] utf8::encode_utf8(s)[i] != 0xff,
    decreases s.len(),
{
    if s.len() > 0 {
        lemma_no_closing_byte(s.drop_first());
        let c = s[0] as u32;
        assert((c & 0x7F) as u8 != 0xff) by (bit_vector);
        assert(0xC0u8 | ((c >> 6) & 0x1F) as u8 != 0xff) by (bit_vector);
        assert(0xE0u8 | ((c >> 12) & 0x0F) as u8 != 0xff) by (bit_vector);
        assert(0xF0u8 | ((c >> 18) & 0x7) as u8 != 0xff) by (bit_vector);
        assert(0x80u8 | (c & 0x3F) as u8 != 0xff) by (bit_vector);
        assert(0x80u8 | ((c >> 6) & 0x3F) as u8 != 0xff) by (bit_vector);
        assert(0x80u8 | ((c >> 12) & 0x3F) as u8 != 0xff) by (bit_vector);
        let first = utf8::encode_scalar(c);
        let rest = utf8::encode_utf8(s.drop_first());
        assert(utf8::encode_utf8(s) == first + rest);
        assert forall|i: int| 0 <= i < utf8::encode_utf8(s).len() implies
            #[trigger] utf8::encode_utf8(s)[i] != 0xff by {
            if i >= first.len() {
                assert(rest[i - first.len()] != 0xff);
            }
        }
    }
}

/// A text is digested as its UTF-8 bytes and a closing byte, so what follows a text can never be taken
/// for a part of it.
pub proof fn a_text_ends_where_it_ends(a: Seq<char>, b: Seq<char>, x: Seq<u8>, y: Seq<u8>)
    requires
        text_item(a) + x == text_item(b) + y,
    ensures
        a == b,
        x == y,
{
    let p = utf8::encode_utf8(a);
    let q = utf8::encode_utf8(b);
    let l = text_item(a) + x;
    let r = text_item(b) + y;
    lemma_no_closing_byte(a);
    lemma_no_closing_byte(b);
    assert(l[p.len() as int] == 0xff);
    assert(r[q.len() as int] == 0xff);
    if p.len() < q.len() {
        assert(r[p.len() as int] == q[p.len() as int]);
        assert(q[p.len() as int] != 0xff);
    }
    if q.len() < p.len() {
        assert(l[q.len() as int] == p[q.len() as int]);
        assert(p[q.len() as int] != 0xff);
    }
    assert forall|i: int| 0 <= i < p.len() implies p[i] == q[i] by {
        assert(l[i] == p[i]);
        assert(r[i] == q[i]);
    }
    assert(p =~= q);
    utf8::encode_utf8_decode_utf8(a);
    utf8::encode_utf8_decode_utf8(b);
    assert(x =~= l.skip((p.len() + 1) as int));
    assert(y =~= r.skip((q.len() + 1) as int));
}

/// A text is digested as its UTF-8 bytes and the byte that closes it.
pub proof fn a_text_is_its_bytes_and_a_closing_byte(s: Seq<char>)
    ensures
        text_item(s).len() == utf8::encode_utf8(s).len() + 1,
        text_item(s).drop_last() == utf8::encode_utf8(s),
        text_item(s).last() == 0xff,
{
    assert(text_item(s).drop_last() =~= utf8::encode_utf8(s));
}

/// A number is digested as its bytes, the lowest first.
pub proof fn a_number_is_its_bytes(n: nat)
    ensures
        number_item(n).len() == 8,
        number_item(n)[0] == n % 256,
        number_item(n)[1] == n / 0x100 % 256,
        number_item(n)[2] == n / 0x1_0000 % 256,
        number_item(n)[3] == n / 0x100_0000 % 256,
        number_item(n)[4] == n / 0x1_0000_0000 % 256,
        number_item(n)[5] == n / 0x100_0000_0000 % 256,
        number_item(n)[6] == n / 0x1_0000_0000_0000 % 256,
        number_item(n)[7] == n / 0x100_0000_0000_0000 % 256,
{
    reveal_with_fuel(low_bytes, 9);
    assert(n / 0x1_0000 == n / 256 / 256);
    assert(n / 0x100_0000 == n / 256 / 256 / 256);
    assert(n / 0x1_0000_0000 == n / 256 / 256 / 256 / 256);
    assert(n / 0x100_0000_0000 == n / 256 / 256 / 256 / 256 / 256);
    assert(n / 0x1_0000_0000_0000 == n / 256 / 256 / 256 / 256 / 256 / 256);
    assert(n / 0x100_0000_0000_0000 == n / 256 / 256 / 256 / 256 / 256 / 256 / 256);
}

proof fn lemma_number_item_len(n: nat)
    ensures
        number_item(n).len() == 8,
{
    a_number_is_its_bytes(n);
}

spec fn values_of(count: nat) -> nat
    decreases count,
{
    if count == 0 {
        1
    } else {
        256 * values_of((count - 1) as nat)
    }
}

proof fn lemma_low_bytes_unique(a: nat, b: nat, count: nat)
    requires
        a < values_of(count),
        b < values_of(count),
        low_bytes(a, count) == low_bytes(b, count),
    ensures
        a == b,
    decreases count,
{
    if count > 0 {
        let x = low_bytes(a, count);
        let y = low_bytes(b, count);
        let less = (count - 1) as nat;
        assert(x[0] == (a % 256) as u8);
        assert(y[0] == (b % 256) as u8);
        assert(x.drop_first() =~= low_bytes(a / 256, less));
        assert(y.drop_first() =~= low_bytes(b / 256, less));
        lemma_low_bytes_unique(a / 256, b / 256, less);
    }
}

proof fn lemma_number_item_unique(a: nat, b: nat)
    requires
        a < 0x1_0000_0000_0000_0000,
        b < 0x1_0000_0000_0000_0000,
        number_item(a) == number_item(b),
    ensures
        a == b,
{
    reveal_with_fuel(values_of, 9);
    lemma_low_bytes_unique(a, b, 8);
}

/// A byte string is digested as its length and its bytes, so what follows it can never be taken for a
/// part of it.
pub proof fn bytes_end_where_they_end(a: Seq<u8>, b: Seq<u8>, x: Seq<u8>, y: Seq<u8>)
    requires
        a.len() < 0x1_0000_0000_0000_0000,
        b.len() < 0x1_0000_0000_0000_0000,
        bytes_item(a) + x == bytes_item(b) + y,
    ensures
        a == b,
        x == y,
{
    let l = bytes_item(a) + x;
    let r = bytes_item(b) + y;
    lemma_number_item_len(a.len());
    lemma_number_item_len(b.len());
    assert(l.take(8) =~= number_item(a.len()));
    assert(r.take(8) =~= number_item(b.len()));
    lemma_number_item_unique(a.len(), b.len());
    assert(a =~= l.subrange(8, (8 + a.len()) as int));
    assert(b =~= r.subrange(8, (8 + b.len()) as int));
    assert(x =~= l.skip((8 + a.len()) as int));
    assert(y =~= r.skip((8 + b.len()) as int));
}

/// A byte string is digested as its length and then its bytes.
pub proof fn bytes_are_their_length_and_themselves(bytes: Seq<u8>)
    ensures
        bytes_item(bytes).len() == 8 + bytes.len(),
        bytes_item(bytes).take(8) == number_item(bytes.len()),
        bytes_item(bytes).skip(8) == bytes,
{
    lemma_number_item_len(bytes.len());
    assert(bytes_item(bytes).take(8) =~= number_item(bytes.len()));
    assert(bytes_item(bytes).skip(8) =~= bytes);
}

proof fn lemma_wrapped(a: u64, b: u64)
    ensures
        wrapping_sum(a, b) == if a + b < 0x1_0000_0000_0000_0000 {
            a + b
        } else {
            a + b - 0x1_0000_0000_0000_0000
        },
{
    reveal(wrapping_sum);
    let sum: int = a + b;
    assert(0 <= sum % 0x1_0000_0000_0000_0000 < 0x1_0000_0000_0000_0000);
}

/// Digests are added up and wrapped around, so two sums that share a summand differ exactly where the
/// other summands do.
pub proof fn sums_tell_their_summands_apart(a: u64, b: u64, c: u64)
    ensures
        wrapping_sum(a, b) == wrapping_sum(a, c) <==> b == c,
        wrapping_sum(a, 0) == a,
        wrapping_sum(a, b) == wrapping_sum(b, a),
        a + b < 0x1_0000_0000_0000_0000 ==> wrapping_sum(a, b) == a + b,
        a + b >= 0x1_0000_0000_0000_0000 ==> wrapping_sum(a, b) == a + b - 0x1_0000_0000_0000_0000,
{
    lemma_wrapped(a, b);
    lemma_wrapped(a, c);
    lemma_wrapped(a, 0);
    lemma_wrapped(b, a);
}

/// Where a number ends is never in doubt, nor which number it is.
pub proof fn numbers_end_where_they_end(m: nat, n: nat, x: Seq<u8>, y: Seq<u8>)
    requires
        m < 0x1_0000_0000_0000_0000,
        n < 0x1_0000_0000_0000_0000,
        number_item(m) + x == number_item(n) + y,
    ensures
        m == n,
        x == y,
{
    lemma_number_item_len(m);
    lemma_number_item_len(n);
    let l = number_item(m) + x;
    let r = number_item(n) + y;
    assert(l.take(8) =~= number_item(m));
    assert(r.take(8) =~= number_item(n));
    lemma_number_item_unique(m, n);
    assert(x =~= l.skip(8));
    assert(y =~= r.skip(8));
}

} // verus!
