//! The recap that the callback plugin leaves behind in a container's termination message.

use vstd::prelude::*;
use vstd::utf8;
use crate::search;
use crate::search::{starts_with, trim_text};
use crate::seqs;
use crate::text::{slice_chars, to_chars};
use crate::textmap::TextMap;

verus! {

/// Per-host outcome counters. On the wire they are a fixed-order array: `[ok, changed,
/// unreachable, failed, skipped, rescued, ignored, completed]`.
#[derive(Debug, Clone, Copy, PartialEq, Eq, Structural)]
pub struct HostStats {
    pub ok: u32,
    pub changed: u32,
    pub unreachable: u32,
    pub failed: u32,
    pub skipped: u32,
    pub rescued: u32,
    pub ignored: u32,
    /// The host produced a result for the completion marker at the end of every playbook.
    pub completed: bool,
}

impl Default for HostStats {
    fn default() -> (res: Self)
        ensures
            res == (HostStats {
                ok: 0,
                changed: 0,
                unreachable: 0,
                failed: 0,
                skipped: 0,
                rescued: 0,
                ignored: 0,
                completed: false,
            }),
    {
        HostStats {
            ok: 0,
            changed: 0,
            unreachable: 0,
            failed: 0,
            skipped: 0,
            rescued: 0,
            ignored: 0,
            completed: false,
        }
    }
}

/// The counters in their wire order.
pub open spec fn stats_of(counters: Seq<u32>) -> HostStats {
    HostStats {
        ok: counters[0],
        changed: counters[1],
        unreachable: counters[2],
        failed: counters[3],
        skipped: counters[4],
        rescued: counters[5],
        ignored: counters[6],
        completed: counters[7] != 0,
    }
}

impl From<[u32; 8]> for HostStats {
    fn from(counters: [u32; 8]) -> (res: Self) {
        HostStats {
            ok: counters[0],
            changed: counters[1],
            unreachable: counters[2],
            failed: counters[3],
            skipped: counters[4],
            rescued: counters[5],
            ignored: counters[6],
            completed: counters[7] != 0,
        }
    }
}

impl vstd::std_specs::convert::FromSpecImpl<[u32; 8]> for HostStats {
    open spec fn obeys_from_spec() -> bool {
        true
    }

    open spec fn from_spec(counters: [u32; 8]) -> Self {
        stats_of(counters@)
    }
}

impl HostStats {
    /// Whether the host failed or could not be reached.
    pub open spec fn failure(self) -> bool {
        self.failed > 0 || self.unreachable > 0
    }

    /// Whether the host failed or could not be reached.
    pub fn is_failure(&self) -> (res: bool)
        ensures
            res == self.failure(),
    {
        self.failed > 0 || self.unreachable > 0
    }
}

/// A recap: the counters of every host Ansible processed.
#[derive(Debug, Clone, PartialEq, Default)]
pub struct CallbackOutput {
    pub processed: TextMap<HostStats>,
}

/// Marks a recap that was deflated and base64-encoded to fit the termination message.
pub const COMPRESSED_PREFIX: &'static str = "z:";

/// Ceiling on what a compressed recap may inflate to. The message is untrusted input, and a deflate
/// stream is an amplifier.
pub const MAX_INFLATED_RECAP_BYTES: u64 = 1048576;

/// The bytes that a text encodes in standard base64 with padding, if it does.
pub uninterp spec fn base64_decoded(encoded: Seq<char>) -> Option<Seq<u8>>;

/// `base64::engine::general_purpose::STANDARD.decode`: the bytes the text encodes, or none where
/// the text is not such an encoding; a function of the text alone.
#[verifier::external_body]
fn base64_decode(encoded: &str) -> (res: Option<Vec<u8>>)
    ensures
        match res {
            Some(bytes) => base64_decoded(encoded@) == Some(bytes@),
            None => base64_decoded(encoded@) is None,
        },
{
    base64::Engine::decode(&base64::engine::general_purpose::STANDARD, encoded).ok()
}

/// The first bytes, at most `limit` of them, that a zlib stream inflates to, if it inflates that
/// far without an error.
pub uninterp spec fn zlib_inflated(deflated: Seq<u8>, limit: nat) -> Option<Seq<u8>>;

/// `flate2::read::ZlibDecoder` read through `Read::take` and `Read::read_to_end`: what the stream
/// inflates to, cut after `limit` bytes, or none where reading that far fails; a function of the
/// stream and the limit alone.
#[verifier::external_body]
fn zlib_inflate(deflated: &[u8], limit: u64) -> (res: Option<Vec<u8>>)
    ensures
        match res {
            Some(bytes) => zlib_inflated(deflated@, limit as nat) == Some(bytes@) && bytes@.len()
                <= limit,
            None => zlib_inflated(deflated@, limit as nat) is None,
        },
{
    let mut inflated = Vec::new();
    let decoder = flate2::read::ZlibDecoder::new(deflated);
    let mut bounded = std::io::Read::take(decoder, limit);
    std::io::Read::read_to_end(&mut bounded, &mut inflated).ok()?;
    Some(inflated)
}

/// The hosts and counter arrays that a JSON object of hosts to arrays of eight numbers writes down,
/// in the order of the hosts, if the bytes are one.
pub uninterp spec fn json_recap(bytes: Seq<u8>) -> Option<Seq<(Seq<char>, Seq<u32>)>>;

/// A parsed entry as the model reads it.
pub open spec fn entry_of(entry: (String, [u32; 8])) -> (Seq<char>, Seq<u32>) {
    (entry.0@, entry.1@)
}

/// Whether a character is white space between the tokens of a JSON text.
pub open spec fn is_json_space(c: char) -> bool {
    c == ' ' || c == '\t' || c == '\n' || c == '\r'
}

/// A JSON text without the white space around it.
pub open spec fn json_trimmed(bytes: Seq<u8>) -> Seq<u8> {
    seqs::strip(bytes, |byte: u8| is_json_space(byte as char))
}

/// `serde_json::from_slice` into a `BTreeMap` of arrays of eight numbers: its entries, or none where
/// the bytes are not such an object; a function of the bytes alone. It skips the white space of JSON
/// before the object and after it, so the entries are also those of the bytes without it.
#[verifier::external_body]
fn parse_entries(bytes: &[u8]) -> (res: Option<Vec<(String, [u32; 8])>>)
    ensures
        match res {
            Some(entries) => json_recap(bytes@) == Some(
                entries@.map_values(|e: (String, [u32; 8])| entry_of(e)),
            ),
            None => json_recap(bytes@) is None,
        },
        match res {
            Some(entries) => json_recap(json_trimmed(bytes@)) == Some(
                entries@.map_values(|e: (String, [u32; 8])| entry_of(e)),
            ),
            None => json_recap(json_trimmed(bytes@)) is None,
        },
{
    let map = serde_json::from_slice::<std::collections::BTreeMap<String, [u32; 8]>>(bytes).ok()?;
    Some(map.into_iter().collect())
}

/// The recap that parsed entries write down.
pub open spec fn recap_of(entries: Seq<(Seq<char>, Seq<u32>)>) -> Map<Seq<char>, HostStats>
    decreases entries.len(),
{
    if entries.len() == 0 {
        Map::empty()
    } else {
        recap_of(entries.drop_last()).insert(entries.last().0, stats_of(entries.last().1))
    }
}

/// The bytes that a termination message carries: what it inflates to where it is compressed, unless
/// that is too long, else the message itself.
pub open spec fn carried_bytes(message: Seq<char>) -> Option<Seq<u8>> {
    let trimmed = search::trim(message);
    if search::has_prefix(trimmed, COMPRESSED_PREFIX@) {
        match base64_decoded(trimmed.skip(COMPRESSED_PREFIX@.len() as int)) {
            Some(deflated) => match zlib_inflated(
                deflated,
                (MAX_INFLATED_RECAP_BYTES + 1) as nat,
            ) {
                Some(inflated) => if inflated.len() <= MAX_INFLATED_RECAP_BYTES {
                    Some(inflated)
                } else {
                    None
                },
                None => None,
            },
            None => None,
        }
    } else {
        Some(utf8::encode_utf8(trimmed))
    }
}

/// The JSON text of the recap in a termination message.
pub open spec fn recap_bytes(message: Seq<char>) -> Option<Seq<u8>> {
    match carried_bytes(message) {
        Some(bytes) => Some(json_trimmed(bytes)),
        None => None,
    }
}

/// The recap that parsed entries write down, each array read in its wire order.
pub fn recap_from_entries(entries: Vec<(String, [u32; 8])>) -> (res: CallbackOutput)
    ensures
        res.processed@ == recap_of(entries@.map_values(|e: (String, [u32; 8])| entry_of(e))),
{
    let ghost all = entries@.map_values(|e: (String, [u32; 8])| entry_of(e));
    let mut processed: TextMap<HostStats> = TextMap::new();
    let mut i: usize = 0;
    assert(all.take(0) =~= Seq::<(Seq<char>, Seq<u32>)>::empty());
    while i < entries.len()
        invariant
            all == entries@.map_values(|e: (String, [u32; 8])| entry_of(e)),
            i <= entries@.len(),
            processed@ == recap_of(all.take(i as int)),
        decreases entries.len() - i,
    {
        let ghost longer = all.take(i + 1);
        assert(longer.drop_last() =~= all.take(i as int));
        assert(longer.last() == entry_of(entries@[i as int]));
        let entry = &entries[i];
        processed.insert(entry.0.clone(), HostStats::from(entry.1));
        i = i + 1;
    }
    assert(all.take(i as int) =~= all);
    CallbackOutput { processed }
}

fn inflate(base64_encoded: &str) -> (res: Option<Vec<u8>>)
    ensures
        match res {
            Some(bytes) => base64_decoded(base64_encoded@) matches Some(deflated) && zlib_inflated(
                deflated,
                (MAX_INFLATED_RECAP_BYTES + 1) as nat,
            ) == Some(bytes@) && bytes@.len() <= MAX_INFLATED_RECAP_BYTES,
            None => base64_decoded(base64_encoded@) matches Some(deflated) ==> (zlib_inflated(
                deflated,
                (MAX_INFLATED_RECAP_BYTES + 1) as nat,
            ) matches Some(bytes) ==> bytes.len() > MAX_INFLATED_RECAP_BYTES),
        },
{
    match base64_decode(base64_encoded) {
        Some(deflated) => {
            // One byte past the ceiling, so an over-long stream is rejected rather than cut.
            match zlib_inflate(&deflated, MAX_INFLATED_RECAP_BYTES + 1) {
                Some(inflated) => if inflated.len() as u64 <= MAX_INFLATED_RECAP_BYTES {
                    Some(inflated)
                } else {
                    None
                },
                None => None,
            }
        },
        None => None,
    }
}

fn message_bytes(message: &str) -> (res: Option<Vec<u8>>)
    ensures
        match res {
            Some(bytes) => carried_bytes(message@) == Some(bytes@),
            None => carried_bytes(message@) is None,
        },
{
    let trimmed = trim_text(message);
    if starts_with(trimmed.as_str(), COMPRESSED_PREFIX) {
        let chars = to_chars(trimmed.as_str());
        let prefix = to_chars(COMPRESSED_PREFIX);
        let encoded = slice_chars(&chars, prefix.len(), chars.len());
        assert(encoded@ =~= trimmed@.skip(COMPRESSED_PREFIX@.len() as int));
        inflate(encoded.as_str())
    } else {
        Some(trimmed.as_str().as_bytes_vec())
    }
}

/// Parses a container's termination message, plain or compressed. `None` where the message is empty
/// or unreadable: truncated, corrupt, too long once inflated, or of another shape.
pub fn parse_callback_output(message: &str) -> (res: Option<CallbackOutput>)
    ensures
        match res {
            Some(output) => recap_bytes(message@) matches Some(bytes) && json_recap(bytes) matches Some(
                entries,
            ) && output.processed@ == recap_of(entries),
            None => recap_bytes(message@) matches Some(bytes) ==> json_recap(bytes) is None,
        },
{
    match message_bytes(message) {
        Some(bytes) => match parse_entries(&bytes) {
            Some(entries) => Some(recap_from_entries(entries)),
            None => None,
        },
        None => None,
    }
}

proof fn lemma_encode_joined(head: Seq<char>, tail: Seq<char>)
    ensures
        utf8::encode_utf8(head + tail) == utf8::encode_utf8(head) + utf8::encode_utf8(tail),
    decreases head.len(),
{
    if head.len() == 0 {
        assert(head + tail =~= tail);
        assert(utf8::encode_utf8(head) + utf8::encode_utf8(tail) =~= utf8::encode_utf8(tail));
    } else {
        assert((head + tail).drop_first() =~= head.drop_first() + tail);
        lemma_encode_joined(head.drop_first(), tail);
        assert(utf8::encode_utf8(head + tail) =~= utf8::encode_utf8(head) + utf8::encode_utf8(
            tail,
        ));
    }
}

proof fn lemma_encode_json_space(s: Seq<char>)
    requires
        forall|i: int| 0 <= i < s.len() ==> is_json_space(#[trigger] s[i]),
    ensures
        forall|i: int|
            0 <= i < utf8::encode_utf8(s).len() ==> is_json_space(
                #[trigger] utf8::encode_utf8(s)[i] as char,
            ),
    decreases s.len(),
{
    if s.len() > 0 {
        let rest = s.drop_first();
        assert forall|i: int| 0 <= i < rest.len() implies is_json_space(#[trigger] rest[i]) by {
            assert(rest[i] == s[i + 1]);
        }
        lemma_encode_json_space(rest);
        let first = s[0] as u32;
        assert(is_json_space(s[0]));
        assert(first & 0x7F == first) by (bit_vector)
            requires
                first <= 0x20,
        ;
        assert(utf8::encode_scalar(first) =~= seq![first as u8]);
        let bytes = utf8::encode_utf8(s);
        assert(bytes =~= seq![first as u8] + utf8::encode_utf8(rest));
        assert forall|i: int| 0 <= i < bytes.len() implies is_json_space(
            #[trigger] bytes[i] as char,
        ) by {
            if i > 0 {
                assert(bytes[i] == utf8::encode_utf8(rest)[i - 1]);
            }
        }
    }
}

/// White space around a message, plain or compressed, makes no difference to what is read.
pub proof fn white_space_around_a_message_is_skipped(
    before: Seq<char>,
    message: Seq<char>,
    after: Seq<char>,
)
    requires
        forall|i: int| 0 <= i < before.len() ==> search::is_space(#[trigger] before[i]),
        forall|i: int| 0 <= i < after.len() ==> search::is_space(#[trigger] after[i]),
    ensures
        recap_bytes(before + message + after) == recap_bytes(message),
{
    search::lemma_trim_padded(before, message, after);
}

/// A compressed message that inflates to a plain one is read as that plain one: which form arrives
/// makes no difference to what is read, nor does the white space of JSON around what was compressed.
pub proof fn compressed_reads_like_plain(
    before: Seq<char>,
    body: Seq<char>,
    after: Seq<char>,
    compressed: Seq<char>,
    deflated: Seq<u8>,
)
    requires
        forall|i: int| 0 <= i < before.len() ==> is_json_space(#[trigger] before[i]),
        forall|i: int| 0 <= i < after.len() ==> is_json_space(#[trigger] after[i]),
        search::trim(body) == body,
        !search::has_prefix(body, COMPRESSED_PREFIX@),
        search::has_prefix(search::trim(compressed), COMPRESSED_PREFIX@),
        base64_decoded(search::trim(compressed).skip(COMPRESSED_PREFIX@.len() as int)) == Some(
            deflated,
        ),
        zlib_inflated(deflated, (MAX_INFLATED_RECAP_BYTES + 1) as nat) == Some(
            utf8::encode_utf8(before + body + after),
        ),
        utf8::encode_utf8(before + body + after).len() <= MAX_INFLATED_RECAP_BYTES,
    ensures
        recap_bytes(compressed) == recap_bytes(before + body + after),
        recap_bytes(compressed) == recap_bytes(body),
{
    white_space_around_a_message_is_skipped(before, body, after);
    lemma_encode_joined(before + body, after);
    lemma_encode_joined(before, body);
    lemma_encode_json_space(before);
    lemma_encode_json_space(after);
    seqs::lemma_strip_padded(
        utf8::encode_utf8(before),
        utf8::encode_utf8(body),
        utf8::encode_utf8(after),
        |byte: u8| is_json_space(byte as char),
    );
}

/// A stream that inflates past the ceiling is refused, whatever it inflates to.
pub proof fn oversized_recap_is_refused(compressed: Seq<char>, deflated: Seq<u8>, inflated: Seq<u8>)
    requires
        search::has_prefix(search::trim(compressed), COMPRESSED_PREFIX@),
        base64_decoded(search::trim(compressed).skip(COMPRESSED_PREFIX@.len() as int)) == Some(
            deflated,
        ),
        zlib_inflated(deflated, (MAX_INFLATED_RECAP_BYTES + 1) as nat) == Some(inflated),
        inflated.len() > MAX_INFLATED_RECAP_BYTES,
    ensures
        recap_bytes(compressed) is None,
{
}

/// A host's counters come in the order they are sent in, the completion mark last.
pub proof fn counters_come_in_their_order(counters: Seq<u32>)
    requires
        counters.len() == 8,
    ensures
        stats_of(counters).ok == counters[0],
        stats_of(counters).changed == counters[1],
        stats_of(counters).unreachable == counters[2],
        stats_of(counters).failed == counters[3],
        stats_of(counters).skipped == counters[4],
        stats_of(counters).rescued == counters[5],
        stats_of(counters).ignored == counters[6],
        counters[7] == 0 ==> !stats_of(counters).completed,
        counters[7] > 0 ==> stats_of(counters).completed,
{
}

/// A host failed where anything on it failed or it could not be reached, and for no other reason.
pub proof fn a_host_fails_by_failures_alone(stats: HostStats)
    ensures
        stats.failed == 0 && stats.unreachable == 0 ==> !stats.failure(),
        stats.failed > 0 ==> stats.failure(),
        stats.unreachable > 0 ==> stats.failure(),
{
}

/// Every entry of a recap counts, and the last one of a host.
pub proof fn every_entry_of_a_recap_counts(
    entries: Seq<(Seq<char>, Seq<u32>)>,
    host: Seq<char>,
    counters: Seq<u32>,
    other: Seq<char>,
)
    ensures
        recap_of(Seq::<(Seq<char>, Seq<u32>)>::empty()) == Map::<Seq<char>, HostStats>::empty(),
        recap_of(entries.push((host, counters))).contains_key(host),
        recap_of(entries.push((host, counters)))[host] == stats_of(counters),
        other != host ==> (recap_of(entries.push((host, counters))).contains_key(other)
            <==> recap_of(entries).contains_key(other)),
        other != host && recap_of(entries).contains_key(other) ==> recap_of(
            entries.push((host, counters)),
        )[other] == recap_of(entries)[other],
{
    assert(entries.push((host, counters)).drop_last() =~= entries);
}

/// A message that is not marked as compressed is read as it stands, and a compressed one is marked by its
/// beginning and may be a mebibyte long.
pub proof fn a_plain_message_is_read_as_it_stands(message: Seq<char>)
    ensures
        COMPRESSED_PREFIX@ == "z:"@,
        MAX_INFLATED_RECAP_BYTES == 1048576,
        search::trim(message).len() < 2 || search::trim(message)[0] != 'z' || search::trim(message)[1]
            != ':' ==> carried_bytes(message) == Some(utf8::encode_utf8(search::trim(message))),
        search::trim(message).len() >= 2 && search::trim(message)[0] == 'z' && search::trim(
            message,
        )[1] == ':' ==> (base64_decoded(search::trim(message).skip(2)) is None
            ==> carried_bytes(message) is None),
{
    reveal_strlit("z:");
    let s = search::trim(message);
    if s.len() >= 2 && s[0] == 'z' && s[1] == ':' {
        assert(s.subrange(0, 2) =~= "z:"@);
    } else if s.len() >= 2 {
        assert(s.subrange(0, 2)[0] == s[0]);
        assert(s.subrange(0, 2)[1] == s[1]);
    }
}

/// A compressed message is read as what it holds, up to a mebibyte and not a byte more.
pub proof fn a_compressed_message_is_read_as_what_it_holds(
    message: Seq<char>,
    deflated: Seq<u8>,
    inflated: Seq<u8>,
)
    requires
        search::trim(message).len() >= 2,
        search::trim(message)[0] == 'z',
        search::trim(message)[1] == ':',
        base64_decoded(search::trim(message).skip(2)) == Some(deflated),
        zlib_inflated(deflated, 1048577) == Some(inflated),
    ensures
        inflated.len() <= 1048576 ==> carried_bytes(message) == Some(inflated),
        inflated.len() > 1048576 ==> carried_bytes(message) is None,
{
    reveal_strlit("z:");
    let s = search::trim(message);
    assert(s.subrange(0, 2) =~= "z:"@);
}

/// White space between the parts of a JSON text is the blank, the tab and the two line ends, and nothing else.
pub proof fn json_has_four_blanks(c: char)
    ensures
        is_json_space(' ') && is_json_space('\t') && is_json_space('\n') && is_json_space('\r'),
        is_json_space(c) ==> c == ' ' || c == '\t' || c == '\n' || c == '\r',
        is_json_space(c) ==> search::is_space(c),
{
}

} // verus!
