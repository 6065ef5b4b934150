//! JSON merge patches, written out as text.

use vstd::prelude::*;
use crate::text::concat3;

verus! {

/// The lower-case hexadecimal digit of a number below sixteen.
pub open spec fn hex_digit(n: int) -> char {
    if n < 10 {
        (n + 48) as char
    } else {
        (n + 87) as char
    }
}

/// A character inside a JSON string: control characters, the quote and the backslash are escaped, the
/// common ones by a letter.
pub open spec fn json_char(c: char) -> Seq<char> {
    if c == '"' || c == '\\' {
        seq!['\\', c]
    } else if c == '\u{8}' {
        seq!['\\', 'b']
    } else if c == '\t' {
        seq!['\\', 't']
    } else if c == '\n' {
        seq!['\\', 'n']
    } else if c == '\u{c}' {
        seq!['\\', 'f']
    } else if c == '\r' {
        seq!['\\', 'r']
    } else if 32 > c as int {
        seq!['\\', 'u', '0', '0', hex_digit(c as int / 16), hex_digit(c as int % 16)]
    } else {
        seq![c]
    }
}

/// A text as a JSON string: its characters in quotes.
pub open spec fn json_string(s: Seq<char>) -> Seq<char> {
    seq!['"'] + s.map_values(|c: char| json_char(c)).flatten() + seq!['"']
}

/// `serde_json::to_string` of a `str`, which cannot fail: the text in quotes, its characters escaped
/// where they must be.
#[verifier::external_body]
pub(crate) fn quote(s: &str) -> (res: String)
    ensures
        res@ == json_string(s@),
{
    serde_json::to_string(s).unwrap_or_default()
}

/// A member of a JSON object: its name and its value, which is a text or `null`.
pub open spec fn json_member(name: Seq<char>, value: Option<Seq<char>>) -> Seq<char> {
    json_string(name) + ":"@ + match value {
        Some(value) => json_string(value),
        None => "null"@,
    }
}

/// A member of a JSON object: its name and its value, which is a text or `null`.
pub fn member(name: &str, value: Option<&str>) -> (res: String)
    ensures
        res@ == json_member(name@, crate::text::str_of(value)),
{
    let key = quote(name);
    match value {
        Some(value) => concat3(key.as_str(), ":", quote(value).as_str()),
        None => concat3(key.as_str(), ":", "null"),
    }
}

/// A text is quoted character by character: what JSON gives a meaning of its own is escaped, what it does not
/// let stand is written by its number, and everything else stands as it is.
pub proof fn a_text_is_quoted_character_by_character(s: Seq<char>, c: char)
    ensures
        json_string(Seq::<char>::empty()) == seq!['"', '"'],
        json_string(s.push(c)) == json_string(s).drop_last() + json_char(c) + seq!['"'],
        c == '"' ==> json_char(c) == seq!['\\', '"'],
        c == '\\' ==> json_char(c) == seq!['\\', '\\'],
        c == '\n' ==> json_char(c) == seq!['\\', 'n'],
        c == '\r' ==> json_char(c) == seq!['\\', 'r'],
        c == '\t' ==> json_char(c) == seq!['\\', 't'],
        c as int >= 32 && c != '"' && c != '\\' ==> json_char(c) == seq![c],
        (c as int) < 8 ==> json_char(c) == seq!['\\', 'u', '0', '0', '0', (48 + c as int) as char],
        16 <= (c as int) < 26 ==> json_char(c) == seq![
            '\\',
            'u',
            '0',
            '0',
            '1',
            (32 + c as int) as char,
        ],
        26 <= (c as int) < 32 ==> json_char(c) == seq![
            '\\',
            'u',
            '0',
            '0',
            '1',
            (71 + c as int) as char,
        ],
{
    let f = |c: char| json_char(c);
    let parts = s.map_values(f);
    assert(Seq::<char>::empty().map_values(f) =~= Seq::<Seq<char>>::empty());
    assert(Seq::<Seq<char>>::empty().flatten() =~= Seq::<char>::empty());
    assert(json_string(Seq::<char>::empty()) =~= seq!['"', '"']);
    assert(s.push(c).map_values(f) =~= parts.push(json_char(c)));
    parts.lemma_flatten_push(json_char(c));
    assert(json_string(s.push(c)) =~= json_string(s).drop_last() + json_char(c) + seq!['"']);
}

} // verus!
