//! Calls into the `json` crate and into std's UTF-8 decoding, each with the
//! contract the library relies on.

use vstd::prelude::*;
use vstd::utf8::{decode_utf8, valid_utf8};

verus! {

/// What a JSON body holds under one key, as plain values: `None` when the
/// member is neither `null`/missing nor an object; `Some(None)` when it is
/// missing or `null`; `Some(Some(members))` for an object, each member with
/// its text when it is a JSON string.
pub type SectionView = Option<Option<Seq<(Seq<char>, Option<Seq<char>>)>>>;

/// Whether `json::parse` accepts a text.
pub uninterp spec fn json_accepts(text: Seq<char>) -> bool;

/// Whether the value `json::parse` reads from a text is an object.
pub uninterp spec fn json_top_object(text: Seq<char>) -> bool;

/// What the value `json::parse` reads from a text holds under `key`.
pub uninterp spec fn json_body_section(text: Seq<char>, key: Seq<char>) -> SectionView;

/// The JSON number text that `json::number::Number` displays for the number
/// with the given sign, decimal mantissa and decimal exponent.
pub uninterp spec fn json_number_text(positive: bool, mantissa: u64, exponent: i16) -> Seq<char>;

/// The digit of `d` (below 16) in lower-case hexadecimal.
pub open spec fn hex_digit(d: int) -> char {
    if d < 10 {
        ((48 + d) as u8) as char
    } else {
        ((87 + d) as u8) as char
    }
}

/// How a JSON string literal writes one character: `"` and `\` behind a
/// backslash, the five short control escapes, any other control character
/// as `\u00xx`, everything else as it is.
pub open spec fn escape_char(c: char) -> Seq<char> {
    if c == '"' {
        seq!['\\', '"']
    } else if c == '\\' {
        seq!['\\', '\\']
    } else if c == '\x08' {
        seq!['\\', 'b']
    } else if c == '\t' {
        seq!['\\', 't']
    } else if c == '\n' {
        seq!['\\', 'n']
    } else if c == '\x0c' {
        seq!['\\', 'f']
    } else if c == '\r' {
        seq!['\\', 'r']
    } else if (c as u32) < 32 {
        seq!['\\', 'u', '0', '0', hex_digit((c as u32) as int / 16), hex_digit((c as u32) as int % 16)]
    } else {
        seq![c]
    }
}

/// The escaped characters of a text.
pub open spec fn escaped(s: Seq<char>) -> Seq<char>
    decreases s.len(),
{
    if s.len() == 0 {
        Seq::empty()
    } else {
        escaped(s.drop_last()) + escape_char(s.last())
    }
}

/// The JSON string literal of a text.
pub open spec fn json_quoted(s: Seq<char>) -> Seq<char> {
    seq!['"'] + escaped(s) + seq!['"']
}

/// Relies on `String::from_utf8`: it succeeds exactly on valid UTF-8 and
/// then holds the decoded characters.
#[verifier::external_body]
pub(crate) fn utf8_text(bytes: Vec<u8>) -> (r: Option<String>)
    ensures
        r is Some <==> valid_utf8(bytes@),
        r matches Some(s) ==> s@ == decode_utf8(bytes@),
{
    String::from_utf8(bytes).ok()
}

/// Relies on `json::parse`: whether a text parses depends on the text alone.
#[verifier::external_body]
pub(crate) fn json_parses(text: &str) -> (r: bool)
    ensures
        r == json_accepts(text@),
{
    json::parse(text).is_ok()
}

/// Relies on `json::parse` and `JsonValue::is_object`: whether a text holds
/// a JSON object.
#[verifier::external_body]
pub(crate) fn is_object_text(text: &str) -> (r: bool)
    ensures
        r == json_top_object(text@),
{
    json::parse(text).map(|v| v.is_object()).unwrap_or(false)
}

/// What a write body holds under `columns` or `filters`: nothing, something
/// other than an object, or an object's members, each with its text when the
/// member is a JSON string.
pub enum JsonSection {
    Absent,
    NotObject,
    Entries(Vec<(String, Option<String>)>),
}

/// The members of a section as characters.
pub open spec fn entries_view(v: Seq<(String, Option<String>)>) -> Seq<(Seq<char>, Option<Seq<char>>)> {
    v.map_values(
        |e: (String, Option<String>)|
            (
                e.0@,
                match e.1 {
                    Some(s) => Some(s@),
                    None => None,
                },
            ),
    )
}

/// A section as plain values.
pub open spec fn section_view(sec: JsonSection) -> SectionView {
    match sec {
        JsonSection::Absent => Some(None),
        JsonSection::NotObject => None,
        JsonSection::Entries(v) => Some(Some(entries_view(v@))),
    }
}

/// Relies on `json::parse`, `JsonValue::remove`, `Object::iter` and
/// `JsonValue::as_str`: the member `key` of the value a text holds, told
/// apart by its variant.
#[verifier::external_body]
pub(crate) fn body_section(text: &str, key: &str) -> (r: JsonSection)
    ensures
        section_view(r) == json_body_section(text@, key@),
{
    let mut doc = match json::parse(text) {
        Ok(doc) => doc,
        Err(_) => return JsonSection::NotObject,
    };
    match doc.remove(key) {
        json::JsonValue::Null => JsonSection::Absent,
        json::JsonValue::Object(o) => JsonSection::Entries(
            o.iter().map(|(k, v)| (k.to_string(), v.as_str().map(|s| s.to_string()))).collect(),
        ),
        _ => JsonSection::NotObject,
    }
}

/// Relies on `json::stringify`, which writes a string literal byte by byte
/// through its escape table: the characters of the result are `json_quoted`.
#[verifier::external_body]
pub(crate) fn quote_json(s: &str) -> (r: String)
    ensures
        r@ == json_quoted(s@),
{
    json::stringify(s)
}

/// Relies on `json::number::Number::from_parts` and its `Display`: the JSON
/// text of a decimal number.
#[verifier::external_body]
pub(crate) fn number_json(positive: bool, mantissa: u64, exponent: i16) -> (r: String)
    ensures
        r@ == json_number_text(positive, mantissa, exponent),
{
    json::number::Number::from_parts(positive, mantissa, exponent).to_string()
}

} // verus!
