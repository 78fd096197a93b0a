//! JSON text for strings, as serde_json writes and reads it.

use vstd::prelude::*;

verus! {

/// Lower-case hexadecimal digit for `n < 16`.
pub open spec fn hex_digit(n: u32) -> char {
    if n < 10 {
        (('0' as u32) + n) as char
    } else {
        (('a' as u32) + n - 10) as char
    }
}

/// How serde_json writes one character inside a JSON string: quote and
/// backslash are escaped, the five usual control characters get their short
/// escapes, the other control characters below U+0020 become `\u00XX`, and
/// every other character is written as is.
pub open spec fn json_escape_char(c: char) -> Seq<char> {
    if c == '"' {
        seq!['\\', '"']
    } else if c == '\\' {
        seq!['\\', '\\']
    } else if c == '\x08' {
        seq!['\\', 'b']
    } else if c == '\t' {
        seq!['\\', 't']
    } else if c == '\n' {
        seq!['\\', 'n']
    } else if c == '\x0C' {
        seq!['\\', 'f']
    } else if c == '\r' {
        seq!['\\', 'r']
    } else if (c as u32) < 0x20 {
        seq!['\\', 'u', '0', '0', hex_digit((c as u32) / 16), hex_digit((c as u32) % 16)]
    } else {
        seq![c]
    }
}

/// The escaped contents of a JSON string holding `s`.
pub open spec fn json_escape(s: Seq<char>) -> Seq<char>
    decreases s.len(),
{
    if s.len() == 0 {
        Seq::empty()
    } else {
        json_escape(s.drop_last()) + json_escape_char(s.last())
    }
}

/// The JSON string literal that holds `s`.
pub open spec fn json_quote(s: Seq<char>) -> Seq<char> {
    seq!['"'] + json_escape(s) + seq!['"']
}

/// The outcome of reading `text` as one JSON document whose value is a
/// string: the string, or serde_json's error message.
pub uninterp spec fn json_string_value(text: Seq<char>) -> Result<Seq<char>, Seq<char>>;

/// Calls `serde_json::to_string` on a `str`. serde_json's serializer writes a
/// string through `format_escaped_str`, escaping exactly as `json_quote` says,
/// into a `Vec<u8>` whose writes cannot fail, so the call always succeeds.
#[verifier::external_body]
pub fn json_string_literal(s: &str) -> (r: String)
    ensures
        r@ == json_quote(s@),
{
    match serde_json::to_string(s) {
        Ok(text) => text,
        Err(_) => String::new(),
    }
}

/// Calls `serde_json::from_str::<String>` and turns its error into its
/// display text. The contract only names the outcome (`json_string_value`);
/// JSON string decoding is not written out here.
#[verifier::external_body]
pub fn json_string_decode(text: &str) -> (r: Result<String, String>)
    ensures
        match r {
            Ok(v) => json_string_value(text@) == Ok::<Seq<char>, Seq<char>>(v@),
            Err(e) => json_string_value(text@) == Err::<Seq<char>, Seq<char>>(e@),
        },
{
    match serde_json::from_str::<String>(text) {
        Ok(value) => Ok(value),
        Err(err) => Err(err.to_string()),
    }
}

#[verifier::external_type_specification]
#[verifier::external_body]
pub struct ExJsonValue(serde_json::Value);

/// The compact JSON text that serde_json writes for a value.
pub uninterp spec fn json_value_serialized(value: serde_json::Value) -> Seq<char>;

/// Calls `serde_json::to_string` on a JSON value and turns its error into its
/// display text. The serializer writes into a `Vec<u8>`, whose writes cannot
/// fail, and a `Value` holds only string map keys and writes a non-finite
/// float as `null`, so the call always succeeds. The text depends on the
/// value alone and is named `json_value_serialized`; how serde_json lays a
/// value out is not written out here.
#[verifier::external_body]
pub fn json_value_text(value: &serde_json::Value) -> (r: Result<String, String>)
    ensures
        r is Ok,
        match r {
            Ok(t) => t@ == json_value_serialized(*value),
            Err(_) => true,
        },
{
    match serde_json::to_string(value) {
        Ok(text) => Ok(text),
        Err(err) => Err(err.to_string()),
    }
}

} // verus!
