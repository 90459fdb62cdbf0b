//! The translators' JSON messages. A message is parsed by serde_json and read by JSON
//! Pointer (RFC 6901); what a pointer finds in a text is a function of the two alone. The
//! messages sent are written here, with serde_json quoting the strings in them.

use base64::Engine;
use vstd::prelude::*;

verus! {

pub open spec fn opt_chars(o: Option<String>) -> Option<Seq<char>> {
    match o {
        Some(s) => Some(s@),
        None => None,
    }
}

/// The string a JSON Pointer finds in a JSON text; nothing when the text does not parse or
/// the value there is missing or not a string.
pub uninterp spec fn json_str_at(text: Seq<char>, pointer: Seq<char>) -> Option<Seq<char>>;

/// `serde_json::from_str::<Value>`, then `Value::pointer` and `Value::as_str`.
#[verifier::external_body]
pub(crate) fn json_str(text: &str, pointer: &str) -> (r: Option<String>)
    ensures
        opt_chars(r) == json_str_at(text@, pointer@),
{
    serde_json::from_str::<serde_json::Value>(text).ok()?.pointer(pointer)?.as_str().map(str::to_owned)
}

/// The unsigned integer a JSON Pointer finds in a JSON text.
pub uninterp spec fn json_u64_at(text: Seq<char>, pointer: Seq<char>) -> Option<u64>;

/// `serde_json::from_str::<Value>`, then `Value::pointer` and `Value::as_u64`.
#[verifier::external_body]
pub(crate) fn json_u64(text: &str, pointer: &str) -> (r: Option<u64>)
    ensures
        r == json_u64_at(text@, pointer@),
{
    serde_json::from_str::<serde_json::Value>(text).ok()?.pointer(pointer)?.as_u64()
}

/// The boolean a JSON Pointer finds in a JSON text.
pub uninterp spec fn json_bool_at(text: Seq<char>, pointer: Seq<char>) -> Option<bool>;

/// `serde_json::from_str::<Value>`, then `Value::pointer` and `Value::as_bool`.
#[verifier::external_body]
pub(crate) fn json_bool(text: &str, pointer: &str) -> (r: Option<bool>)
    ensures
        r == json_bool_at(text@, pointer@),
{
    serde_json::from_str::<serde_json::Value>(text).ok()?.pointer(pointer)?.as_bool()
}

/// The length of the array a JSON Pointer finds in a JSON text.
pub uninterp spec fn json_array_len_at(text: Seq<char>, pointer: Seq<char>) -> Option<usize>;

/// `serde_json::from_str::<Value>`, then `Value::pointer`, `Value::as_array` and the length.
#[verifier::external_body]
pub(crate) fn json_array_len(text: &str, pointer: &str) -> (r: Option<usize>)
    ensures
        r == json_array_len_at(text@, pointer@),
{
    Some(serde_json::from_str::<serde_json::Value>(text).ok()?.pointer(pointer)?.as_array()?.len())
}

/// Whether a JSON Pointer finds any value at all in a JSON text.
pub uninterp spec fn json_has_at(text: Seq<char>, pointer: Seq<char>) -> bool;

/// `serde_json::from_str::<Value>`, then whether `Value::pointer` finds something.
#[verifier::external_body]
pub(crate) fn json_has(text: &str, pointer: &str) -> (r: bool)
    ensures
        r == json_has_at(text@, pointer@),
{
    match serde_json::from_str::<serde_json::Value>(text) {
        Ok(value) => value.pointer(pointer).is_some(),
        Err(_) => false,
    }
}

/// A lowercase hexadecimal digit.
pub open spec fn hex_digit(n: nat) -> char {
    if n < 10 {
        ((n + 48) as u32) as char
    } else {
        ((n + 87) as u32) as char
    }
}

/// How serde_json writes one character inside a string literal: a quote, a backslash and
/// the control characters below U+0020 are escaped (the five with a short form by it, the
/// others as `\u00` and two lowercase hex digits); everything else stands as it is.
pub open spec fn escaped_char(c: char) -> Seq<char> {
    if c == '"' {
        seq!['\\', '"']
    } else if c == '\\' {
        seq!['\\', '\\']
    } else if c == '\u{8}' {
        seq!['\\', 'b']
    } else if c == '\t' {
        seq!['\\', 't']
    } else if c == '\n' {
        seq!['\\', 'n']
    } else if c == '\u{c}' {
        seq!['\\', 'f']
    } else if c == '\r' {
        seq!['\\', 'r']
    } else if (c as u32) < 0x20 {
        seq!['\\', 'u', '0', '0', hex_digit((c as u32 / 16) as nat), hex_digit((c as u32 % 16) as nat)]
    } else {
        seq![c]
    }
}

/// The characters of a string, each as serde_json writes it inside a literal.
pub open spec fn escaped(s: Seq<char>) -> Seq<char>
    decreases s.len(),
{
    if s.len() == 0 {
        Seq::empty()
    } else {
        escaped(s.drop_last()) + escaped_char(s.last())
    }
}

/// A string as a JSON string literal: quoted, and escaped as serde_json writes it.
pub open spec fn json_quoted(s: Seq<char>) -> Seq<char> {
    seq!['"'] + escaped(s) + seq!['"']
}

/// `serde_json::to_string` on a string slice. Writing a string into serde_json's in-memory
/// buffer cannot fail, so the error arm is never taken.
#[verifier::external_body]
pub(crate) fn json_string(s: &str) -> (r: String)
    ensures
        r@ == json_quoted(s@),
{
    match serde_json::to_string(s) {
        Ok(text) => text,
        Err(_) => String::new(),
    }
}

/// One character of the standard base64 alphabet (RFC 4648): `A`-`Z`, `a`-`z`, `0`-`9`,
/// `+`, `/`.
pub open spec fn base64_char(n: int) -> char {
    if n < 26 {
        ((n + 65) as u32) as char
    } else if n < 52 {
        ((n + 71) as u32) as char
    } else if n < 62 {
        ((n - 4) as u32) as char
    } else if n == 62 {
        '+'
    } else {
        '/'
    }
}

/// Bytes in standard base64 with padding: every three bytes become four characters, and
/// a last group of one or two bytes is padded with `=` to four.
pub open spec fn base64(s: Seq<u8>) -> Seq<char>
    decreases s.len(),
{
    if s.len() == 0 {
        Seq::empty()
    } else if s.len() == 1 {
        seq![base64_char(s[0] as int / 4), base64_char((s[0] as int % 4) * 16), '=', '=']
    } else if s.len() == 2 {
        seq![
            base64_char(s[0] as int / 4),
            base64_char((s[0] as int % 4) * 16 + s[1] as int / 16),
            base64_char((s[1] as int % 16) * 4),
            '=',
        ]
    } else {
        seq![
            base64_char(s[0] as int / 4),
            base64_char((s[0] as int % 4) * 16 + s[1] as int / 16),
            base64_char((s[1] as int % 16) * 4 + s[2] as int / 64),
            base64_char(s[2] as int % 64),
        ] + base64(s.skip(3))
    }
}

/// `base64::engine::general_purpose::STANDARD.encode`: the standard alphabet with padding.
/// It panics when the encoded length overflows `usize`, which the bound keeps out.
#[verifier::external_body]
pub(crate) fn base64_string(bytes: &[u8]) -> (r: String)
    requires
        bytes@.len() < usize::MAX / 2,
    ensures
        r@ == base64(bytes@),
{
    base64::engine::general_purpose::STANDARD.encode(bytes)
}

} // verus!
