//! The few JSON questions the library asks of `serde_json`: a string member
//! of a document, the member names of an object member, and the text of an
//! object with one number and one string member.

use vstd::prelude::*;
use crate::numbers::decimal;
use crate::order::lex_lt;

verus! {

/// What `serde_json` makes of `text` when asked for the string member `key`
/// of the top-level value: `None` when the text is not JSON, `Some(None)`
/// when there is no such member or it is not a string.
pub uninterp spec fn json_string_member_of(text: Seq<char>, key: Seq<char>) -> Option<Option<Seq<char>>>;

/// The names of the members of the object that is the member `key` of the
/// top-level value of `text`, in `serde_json`'s order; `None` when the text
/// is not JSON or that member is missing or not an object.
pub uninterp spec fn json_object_member_names_of(text: Seq<char>, key: Seq<char>) -> Option<Seq<Seq<char>>>;

/// A lower-case hexadecimal digit.
pub open spec fn hex_digit(v: int) -> char {
    if v < 10 {
        (48 + v) as char
    } else {
        (87 + v) as char
    }
}

/// How `serde_json` writes a character inside a string: `"` and `\` with a
/// backslash; backspace, tab, line feed, form feed and carriage return as
/// `\b`, `\t`, `\n`, `\f`, `\r`; other characters below U+0020 as
/// `\u00` and two lower-case hex digits; every other character as itself.
pub open spec fn json_escaped_char(c: char) -> Seq<char> {
    let v = c as u32 as int;
    if c == '"' {
        seq!['\\', '"']
    } else if c == '\\' {
        seq!['\\', '\\']
    } else if v == 8 {
        seq!['\\', 'b']
    } else if v == 9 {
        seq!['\\', 't']
    } else if v == 10 {
        seq!['\\', 'n']
    } else if v == 12 {
        seq!['\\', 'f']
    } else if v == 13 {
        seq!['\\', 'r']
    } else if v < 32 {
        seq!['\\', 'u', '0', '0', hex_digit(v / 16), hex_digit(v % 16)]
    } else {
        seq![c]
    }
}

/// A string's characters as `serde_json` writes them.
pub open spec fn json_escaped(s: Seq<char>) -> Seq<char>
    decreases s.len(),
{
    if s.len() == 0 {
        Seq::empty()
    } else {
        json_escaped(s.drop_last()) + json_escaped_char(s.last())
    }
}

/// A JSON string literal.
pub open spec fn json_quoted(s: Seq<char>) -> Seq<char> {
    seq!['"'] + json_escaped(s) + seq!['"']
}

/// One member of a pretty-printed object: a line break (after a comma
/// unless it is the first), two spaces, the quoted key, `": "` and the
/// value's text.
pub open spec fn pretty_member(first: bool, key: Seq<char>, value: Seq<char>) -> Seq<char> {
    (if first {
        seq!['\n']
    } else {
        seq![',', '\n']
    }) + seq![' ', ' '] + json_quoted(key) + seq![':', ' '] + value
}

/// The object with the number member `number_key` and the string member
/// `string_key`, as `serde_json::to_string_pretty` writes it: members in
/// key order (one member when the keys are equal, the string inserted
/// last), each on its own line indented by two spaces, then a line break
/// and `}`.
pub open spec fn json_pretty_pair_text(number_key: Seq<char>, number: u64, string_key: Seq<char>, string: Seq<char>) -> Seq<char> {
    let nv = decimal(number as nat);
    let sv = json_quoted(string);
    let members = if number_key == string_key {
        pretty_member(true, string_key, sv)
    } else if lex_lt(number_key, string_key) {
        pretty_member(true, number_key, nv) + pretty_member(false, string_key, sv)
    } else {
        pretty_member(true, string_key, sv) + pretty_member(false, number_key, nv)
    };
    seq!['{'] + members + seq!['\n', '}']
}

/// Parses `text` with `serde_json::from_str::<serde_json::Value>` and reads
/// the string member `key` of the result (`Value::get`, `Value::as_str`).
/// The error text is the parse error's `Display`, which is not stated.
#[verifier::external_body]
pub(crate) fn json_string_member(text: &str, key: &str) -> (r: Result<Option<String>, String>)
    ensures
        r is Err <==> json_string_member_of(text@, key@) is None,
        r matches Ok(m) ==> json_string_member_of(text@, key@) matches Some(n) && (m is None <==> n is None)
            && (m matches Some(s) ==> n == Some(s@)),
{
    match serde_json::from_str::<serde_json::Value>(text) {
        Ok(v) => Ok(v.get(key).and_then(|m| m.as_str()).map(|s| s.to_string())),
        Err(e) => Err(e.to_string()),
    }
}

/// Parses `text` with `serde_json::from_str::<serde_json::Value>` and lists
/// the keys of the object member `key` (`Value::get`, `Value::as_object`,
/// `Map::keys`).
#[verifier::external_body]
pub(crate) fn json_object_member_names(text: &str, key: &str) -> (r: Option<Vec<String>>)
    ensures
        r is None <==> json_object_member_names_of(text@, key@) is None,
        r matches Some(v) ==> json_object_member_names_of(text@, key@) == Some(
            v@.map_values(|s: String| s@),
        ),
{
    match serde_json::from_str::<serde_json::Value>(text) {
        Ok(v) => v.get(key).and_then(|m| m.as_object()).map(|o| o.keys().cloned().collect()),
        Err(_) => None,
    }
}

/// Writes, with `serde_json::to_string_pretty`, a `serde_json::Map` into
/// which the member `number_key` (the number `number`) and then the member
/// `string_key` (the string `string`) were inserted (see
/// `json_pretty_pair_text`; the map keeps its keys in order, the crate's
/// `preserve_order` feature being off). Read back, the member `string_key`
/// is that string, and a distinct `number_key` holds no string.
#[verifier::external_body]
pub(crate) fn json_pretty_pair(number_key: &str, number: u64, string_key: &str, string: &str) -> (r: String)
    ensures
        r@ == json_pretty_pair_text(number_key@, number, string_key@, string@),
        json_string_member_of(r@, string_key@) == Some(Some(string@)),
        number_key@ != string_key@ ==> json_string_member_of(r@, number_key@) == Some(None::<Seq<char>>),
{
    let mut map = serde_json::Map::new();
    map.insert(number_key.to_string(), serde_json::Value::from(number));
    map.insert(string_key.to_string(), serde_json::Value::from(string));
    serde_json::to_string_pretty(&serde_json::Value::Object(map)).unwrap_or_default()
}

} // verus!
