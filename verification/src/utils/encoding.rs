//! Text forms of bytes, numbers and records, as the outside crates and
//! the standard library write and read them.
//!
//! Of the functions that call out nothing is proved. Each hands plain
//! values to one outside function and hands plain values back; what it
//! promises is taken from that function's documentation and source.

use vstd::prelude::*;
use crate::utils::decimal::{decimal_text, decimal_u16};

verus! {

/// The standard base64 text of bytes, with padding.
pub uninterp spec fn base64_text(bytes: Seq<u8>) -> Seq<char>;

/// The bytes a standard base64 text stands for; `None` where the text is
/// not one.
pub uninterp spec fn base64_bytes(text: Seq<char>) -> Option<Seq<u8>>;

/// The members of a JSON object whose values are strings, by their keys.
pub uninterp spec fn json_string_members(object: serde_json::Map<String, serde_json::Value>) -> Map<
    Seq<char>,
    Seq<char>,
>;

/// Whether every member of a JSON object is a string.
pub uninterp spec fn json_only_strings(object: serde_json::Map<String, serde_json::Value>) -> bool;

/// The string members of the JSON object a text holds; `None` where the
/// text holds no JSON object.
pub uninterp spec fn json_object_members(text: Seq<char>) -> Option<Map<Seq<char>, Seq<char>>>;

/// An object without members.
pub open spec fn no_members() -> Map<Seq<char>, Seq<char>> {
    Map::empty()
}

#[verifier::external_type_specification]
#[verifier::external_body]
pub struct ExJsonValue(serde_json::Value);

#[verifier::external_type_specification]
#[verifier::external_body]
#[verifier::reject_recursive_types(K)]
#[verifier::reject_recursive_types(V)]
pub struct ExJsonObject<K, V>(serde_json::Map<K, V>);

/// Whether that many bytes can be put in base64. The text has four
/// characters for every three bytes begun, and it must fit the longest
/// buffer there can be; beyond that the encoder does not return.
pub open spec fn base64_fits(len: nat) -> bool {
    4 * ((len + 2) / 3) <= isize::MAX
}

/// The most bytes that can be put in base64.
pub fn base64_max_input_len() -> (max: usize)
    ensures
        forall|len: nat| base64_fits(len) <==> len <= max,
{
    let max = (isize::MAX as usize / 4) * 3;
    assert forall|len: nat| base64_fits(len) <==> len <= max by {
        let quarter = (isize::MAX as int) / 4;
        assert(max == 3 * quarter);
        assert(4 * ((len + 2) / 3) <= isize::MAX <==> (len + 2) / 3 <= quarter);
        assert((len + 2) / 3 <= quarter <==> len <= 3 * quarter);
    }
    max
}

/// `base64::engine::general_purpose::STANDARD.encode`: a text of four
/// characters for every three bytes begun, a function of the bytes, which
/// `decode` reads back.
#[verifier::external_body]
pub(crate) fn base64_encode(bytes: &[u8]) -> (text: String)
    requires
        base64_fits(bytes@.len()),
    ensures
        text@ == base64_text(bytes@),
        text@.len() == 4 * ((bytes@.len() + 2) / 3),
        base64_bytes(text@) == Some(bytes@),
{
    base64::Engine::encode(&base64::engine::general_purpose::STANDARD, bytes)
}

/// `base64::engine::general_purpose::STANDARD.decode`: the bytes of a
/// text, a function of the text, or `None` where it is no standard base64.
#[verifier::external_body]
pub(crate) fn base64_decode(text: &str) -> (bytes: Option<Vec<u8>>)
    ensures
        crate::utils::bytes::optional_bytes_view(bytes) == base64_bytes(text@),
{
    base64::Engine::decode(&base64::engine::general_purpose::STANDARD, text).ok()
}

/// `u16::to_string` of the standard library: the decimal digits of the
/// number, without sign or leading zeros.
#[verifier::external_body]
pub(crate) fn u16_to_text(n: u16) -> (text: String)
    ensures
        text@ == decimal_text(n),
{
    n.to_string()
}

/// `str::parse::<u16>` of the standard library: the number that one or
/// more decimal digits stand for, after a plus sign or none, where it
/// fits; no number for any other text.
#[verifier::external_body]
pub(crate) fn text_to_u16(text: &str) -> (n: Option<u16>)
    ensures
        n == decimal_u16(text@),
{
    text.parse::<u16>().ok()
}

/// `String::from_utf8` of the standard library: the text that bytes
/// encode, where they are valid UTF-8, and `None` where they are not.
#[verifier::external_body]
pub(crate) fn string_from_utf8(bytes: Vec<u8>) -> (text: Option<String>)
    ensures
        text is Some <==> vstd::utf8::valid_utf8(bytes@),
        text matches Some(t) ==> t@ == vstd::utf8::decode_utf8(bytes@),
{
    String::from_utf8(bytes).ok()
}

/// `serde_json::Map::new`: an object without members, so that every
/// member of it is a string.
#[verifier::external_body]
pub(crate) fn json_new_object() -> (object: serde_json::Map<String, serde_json::Value>)
    ensures
        json_string_members(object) == no_members(),
        json_only_strings(object),
{
    serde_json::Map::new()
}

/// `serde_json::Map::insert` with a string as the value: the object has
/// the member, in place of any it had under the key, and its other
/// members as before. Where every member was a string, every member
/// still is.
#[verifier::external_body]
pub(crate) fn json_insert_string(object: &mut serde_json::Map<String, serde_json::Value>, key: &str, value: &str)
    ensures
        json_string_members(*final(object)) == json_string_members(*old(object)).insert(key@, value@),
        json_only_strings(*old(object)) ==> json_only_strings(*final(object)),
{
    object.insert(key.to_owned(), serde_json::Value::String(value.to_owned()));
}

/// `serde_json::Map::get`: the string under a key, or `None` where the
/// object has no member under the key or one that is no string.
#[verifier::external_body]
pub(crate) fn json_get_string(object: &serde_json::Map<String, serde_json::Value>, key: &str) -> (value: Option<String>)
    ensures
        match value {
            Some(text) => json_string_members(*object).contains_key(key@) && json_string_members(*object)[key@]
                == text@,
            None => !json_string_members(*object).contains_key(key@),
        },
{
    match object.get(key) {
        Some(serde_json::Value::String(text)) => Some(text.clone()),
        _ => None,
    }
}

/// `serde_json::to_string` on an object whose members are all strings:
/// a text from which `serde_json::from_str` reads an object with the same
/// members. Writing such an object to a string does not fail: every key
/// and every value is a string, and nothing that is written can refuse.
/// An object that holds other values is not taken: one that is nested
/// deeper than the reader goes would be written and not read back.
#[verifier::external_body]
pub(crate) fn json_to_text(object: &serde_json::Map<String, serde_json::Value>) -> (text: Option<String>)
    requires
        json_only_strings(*object),
    ensures
        text is Some,
        text matches Some(t) ==> json_object_members(t@) == Some(json_string_members(*object)),
{
    serde_json::to_string(object).ok()
}

/// `serde_json::from_str` to an object: the object a text holds, its
/// string members a function of the text, or `None` where the text holds
/// no JSON object.
#[verifier::external_body]
pub(crate) fn json_parse_object(text: &str) -> (object: Option<serde_json::Map<String, serde_json::Value>>)
    ensures
        match object {
            Some(o) => json_object_members(text@) == Some(json_string_members(o)),
            None => json_object_members(text@) is None,
        },
{
    serde_json::from_str::<serde_json::Map<String, serde_json::Value>>(text).ok()
}

} // verus!
