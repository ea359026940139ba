//! JSON documents as the stream parsers read them.
//!
//! The text is parsed by `serde_json`. What the parsers may know of a parsed
//! value is written down here as a mathematical tree, [`Json`], and the
//! accessors of `serde_json::Value` are specified over that tree.

use vstd::prelude::*;

verus! {

/// What a JSON value holds, as far as the stream parsers can see.
///
/// A number is known only by its reading as an unsigned 64-bit integer:
/// negative numbers, fractions, exponents and integers that are too large read
/// as `None`.
pub enum Json {
    Null,
    Bool(bool),
    Number(Option<u64>),
    Text(Seq<char>),
    List(Seq<Json>),
    Object(Map<Seq<char>, Json>),
}

impl Json {
    /// The member of an object under `key`; nothing for any other value.
    pub open spec fn member(self, key: Seq<char>) -> Option<Json> {
        match self {
            Json::Object(members) => if members.contains_key(key) {
                Some(members[key])
            } else {
                None
            },
            _ => None,
        }
    }

    /// The value of a string; nothing for any other value.
    pub open spec fn text(self) -> Option<Seq<char>> {
        match self {
            Json::Text(text) => Some(text),
            _ => None,
        }
    }

    /// The value of a number that is an unsigned integer; nothing otherwise.
    pub open spec fn unsigned(self) -> Option<u64> {
        match self {
            Json::Number(n) => n,
            _ => None,
        }
    }

    /// The member under `key`, where it is a string.
    pub open spec fn member_text(self, key: Seq<char>) -> Option<Seq<char>> {
        match self.member(key) {
            Some(member) => member.text(),
            None => None,
        }
    }

    /// The member under `key`, where it is an unsigned integer.
    pub open spec fn member_unsigned(self, key: Seq<char>) -> Option<u64> {
        match self.member(key) {
            Some(member) => member.unsigned(),
            None => None,
        }
    }
}

/// A parsed JSON value of `serde_json`. Opaque: see [`json_value`].
#[verifier::external_type_specification]
#[verifier::external_body]
pub struct ExValue(serde_json::Value);

/// A JSON object of `serde_json`. Opaque: see [`json_members`].
#[verifier::external_type_specification]
#[verifier::external_body]
#[verifier::reject_recursive_types(K)]
#[verifier::reject_recursive_types(V)]
pub struct ExMap<K, V>(serde_json::Map<K, V>);

/// What a parsed value of `serde_json` holds. `serde_json` builds a `Value` out of
/// plain data, so that the tree is a function of the value.
pub uninterp spec fn json_value(value: serde_json::Value) -> Json;

/// What each of a row of parsed values holds.
pub open spec fn json_values(values: Seq<serde_json::Value>) -> Seq<Json> {
    Seq::new(values.len(), |i: int| json_value(values[i]))
}

/// What a parsed object of `serde_json` holds: its members by their keys. A
/// `serde_json::Map` keeps one value per key.
pub uninterp spec fn json_members(members: serde_json::Map<String, serde_json::Value>) -> Map<Seq<char>, Json>;

/// The JSON document that `serde_json::from_slice` reads out of `bytes`, if it
/// reads one.
pub uninterp spec fn json_document(bytes: Seq<u8>) -> Option<Json>;

/// `serde_json::from_slice`, at type `Value`.
///
/// Claimed: whether the bytes parse, and what the parsed value holds, depends on
/// the bytes alone. Nothing is claimed of which bytes are JSON; the reason of a
/// failure is dropped.
#[verifier::external_body]
pub(crate) fn parse_document(bytes: &[u8]) -> (parsed: Option<serde_json::Value>)
    ensures
        match parsed {
            Some(value) => json_document(bytes@) == Some(json_value(value)),
            None => json_document(bytes@) is None,
        },
{
    serde_json::from_slice::<serde_json::Value>(bytes).ok()
}

/// `serde_json::Value::get` with a string key.
///
/// Claimed: of an object it gives the member under the key, if there is one, and
/// of any other value nothing.
#[verifier::external_body]
pub(crate) fn get<'a>(value: &'a serde_json::Value, key: &str) -> (member: Option<&'a serde_json::Value>)
    ensures
        match member {
            Some(found) => json_value(*value).member(key@) == Some(json_value(*found)),
            None => json_value(*value).member(key@) is None,
        },
{
    value.get(key)
}

/// `serde_json::Map::get` with a string key.
///
/// Claimed: it gives the member of the object under the key, and nothing exactly
/// where the object has no such key.
#[verifier::external_body]
pub(crate) fn get_member<'a>(
    members: &'a serde_json::Map<String, serde_json::Value>,
    key: &str,
) -> (member: Option<&'a serde_json::Value>)
    ensures
        match member {
            Some(found) => json_members(*members).contains_key(key@)
                && json_members(*members)[key@] == json_value(*found),
            None => !json_members(*members).contains_key(key@),
        },
{
    members.get(key)
}

/// `serde_json::Value::as_str`.
///
/// Claimed: of a string it gives the text, and of any other value nothing.
pub assume_specification[ serde_json::Value::as_str ](value: &serde_json::Value) -> (string: Option<&str>)
    ensures
        match string {
            Some(found) => json_value(*value) == Json::Text(found@),
            None => !(json_value(*value) is Text),
        },
;

/// `serde_json::Value::as_u64`.
///
/// Claimed: of a number it gives the reading as an unsigned 64-bit integer, where
/// it has one, and of any other value nothing.
pub assume_specification[ serde_json::Value::as_u64 ](value: &serde_json::Value) -> (number: Option<u64>)
    ensures
        number == json_value(*value).unsigned(),
;

/// `serde_json::Value::as_array`.
///
/// Claimed: of an array it gives the elements in order, and of any other value
/// nothing.
pub assume_specification[ serde_json::Value::as_array ](value: &serde_json::Value) -> (items: Option<&Vec<serde_json::Value>>)
    ensures
        match items {
            Some(found) => json_value(*value) == Json::List(json_values(found@)),
            None => !(json_value(*value) is List),
        },
;

/// `serde_json::Value::as_object`.
///
/// Claimed: of an object it gives the members, and of any other value nothing.
pub assume_specification[ serde_json::Value::as_object ](value: &serde_json::Value) -> (members: Option<&serde_json::Map<String, serde_json::Value>>)
    ensures
        match members {
            Some(found) => json_value(*value) == Json::Object(json_members(*found)),
            None => !(json_value(*value) is Object),
        },
;

/// The member under `key` read as a string, if it is one.
pub(crate) fn get_text<'a>(value: &'a serde_json::Value, key: &str) -> (text: Option<&'a str>)
    ensures
        match text {
            Some(found) => json_value(*value).member_text(key@) == Some(found@),
            None => json_value(*value).member_text(key@) is None,
        },
{
    match get(value, key) {
        Some(member) => member.as_str(),
        None => None,
    }
}

/// The member under `key` read as an unsigned integer, if it is one.
pub(crate) fn get_unsigned(value: &serde_json::Value, key: &str) -> (number: Option<u64>)
    ensures
        number == json_value(*value).member_unsigned(key@),
{
    match get(value, key) {
        Some(member) => member.as_u64(),
        None => None,
    }
}

/// The member of an object under `key` read as an unsigned integer, if it is
/// one.
pub(crate) fn get_member_unsigned(
    members: &serde_json::Map<String, serde_json::Value>,
    key: &str,
) -> (number: Option<u64>)
    ensures
        number == Json::Object(json_members(*members)).member_unsigned(key@),
{
    match get_member(members, key) {
        Some(member) => member.as_u64(),
        None => None,
    }
}

/// An object gives the member under a key, if it has the key, and no other value
/// has members.
pub proof fn law_member(members: Map<Seq<char>, Json>, other: Json, key: Seq<char>)
    requires
        !(other is Object),
    ensures
        members.contains_key(key) ==> Json::Object(members).member(key) == Some(members[key]),
        !members.contains_key(key) ==> Json::Object(members).member(key) is None,
        other.member(key) is None,
{
}

/// A member read as a text or as a number is what stands under the key, where
/// that is a text or an unsigned integer.
pub proof fn law_member_read(
    members: Map<Seq<char>, Json>,
    key: Seq<char>,
    text: Seq<char>,
    n: u64,
)
    ensures
        Json::Object(members).member_text(key) == Some(text) <==> members.contains_key(key)
            && members[key] == Json::Text(text),
        Json::Object(members).member_unsigned(key) == Some(n) <==> members.contains_key(key)
            && members[key] == Json::Number(Some(n)),
        Json::Text(text).text() == Some(text),
        Json::Number(Some(n)).unsigned() == Some(n),
{
}

/// A row of parsed values holds what its values hold, one for one.
pub proof fn law_values_one_for_one(values: Seq<serde_json::Value>, i: int)
    ensures
        json_values(values).len() == values.len(),
        0 <= i < values.len() ==> json_values(values)[i] == json_value(values[i]),
{
}

} // verus!
