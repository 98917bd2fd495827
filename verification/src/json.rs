//! JSON values as the library sees them.
//!
//! Parsing, printing and the object and value types are `serde_json`'s. This
//! module gives them a mathematical model and states, for each operation that
//! the library calls, what it does to that model. Nothing in this module is
//! proved: the rest of the library is proved against what is stated here.

use vstd::prelude::*;

verus! {

/// `serde_json::Value`, a JSON value. Its inside is reached through the
/// functions of this module only; `value_view` says what it holds.
#[verifier::external_type_specification]
#[verifier::external_body]
pub struct ExValue(serde_json::Value);

/// `serde_json::Map`, a JSON object. `object_view` says what it holds.
#[verifier::external_type_specification]
#[verifier::external_body]
#[verifier::reject_recursive_types(K)]
#[verifier::reject_recursive_types(V)]
pub struct ExObject<K, V>(serde_json::Map<K, V>);

/// A JSON object as the library holds it.
pub type Object = serde_json::Map<String, serde_json::Value>;

/// A JSON number, as far as the library tells numbers apart.
pub enum JsonNumber {
    /// A whole number from 0 to `u64::MAX`.
    Unsigned(u64),
    /// Any other number: negative, fractional or beyond `u64`. The library
    /// never looks into one; the code only keeps different numbers apart.
    Other(int),
}

/// The mathematical model of a JSON value.
pub enum Json {
    Null,
    Bool(bool),
    Number(JsonNumber),
    String(Seq<char>),
    Array(Seq<Json>),
    Object(Map<Seq<char>, Json>),
}

/// The object without keys.
pub open spec fn empty_object() -> Map<Seq<char>, Json> {
    Map::empty()
}

/// What a `serde_json::Value` holds.
pub uninterp spec fn value_view(v: serde_json::Value) -> Json;

/// What a `serde_json::Map` holds: its keys, each with the value stored under it.
pub uninterp spec fn object_view(m: serde_json::Map<String, serde_json::Value>) -> Map<Seq<char>, Json>;

/// The object that `serde_json::from_slice` reads from some bytes, where
/// they are the text of one JSON object and nothing else but white space.
pub uninterp spec fn parsed_object(text: Seq<u8>) -> Option<Map<Seq<char>, Json>>;

/// The compact text that `serde_json::to_string` writes for an object. It
/// depends on what the object holds and on nothing else, because the keys are
/// written in their sorted order: that is so with the default features of
/// `serde_json`, under which this library is built, and not with its feature
/// `preserve_order`.
pub uninterp spec fn printed_object(object: Map<Seq<char>, Json>) -> Seq<char>;

/// `Clone::clone` of `serde_json::Map`: the copy holds what the object holds.
pub assume_specification[ <serde_json::Map<String, serde_json::Value> as Clone>::clone ](
    m: &serde_json::Map<String, serde_json::Value>,
) -> (copy: serde_json::Map<String, serde_json::Value>)
    ensures
        object_view(copy) == object_view(*m),
;

/// `serde_json::from_slice`, read as a `serde_json::Map`: the object named by
/// `parsed_object`, and `None` where the call reports an error (the bytes
/// are no JSON, or no JSON object).
#[verifier::external_body]
pub(crate) fn parse_object(text: &[u8]) -> (parsed: Option<serde_json::Map<String, serde_json::Value>>)
    ensures
        match parsed {
            Some(m) => parsed_object(text@) == Some(object_view(m)),
            None => parsed_object(text@) is None,
        },
{
    serde_json::from_slice(text).ok()
}

/// `serde_json::to_string` on an object: the text named by `printed_object`.
/// For an object the call reports no error: it reports one only where the
/// writer fails or a key is no string, and here the text is written to
/// memory, every key is a string and every number is finite.
#[verifier::external_body]
pub(crate) fn print_object(m: &serde_json::Map<String, serde_json::Value>) -> (printed: Option<String>)
    ensures
        printed is Some,
        printed matches Some(text) ==> text@ == printed_object(object_view(*m)),
{
    serde_json::to_string(m).ok()
}

/// `serde_json::Map::new`: an object without keys.
#[verifier::external_body]
pub(crate) fn object_new() -> (object: serde_json::Map<String, serde_json::Value>)
    ensures
        object_view(object) == empty_object(),
{
    serde_json::Map::new()
}

/// `serde_json::Map::insert`: afterwards `key` holds `value`, whatever it held
/// before, and every other key is as it was.
#[verifier::external_body]
pub(crate) fn object_insert(
    m: &mut serde_json::Map<String, serde_json::Value>,
    key: String,
    value: serde_json::Value,
)
    ensures
        object_view(*final(m)) == object_view(*old(m)).insert(key@, value_view(value)),
{
    m.insert(key, value);
}

/// `serde_json::Map::remove`: the value that `key` held, if it held one;
/// afterwards the key is gone and every other key is as it was.
#[verifier::external_body]
pub(crate) fn object_remove(
    m: &mut serde_json::Map<String, serde_json::Value>,
    key: &str,
) -> (taken: Option<serde_json::Value>)
    ensures
        object_view(*final(m)) == object_view(*old(m)).remove(key@),
        match taken {
            Some(value) => object_view(*old(m)).contains_key(key@) && value_view(value) == object_view(
                *old(m),
            )[key@],
            None => !object_view(*old(m)).contains_key(key@),
        },
{
    m.remove(key)
}

/// `serde_json::Map::get`: the value that `key` holds, if it holds one.
#[verifier::external_body]
pub(crate) fn object_get<'a>(
    m: &'a serde_json::Map<String, serde_json::Value>,
    key: &str,
) -> (found: Option<&'a serde_json::Value>)
    ensures
        match found {
            Some(value) => object_view(*m).contains_key(key@) && value_view(*value) == object_view(
                *m,
            )[key@],
            None => !object_view(*m).contains_key(key@),
        },
{
    m.get(key)
}

/// `IntoIterator::into_iter` of `serde_json::Map`, collected: the entries of
/// the object, which are every key of it with its value, and nothing else.
/// Nothing is said of their order.
#[verifier::external_body]
pub(crate) fn object_into_entries(m: serde_json::Map<String, serde_json::Value>) -> (entries: Vec<
    (String, serde_json::Value),
>)
    ensures
        forall|i: int|
            #![trigger entries[i]]
            0 <= i < entries.len() ==> object_view(m).contains_key(entries[i].0@) && object_view(
                m,
            )[entries[i].0@] == value_view(entries[i].1),
        forall|key: Seq<char>| #[trigger]
            object_view(m).contains_key(key) ==> exists|i: int|
                #![trigger entries[i]]
                0 <= i < entries.len() && entries[i].0@ == key,
{
    m.into_iter().collect()
}

/// `serde_json::Value::as_str`: the text of a string value, and `None` for
/// any other value.
#[verifier::external_body]
pub(crate) fn value_as_str<'a>(v: &'a serde_json::Value) -> (text: Option<&'a str>)
    ensures
        match text {
            Some(s) => value_view(*v) == Json::String(s@),
            None => !(value_view(*v) is String),
        },
{
    v.as_str()
}

/// `serde_json::Value::as_u64`: the number, where the value is a whole number
/// from 0 to `u64::MAX`, and `None` for any other value.
#[verifier::external_body]
pub(crate) fn value_as_u64(v: &serde_json::Value) -> (number: Option<u64>)
    ensures
        number == match value_view(*v) {
            Json::Number(JsonNumber::Unsigned(n)) => Some(n),
            _ => None::<u64>,
        },
{
    v.as_u64()
}

/// `serde_json::Value::as_array`: the items of an array value, in order, and
/// `None` for any other value.
#[verifier::external_body]
pub(crate) fn value_as_array<'a>(v: &'a serde_json::Value) -> (items: Option<
    &'a Vec<serde_json::Value>,
>)
    ensures
        match items {
            Some(list) => value_view(*v) == Json::Array(
                list@.map_values(|item: serde_json::Value| value_view(item)),
            ),
            None => !(value_view(*v) is Array),
        },
{
    v.as_array()
}

/// Takes the object out of a `serde_json::Value::Object`; `None` for any
/// other value.
#[verifier::external_body]
pub(crate) fn value_into_object(v: serde_json::Value) -> (object: Option<
    serde_json::Map<String, serde_json::Value>,
>)
    ensures
        match object {
            Some(m) => value_view(v) == Json::Object(object_view(m)),
            None => !(value_view(v) is Object),
        },
{
    match v {
        serde_json::Value::Object(m) => Some(m),
        _ => None,
    }
}

/// `serde_json::Value::from` on a `String`: the string value with that text.
#[verifier::external_body]
pub(crate) fn value_from_string(text: String) -> (v: serde_json::Value)
    ensures
        value_view(v) == Json::String(text@),
{
    serde_json::Value::from(text)
}

/// `serde_json::Value::from` on a `u64`: the number value of that number.
#[verifier::external_body]
pub(crate) fn value_from_u64(number: u64) -> (v: serde_json::Value)
    ensures
        value_view(v) == Json::Number(JsonNumber::Unsigned(number)),
{
    serde_json::Value::from(number)
}

/// `serde_json::Value::from` on a `serde_json::Map`: the object value that
/// holds what the object holds.
#[verifier::external_body]
pub(crate) fn value_from_object(m: serde_json::Map<String, serde_json::Value>) -> (v:
    serde_json::Value)
    ensures
        value_view(v) == Json::Object(object_view(m)),
{
    serde_json::Value::from(m)
}

} // verus!
