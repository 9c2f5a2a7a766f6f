//! Structured values.
//!
//! The structured value of this library is `serde_json::Value`. Verus cannot
//! look inside one, so this module gives its content a mathematical name,
//! [`json_of`], and states over that name what each `serde_json` operation
//! the library uses does. Everything in this module that is marked
//! `external_body` is believed, not proved.
//!
//! What is stated here holds of `serde_json` as this crate builds it: without
//! the feature `preserve_order`, so that an object is a map ordered by key and
//! the text written for it depends on its entries alone, and without the
//! feature `arbitrary_precision`, so that a number is an integer of 64 bits or
//! a finite binary64 number.
use vstd::prelude::*;

verus! {

/// `serde_json::Value`, which Verus carries along without looking inside.
#[verifier::external_type_specification]
#[verifier::external_body]
pub struct ExValue(serde_json::Value);

/// `serde_json::Map`, the map behind an object value.
#[verifier::external_type_specification]
#[verifier::external_body]
#[verifier::reject_recursive_types(K)]
#[verifier::reject_recursive_types(V)]
pub struct ExMap<K, V>(serde_json::Map<K, V>);

/// The content of a JSON number: an integer, or a finite binary64 number
/// given by its bit pattern.
pub enum JsonNumber {
    Int(int),
    Float(u64),
}

/// The content of a structured value.
#[verifier::ext_equal]
pub enum Json {
    Null,
    Bool(bool),
    Number(JsonNumber),
    String(Seq<char>),
    Array(Seq<Json>),
    Object(Map<Seq<char>, Json>),
}

/// The content of a `serde_json::Value`.
pub uninterp spec fn json_of(v: serde_json::Value) -> Json;

/// The entries of a `serde_json::Map`, by key.
pub uninterp spec fn map_of(m: serde_json::Map<String, serde_json::Value>) -> Map<Seq<char>, Json>;

/// The bit pattern of the finite binary64 number that `str::parse` reads
/// from a text, where it reads one that `Number::from_f64` takes.
pub uninterp spec fn float_literal(raw: Seq<char>) -> Option<u64>;

/// What `jsonc_parser::parse_to_serde_value` with the default options makes
/// of a text: `None` where it reports an error or finds no value.
pub uninterp spec fn jsonc_parse(text: Seq<char>) -> Option<Json>;

/// The text that `serde_json::to_string` writes for a vector of values.
pub uninterp spec fn compact_text(values: Seq<Json>) -> Seq<char>;

/// The text that `serde_json::to_string_pretty` writes for a vector of values.
pub uninterp spec fn pretty_text(values: Seq<Json>) -> Seq<char>;

/// The contents of a sequence of values, item by item.
pub open spec fn json_seq(values: Seq<serde_json::Value>) -> Seq<Json> {
    Seq::new(values.len(), |i: int| json_of(values[i]))
}

/// The map without entries.
pub open spec fn no_entries() -> Map<Seq<char>, Json> {
    Map::empty()
}

/// Whether a binary64 bit pattern is a zero of either sign.
pub open spec fn is_zero_bits(bits: u64) -> bool {
    bits == 0 || bits == 0x8000_0000_0000_0000
}

/// Whether a number differs from zero.
pub open spec fn nonzero(n: JsonNumber) -> bool {
    match n {
        JsonNumber::Int(i) => i != 0,
        JsonNumber::Float(bits) => !is_zero_bits(bits),
    }
}

/// `serde_json::Value::Null`.
#[verifier::external_body]
pub(crate) fn json_null() -> (r: serde_json::Value)
    ensures
        json_of(r) == Json::Null,
{
    serde_json::Value::Null
}

/// `Value::from(bool)`: the boolean itself.
#[verifier::external_body]
pub(crate) fn json_bool(b: bool) -> (r: serde_json::Value)
    ensures
        json_of(r) == Json::Bool(b),
{
    serde_json::Value::from(b)
}

/// `Value::from(String)`: a string value with the same characters.
#[verifier::external_body]
pub(crate) fn json_string(s: String) -> (r: serde_json::Value)
    ensures
        json_of(r) == Json::String(s@),
{
    serde_json::Value::from(s)
}

/// `Value::from(i64)`: the integer as a number.
#[verifier::external_body]
pub(crate) fn json_int(n: i64) -> (r: serde_json::Value)
    ensures
        json_of(r) == Json::Number(JsonNumber::Int(n as int)),
{
    serde_json::Value::from(n)
}

/// `str::parse` to binary64, then `Number::from_f64`: the number read from
/// the text, and nothing where the text is no number or the number is not
/// finite.
#[verifier::external_body]
pub(crate) fn json_float_literal(raw: &str) -> (r: Option<serde_json::Value>)
    ensures
        r is Some <==> float_literal(raw@) is Some,
        r is Some ==> json_of(r->0) == Json::Number(JsonNumber::Float(float_literal(raw@)->0)),
{
    raw.parse().ok().and_then(serde_json::Number::from_f64).map(serde_json::Value::Number)
}

/// `Value::from(Vec<Value>)`: an array of the items, in their order.
#[verifier::external_body]
pub(crate) fn json_array(items: Vec<serde_json::Value>) -> (r: serde_json::Value)
    ensures
        json_of(r) == Json::Array(json_seq(items@)),
{
    serde_json::Value::from(items)
}

/// `Map::new`: a map without entries.
#[verifier::external_body]
pub(crate) fn map_new() -> (r: serde_json::Map<String, serde_json::Value>)
    ensures
        map_of(r) == no_entries(),
{
    serde_json::Map::new()
}

/// `Map::insert`: the key now holds the value; an earlier value under the
/// same key is replaced, every other entry stays.
#[verifier::external_body]
pub(crate) fn map_insert(
    m: &mut serde_json::Map<String, serde_json::Value>,
    key: String,
    value: serde_json::Value,
)
    ensures
        map_of(*final(m)) == map_of(*old(m)).insert(key@, json_of(value)),
{
    m.insert(key, value);
}

/// `Value::from(Map)`: an object with the map's entries.
#[verifier::external_body]
pub(crate) fn json_object(m: serde_json::Map<String, serde_json::Value>) -> (r: serde_json::Value)
    ensures
        json_of(r) == Json::Object(map_of(m)),
{
    serde_json::Value::from(m)
}

/// `Value::get` with a string index: the value under that key of an object,
/// `None` for a missing key and for anything but an object.
#[verifier::external_body]
pub(crate) fn value_get<'a>(v: &'a serde_json::Value, key: &str) -> (r: Option<&'a serde_json::Value>)
    ensures
        r is Some <==> (json_of(*v) is Object && json_of(*v)->Object_0.contains_key(key@)),
        r is Some ==> json_of(*r->0) == json_of(*v)->Object_0[key@],
{
    v.get(key)
}

/// `Value::as_bool`: the boolean of a boolean value.
#[verifier::external_body]
pub(crate) fn value_as_bool(v: &serde_json::Value) -> (r: Option<bool>)
    ensures
        r == (match json_of(*v) {
            Json::Bool(b) => Some(b),
            _ => None,
        }),
{
    v.as_bool()
}

/// `Value::as_str`: the characters of a string value.
#[verifier::external_body]
pub(crate) fn value_as_str<'a>(v: &'a serde_json::Value) -> (r: Option<&'a str>)
    ensures
        r is Some <==> json_of(*v) is String,
        r is Some ==> r->0@ == json_of(*v)->String_0,
{
    v.as_str()
}

/// `Value::is_array`.
#[verifier::external_body]
pub(crate) fn value_is_array(v: &serde_json::Value) -> (r: bool)
    ensures
        r == (json_of(*v) is Array),
{
    v.is_array()
}

/// `Value::is_object`.
#[verifier::external_body]
pub(crate) fn value_is_object(v: &serde_json::Value) -> (r: bool)
    ensures
        r == (json_of(*v) is Object),
{
    v.is_object()
}

/// `Value::as_f64`, as a bit pattern: present for numbers only; the bits of
/// a binary64 number as they are, and for an integer the bits of its
/// conversion, which is a zero only for the integer zero.
#[verifier::external_body]
pub(crate) fn value_float_bits(v: &serde_json::Value) -> (r: Option<u64>)
    ensures
        r is Some <==> json_of(*v) is Number,
        r is Some ==> (match json_of(*v)->Number_0 {
            JsonNumber::Float(bits) => r->0 == bits,
            JsonNumber::Int(i) => is_zero_bits(r->0) == (i == 0),
        }),
{
    v.as_f64().map(|x| x.to_bits())
}

/// `jsonc_parser::parse_to_serde_value` with the default options, an error
/// read as no value.
#[verifier::external_body]
pub(crate) fn parse_jsonc(text: &str) -> (r: Option<serde_json::Value>)
    ensures
        r is Some <==> jsonc_parse(text@) is Some,
        r is Some ==> json_of(r->0) == jsonc_parse(text@)->0,
{
    jsonc_parser::parse_to_serde_value(text, &Default::default()).unwrap_or(None)
}

/// `serde_json::to_string` on a vector of values. It fails only where a
/// `Serialize` impl fails or a map has a key that is no string, and a value
/// has neither.
#[verifier::external_body]
pub(crate) fn to_string(values: &Vec<serde_json::Value>) -> (r: String)
    ensures
        r@ == compact_text(json_seq(values@)),
{
    serde_json::to_string(values).unwrap()
}

/// `serde_json::to_string_pretty` on a vector of values; it fails where
/// `to_string` does.
#[verifier::external_body]
pub(crate) fn to_string_pretty(values: &Vec<serde_json::Value>) -> (r: String)
    ensures
        r@ == pretty_text(json_seq(values@)),
{
    serde_json::to_string_pretty(values).unwrap()
}

} // verus!
