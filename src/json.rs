//! JSON values. serde_json parses, holds and prints them; what a value
//! holds is named by a mathematical model, and every wrapper below states its
//! effect on that model.

use crate::text::decimal;
use serde_json::Value;
use vstd::prelude::*;

verus! {

/// serde_json's JSON value, held opaquely; `json_model` names what it holds.
#[verifier::external_type_specification]
#[verifier::external_body]
pub struct ExValue(Value);

/// What a JSON value holds. A number is its printed text; an object maps
/// each member name to its value.
pub ghost enum JsonV {
    Null,
    Bool(bool),
    Number(Seq<char>),
    Str(Seq<char>),
    Array(Seq<JsonV>),
    Object(Map<Seq<char>, JsonV>),
}

/// What a serde_json value holds.
pub uninterp spec fn json_model(v: Value) -> JsonV;

/// The value serde_json parses a text into; `None` where the text is not JSON.
pub uninterp spec fn json_parse(s: Seq<char>) -> Option<JsonV>;

/// The text serde_json prints for a value.
pub uninterp spec fn json_text(v: JsonV) -> Seq<char>;

/// Relies on serde_json::Value's `Clone`: an equal copy.
pub assume_specification[ <Value as Clone>::clone ](v: &Value) -> (r: Value)
    ensures
        r == *v,
;

pub open spec fn model_of(o: Option<Value>) -> Option<JsonV> {
    match o {
        Some(v) => Some(json_model(v)),
        None => None,
    }
}

/// The member `k` of an object; `None` for a value that is no object.
pub open spec fn field(j: JsonV, k: Seq<char>) -> Option<JsonV> {
    match j {
        JsonV::Object(m) => if m.contains_key(k) {
            Some(m[k])
        } else {
            None
        },
        _ => None,
    }
}

/// The text of a string value.
pub open spec fn text_of(j: Option<JsonV>) -> Option<Seq<char>> {
    match j {
        Some(JsonV::Str(s)) => Some(s),
        _ => None,
    }
}

/// Relies on serde_json::from_str: the value a JSON text denotes, `None`
/// where the text is not JSON.
#[verifier::external_body]
pub fn parse_json(s: &str) -> (r: Option<Value>)
    ensures
        model_of(r) == json_parse(s@),
{
    serde_json::from_str::<Value>(s).ok()
}

/// Relies on serde_json::to_string, which cannot fail on a `Value`: the
/// printed text of a value.
#[verifier::external_body]
pub fn print_json(v: &Value) -> (r: String)
    ensures
        r@ == json_text(json_model(*v)),
{
    serde_json::to_string(v).unwrap_or_default()
}

/// Relies on serde_json::Value::get with a member name: a copy of the
/// member `key` of an object, `None` for a missing member or a value that is
/// no object.
#[verifier::external_body]
pub fn get_field(v: &Value, key: &str) -> (r: Option<Value>)
    ensures
        model_of(r) == field(json_model(*v), key@),
{
    v.get(key).cloned()
}

/// Relies on serde_json::Value::as_str: the text of a string value.
#[verifier::external_body]
pub fn as_string(v: &Value) -> (r: Option<String>)
    ensures
        r.deep_view() == text_of(Some(json_model(*v))),
{
    v.as_str().map(|s| s.to_string())
}

/// Relies on serde_json::Value::as_object_mut and Map::insert: sets the
/// member `key` of an object to `x`; a value that is no object is left as it
/// is.
#[verifier::external_body]
pub fn set_field(v: &mut Value, key: String, x: Value)
    ensures
        json_model(*old(v)) matches JsonV::Object(m) ==> json_model(*final(v)) == JsonV::Object(
            m.insert(key@, json_model(x)),
        ),
        !(json_model(*old(v)) is Object) ==> *final(v) == *old(v),
{
    if let Some(m) = v.as_object_mut() {
        m.insert(key, x);
    }
}

/// Relies on serde_json::Value::is_object: whether a value is an object.
#[verifier::external_body]
pub fn is_object(v: &Value) -> (r: bool)
    ensures
        r == json_model(*v) is Object,
{
    v.is_object()
}

/// Relies on serde_json::Map::new: an empty object.
#[verifier::external_body]
pub fn empty_object() -> (r: Value)
    ensures
        json_model(r) == JsonV::Object(Map::empty()),
{
    Value::Object(serde_json::Map::new())
}

/// Relies on serde_json::Value::String: a string value.
#[verifier::external_body]
pub fn string_value(s: String) -> (r: Value)
    ensures
        json_model(r) == JsonV::Str(s@),
{
    Value::String(s)
}

/// Relies on serde_json's `From<u64>` for `Value`: a number printed in
/// base ten.
#[verifier::external_body]
pub fn number_value(n: u64) -> (r: Value)
    ensures
        json_model(r) == JsonV::Number(decimal(n as nat)),
{
    Value::from(n)
}

/// Whether a value has a member `key`.
pub fn has_field(v: &Value, key: &str) -> (r: bool)
    ensures
        r == field(json_model(*v), key@) is Some,
{
    get_field(v, key).is_some()
}

/// The text of the member `key`, when it is a string.
pub fn get_str(v: &Value, key: &str) -> (r: Option<String>)
    ensures
        r.deep_view() == text_of(field(json_model(*v), key@)),
{
    match get_field(v, key) {
        Some(x) => as_string(&x),
        None => None,
    }
}

} // verus!
