//! `serde_json` values: taking them apart, building them, and reading their texts.
//!
//! Everything the library decides about JSON it decides on its own
//! [`JsonValue`](crate::json::value::JsonValue), which comes from a `serde_json` value and becomes
//! one again. How a value is written out, as compact text and for debugging, is left to
//! `serde_json`.
use vstd::prelude::*;

use crate::json::model::Json;

verus! {

/// `serde_json::Value`, of which nothing is known here but what [`contents`] names.
#[verifier::external_type_specification]
#[verifier::external_body]
pub struct ExValue(serde_json::Value);

/// What a `serde_json::Value` holds: a scalar, the items of an array in order, or the members of
/// an object in the order of their keys.
pub uninterp spec fn contents(value: serde_json::Value) -> Json;

/// The text that `serde_json` writes for a value that holds `json`: compact JSON.
pub uninterp spec fn json_text(json: Json) -> Seq<char>;

/// The text that formatting with `{:?}` gives for a `serde_json` value that holds `json`.
pub uninterp spec fn json_debug_text(json: Json) -> Seq<char>;

/// A `serde_json` value taken apart.
pub(crate) enum Parts {
    Null,
    Bool(bool),
    /// The value itself, which is a number.
    Number(serde_json::Value),
    String(String),
    Array(Vec<serde_json::Value>),
    Object(Vec<(String, serde_json::Value)>),
}

/// The variants of `serde_json::Value`: which of them a value is, with what it holds. The members
/// of an object come in the order of their keys, each key once. (`serde_json` keeps them in a
/// `BTreeMap`, that is in the byte order of their keys, and for UTF-8 that is the order of the
/// characters.)
#[verifier::external_body]
pub(crate) fn take_apart(value: serde_json::Value) -> (r: Parts)
    ensures
        match r {
            Parts::Null => contents(value) == Json::Null,
            Parts::Bool(b) => contents(value) == Json::Bool(b),
            Parts::Number(number) => contents(value) is Number && number == value,
            Parts::String(s) => contents(value) == Json::String(s@),
            Parts::Array(items) => contents(value) == Json::Array(
                Seq::new(items@.len(), |i: int| contents(items@[i])),
            ),
            Parts::Object(members) => {
                &&& contents(value) == Json::Object(
                    Seq::new(members@.len(), |i: int| (members@[i].0@, contents(members@[i].1))),
                )
                &&& forall|i: int, j: int|
                    0 <= i < j < members@.len() ==> crate::text::precedes(
                        #[trigger] members@[i].0@,
                        #[trigger] members@[j].0@,
                    )
            },
        },
{
    match value {
        serde_json::Value::Null => Parts::Null,
        serde_json::Value::Bool(b) => Parts::Bool(b),
        serde_json::Value::Number(n) => Parts::Number(serde_json::Value::Number(n)),
        serde_json::Value::String(s) => Parts::String(s),
        serde_json::Value::Array(items) => Parts::Array(items),
        serde_json::Value::Object(members) => Parts::Object(members.into_iter().collect()),
    }
}

/// `serde_json::Value::as_u64`: the integer that the value holds as a non-negative one.
#[verifier::external_body]
pub(crate) fn as_u64(value: &serde_json::Value) -> (r: Option<u64>)
    ensures
        r == match contents(*value) {
            Json::Number(crate::json::model::Number::PosInt(n)) => Some(n),
            _ => None,
        },
{
    value.as_u64()
}

/// `serde_json::Value::as_i64`: the integer that the value holds, where an `i64` can hold it. What
/// is held as negative is less than zero.
#[verifier::external_body]
pub(crate) fn as_i64(value: &serde_json::Value) -> (r: Option<i64>)
    ensures
        match contents(*value) {
            Json::Number(crate::json::model::Number::PosInt(n)) => r == if n <= i64::MAX {
                Some(n as i64)
            } else {
                None
            },
            Json::Number(crate::json::model::Number::NegInt(n)) => r == Some(n) && n < 0,
            _ => r is None,
        },
{
    value.as_i64()
}

/// `clone` of a `serde_json::Value`: it holds the same.
#[verifier::external_body]
pub(crate) fn copy(value: &serde_json::Value) -> (r: serde_json::Value)
    ensures
        contents(r) == contents(*value),
{
    value.clone()
}

/// `serde_json::Value::Null`: it holds null.
#[verifier::external_body]
pub(crate) fn null_value() -> (r: serde_json::Value)
    ensures
        contents(r) == Json::Null,
{
    serde_json::Value::Null
}

/// `serde_json::Value::Bool`: it holds that boolean.
#[verifier::external_body]
pub(crate) fn bool_value(b: bool) -> (r: serde_json::Value)
    ensures
        contents(r) == Json::Bool(b),
{
    serde_json::Value::Bool(b)
}

/// `serde_json::Value::from` of a `u64`: it holds that integer as a non-negative one.
#[verifier::external_body]
pub(crate) fn unsigned_value(n: u64) -> (r: serde_json::Value)
    ensures
        contents(r) == Json::Number(crate::json::model::Number::PosInt(n)),
{
    serde_json::Value::from(n)
}

/// `serde_json::Value::from` of a negative `i64`: it holds that integer as a negative one. (A
/// non-negative one would be held as [`unsigned_value`] holds it.)
#[verifier::external_body]
pub(crate) fn negative_value(n: i64) -> (r: serde_json::Value)
    requires
        n < 0,
    ensures
        contents(r) == Json::Number(crate::json::model::Number::NegInt(n)),
{
    serde_json::Value::from(n)
}

/// `serde_json::Value::as_f64` of a value that holds a floating-point number: that number, here by
/// its bits, which are never those of an infinity or of a NaN.
#[verifier::external_body]
pub(crate) fn float_bits(value: &serde_json::Value) -> (r: Option<u64>)
    requires
        contents(*value) matches Json::Number(crate::json::model::Number::Float(_)),
    ensures
        r == Some(contents(*value)->Number_0->Float_0),
        crate::json::model::is_finite(r->0),
{
    Some(value.as_f64()?.to_bits())
}

/// `serde_json::Value::String`: it holds that string.
#[verifier::external_body]
pub(crate) fn string_value(s: String) -> (r: serde_json::Value)
    ensures
        contents(r) == Json::String(s@),
{
    serde_json::Value::String(s)
}

/// `serde_json::Value::Array`: it holds what the items hold, in their order.
#[verifier::external_body]
pub(crate) fn array_value(items: Vec<serde_json::Value>) -> (r: serde_json::Value)
    ensures
        contents(r) == Json::Array(Seq::new(items@.len(), |i: int| contents(items@[i]))),
{
    serde_json::Value::Array(items)
}

/// `serde_json::Value` collected from keys with values: an object that holds them in the order of
/// the keys, which is the order given here. (`serde_json` keeps the members in a `BTreeMap`, that
/// is in the byte order of their keys, and for UTF-8 that is the order of the characters.)
#[verifier::external_body]
pub(crate) fn object_value(members: Vec<(String, serde_json::Value)>) -> (r: serde_json::Value)
    requires
        forall|i: int, j: int|
            0 <= i < j < members@.len() ==> crate::text::precedes(
                #[trigger] members@[i].0@,
                #[trigger] members@[j].0@,
            ),
    ensures
        contents(r) == Json::Object(
            Seq::new(members@.len(), |i: int| (members@[i].0@, contents(members@[i].1))),
        ),
{
    serde_json::Value::from_iter(members)
}

/// `to_string` of a `serde_json::Value`, which its `Display` gives: a text that depends on nothing
/// but what the value holds.
#[verifier::external_body]
pub(crate) fn display(value: &serde_json::Value) -> (r: String)
    ensures
        r@ == json_text(contents(*value)),
{
    value.to_string()
}

/// A `serde_json::Value` formatted with `{:?}`, which its `Debug` gives: a text that depends on
/// nothing but what the value holds.
#[verifier::external_body]
pub(crate) fn debug(value: &serde_json::Value) -> (r: String)
    ensures
        r@ == json_debug_text(contents(*value)),
{
    format!("{:?}", value)
}

} // verus!
