//! Which payloads a schema accepts.
use vstd::prelude::*;

use crate::json::model::Json;
use crate::json::value::{JsonObject, JsonValue};
use crate::text;

verus! {

/// Whether `name` names a type that schemas may give their fields.
pub open spec fn is_type_name(name: Seq<char>) -> bool {
    name == "integer"@ || name == "string"@ || name == "boolean"@ || name == "float"@
}

/// Whether a value is of the type named `name`. Any number without a fractional part is an
/// integer, and any number at all is a float.
pub open spec fn is_of_type(value: Json, name: Seq<char>) -> bool {
    if name == "integer"@ {
        value matches Json::Number(number) && number.is_integral()
    } else if name == "string"@ {
        value is String
    } else if name == "boolean"@ {
        value is Bool
    } else {
        name == "float"@ && value is Number
    }
}

/// What is wrong with `payload` under the schema's field `field`, if anything is.
pub open spec fn field_fault(
    field: (Seq<char>, Json),
    payload: Seq<(Seq<char>, Json)>,
) -> Option<Seq<char>> {
    match (field.1, crate::json::model::member(payload, field.0)) {
        (Json::String(name), Some(value)) => {
            if !is_type_name(name) {
                Some("Unsupported schema type: "@ + name)
            } else if !is_of_type(value, name) {
                Some(
                    "Field '"@ + field.0 + "' expected "@ + name + ", found "@
                        + crate::json::outside::json_debug_text(value),
                )
            } else {
                None
            }
        },
        (Json::String(_), None) => Some("Missing required field '"@ + field.0 + "'"@),
        _ => Some("Schema type for '"@ + field.0 + "' is not a string"@),
    }
}

/// What is wrong with `payload` under the first of the schema's fields, from `from` on, under which
/// something is.
pub open spec fn payload_fault(
    fields: Seq<(Seq<char>, Json)>,
    payload: Seq<(Seq<char>, Json)>,
    from: int,
) -> Option<Seq<char>>
    decreases fields.len() - from,
{
    if from < 0 || from >= fields.len() {
        None
    } else if field_fault(fields[from], payload) is Some {
        field_fault(fields[from], payload)
    } else {
        payload_fault(fields, payload, from + 1)
    }
}

/// Whether a value is of the type named `name`.
fn value_is_of_type(value: &JsonValue, name: &str) -> (r: bool)
    ensures
        r == is_of_type(value@, name@),
{
    if text::same_text(name, "integer") {
        match value {
            JsonValue::Number(number) => number.is_integral(),
            _ => false,
        }
    } else if text::same_text(name, "string") {
        matches!(value, JsonValue::String(_))
    } else if text::same_text(name, "boolean") {
        matches!(value, JsonValue::Bool(_))
    } else if text::same_text(name, "float") {
        matches!(value, JsonValue::Number(_))
    } else {
        false
    }
}

/// Whether `payload` keeps to the schema's field `name` of type `field_type`.
fn check_field(name: &str, field_type: &JsonValue, payload: &JsonObject) -> (r: Result<(), String>)
    ensures
        match field_fault((name@, field_type@), payload@) {
            Some(message) => r is Err && r->Err_0@ == message,
            None => r is Ok,
        },
{
    let expected = match field_type.as_str() {
        Some(expected) => expected,
        None => {
            return Err(text::enclose("Schema type for '", name, "' is not a string"));
        },
    };
    let value = match payload.get(name) {
        Some(value) => value,
        None => {
            return Err(text::enclose("Missing required field '", name, "'"));
        },
    };
    let supported = text::same_text(expected, "integer") || text::same_text(expected, "string")
        || text::same_text(expected, "boolean") || text::same_text(expected, "float");
    if !supported {
        return Err(text::join("Unsupported schema type: ", expected));
    }
    if !value_is_of_type(value, expected) {
        let mut message = text::enclose("Field '", name, "' expected ");
        message.append(expected);
        message.append(", found ");
        message.append(value.to_debug_string().as_str());
        return Err(message);
    }
    Ok(())
}

/// Whether `payload` keeps to every field of the schema.
pub fn check_payload(fields: &JsonObject, payload: &JsonObject) -> (r: Result<(), String>)
    ensures
        match payload_fault(fields@, payload@, 0) {
            Some(message) => r is Err && r->Err_0@ == message,
            None => r is Ok,
        },
{
    let mut i: usize = 0;
    while i < fields.len()
        invariant
            i <= fields@.len(),
            payload_fault(fields@, payload@, 0) == payload_fault(fields@, payload@, i as int),
        decreases fields@.len() - i,
    {
        match check_field(fields.key_at(i).as_str(), fields.value_at(i), payload) {
            Ok(()) => {},
            Err(message) => {
                return Err(message);
            },
        }
        i = i + 1;
    }
    Ok(())
}

} // verus!
