//! Which schema changes are compatible.
use vstd::prelude::*;

use crate::json::model::Json;
use crate::json::value::{JsonObject, JsonValue};
use crate::text;

verus! {

/// Which changes a schema may undergo.
#[derive(Debug, Clone, Copy, PartialEq, Eq, Structural)]
pub enum SchemaCompatibility {
    /// Any: nothing is checked.
    Unchecked,
    /// Fields may be added.
    Backward,
    /// Fields may be removed.
    Forward,
    /// Fields may be neither added nor removed.
    Full,
}

/// The fields of a schema with their types: its member `fields`, where that is an object.
pub open spec fn fields_of(schema: Json) -> Option<Seq<(Seq<char>, Json)>> {
    match schema.get("fields"@) {
        Some(Json::Object(fields)) => Some(fields),
        _ => None,
    }
}

/// The first field, from `from` on, of which `bad` holds.
pub open spec fn first_where(
    fields: Seq<(Seq<char>, Json)>,
    bad: spec_fn((Seq<char>, Json)) -> bool,
    from: int,
) -> Option<(Seq<char>, Json)>
    decreases fields.len() - from,
{
    if from < 0 || from >= fields.len() {
        None
    } else if bad(fields[from]) {
        Some(fields[from])
    } else {
        first_where(fields, bad, from + 1)
    }
}

/// Of a field: whether `fields` has it with another type.
pub open spec fn retyped_in(fields: Seq<(Seq<char>, Json)>) -> spec_fn((Seq<char>, Json)) -> bool {
    |field: (Seq<char>, Json)|
        match crate::json::model::member(fields, field.0) {
            Some(other_type) => !field.1.same(other_type),
            None => false,
        }
}

/// Of a field: whether `fields` lacks it.
pub open spec fn missing_from(
    fields: Seq<(Seq<char>, Json)>,
) -> spec_fn((Seq<char>, Json)) -> bool {
    |field: (Seq<char>, Json)| crate::json::model::member(fields, field.0) is None
}

/// The message on a field whose type changed.
pub open spec fn retyped_message(
    field: (Seq<char>, Json),
    new_fields: Seq<(Seq<char>, Json)>,
) -> Seq<char> {
    "Field '"@ + field.0 + "' type changed from "@ + crate::json::outside::json_debug_text(field.1)
        + " to "@ + crate::json::outside::json_debug_text(
        crate::json::model::member(new_fields, field.0)->0,
    )
}

/// Why fields that become `new` break `mode`, where they do.
pub open spec fn fields_violation(
    old: Seq<(Seq<char>, Json)>,
    new: Seq<(Seq<char>, Json)>,
    mode: SchemaCompatibility,
) -> Option<Seq<char>> {
    match first_where(old, retyped_in(new), 0) {
        Some(field) => Some(retyped_message(field, new)),
        None => {
            let deleted = first_where(old, missing_from(new), 0);
            let added = first_where(new, missing_from(old), 0);
            match (mode, deleted, added) {
                (SchemaCompatibility::Backward, Some(field), _) => Some(
                    "Backward compatibility violation: Field '"@ + field.0 + "' was deleted"@,
                ),
                (SchemaCompatibility::Forward, _, Some(field)) => Some(
                    "Forward compatibility violation: New field '"@ + field.0 + "' added"@,
                ),
                (SchemaCompatibility::Full, Some(field), _) => Some(
                    "Full compatibility violation: Field '"@ + field.0 + "' was deleted"@,
                ),
                (SchemaCompatibility::Full, None, Some(field)) => Some(
                    "Full compatibility violation: Field '"@ + field.0 + "' was added"@,
                ),
                _ => None,
            }
        },
    }
}

/// Why a schema `old` that becomes `new` breaks `mode`, where it does.
pub open spec fn violation(old: Json, new: Json, mode: SchemaCompatibility) -> Option<Seq<char>> {
    if mode == SchemaCompatibility::Unchecked {
        None
    } else {
        match (fields_of(old), fields_of(new)) {
            (None, _) => Some("Old schema missing 'fields' object"@),
            (_, None) => Some("New schema missing 'fields' object"@),
            (Some(old_fields), Some(new_fields)) => fields_violation(old_fields, new_fields, mode),
        }
    }
}

/// The fields of a schema.
pub fn schema_fields(schema: &JsonValue) -> (r: Option<&JsonObject>)
    ensures
        match r {
            Some(fields) => fields_of(schema@) == Some(fields@) && crate::json::model::sorted(
                fields@,
            ),
            None => fields_of(schema@) is None,
        },
{
    match schema.get("fields") {
        Some(fields) => fields.as_object(),
        None => None,
    }
}

/// The position of the first field of `fields` that `other` lacks.
fn first_missing(fields: &JsonObject, other: &JsonObject) -> (r: Option<usize>)
    ensures
        match r {
            Some(i) => i < fields@.len() && first_where(fields@, missing_from(other@), 0) == Some(
                fields@[i as int],
            ),
            None => first_where(fields@, missing_from(other@), 0) is None,
        },
{
    let mut i: usize = 0;
    while i < fields.len()
        invariant
            i <= fields@.len(),
            first_where(fields@, missing_from(other@), 0) == first_where(
                fields@,
                missing_from(other@),
                i as int,
            ),
        decreases fields@.len() - i,
    {
        if !other.contains_key(fields.key_at(i).as_str()) {
            return Some(i);
        }
        i = i + 1;
    }
    None
}

/// Whether fields that become `new` keep to `mode`.
pub(crate) fn check_fields(
    old: &JsonObject,
    new: &JsonObject,
    mode: SchemaCompatibility,
) -> (r: Result<(), String>)
    ensures
        match fields_violation(old@, new@, mode) {
            Some(message) => r is Err && r->Err_0@ == message,
            None => r is Ok,
        },
{
    let mut i: usize = 0;
    while i < old.len()
        invariant
            i <= old@.len(),
            first_where(old@, retyped_in(new@), 0) == first_where(
                old@,
                retyped_in(new@),
                i as int,
            ),
        decreases old@.len() - i,
    {
        if let Some(new_type) = new.get(old.key_at(i).as_str()) {
            let old_type = old.value_at(i);
            if !old_type.same(new_type) {
                let mut message = text::join("Field '", old.key_at(i).as_str());
                message.append("' type changed from ");
                message.append(old_type.to_debug_string().as_str());
                message.append(" to ");
                message.append(new_type.to_debug_string().as_str());
                return Err(message);
            }
        }
        i = i + 1;
    }
    match mode {
        SchemaCompatibility::Unchecked => Ok(()),
        SchemaCompatibility::Backward => match first_missing(old, new) {
            Some(at) => Err(
                text::enclose(
                    "Backward compatibility violation: Field '",
                    old.key_at(at).as_str(),
                    "' was deleted",
                ),
            ),
            None => Ok(()),
        },
        SchemaCompatibility::Forward => match first_missing(new, old) {
            Some(at) => Err(
                text::enclose(
                    "Forward compatibility violation: New field '",
                    new.key_at(at).as_str(),
                    "' added",
                ),
            ),
            None => Ok(()),
        },
        SchemaCompatibility::Full => match first_missing(old, new) {
            Some(at) => Err(
                text::enclose(
                    "Full compatibility violation: Field '",
                    old.key_at(at).as_str(),
                    "' was deleted",
                ),
            ),
            None => match first_missing(new, old) {
                Some(at) => Err(
                    text::enclose(
                        "Full compatibility violation: Field '",
                        new.key_at(at).as_str(),
                        "' was added",
                    ),
                ),
                None => Ok(()),
            },
        },
    }
}

} // verus!
