//! What holds of schemas, their changes and the events under them as a whole.
use vstd::prelude::*;

use crate::json::model::Json;
use crate::json::value::JsonValue;
use crate::source::{Change, Operation, Timestamp};
use crate::storage::compatibility::{self, SchemaCompatibility};
use crate::storage::error::{SchemaError, SchemaFault, StorageError};
use crate::storage::handshake::{
    self, Conclusion, DeadLetter, HandshakeResult, Negotiation, Outcome, PendingRegistration,
    PendingSave, Proposal, Save, SchemaMigrationEvent, SchemaMigrationHandshake,
};
use crate::storage::schema;
use crate::storage::validation;

verus! {

/// Whether every field of `fields` that `other` has too is of the same type there.
pub open spec fn agree(fields: Seq<(Seq<char>, Json)>, other: Seq<(Seq<char>, Json)>) -> bool {
    forall|i: int|
        0 <= i < fields.len() ==> match crate::json::model::member(other, (#[trigger] fields[i]).0) {
            Some(other_type) => fields[i].1.same(other_type),
            None => true,
        }
}

/// Whether `other` has every field of `fields`.
pub open spec fn has_all(other: Seq<(Seq<char>, Json)>, fields: Seq<(Seq<char>, Json)>) -> bool {
    forall|i: int|
        0 <= i < fields.len() ==> crate::json::model::member(other, (#[trigger] fields[i]).0)
            is Some
}

proof fn lemma_first_where(
    fields: Seq<(Seq<char>, Json)>,
    bad: spec_fn((Seq<char>, Json)) -> bool,
    from: int,
)
    requires
        0 <= from <= fields.len(),
    ensures
        compatibility::first_where(fields, bad, from) is None <==> forall|i: int|
            from <= i < fields.len() ==> !bad(#[trigger] fields[i]),
    decreases fields.len() - from,
{
    if from < fields.len() {
        lemma_first_where(fields, bad, from + 1);
    }
}

/// What each mode allows. Under every mode but the unchecked one the fields that stay keep their
/// types; then no field may go under the backward mode, none may come under the forward mode, and
/// neither under the full mode.
pub proof fn law_what_each_mode_allows(old: Seq<(Seq<char>, Json)>, new: Seq<(Seq<char>, Json)>)
    ensures
        compatibility::fields_violation(old, new, SchemaCompatibility::Backward) is None
            <==> agree(old, new) && has_all(new, old),
        compatibility::fields_violation(old, new, SchemaCompatibility::Forward) is None
            <==> agree(old, new) && has_all(old, new),
        compatibility::fields_violation(old, new, SchemaCompatibility::Full) is None
            <==> agree(old, new) && has_all(new, old) && has_all(old, new),
{
    lemma_first_where(old, compatibility::retyped_in(new), 0);
    lemma_first_where(old, compatibility::missing_from(new), 0);
    lemma_first_where(new, compatibility::missing_from(old), 0);
    if compatibility::first_where(old, compatibility::retyped_in(new), 0) is None {
        assert forall|i: int|
            0 <= i < old.len() implies match crate::json::model::member(new, (#[trigger] old[i]).0) {
            Some(other_type) => old[i].1.same(other_type),
            None => true,
        } by {
            assert(!compatibility::retyped_in(new)(old[i]));
        }
    } else if agree(old, new) {
        assert forall|i: int| 0 <= i < old.len() implies !compatibility::retyped_in(new)(
            #[trigger] old[i],
        ) by {}
    }
    lemma_has_all(new, old);
    lemma_has_all(old, new);
}

proof fn lemma_has_all(other: Seq<(Seq<char>, Json)>, fields: Seq<(Seq<char>, Json)>)
    ensures
        has_all(other, fields) <==> compatibility::first_where(
            fields,
            compatibility::missing_from(other),
            0,
        ) is None,
{
    lemma_first_where(fields, compatibility::missing_from(other), 0);
    if has_all(other, fields) {
        assert forall|i: int| 0 <= i < fields.len() implies !compatibility::missing_from(other)(
            #[trigger] fields[i],
        ) by {}
    } else {
        let i = choose|i: int|
            0 <= i < fields.len() && crate::json::model::member(other, (#[trigger] fields[i]).0)
                is None;
        assert(compatibility::missing_from(other)(fields[i]));
    }
}

/// The fields of a schema are its member `fields`, where that is an object; other schemas have
/// none.
pub proof fn law_fields_of_a_schema(schema: Json)
    ensures
        !(schema is Object) ==> compatibility::fields_of(schema) is None,
        schema matches Json::Object(members) ==> {
            &&& (forall|i: int| 0 <= i < members.len() ==> (#[trigger] members[i]).0 != "fields"@)
                ==> compatibility::fields_of(schema) is None
            &&& forall|at: int|
                0 <= at < members.len() && (#[trigger] members[at]).0 == "fields"@ && (forall|
                    before: int,
                |
                    0 <= before < at ==> (#[trigger] members[before]).0 != "fields"@)
                    ==> compatibility::fields_of(schema) == match members[at].1 {
                    Json::Object(fields) => Some(fields),
                    _ => None,
                }
        },
{
    if let Json::Object(members) = schema {
        crate::json::laws::law_members_are_found_by_key(members, "fields"@);
    }
}

proof fn lemma_first_where_at(
    fields: Seq<(Seq<char>, Json)>,
    bad: spec_fn((Seq<char>, Json)) -> bool,
    from: int,
    at: int,
)
    requires
        0 <= from <= at < fields.len(),
        bad(fields[at]),
        forall|i: int| from <= i < at ==> !bad(#[trigger] fields[i]),
    ensures
        compatibility::first_where(fields, bad, from) == Some(fields[at]),
    decreases at - from,
{
    if from < at {
        assert(!bad(fields[from]));
        lemma_first_where_at(fields, bad, from + 1, at);
    }
}

/// Under every mode but the unchecked one a schema without fields neither replaces a schema nor is
/// replaced, and the message says which of the two it is, the old one first.
pub proof fn law_schemas_without_fields(old: Json, new: Json, mode: SchemaCompatibility)
    requires
        mode != SchemaCompatibility::Unchecked,
    ensures
        compatibility::fields_of(old) is None ==> compatibility::violation(old, new, mode) == Some(
            "Old schema missing 'fields' object"@,
        ),
        compatibility::fields_of(old) is Some && compatibility::fields_of(new) is None
            ==> compatibility::violation(old, new, mode) == Some(
            "New schema missing 'fields' object"@,
        ),
{
}

/// Under every mode but the unchecked one the first field that stays with another type breaks the
/// mode, and the message names it with both types.
pub proof fn law_first_retyped_field_is_named(
    old: Json,
    new: Json,
    mode: SchemaCompatibility,
    at: int,
)
    requires
        mode != SchemaCompatibility::Unchecked,
        compatibility::fields_of(old) is Some,
        compatibility::fields_of(new) is Some,
        0 <= at < compatibility::fields_of(old)->0.len(),
        ({
            let old_fields = compatibility::fields_of(old)->0;
            let new_fields = compatibility::fields_of(new)->0;
            &&& crate::json::model::member(new_fields, old_fields[at].0) matches Some(new_type)
                && !old_fields[at].1.same(new_type)
            &&& forall|i: int|
                0 <= i < at ==> match crate::json::model::member(
                    new_fields,
                    (#[trigger] old_fields[i]).0,
                ) {
                    Some(new_type) => old_fields[i].1.same(new_type),
                    None => true,
                }
        }),
    ensures
        ({
            let field = compatibility::fields_of(old)->0[at];
            let new_type = crate::json::model::member(
                compatibility::fields_of(new)->0,
                field.0,
            )->0;
            compatibility::violation(old, new, mode) == Some(
                "Field '"@ + field.0 + "' type changed from "@
                    + crate::json::outside::json_debug_text(field.1) + " to "@
                    + crate::json::outside::json_debug_text(new_type),
            )
        }),
{
    let old_fields = compatibility::fields_of(old)->0;
    let new_fields = compatibility::fields_of(new)->0;
    assert forall|i: int| 0 <= i < at implies !compatibility::retyped_in(new_fields)(
        #[trigger] old_fields[i],
    ) by {}
    lemma_first_where_at(old_fields, compatibility::retyped_in(new_fields), 0, at);
}

/// Where the fields that stay keep their types, the first field that goes breaks the backward and
/// the full mode, and the message names it.
pub proof fn law_first_deleted_field_is_named(old: Json, new: Json, at: int)
    requires
        compatibility::fields_of(old) is Some,
        compatibility::fields_of(new) is Some,
        0 <= at < compatibility::fields_of(old)->0.len(),
        ({
            let old_fields = compatibility::fields_of(old)->0;
            let new_fields = compatibility::fields_of(new)->0;
            &&& forall|i: int|
                0 <= i < old_fields.len() ==> match crate::json::model::member(
                    new_fields,
                    (#[trigger] old_fields[i]).0,
                ) {
                    Some(new_type) => old_fields[i].1.same(new_type),
                    None => true,
                }
            &&& crate::json::model::member(new_fields, old_fields[at].0) is None
            &&& forall|i: int|
                0 <= i < at ==> crate::json::model::member(
                    new_fields,
                    (#[trigger] old_fields[i]).0,
                ) is Some
        }),
    ensures
        ({
            let field = compatibility::fields_of(old)->0[at];
            &&& compatibility::violation(old, new, SchemaCompatibility::Backward) == Some(
                "Backward compatibility violation: Field '"@ + field.0 + "' was deleted"@,
            )
            &&& compatibility::violation(old, new, SchemaCompatibility::Full) == Some(
                "Full compatibility violation: Field '"@ + field.0 + "' was deleted"@,
            )
        }),
{
    let old_fields = compatibility::fields_of(old)->0;
    let new_fields = compatibility::fields_of(new)->0;
    law_what_each_mode_allows(old_fields, new_fields);
    assert(agree(old_fields, new_fields));
    lemma_agree(old_fields, new_fields);
    assert forall|i: int| 0 <= i < at implies !compatibility::missing_from(new_fields)(
        #[trigger] old_fields[i],
    ) by {}
    lemma_first_where_at(old_fields, compatibility::missing_from(new_fields), 0, at);
}

/// Where the fields that stay keep their types, the first field that comes breaks the forward mode
/// and, if none goes, the full mode, and the message names it.
pub proof fn law_first_added_field_is_named(old: Json, new: Json, at: int)
    requires
        compatibility::fields_of(old) is Some,
        compatibility::fields_of(new) is Some,
        0 <= at < compatibility::fields_of(new)->0.len(),
        ({
            let old_fields = compatibility::fields_of(old)->0;
            let new_fields = compatibility::fields_of(new)->0;
            &&& forall|i: int|
                0 <= i < old_fields.len() ==> match crate::json::model::member(
                    new_fields,
                    (#[trigger] old_fields[i]).0,
                ) {
                    Some(new_type) => old_fields[i].1.same(new_type),
                    None => true,
                }
            &&& crate::json::model::member(old_fields, new_fields[at].0) is None
            &&& forall|i: int|
                0 <= i < at ==> crate::json::model::member(
                    old_fields,
                    (#[trigger] new_fields[i]).0,
                ) is Some
        }),
    ensures
        ({
            let old_fields = compatibility::fields_of(old)->0;
            let new_fields = compatibility::fields_of(new)->0;
            &&& compatibility::violation(old, new, SchemaCompatibility::Forward) == Some(
                "Forward compatibility violation: New field '"@ + new_fields[at].0 + "' added"@,
            )
            &&& (forall|i: int|
                0 <= i < old_fields.len() ==> crate::json::model::member(
                    new_fields,
                    (#[trigger] old_fields[i]).0,
                ) is Some) ==> compatibility::violation(old, new, SchemaCompatibility::Full)
                == Some("Full compatibility violation: Field '"@ + new_fields[at].0 + "' was added"@)
        }),
{
    let old_fields = compatibility::fields_of(old)->0;
    let new_fields = compatibility::fields_of(new)->0;
    assert(agree(old_fields, new_fields));
    lemma_agree(old_fields, new_fields);
    lemma_has_all(new_fields, old_fields);
    assert forall|i: int| 0 <= i < at implies !compatibility::missing_from(old_fields)(
        #[trigger] new_fields[i],
    ) by {}
    lemma_first_where_at(new_fields, compatibility::missing_from(old_fields), 0, at);
}

/// A schema with fields replaces another where the fields that stay keep their types and, under the
/// backward mode, none goes, under the forward mode, none comes, and under the full mode, neither.
pub proof fn law_which_schemas_are_compatible(old: Json, new: Json, mode: SchemaCompatibility)
    requires
        mode != SchemaCompatibility::Unchecked,
        compatibility::fields_of(old) is Some,
        compatibility::fields_of(new) is Some,
    ensures
        ({
            let old_fields = compatibility::fields_of(old)->0;
            let new_fields = compatibility::fields_of(new)->0;
            compatibility::violation(old, new, mode) is None <==> {
                &&& forall|i: int|
                    0 <= i < old_fields.len() ==> match crate::json::model::member(
                        new_fields,
                        (#[trigger] old_fields[i]).0,
                    ) {
                        Some(new_type) => old_fields[i].1.same(new_type),
                        None => mode == SchemaCompatibility::Forward,
                    }
                &&& mode != SchemaCompatibility::Backward ==> forall|i: int|
                    0 <= i < new_fields.len() ==> crate::json::model::member(
                        old_fields,
                        (#[trigger] new_fields[i]).0,
                    ) is Some
            }
        }),
{
    let old_fields = compatibility::fields_of(old)->0;
    let new_fields = compatibility::fields_of(new)->0;
    law_what_each_mode_allows(old_fields, new_fields);
    if mode != SchemaCompatibility::Forward {
        assert((agree(old_fields, new_fields) && has_all(new_fields, old_fields)) <==> forall|
            i: int,
        |
            0 <= i < old_fields.len() ==> match crate::json::model::member(
                new_fields,
                (#[trigger] old_fields[i]).0,
            ) {
                Some(new_type) => old_fields[i].1.same(new_type),
                None => false,
            });
    }
}

proof fn lemma_agree(fields: Seq<(Seq<char>, Json)>, other: Seq<(Seq<char>, Json)>)
    requires
        agree(fields, other),
    ensures
        compatibility::first_where(fields, compatibility::retyped_in(other), 0) is None,
{
    lemma_first_where(fields, compatibility::retyped_in(other), 0);
    assert forall|i: int| 0 <= i < fields.len() implies !compatibility::retyped_in(other)(
        #[trigger] fields[i],
    ) by {}
}

/// Whether such fields as a schema has stand in the order of their names.
pub open spec fn ordered_fields(schema: Json) -> bool {
    compatibility::fields_of(schema) matches Some(fields) ==> crate::json::model::sorted(fields)
}

/// Under the unchecked mode any schema may replace any other.
pub proof fn law_unchecked_allows_anything(old: Json, new: Json)
    ensures
        compatibility::violation(old, new, SchemaCompatibility::Unchecked) is None,
{
}

/// The full mode allows what both the backward and the forward mode allow, and nothing else.
pub proof fn law_full_is_backward_and_forward(old: Json, new: Json)
    ensures
        compatibility::violation(old, new, SchemaCompatibility::Full) is None
            <==> compatibility::violation(old, new, SchemaCompatibility::Backward) is None
            && compatibility::violation(old, new, SchemaCompatibility::Forward) is None,
{
    if compatibility::fields_of(old) is Some && compatibility::fields_of(new) is Some {
        law_what_each_mode_allows(
            compatibility::fields_of(old)->0,
            compatibility::fields_of(new)->0,
        );
    }
}

/// A schema with fields may replace itself under every mode, and one without under the unchecked
/// mode only.
pub proof fn law_unchanged_schema_is_compatible(schema: Json, mode: SchemaCompatibility)
    requires
        ordered_fields(schema),
    ensures
        compatibility::violation(schema, schema, mode) is None <==> mode
            == SchemaCompatibility::Unchecked || compatibility::fields_of(schema) is Some,
{
    if compatibility::fields_of(schema) is Some {
        lemma_unchanged_fields_are_compatible(schema, mode);
    }
}

proof fn lemma_unchanged_fields_are_compatible(schema: Json, mode: SchemaCompatibility)
    requires
        compatibility::fields_of(schema) is Some,
        ordered_fields(schema),
    ensures
        compatibility::violation(schema, schema, mode) is None,
{
    let fields = compatibility::fields_of(schema)->0;
    law_what_each_mode_allows(fields, fields);
    assert forall|i: int| 0 <= i < fields.len() implies crate::json::model::member(
        fields,
        (#[trigger] fields[i]).0,
    ) == Some(fields[i].1) && fields[i].1.same(fields[i].1) by {
        crate::json::model::lemma_member_at(fields, i);
        crate::json::model::lemma_same_reflexive(fields[i].1);
    }
    assert(agree(fields, fields));
    assert(has_all(fields, fields));
}

proof fn lemma_agree_symmetric(a: Seq<(Seq<char>, Json)>, b: Seq<(Seq<char>, Json)>)
    requires
        crate::json::model::sorted(a),
        crate::json::model::sorted(b),
        agree(a, b),
    ensures
        agree(b, a),
{
    assert forall|i: int|
        0 <= i < b.len() implies match crate::json::model::member(a, (#[trigger] b[i]).0) {
        Some(other_type) => b[i].1.same(other_type),
        None => true,
    } by {
        if crate::json::model::member(a, b[i].0) is Some {
            let at = crate::json::model::lemma_member_found(a, b[i].0);
            crate::json::model::lemma_member_at(b, i);
            assert(a[at].0 == b[i].0);
            crate::json::model::lemma_same_symmetric(a[at].1, b[i].1);
        }
    }
}

/// A change is backward compatible exactly where undoing it is forward compatible.
pub proof fn law_backward_and_forward_are_dual(old: Json, new: Json)
    requires
        ordered_fields(old),
        ordered_fields(new),
    ensures
        compatibility::violation(old, new, SchemaCompatibility::Backward) is None
            <==> compatibility::violation(new, old, SchemaCompatibility::Forward) is None,
{
    if let (Some(old_fields), Some(new_fields)) = (
        compatibility::fields_of(old),
        compatibility::fields_of(new),
    ) {
        law_what_each_mode_allows(old_fields, new_fields);
        law_what_each_mode_allows(new_fields, old_fields);
        if agree(old_fields, new_fields) {
            lemma_agree_symmetric(old_fields, new_fields);
        }
        if agree(new_fields, old_fields) {
            lemma_agree_symmetric(new_fields, old_fields);
        }
    }
}

/// Whether `other` has every field of `fields`, of the same type.
pub open spec fn includes(other: Seq<(Seq<char>, Json)>, fields: Seq<(Seq<char>, Json)>) -> bool {
    forall|i: int|
        0 <= i < fields.len() ==> {
            let other_type = crate::json::model::member(other, (#[trigger] fields[i]).0);
            other_type is Some && fields[i].1.same(other_type->0)
        }
}

proof fn lemma_includes(other: Seq<(Seq<char>, Json)>, fields: Seq<(Seq<char>, Json)>)
    ensures
        includes(other, fields) <==> agree(fields, other) && has_all(other, fields),
{
    if agree(fields, other) && has_all(other, fields) {
        assert forall|i: int| 0 <= i < fields.len() implies ({
            let other_type = crate::json::model::member(other, (#[trigger] fields[i]).0);
            other_type is Some && fields[i].1.same(other_type->0)
        }) by {}
    }
}

proof fn lemma_includes_transitive(
    a: Seq<(Seq<char>, Json)>,
    b: Seq<(Seq<char>, Json)>,
    c: Seq<(Seq<char>, Json)>,
)
    requires
        includes(b, a),
        includes(c, b),
    ensures
        includes(c, a),
{
    assert forall|i: int| 0 <= i < a.len() implies ({
        let other_type = crate::json::model::member(c, (#[trigger] a[i]).0);
        other_type is Some && a[i].1.same(other_type->0)
    }) by {
        let at = crate::json::model::lemma_member_found(b, a[i].0);
        assert(b[at].0 == a[i].0);
        crate::json::model::lemma_same_transitive(
            a[i].1,
            b[at].1,
            crate::json::model::member(c, b[at].0)->0,
        );
    }
}

/// Compatible changes add up: where each of two changes in a row keeps to a mode, so does the
/// change from the first schema to the last.
pub proof fn law_compatible_changes_add_up(
    first: Json,
    second: Json,
    third: Json,
    mode: SchemaCompatibility,
)
    requires
        ordered_fields(first),
        ordered_fields(second),
        ordered_fields(third),
        compatibility::violation(first, second, mode) is None,
        compatibility::violation(second, third, mode) is None,
    ensures
        compatibility::violation(first, third, mode) is None,
{
    if mode != SchemaCompatibility::Unchecked {
        lemma_checked_changes_add_up(first, second, third, mode);
    }
}

proof fn lemma_checked_changes_add_up(
    first: Json,
    second: Json,
    third: Json,
    mode: SchemaCompatibility,
)
    requires
        mode != SchemaCompatibility::Unchecked,
        ordered_fields(first),
        ordered_fields(second),
        ordered_fields(third),
        compatibility::violation(first, second, mode) is None,
        compatibility::violation(second, third, mode) is None,
    ensures
        compatibility::violation(first, third, mode) is None,
{
    let a = compatibility::fields_of(first)->0;
    let b = compatibility::fields_of(second)->0;
    let c = compatibility::fields_of(third)->0;
    law_what_each_mode_allows(a, b);
    law_what_each_mode_allows(b, c);
    law_what_each_mode_allows(a, c);
    lemma_includes(b, a);
    lemma_includes(c, b);
    lemma_includes(c, a);
    lemma_includes(b, c);
    lemma_includes(a, b);
    lemma_includes(a, c);
    if agree(a, b) {
        lemma_agree_symmetric(a, b);
    }
    if agree(b, c) {
        lemma_agree_symmetric(b, c);
    }
    if mode == SchemaCompatibility::Backward || mode == SchemaCompatibility::Full {
        lemma_includes_transitive(a, b, c);
    }
    if mode == SchemaCompatibility::Forward || mode == SchemaCompatibility::Full {
        lemma_includes_transitive(c, b, a);
        lemma_agree_symmetric(c, a);
    }
}

/// A new field is a backward compatible change, and neither a forward nor a fully compatible one;
/// taking it away again is a forward compatible change, and neither a backward nor a fully
/// compatible one.
pub proof fn law_new_field(old: Json, new: Json, name: Seq<char>, field_type: Json)
    requires
        compatibility::fields_of(old) is Some,
        ordered_fields(old),
        ordered_fields(new),
        crate::json::model::member(compatibility::fields_of(old)->0, name) is None,
        compatibility::fields_of(new) == Some(
            crate::json::model::with_member(compatibility::fields_of(old)->0, name, field_type),
        ),
    ensures
        compatibility::violation(old, new, SchemaCompatibility::Backward) is None,
        compatibility::violation(old, new, SchemaCompatibility::Forward) is Some,
        compatibility::violation(old, new, SchemaCompatibility::Full) is Some,
        compatibility::violation(new, old, SchemaCompatibility::Forward) is None,
        compatibility::violation(new, old, SchemaCompatibility::Backward) is Some,
        compatibility::violation(new, old, SchemaCompatibility::Full) is Some,
{
    let fields = compatibility::fields_of(old)->0;
    let more = compatibility::fields_of(new)->0;
    law_what_each_mode_allows(fields, more);
    law_full_is_backward_and_forward(old, new);
    law_full_is_backward_and_forward(new, old);
    law_backward_and_forward_are_dual(old, new);
    law_backward_and_forward_are_dual(new, old);
    assert forall|i: int| 0 <= i < fields.len() implies crate::json::model::member(
        more,
        (#[trigger] fields[i]).0,
    ) == Some(fields[i].1) && fields[i].1.same(fields[i].1) by {
        crate::json::model::lemma_member_at(fields, i);
        crate::json::model::lemma_member_of_with_member(fields, name, field_type, fields[i].0);
        crate::json::model::lemma_same_reflexive(fields[i].1);
    }
    assert(agree(fields, more));
    assert(has_all(more, fields));
    crate::json::model::lemma_member_of_with_member(fields, name, field_type, name);
    let at = crate::json::model::lemma_member_found(more, name);
    assert(!has_all(fields, more)) by {
        assert(crate::json::model::member(fields, more[at].0) is None);
    }
}

/// A field that changes its type breaks every mode but the unchecked one.
pub proof fn law_type_change_is_incompatible(
    old: Json,
    new: Json,
    name: Seq<char>,
    mode: SchemaCompatibility,
)
    requires
        compatibility::fields_of(old) is Some,
        compatibility::fields_of(new) is Some,
        crate::json::model::member(compatibility::fields_of(old)->0, name) is Some,
        crate::json::model::member(compatibility::fields_of(new)->0, name) is Some,
        !crate::json::model::member(compatibility::fields_of(old)->0, name)->0.same(
            crate::json::model::member(compatibility::fields_of(new)->0, name)->0,
        ),
        mode != SchemaCompatibility::Unchecked,
    ensures
        compatibility::violation(old, new, mode) is Some,
{
    let old_fields = compatibility::fields_of(old)->0;
    let new_fields = compatibility::fields_of(new)->0;
    law_what_each_mode_allows(old_fields, new_fields);
    let at = crate::json::model::lemma_member_found(old_fields, name);
    assert(old_fields[at].0 == name);
    assert(!agree(old_fields, new_fields));
}

proof fn lemma_payload_fault(
    fields: Seq<(Seq<char>, Json)>,
    payload: Seq<(Seq<char>, Json)>,
    from: int,
)
    requires
        0 <= from <= fields.len(),
    ensures
        validation::payload_fault(fields, payload, from) is None <==> forall|i: int|
            from <= i < fields.len() ==> validation::field_fault(#[trigger] fields[i], payload)
                is None,
    decreases fields.len() - from,
{
    if from < fields.len() {
        lemma_payload_fault(fields, payload, from + 1);
    }
}

/// A payload is accepted exactly where it has every field of the schema, of the type that the
/// schema names.
pub proof fn law_accepted_payloads(
    fields: Seq<(Seq<char>, Json)>,
    payload: Seq<(Seq<char>, Json)>,
)
    ensures
        validation::payload_fault(fields, payload, 0) is None <==> forall|i: int|
            0 <= i < fields.len() ==> {
                &&& (#[trigger] fields[i]).1 is String
                &&& validation::is_type_name(fields[i].1->String_0)
                &&& crate::json::model::member(payload, fields[i].0) is Some
                &&& validation::is_of_type(
                    crate::json::model::member(payload, fields[i].0)->0,
                    fields[i].1->String_0,
                )
            },
{
    lemma_payload_fault(fields, payload, 0);
}

/// A field of type `float` accepts whatever one of type `integer` accepts.
pub proof fn law_integers_are_floats(value: Json)
    requires
        validation::is_of_type(value, "integer"@),
    ensures
        validation::is_of_type(value, "float"@),
{
    reveal_strlit("integer");
    reveal_strlit("string");
    reveal_strlit("boolean");
    reveal_strlit("float");
    assert("float"@.len() != "integer"@.len());
    assert("float"@.len() != "string"@.len());
    assert("float"@.len() != "boolean"@.len());
}

proof fn lemma_included_fields_accept(
    fields: Seq<(Seq<char>, Json)>,
    other: Seq<(Seq<char>, Json)>,
    payload: Seq<(Seq<char>, Json)>,
)
    requires
        includes(other, fields),
        validation::payload_fault(other, payload, 0) is None,
    ensures
        validation::payload_fault(fields, payload, 0) is None,
{
    lemma_payload_fault(fields, payload, 0);
    lemma_payload_fault(other, payload, 0);
    assert forall|i: int| 0 <= i < fields.len() implies validation::field_fault(
        #[trigger] fields[i],
        payload,
    ) is None by {
        let at = crate::json::model::lemma_member_found(other, fields[i].0);
        assert(validation::field_fault(other[at], payload) is None);
        assert(fields[i].1.same(other[at].1));
        assert(other[at].1 is String);
        assert(fields[i].1 == other[at].1);
    }
}

/// After a backward compatible change, every event that the new schema accepts is one that the old
/// schema accepted: who relied on the old fields can go on.
pub proof fn law_backward_keeps_old_readers(old: Json, new: Json, change: Change)
    requires
        compatibility::violation(old, new, SchemaCompatibility::Backward) is None,
        schema::event_fault(Ok(Some(new)), change) is None,
    ensures
        schema::event_fault(Ok(Some(old)), change) is None,
{
    let old_fields = compatibility::fields_of(old)->0;
    let new_fields = compatibility::fields_of(new)->0;
    law_what_each_mode_allows(old_fields, new_fields);
    lemma_includes(new_fields, old_fields);
    if let Some(Json::Object(payload)) = change.after {
        if change.operation == Operation::Create || change.operation == Operation::Update {
            lemma_included_fields_accept(old_fields, new_fields, payload);
        }
    }
}

/// After a forward compatible change, every event that the old schema accepted is one that the new
/// schema accepts.
pub proof fn law_forward_keeps_old_events(old: Json, new: Json, change: Change)
    requires
        ordered_fields(old),
        ordered_fields(new),
        compatibility::violation(old, new, SchemaCompatibility::Forward) is None,
        schema::event_fault(Ok(Some(old)), change) is None,
    ensures
        schema::event_fault(Ok(Some(new)), change) is None,
{
    law_backward_and_forward_are_dual(new, old);
    law_backward_keeps_old_readers(new, old, change);
}

/// Without a registered schema every event is accepted, and under one with fields every event that
/// neither creates nor updates a row.
pub proof fn law_only_writes_are_validated(schema: Json, change: Change)
    ensures
        schema::event_fault(Ok(None), change) is None,
        compatibility::fields_of(schema) is Some && change.operation != Operation::Create
            && change.operation != Operation::Update ==> schema::event_fault(
            Ok(Some(schema)),
            change,
        ) is None,
{
}

/// The first schema of a source is registered, whatever it is.
pub proof fn law_first_schema_is_registered(new_schema: Json, mode: SchemaCompatibility)
    ensures
        schema::registration_fault(Ok(None), new_schema, mode) is None,
{
}

/// A handshake goes on to register a schema exactly where a plain registration would, and is
/// refused for the same reason.
pub proof fn law_handshake_agrees_with_registration(
    proposal: Proposal,
    stored: Result<Option<Json>, Seq<char>>,
    now: Timestamp,
)
    ensures
        handshake::negotiation(proposal, stored, now) is Register <==> schema::registration_fault(
            stored,
            proposal.new_schema,
            proposal.mode,
        ) is None,
        handshake::negotiation(proposal, stored, now) matches handshake::NegotiationStep::Refuse {
            letter,
            result,
        } ==> {
            let fault = schema::registration_fault(stored, proposal.new_schema, proposal.mode);
            &&& fault matches Some(SchemaFault::Incompatibility(_))
            &&& letter.reason == fault->0.text()
            &&& result == Outcome::Rejected { reason: letter.reason, routed_to_dlq: true }
        },
{
}

/// How a handshake ends, given every reply that it may ask for.
pub open spec fn outcome(
    proposal: Proposal,
    stored: Result<Option<Json>, Seq<char>>,
    schema_id: u32,
    saved: Result<(), Seq<char>>,
    now: Timestamp,
) -> Outcome {
    match handshake::negotiation(proposal, stored, now) {
        handshake::NegotiationStep::Over(result) => result,
        handshake::NegotiationStep::Refuse { letter, result } => result,
        handshake::NegotiationStep::Register(registration) => match handshake::conclusion(
            Save {
                proposal: registration.proposal,
                old_schema: registration.old_schema,
                schema_id,
            },
            saved,
            now,
        ) {
            handshake::ConclusionStep::Over(result) => result,
            handshake::ConclusionStep::Announce { event, result } => result,
        },
    }
}

/// A handshake is accepted exactly where the state store answered both times and the change keeps
/// to the mode, and then with the identifier that the schema registry service gave; it is sent to
/// the dead letter queue exactly where the change breaks the mode.
pub proof fn law_how_handshakes_end(
    proposal: Proposal,
    stored: Result<Option<Json>, Seq<char>>,
    schema_id: u32,
    saved: Result<(), Seq<char>>,
    now: Timestamp,
)
    ensures
        ({
            let end = outcome(proposal, stored, schema_id, saved, now);
            let fits = stored is Ok && handshake::registration_violation(proposal, stored->Ok_0)
                is None;
            &&& end is Accepted <==> fits && saved is Ok
            &&& end is Accepted ==> end->schema_id == schema_id
            &&& (end matches Outcome::Rejected { reason, routed_to_dlq } && routed_to_dlq)
                <==> stored is Ok && !fits
        }),
{
}

/// A new schema is announced exactly where its handshake is accepted, and the announcement is that
/// of the proposal.
pub proof fn law_announced_where_accepted(
    save: Save,
    saved: Result<(), Seq<char>>,
    now: Timestamp,
)
    ensures
        match handshake::conclusion(save, saved, now) {
            handshake::ConclusionStep::Announce { event, result } => {
                &&& result == Outcome::Accepted { schema_id: save.schema_id }
                &&& event.schema_id == save.schema_id
                &&& event.source_id == save.proposal.source_id
                &&& event.new_schema == save.proposal.new_schema
                &&& event.old_schema == save.old_schema
            },
            handshake::ConclusionStep::Over(result) => !(result is Accepted),
        },
{
}

/// What the state store answered is a failure with its text, no schema, or a schema; to a save it
/// is a failure with its text, or nothing more.
pub proof fn law_what_the_store_answered(
    stored: Result<Option<JsonValue>, StorageError>,
    saved: Result<(), StorageError>,
)
    ensures
        match stored {
            Err(error) => schema::lookup(stored) == Err::<Option<Json>, Seq<char>>(error.message@),
            Ok(None) => schema::lookup(stored) == Ok::<Option<Json>, Seq<char>>(None),
            Ok(Some(found)) => schema::lookup(stored) == Ok::<Option<Json>, Seq<char>>(
                Some(found@),
            ),
        },
        match saved {
            Err(error) => schema::acknowledgement(saved) == Err::<(), Seq<char>>(error.message@),
            Ok(()) => schema::acknowledgement(saved) is Ok,
        },
{
}

/// An error says of which kind it is, with its message, and shows its kind before the message.
pub proof fn law_what_an_error_says(error: SchemaError, message: Seq<char>)
    ensures
        match error {
            SchemaError::Storage(cause) => error@ == SchemaFault::Storage(cause.message@),
            SchemaError::Incompatibility(reason) => error@ == SchemaFault::Incompatibility(reason@),
            SchemaError::Validation(reason) => error@ == SchemaFault::Validation(reason@),
        },
        SchemaFault::Storage(message).text() == "Storage error: "@ + message,
        SchemaFault::Incompatibility(message).text() == "Incompatible schema change: "@ + message,
        SchemaFault::Validation(message).text() == "Validation failed: "@ + message,
{
}

/// A schema is registered unless the state store fails or holds one that it breaks the mode with,
/// and what is reported is that failure or that violation.
pub proof fn law_what_is_registered(
    stored: Result<Option<Json>, Seq<char>>,
    new_schema: Json,
    mode: SchemaCompatibility,
)
    ensures
        match stored {
            Err(message) => schema::registration_fault(stored, new_schema, mode) == Some(
                SchemaFault::Storage(message),
            ),
            Ok(None) => schema::registration_fault(stored, new_schema, mode) is None,
            Ok(Some(old_schema)) => {
                &&& schema::registration_fault(stored, new_schema, mode) is None
                    <==> compatibility::violation(old_schema, new_schema, mode) is None
                &&& compatibility::violation(old_schema, new_schema, mode) is Some
                    ==> schema::registration_fault(stored, new_schema, mode) == Some(
                    SchemaFault::Incompatibility(
                        compatibility::violation(old_schema, new_schema, mode)->0,
                    ),
                )
            },
        },
{
}

/// Under a schema with fields an event that creates or updates a row, the one like the other, is
/// accepted exactly where its new state is an object that has every field of the schema, of the
/// type that the schema names: a number without a fractional part for an integer, a string, a
/// boolean, or any number for a float.
pub proof fn law_accepted_writes(schema: Json, change: Change)
    requires
        compatibility::fields_of(schema) is Some,
        change.operation == Operation::Create || change.operation == Operation::Update,
    ensures
        schema::event_fault(Ok(Some(schema)), change) is None <==> {
            &&& change.after matches Some(Json::Object(payload))
            &&& forall|i: int|
                0 <= i < compatibility::fields_of(schema)->0.len() ==> {
                    let field = #[trigger] compatibility::fields_of(schema)->0[i];
                    let value = crate::json::model::member(payload, field.0);
                    &&& value is Some
                    &&& field.1 == Json::String("integer"@) && (value->0 matches Json::Number(
                        number,
                    ) && number.is_integral()) || field.1 == Json::String("string"@)
                        && value->0 is String || field.1 == Json::String("boolean"@)
                        && value->0 is Bool || field.1 == Json::String("float"@)
                        && value->0 is Number
                }
        },
        change.after matches Some(Json::Object(payload)) ==> (schema::event_fault(
            Ok(Some(schema)),
            change,
        ) is None <==> validation::payload_fault(
            compatibility::fields_of(schema)->0,
            payload,
            0,
        ) is None),
{
    lemma_type_names_differ();
    if let Some(Json::Object(payload)) = change.after {
        let fields = compatibility::fields_of(schema)->0;
        law_accepted_payloads(fields, payload);
        assert forall|i: int| 0 <= i < fields.len() implies (validation::field_fault(
            #[trigger] fields[i],
            payload,
        ) is None <==> {
            let value = crate::json::model::member(payload, fields[i].0);
            &&& value is Some
            &&& fields[i].1 == Json::String("integer"@) && (value->0 matches Json::Number(number)
                && number.is_integral()) || fields[i].1 == Json::String("string"@)
                && value->0 is String || fields[i].1 == Json::String("boolean"@)
                && value->0 is Bool || fields[i].1 == Json::String("float"@) && value->0 is Number
        }) by {}
        lemma_payload_fault(fields, payload, 0);
    }
}

proof fn lemma_type_names_differ()
    ensures
        "integer"@ != "string"@,
        "integer"@ != "boolean"@,
        "integer"@ != "float"@,
        "string"@ != "boolean"@,
        "string"@ != "float"@,
        "boolean"@ != "float"@,
{
    reveal_strlit("integer");
    reveal_strlit("string");
    reveal_strlit("boolean");
    reveal_strlit("float");
    assert("integer"@[0] != "boolean"@[0]);
    assert("integer"@.len() != "string"@.len());
    assert("integer"@.len() != "float"@.len());
    assert("string"@.len() != "boolean"@.len());
    assert("string"@.len() != "float"@.len());
    assert("boolean"@.len() != "float"@.len());
}

/// What an event is refused for before any field is looked at: a failure of the state store, a
/// schema without fields, whatever the event does, and a write without a new state or with one that
/// is no object. Without a schema, and where no row is created or updated, there is nothing to
/// refuse.
pub proof fn law_events_refused_outright(
    stored: Result<Option<Json>, Seq<char>>,
    change: Change,
)
    ensures
        match stored {
            Err(message) => schema::event_fault(stored, change) == Some(
                SchemaFault::Storage(message),
            ),
            Ok(None) => schema::event_fault(stored, change) is None,
            Ok(Some(schema)) => if compatibility::fields_of(schema) is None {
                schema::event_fault(stored, change) == Some(
                    SchemaFault::Validation("Registered schema missing 'fields' object"@),
                )
            } else if change.operation != Operation::Create && change.operation
                != Operation::Update {
                schema::event_fault(stored, change) is None
            } else if change.after is None {
                schema::event_fault(stored, change) == Some(
                    SchemaFault::Validation("Event payload 'after' is missing"@),
                )
            } else if !(change.after->0 is Object) {
                schema::event_fault(stored, change) == Some(
                    SchemaFault::Validation("Event payload is not a JSON object"@),
                )
            } else {
                schema::event_fault(stored, change) is None || schema::event_fault(stored, change)
                    matches Some(SchemaFault::Validation(_))
            },
        },
{
}

/// A write is refused for the first field, in the order of the schema, that its payload does not
/// keep to: because the schema gives the field no type by name, because the payload lacks the
/// field, because there is no type of that name, or because the value is of another type.
pub proof fn law_first_fault_is_named(schema: Json, change: Change, at: int)
    requires
        compatibility::fields_of(schema) is Some,
        change.operation == Operation::Create || change.operation == Operation::Update,
        change.after matches Some(Json::Object(_)),
        0 <= at < compatibility::fields_of(schema)->0.len(),
        forall|i: int|
            0 <= i < at ==> {
                let field = #[trigger] compatibility::fields_of(schema)->0[i];
                let value = crate::json::model::member(change.after->0->Object_0, field.0);
                &&& value is Some
                &&& field.1 == Json::String("integer"@) && (value->0 matches Json::Number(number)
                    && number.is_integral()) || field.1 == Json::String("string"@)
                    && value->0 is String || field.1 == Json::String("boolean"@) && value->0 is Bool
                    || field.1 == Json::String("float"@) && value->0 is Number
            },
    ensures
        ({
            let field = compatibility::fields_of(schema)->0[at];
            let found = crate::json::model::member(change.after->0->Object_0, field.0);
            let fault = schema::event_fault(Ok(Some(schema)), change);
            if !(field.1 is String) {
                fault == Some(
                    SchemaFault::Validation("Schema type for '"@ + field.0 + "' is not a string"@),
                )
            } else if found is None {
                fault == Some(
                    SchemaFault::Validation("Missing required field '"@ + field.0 + "'"@),
                )
            } else {
                let name = field.1->String_0;
                if name != "integer"@ && name != "string"@ && name != "boolean"@ && name
                    != "float"@ {
                    fault == Some(SchemaFault::Validation("Unsupported schema type: "@ + name))
                } else if name == "integer"@ && !(found->0 matches Json::Number(number)
                    && number.is_integral()) || name == "string"@ && !(found->0 is String) || name
                    == "boolean"@ && !(found->0 is Bool) || name == "float"@ && !(
                found->0 is Number) {
                    fault == Some(
                        SchemaFault::Validation(
                            "Field '"@ + field.0 + "' expected "@ + name + ", found "@
                                + crate::json::outside::json_debug_text(found->0),
                        ),
                    )
                } else {
                    true
                }
            }
        }),
{
    lemma_type_names_differ();
    let fields = compatibility::fields_of(schema)->0;
    let payload = change.after->0->Object_0;
    assert forall|i: int| 0 <= i < at implies validation::field_fault(
        #[trigger] fields[i],
        payload,
    ) is None by {
        let field = compatibility::fields_of(schema)->0[i];
    }
    if validation::field_fault(fields[at], payload) is Some {
        lemma_payload_fault_at(fields, payload, 0, at);
    }
}

proof fn lemma_payload_fault_at(
    fields: Seq<(Seq<char>, Json)>,
    payload: Seq<(Seq<char>, Json)>,
    from: int,
    at: int,
)
    requires
        0 <= from <= at < fields.len(),
        validation::field_fault(fields[at], payload) is Some,
        forall|i: int|
            from <= i < at ==> validation::field_fault(#[trigger] fields[i], payload) is None,
    ensures
        validation::payload_fault(fields, payload, from) == validation::field_fault(
            fields[at],
            payload,
        ),
    decreases at - from,
{
    if from < at {
        assert(validation::field_fault(fields[from], payload) is None);
        lemma_payload_fault_at(fields, payload, from + 1, at);
    }
}

/// A handshake goes on to register, under every mode and with or without a stored schema, exactly
/// what was proposed: the text of the proposed schema, with the proposal and the stored schema
/// along. It ends where the store fails, and a breaking change is refused.
pub proof fn law_what_a_negotiation_does(
    proposal: Proposal,
    stored: Result<Option<Json>, Seq<char>>,
    now: Timestamp,
)
    ensures
        match stored {
            Err(message) => handshake::negotiation(proposal, stored, now)
                == handshake::NegotiationStep::Over(
                Outcome::Rejected {
                    reason: "Failed to read existing schema: "@ + message,
                    routed_to_dlq: false,
                },
            ),
            Ok(old_schema) => if old_schema is None || compatibility::violation(
                old_schema->0,
                proposal.new_schema,
                proposal.mode,
            ) is None {
                handshake::negotiation(proposal, stored, now)
                    == handshake::NegotiationStep::Register(
                    handshake::Registration {
                        proposal,
                        old_schema,
                        schema_text: crate::json::outside::json_text(proposal.new_schema),
                    },
                )
            } else {
                handshake::negotiation(proposal, stored, now) is Refuse
            },
        },
{
}

/// A breaking change goes to the dead letter queue as an update of the schema, from the stored one
/// to the proposed one, under the source's name; the reason is the violation, for the letter and
/// for the one who asked.
pub proof fn law_what_a_refusal_says(
    proposal: Proposal,
    old_schema: Json,
    now: Timestamp,
    violation: Seq<char>,
)
    requires
        compatibility::violation(old_schema, proposal.new_schema, proposal.mode) == Some(violation),
    ensures
        handshake::negotiation(proposal, Ok(Some(old_schema)), now) matches
            handshake::NegotiationStep::Refuse { letter, result } && {
            &&& letter.event.id == "schema-mutation-"@ + proposal.source_id
            &&& letter.event.source_database == proposal.source_id
            &&& letter.event.source_table_or_collection == "schema_migrations"@
            &&& letter.event.operation == Operation::Update
            &&& letter.event.timestamp == now
            &&& letter.event.key == Json::Object(
                seq![("source_id"@, Json::String(proposal.source_id))],
            )
            &&& letter.event.before == Some(old_schema)
            &&& letter.event.after == Some(proposal.new_schema)
            &&& letter.event.transaction_id is None
            &&& letter.event.offset == "0"@
            &&& letter.reason == "Incompatible schema change: "@ + violation
            &&& letter.component == "SchemaMigrationHandshake"@
            &&& letter.attempts == 1
            &&& result == Outcome::Rejected {
                reason: "Incompatible schema change: "@ + violation,
                routed_to_dlq: true,
            }
        },
{
}

/// A handshake whose schema was saved is accepted with the identifier that the schema registry
/// service gave, and its announcement says all of it; one whose schema was not saved is rejected
/// with the state store's failure.
pub proof fn law_what_a_conclusion_says(save: Save, saved: Result<(), Seq<char>>, now: Timestamp)
    ensures
        match saved {
            Err(message) => handshake::conclusion(save, saved, now)
                == handshake::ConclusionStep::Over(
                Outcome::Rejected {
                    reason: "Failed to store schema: "@ + message,
                    routed_to_dlq: false,
                },
            ),
            Ok(()) => handshake::conclusion(save, saved, now) matches
                handshake::ConclusionStep::Announce { event, result } && {
                &&& event.source_id == save.proposal.source_id
                &&& event.schema_id == save.schema_id
                &&& event.old_schema == save.old_schema
                &&& event.new_schema == save.proposal.new_schema
                &&& event.compatibility_mode == save.proposal.mode
                &&& event.timestamp == now
                &&& result == Outcome::Accepted { schema_id: save.schema_id }
            },
        },
{
}

/// From end to end: wherever a handshake goes on to register, and whatever identifier it is given,
/// what is announced once it is saved is the proposed schema in place of the stored one, for the
/// proposed source and mode; and it is accepted.
pub proof fn law_the_proposed_schema_is_announced(
    proposal: Proposal,
    stored: Result<Option<Json>, Seq<char>>,
    schema_id: u32,
    asked: Timestamp,
    saved: Timestamp,
)
    ensures
        handshake::negotiation(proposal, stored, asked) matches handshake::NegotiationStep::Register(
            registration,
        ) ==> {
            let save = Save {
                proposal: registration.proposal,
                old_schema: registration.old_schema,
                schema_id,
            };
            &&& stored is Ok
            &&& registration.schema_text == crate::json::outside::json_text(proposal.new_schema)
            &&& handshake::conclusion(save, Ok(()), saved) matches
                handshake::ConclusionStep::Announce { event, result } && {
                &&& event.source_id == proposal.source_id
                &&& event.schema_id == schema_id
                &&& event.old_schema == stored->Ok_0
                &&& event.new_schema == proposal.new_schema
                &&& event.compatibility_mode == proposal.mode
                &&& event.timestamp == saved
                &&& result == Outcome::Accepted { schema_id }
            }
        },
{
}

/// What is handed from step to step of a handshake says what its fields say.
pub proof fn law_what_pending_steps_say(
    proposed: SchemaMigrationHandshake,
    registration: PendingRegistration,
    save: PendingSave,
)
    ensures
        proposed@.source_id == proposed.source_id@,
        proposed@.new_schema == proposed.new_schema@,
        proposed@.mode == proposed.mode,
        registration@.proposal == registration.handshake@,
        registration@.schema_text == registration.schema_text@,
        match registration.old_schema {
            Some(old_schema) => registration@.old_schema == Some(old_schema@),
            None => registration@.old_schema is None,
        },
        save@.proposal == save.handshake@,
        save@.schema_id == save.schema_id,
        match save.old_schema {
            Some(old_schema) => save@.old_schema == Some(old_schema@),
            None => save@.old_schema is None,
        },
{
}

/// What a handshake hands out says what its fields say: results, letters and announcements.
pub proof fn law_what_results_say(
    result: HandshakeResult,
    letter: DeadLetter,
    event: SchemaMigrationEvent,
)
    ensures
        match result {
            HandshakeResult::Accepted { schema_id } => result@ == Outcome::Accepted { schema_id },
            HandshakeResult::Rejected { reason, routed_to_dlq } => result@ == Outcome::Rejected {
                reason: reason@,
                routed_to_dlq,
            },
        },
        letter@.event == letter.event@,
        letter@.reason == letter.reason@,
        letter@.component == letter.component@,
        letter@.attempts == letter.attempts,
        event@.source_id == event.source_id@,
        event@.schema_id == event.schema_id,
        match event.old_schema {
            Some(old_schema) => event@.old_schema == Some(old_schema@),
            None => event@.old_schema is None,
        },
        event@.new_schema == event.new_schema@,
        event@.compatibility_mode == event.compatibility_mode,
        event@.timestamp == event.timestamp,
{
}

/// The steps that a handshake takes say what they hold.
pub proof fn law_what_steps_say(negotiation: Negotiation, conclusion: Conclusion)
    ensures
        match negotiation {
            Negotiation::Over(result) => negotiation@ == handshake::NegotiationStep::Over(result@),
            Negotiation::Refuse { letter, result } => negotiation@
                == handshake::NegotiationStep::Refuse { letter: letter@, result: result@ },
            Negotiation::Register(pending) => negotiation@ == handshake::NegotiationStep::Register(
                pending@,
            ),
        },
        match conclusion {
            Conclusion::Over(result) => conclusion@ == handshake::ConclusionStep::Over(result@),
            Conclusion::Announce { event, result } => conclusion@
                == handshake::ConclusionStep::Announce { event: event@, result: result@ },
        },
{
}

} // verus!
