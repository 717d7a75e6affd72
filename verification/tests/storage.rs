use caminus::json::number::JsonNumber;
use caminus::json::value::{JsonObject, JsonValue};
use caminus::source::{ChangeEvent, Operation, Timestamp};
use caminus::storage::compatibility::SchemaCompatibility;
use caminus::storage::error::{SchemaError, StorageError};
use caminus::storage::handshake::{
    Conclusion, HandshakeResult, Negotiation, SchemaMigrationEvent, SchemaMigrationHandshake,
};
use caminus::storage::schema::SchemaRegistry;
use chrono::Utc;

const NOW: Timestamp = Timestamp { seconds: 1_700_000_000, nanoseconds: 5 };

fn now() -> Timestamp {
    let now = Utc::now();
    Timestamp { seconds: now.timestamp(), nanoseconds: now.timestamp_subsec_nanos() }
}

fn text(s: &str) -> JsonValue {
    JsonValue::String(s.to_string())
}

fn number(n: u64) -> JsonValue {
    JsonValue::Number(JsonNumber::from_u64(n))
}

fn float(s: &str) -> JsonValue {
    JsonValue::from_serde_json(serde_json::Value::from(s.parse::<f64>().unwrap()))
}

fn object(members: Vec<(&str, JsonValue)>) -> JsonValue {
    let mut object = JsonObject::new();
    for (key, value) in members {
        object.insert(key.to_string(), value);
    }
    JsonValue::Object(object)
}

fn schema(fields: &[(&str, &str)]) -> JsonValue {
    let fields = fields.iter().map(|(name, type_text)| (*name, text(type_text))).collect();
    object(vec![("fields", object(fields))])
}

fn failure() -> StorageError {
    StorageError { message: "disk full".to_string() }
}

fn event(operation: Operation, after: Option<JsonValue>) -> ChangeEvent {
    ChangeEvent {
        id: "evt-1".into(),
        source_database: "db".into(),
        source_table_or_collection: "users".into(),
        operation,
        timestamp: NOW,
        key: object(vec![("id", number(1))]),
        before: None,
        after,
        transaction_id: None,
        offset: "1".into(),
    }
}

fn shown(result: Result<(), SchemaError>) -> String {
    match result {
        Ok(()) => "ok".to_string(),
        Err(error) => error.to_string(),
    }
}

fn checked(old: &JsonValue, new: &JsonValue, mode: SchemaCompatibility) -> String {
    shown(SchemaRegistry::check_compatibility(old, new, mode))
}

fn validated(schema: JsonValue, payload: JsonValue) -> String {
    shown(SchemaRegistry::validate_event(
        Ok(Some(schema)),
        &event(Operation::Create, Some(payload)),
    ))
}

#[test]
fn test_schema_registration_and_validation() {
    let schema = object(vec![(
        "fields",
        object(vec![
            ("id", text("integer")),
            ("name", text("string")),
            ("active", text("boolean")),
        ]),
    )]);

    // Register initial schema
    let write = SchemaRegistry::register_schema(
        "pg_users",
        Ok(None),
        schema.clone(),
        SchemaCompatibility::Unchecked,
    )
    .unwrap();
    assert_eq!(write.source_id, "pg_users");
    SchemaRegistry::conclude_registration(Ok(())).unwrap();
    let stored = write.schema;

    // Valid event
    let event = ChangeEvent {
        id: "evt-1".into(),
        source_database: "db".into(),
        source_table_or_collection: "users".into(),
        operation: Operation::Create,
        timestamp: now(),
        key: object(vec![("id", number(1))]),
        before: None,
        after: Some(object(vec![
            ("id", number(1)),
            ("name", text("John")),
            ("active", JsonValue::Bool(true)),
        ])),
        transaction_id: None,
        offset: "1".into(),
    };
    assert!(SchemaRegistry::validate_event(Ok(Some(stored.clone())), &event).is_ok());

    // Invalid event - missing active field
    let invalid_event_1 = ChangeEvent {
        after: Some(object(vec![("id", number(1)), ("name", text("John"))])),
        ..event.clone()
    };
    assert!(SchemaRegistry::validate_event(Ok(Some(stored.clone())), &invalid_event_1).is_err());

    // Invalid event - type mismatch
    let invalid_event_2 = ChangeEvent {
        after: Some(object(vec![
            ("id", text("not-an-int")),
            ("name", text("John")),
            ("active", JsonValue::Bool(true)),
        ])),
        ..event.clone()
    };
    assert!(SchemaRegistry::validate_event(Ok(Some(stored)), &invalid_event_2).is_err());
}

#[test]
fn test_schema_compatibility() {
    let old_schema = object(vec![(
        "fields",
        object(vec![("id", text("integer")), ("name", text("string"))]),
    )]);

    // 1. Backward compatible: Adding a field is allowed
    let new_schema_add = object(vec![(
        "fields",
        object(vec![
            ("id", text("integer")),
            ("name", text("string")),
            ("email", text("string")),
        ]),
    )]);
    assert!(SchemaRegistry::check_compatibility(
        &old_schema,
        &new_schema_add,
        SchemaCompatibility::Backward
    )
    .is_ok());

    // Backward incompatible: Deleting a field is not allowed
    let new_schema_del = object(vec![("fields", object(vec![("id", text("integer"))]))]);
    assert!(SchemaRegistry::check_compatibility(
        &old_schema,
        &new_schema_del,
        SchemaCompatibility::Backward
    )
    .is_err());

    // 2. Forward compatible: Deleting a field is allowed
    assert!(SchemaRegistry::check_compatibility(
        &old_schema,
        &new_schema_del,
        SchemaCompatibility::Forward
    )
    .is_ok());

    // Forward incompatible: Adding a field is not allowed
    assert!(SchemaRegistry::check_compatibility(
        &old_schema,
        &new_schema_add,
        SchemaCompatibility::Forward
    )
    .is_err());

    // 3. Full compatibility
    assert!(SchemaRegistry::check_compatibility(
        &old_schema,
        &old_schema,
        SchemaCompatibility::Full
    )
    .is_ok());
    assert!(SchemaRegistry::check_compatibility(
        &old_schema,
        &new_schema_add,
        SchemaCompatibility::Full
    )
    .is_err());
}

/// Runs a handshake against a store that holds `stored` and a registry service that answers 100.
fn negotiate(
    stored: &mut Option<JsonValue>,
    announced: &mut Vec<SchemaMigrationEvent>,
    new_schema: JsonValue,
    mode: SchemaCompatibility,
) -> HandshakeResult {
    let handshake = SchemaMigrationHandshake::new("orders", new_schema, mode);
    match handshake.negotiate_handshake(Ok(stored.clone()), now()) {
        Negotiation::Over(result) => result,
        Negotiation::Refuse { result, .. } => result,
        Negotiation::Register(pending) => {
            assert_eq!(pending.handshake.source_id, "orders");
            assert_eq!(pending.schema_text, pending.handshake.new_schema.to_string());
            let pending = pending.registered(100);
            *stored = Some(pending.handshake.new_schema.clone());
            match pending.saved(Ok(()), now()) {
                Conclusion::Over(result) => result,
                Conclusion::Announce { event, result } => {
                    announced.push(event);
                    result
                }
            }
        }
    }
}

#[test]
fn test_schema_migration_handshake_negotiation() {
    let mut stored = None;
    let mut announced = Vec::new();

    let initial_schema = object(vec![(
        "fields",
        object(vec![("id", text("integer")), ("name", text("string"))]),
    )]);

    // 1. Initial schema handshake negotiation
    let res1 = negotiate(
        &mut stored,
        &mut announced,
        initial_schema.clone(),
        SchemaCompatibility::Backward,
    );
    assert!(matches!(res1, HandshakeResult::Accepted { .. }));

    assert_eq!(announced[0].source_id, "orders");
    assert_eq!(announced[0].schema_id, 100);

    // 2. Backward compatible modification (adding field)
    let compatible_schema = object(vec![(
        "fields",
        object(vec![
            ("id", text("integer")),
            ("name", text("string")),
            ("amount", text("float")),
        ]),
    )]);
    let res2 = negotiate(
        &mut stored,
        &mut announced,
        compatible_schema.clone(),
        SchemaCompatibility::Backward,
    );
    assert!(matches!(res2, HandshakeResult::Accepted { .. }));

    assert_eq!(announced[1].schema_id, 100);

    // 3. Backward incompatible modification (deleting field)
    let incompatible_schema = object(vec![("fields", object(vec![("id", text("integer"))]))]);
    let res3 = negotiate(
        &mut stored,
        &mut announced,
        incompatible_schema,
        SchemaCompatibility::Backward,
    );
    assert!(matches!(res3, HandshakeResult::Rejected { routed_to_dlq: true, .. }));
    assert_eq!(announced.len(), 2);
}

#[test]
fn every_mode_names_the_first_field_that_breaks_it() {
    let old = schema(&[("b", "string"), ("a", "integer")]);
    let new = schema(&[("d", "string"), ("c", "integer")]);
    assert_eq!(checked(&old, &new, SchemaCompatibility::Unchecked), "ok");
    assert_eq!(
        checked(&old, &new, SchemaCompatibility::Backward),
        "Incompatible schema change: Backward compatibility violation: Field 'a' was deleted"
    );
    assert_eq!(
        checked(&old, &new, SchemaCompatibility::Forward),
        "Incompatible schema change: Forward compatibility violation: New field 'c' added"
    );
    assert_eq!(
        checked(&old, &new, SchemaCompatibility::Full),
        "Incompatible schema change: Full compatibility violation: Field 'a' was deleted"
    );
    let more = schema(&[("b", "string"), ("a", "integer"), ("e", "float")]);
    assert_eq!(
        checked(&old, &more, SchemaCompatibility::Full),
        "Incompatible schema change: Full compatibility violation: Field 'e' was added"
    );
}

#[test]
fn a_type_change_breaks_every_mode_but_the_unchecked_one() {
    let old = schema(&[("a", "integer"), ("b", "string")]);
    let new = object(vec![("fields", object(vec![("a", number(1))]))]);
    for mode in [
        SchemaCompatibility::Backward,
        SchemaCompatibility::Forward,
        SchemaCompatibility::Full,
    ] {
        assert_eq!(
            checked(&old, &new, mode),
            "Incompatible schema change: \
             Field 'a' type changed from String(\"integer\") to Number(1)"
        );
    }
    assert_eq!(checked(&old, &new, SchemaCompatibility::Unchecked), "ok");
}

#[test]
fn schemas_without_fields_are_incompatible() {
    let good = schema(&[]);
    let bad = object(vec![("fields", text("none"))]);
    let old_message = "Incompatible schema change: Old schema missing 'fields' object";
    let new_message = "Incompatible schema change: New schema missing 'fields' object";
    assert_eq!(checked(&bad, &good, SchemaCompatibility::Full), old_message);
    assert_eq!(checked(&bad, &bad, SchemaCompatibility::Full), old_message);
    assert_eq!(checked(&good, &JsonValue::Null, SchemaCompatibility::Full), new_message);
    assert_eq!(checked(&good, &good, SchemaCompatibility::Full), "ok");
    assert_eq!(checked(&bad, &JsonValue::Null, SchemaCompatibility::Unchecked), "ok");
}

#[test]
fn the_full_mode_is_backward_and_forward_together() {
    let schemas = [
        schema(&[]),
        schema(&[("a", "integer")]),
        schema(&[("a", "string")]),
        schema(&[("a", "integer"), ("b", "string")]),
        JsonValue::Null,
    ];
    for old in &schemas {
        for new in &schemas {
            let ok = |a: &JsonValue, b: &JsonValue, mode| {
                SchemaRegistry::check_compatibility(a, b, mode).is_ok()
            };
            let backward = ok(old, new, SchemaCompatibility::Backward);
            let forward = ok(old, new, SchemaCompatibility::Forward);
            assert_eq!(ok(old, new, SchemaCompatibility::Full), backward && forward);
            assert_eq!(ok(new, old, SchemaCompatibility::Forward), backward);
        }
    }
}

#[test]
fn compatible_changes_add_up() {
    let first = schema(&[("a", "integer")]);
    let second = schema(&[("a", "integer"), ("b", "string")]);
    let third = schema(&[("a", "integer"), ("b", "string"), ("c", "float")]);
    assert_eq!(checked(&first, &second, SchemaCompatibility::Backward), "ok");
    assert_eq!(checked(&second, &third, SchemaCompatibility::Backward), "ok");
    assert_eq!(checked(&first, &third, SchemaCompatibility::Backward), "ok");
}

#[test]
fn every_type_accepts_its_own_values() {
    for (type_text, value, accepted) in [
        ("integer", number(1), true),
        ("integer", JsonValue::Number(JsonNumber::from_i64(-1)), true),
        ("integer", float("2.0"), true),
        ("integer", float("2.5"), false),
        ("integer", text("1"), false),
        ("float", number(1), true),
        ("float", float("2.5"), true),
        ("float", JsonValue::Bool(true), false),
        ("string", text(""), true),
        ("string", JsonValue::Null, false),
        ("boolean", JsonValue::Bool(false), true),
        ("boolean", number(0), false),
    ] {
        let result = validated(schema(&[("f", type_text)]), object(vec![("f", value.clone())]));
        let expected = if accepted {
            "ok".to_string()
        } else {
            format!(
                "Validation failed: Field 'f' expected {}, found {}",
                type_text,
                value.to_debug_string()
            )
        };
        assert_eq!(result, expected);
    }
}

#[test]
fn every_fault_of_a_payload_is_named() {
    assert_eq!(
        validated(schema(&[("a", "integer"), ("b", "string")]), object(vec![("b", text("x"))])),
        "Validation failed: Missing required field 'a'"
    );
    assert_eq!(
        validated(schema(&[("a", "date")]), object(vec![("a", text("x"))])),
        "Validation failed: Unsupported schema type: date"
    );
    assert_eq!(
        validated(schema(&[("a", "date")]), object(vec![])),
        "Validation failed: Missing required field 'a'"
    );
    assert_eq!(
        validated(object(vec![("fields", object(vec![("a", number(1))]))]), object(vec![])),
        "Validation failed: Schema type for 'a' is not a string"
    );
    assert_eq!(
        validated(schema(&[("a", "integer")]), float("1.5")),
        "Validation failed: Event payload is not a JSON object"
    );
    assert_eq!(
        validated(schema(&[("a", "integer")]), object(vec![("a", float("1.5"))])),
        "Validation failed: Field 'a' expected integer, found Number(1.5)"
    );
    assert_eq!(
        validated(schema(&[("a", "integer")]), object(vec![("a", number(1)), ("z", text("more"))])),
        "ok"
    );
}

#[test]
fn what_is_validated_at_all() {
    let stored = schema(&[("a", "integer")]);
    for (operation, expected) in [
        (Operation::Create, "Validation failed: Event payload 'after' is missing"),
        (Operation::Update, "Validation failed: Event payload 'after' is missing"),
        (Operation::Delete, "ok"),
        (Operation::Snapshot, "ok"),
        (Operation::Commit, "ok"),
    ] {
        let result = SchemaRegistry::validate_event(Ok(Some(stored.clone())), &event(operation, None));
        assert_eq!(shown(result), expected);
        assert_eq!(shown(SchemaRegistry::validate_event(Ok(None), &event(operation, None))), "ok");
        assert_eq!(
            shown(SchemaRegistry::validate_event(Ok(Some(JsonValue::Null)), &event(operation, None))),
            "Validation failed: Registered schema missing 'fields' object"
        );
        assert_eq!(
            shown(SchemaRegistry::validate_event(Err(failure()), &event(operation, None))),
            "Storage error: disk full"
        );
    }
}

#[test]
fn what_a_backward_compatible_schema_accepts_its_predecessor_accepts() {
    let old = schema(&[("a", "integer")]);
    let new = schema(&[("a", "integer"), ("b", "string")]);
    let payload = || object(vec![("a", number(1)), ("b", text("x"))]);
    assert_eq!(checked(&old, &new, SchemaCompatibility::Backward), "ok");
    assert_eq!(validated(new.clone(), payload()), "ok");
    assert_eq!(validated(old.clone(), payload()), "ok");
    assert_eq!(checked(&new, &old, SchemaCompatibility::Forward), "ok");
    let short = object(vec![("a", number(1))]);
    assert_eq!(validated(old, short.clone()), "ok");
    assert_eq!(validated(new, short), "Validation failed: Missing required field 'b'");
}

#[test]
fn registrations_that_fail() {
    let old = schema(&[("a", "integer")]);
    let new = schema(&[("a", "string")]);
    let refused = SchemaRegistry::register_schema(
        "s",
        Ok(Some(old.clone())),
        new.clone(),
        SchemaCompatibility::Backward,
    );
    assert!(matches!(refused, Err(SchemaError::Incompatibility(_))));
    let failed =
        SchemaRegistry::register_schema("s", Err(failure()), new.clone(), SchemaCompatibility::Full);
    assert_eq!(failed.unwrap_err().to_string(), "Storage error: disk full");
    let unchecked = SchemaRegistry::register_schema(
        "s",
        Ok(Some(old)),
        new.clone(),
        SchemaCompatibility::Unchecked,
    );
    assert!(unchecked.unwrap().schema.same(&new));
    assert_eq!(
        SchemaRegistry::conclude_registration(Err(failure())).unwrap_err().to_string(),
        "Storage error: disk full"
    );
}

#[test]
fn a_refused_handshake_is_sent_to_the_dead_letter_queue() {
    let old = schema(&[("a", "integer")]);
    let new = schema(&[]);
    let handshake = SchemaMigrationHandshake::new("orders", new.clone(), SchemaCompatibility::Full);
    let reason =
        "Incompatible schema change: Full compatibility violation: Field 'a' was deleted";
    match handshake.negotiate_handshake(Ok(Some(old.clone())), NOW) {
        Negotiation::Refuse { letter, result } => {
            assert_eq!(letter.reason, reason);
            assert_eq!(letter.component, "SchemaMigrationHandshake");
            assert_eq!(letter.attempts, 1);
            assert_eq!(letter.event.id, "schema-mutation-orders");
            assert_eq!(letter.event.source_database, "orders");
            assert_eq!(letter.event.source_table_or_collection, "schema_migrations");
            assert_eq!(letter.event.operation, Operation::Update);
            assert_eq!(letter.event.timestamp, NOW);
            assert_eq!(letter.event.key.to_string(), "{\"source_id\":\"orders\"}");
            assert!(letter.event.before.unwrap().same(&old));
            assert!(letter.event.after.unwrap().same(&new));
            assert!(letter.event.transaction_id.is_none());
            assert_eq!(letter.event.offset, "0");
            assert_eq!(
                result,
                HandshakeResult::Rejected { reason: reason.to_string(), routed_to_dlq: true }
            );
            assert_eq!(result.clone(), result);
        }
        _ => panic!("a breaking change was not refused"),
    }
}

#[test]
fn handshakes_fail_with_the_state_store() {
    let proposal =
        || SchemaMigrationHandshake::new("orders", schema(&[]), SchemaCompatibility::Backward);
    match proposal().negotiate_handshake(Err(failure()), NOW) {
        Negotiation::Over(result) => assert_eq!(
            result,
            HandshakeResult::Rejected {
                reason: "Failed to read existing schema: disk full".to_string(),
                routed_to_dlq: false,
            }
        ),
        _ => panic!("went on without the current schema"),
    }
    match proposal().negotiate_handshake(Ok(None), NOW) {
        Negotiation::Register(pending) => match pending.registered(7).saved(Err(failure()), NOW) {
            Conclusion::Over(result) => assert_eq!(
                result,
                HandshakeResult::Rejected {
                    reason: "Failed to store schema: disk full".to_string(),
                    routed_to_dlq: false,
                }
            ),
            _ => panic!("announced what was not saved"),
        },
        _ => panic!("the first schema was not registered"),
    }
}

#[test]
fn an_accepted_handshake_is_announced() {
    let old = schema(&[("a", "integer")]);
    let new = schema(&[("b", "string"), ("a", "integer")]);
    let handshake = SchemaMigrationHandshake::new("orders", new.clone(), SchemaCompatibility::Backward);
    match handshake.negotiate_handshake(Ok(Some(old.clone())), NOW) {
        Negotiation::Register(pending) => {
            assert_eq!(pending.schema_text, "{\"fields\":{\"a\":\"integer\",\"b\":\"string\"}}");
            match pending.registered(7).saved(Ok(()), NOW) {
                Conclusion::Announce { event, result } => {
                    assert_eq!(result, HandshakeResult::Accepted { schema_id: 7 });
                    assert_eq!(event.schema_id, 7);
                    assert_eq!(event.source_id, "orders");
                    assert!(event.old_schema.unwrap().same(&old));
                    assert!(event.new_schema.same(&new));
                    assert_eq!(event.compatibility_mode, SchemaCompatibility::Backward);
                    assert_eq!(event.timestamp, NOW);
                }
                _ => panic!("not announced"),
            }
        }
        _ => panic!("a compatible change was refused"),
    }
}

#[test]
fn a_copied_announcement_says_the_same() {
    let old = schema(&[("a", "integer")]);
    let new = schema(&[("a", "integer"), ("b", "string")]);
    let event = SchemaMigrationEvent {
        source_id: "orders".to_string(),
        schema_id: 7,
        old_schema: Some(old.clone()),
        new_schema: new.clone(),
        compatibility_mode: SchemaCompatibility::Full,
        timestamp: NOW,
    };
    let copy = event.clone();
    assert_eq!(copy.source_id, "orders");
    assert_eq!(copy.schema_id, 7);
    assert!(copy.old_schema.unwrap().same(&old));
    assert!(copy.new_schema.same(&new));
    assert_eq!(copy.compatibility_mode, SchemaCompatibility::Full);
    assert_eq!(copy.timestamp, NOW);
}

#[test]
fn schemas_without_fields_follow_one_another_only_unchecked() {
    let with = schema(&[("a", "integer")]);
    let without = object(vec![]);
    for (old, new) in [(&with, &without), (&without, &with), (&without, &without)] {
        for mode in [
            SchemaCompatibility::Backward,
            SchemaCompatibility::Forward,
            SchemaCompatibility::Full,
        ] {
            assert!(SchemaRegistry::check_compatibility(old, new, mode).is_err());
        }
        let mode = SchemaCompatibility::Unchecked;
        assert!(SchemaRegistry::check_compatibility(old, new, mode).is_ok());
    }
}
