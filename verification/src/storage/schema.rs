//! The schema registry.
use vstd::prelude::*;

use crate::json::model::Json;
use crate::json::value::JsonValue;
use crate::source::{Change, ChangeEvent, Operation};
use crate::storage::compatibility::{self, SchemaCompatibility};
use crate::storage::error::{SchemaError, SchemaFault, StorageError};
use crate::storage::validation;

verus! {

/// What the state store answered when asked for a source's schema.
pub open spec fn lookup(stored: Result<Option<JsonValue>, StorageError>) -> Result<
    Option<Json>,
    Seq<char>,
> {
    match stored {
        Ok(schema) => Ok(crate::source::json_option(schema)),
        Err(error) => Err(error@),
    }
}

/// What the state store answered when it was told to save a schema.
pub open spec fn acknowledgement(saved: Result<(), StorageError>) -> Result<(), Seq<char>> {
    match saved {
        Ok(()) => Ok(()),
        Err(error) => Err(error@),
    }
}

/// Why a schema is not registered over what the store holds, where it is not.
pub open spec fn registration_fault(
    stored: Result<Option<Json>, Seq<char>>,
    new_schema: Json,
    mode: SchemaCompatibility,
) -> Option<SchemaFault> {
    match stored {
        Err(message) => Some(SchemaFault::Storage(message)),
        Ok(None) => None,
        Ok(Some(old_schema)) => match compatibility::violation(old_schema, new_schema, mode) {
            Some(message) => Some(SchemaFault::Incompatibility(message)),
            None => None,
        },
    }
}

/// Why an event is not accepted under what the store holds, where it is not. Without a schema
/// every event is; under one, only the payloads of created and updated rows are looked at.
pub open spec fn event_fault(
    stored: Result<Option<Json>, Seq<char>>,
    change: Change,
) -> Option<SchemaFault> {
    match stored {
        Err(message) => Some(SchemaFault::Storage(message)),
        Ok(None) => None,
        Ok(Some(schema)) => match (compatibility::fields_of(schema), change.after) {
            (None, _) => Some(
                SchemaFault::Validation("Registered schema missing 'fields' object"@),
            ),
            (Some(fields), after) => {
                if change.operation != Operation::Create && change.operation != Operation::Update {
                    None
                } else {
                    match after {
                        None => Some(SchemaFault::Validation("Event payload 'after' is missing"@)),
                        Some(Json::Object(payload)) => match validation::payload_fault(
                            fields,
                            payload,
                            0,
                        ) {
                            Some(message) => Some(SchemaFault::Validation(message)),
                            None => None,
                        },
                        Some(_) => Some(
                            SchemaFault::Validation("Event payload is not a JSON object"@),
                        ),
                    }
                }
            },
        },
    }
}

/// The write that registers a schema with the state store.
#[derive(Debug)]
pub struct SchemaWrite {
    pub source_id: String,
    pub schema: JsonValue,
}

/// Decides on schemas and on the events under them.
pub struct SchemaRegistry;

impl SchemaRegistry {
    /// Registers a new schema for a source over `stored`, which is what the state store answered
    /// for that source: gives the write that is due, or says why there is none. What the store
    /// makes of the write goes to [`SchemaRegistry::conclude_registration`].
    pub fn register_schema(
        source_id: &str,
        stored: Result<Option<JsonValue>, StorageError>,
        new_schema: JsonValue,
        mode: SchemaCompatibility,
    ) -> (r: Result<SchemaWrite, SchemaError>)
        ensures
            match registration_fault(lookup(stored), new_schema@, mode) {
                Some(fault) => r is Err && r->Err_0@ == fault,
                None => r is Ok && r->Ok_0.source_id@ == source_id@ && r->Ok_0.schema@
                    == new_schema@,
            },
    {
        match stored {
            Err(error) => {
                return Err(SchemaError::Storage(error));
            },
            Ok(None) => {},
            Ok(Some(old_schema)) => {
                match SchemaRegistry::check_compatibility(&old_schema, &new_schema, mode) {
                    Ok(()) => {},
                    Err(error) => {
                        return Err(error);
                    },
                }
            },
        }
        Ok(SchemaWrite { source_id: source_id.to_owned(), schema: new_schema })
    }

    /// The outcome of a registration whose write the state store has answered.
    pub fn conclude_registration(saved: Result<(), StorageError>) -> (r: Result<(), SchemaError>)
        ensures
            match acknowledgement(saved) {
                Ok(()) => r is Ok,
                Err(message) => r is Err && r->Err_0@ == SchemaFault::Storage(message),
            },
    {
        match saved {
            Ok(()) => Ok(()),
            Err(error) => Err(SchemaError::Storage(error)),
        }
    }

    /// Evaluates whether `new_schema` is compatible with `old_schema` under the mode.
    pub fn check_compatibility(
        old_schema: &JsonValue,
        new_schema: &JsonValue,
        mode: SchemaCompatibility,
    ) -> (r: Result<(), SchemaError>)
        ensures
            match compatibility::violation(old_schema@, new_schema@, mode) {
                Some(message) => r is Err && r->Err_0@ == SchemaFault::Incompatibility(message),
                None => r is Ok,
            },
    {
        if mode == SchemaCompatibility::Unchecked {
            return Ok(());
        }
        let old_fields = match compatibility::schema_fields(old_schema) {
            Some(fields) => fields,
            None => {
                return Err(
                    SchemaError::Incompatibility("Old schema missing 'fields' object".to_owned()),
                );
            },
        };
        let new_fields = match compatibility::schema_fields(new_schema) {
            Some(fields) => fields,
            None => {
                return Err(
                    SchemaError::Incompatibility("New schema missing 'fields' object".to_owned()),
                );
            },
        };
        match compatibility::check_fields(old_fields, new_fields, mode) {
            Ok(()) => Ok(()),
            Err(message) => Err(SchemaError::Incompatibility(message)),
        }
    }

    /// Validates a change event's payload against `stored`, which is what the state store answered
    /// when asked for the schema of the event's source.
    pub fn validate_event(
        stored: Result<Option<JsonValue>, StorageError>,
        event: &ChangeEvent,
    ) -> (r: Result<(), SchemaError>)
        ensures
            match event_fault(lookup(stored), event@) {
                Some(fault) => r is Err && r->Err_0@ == fault,
                None => r is Ok,
            },
    {
        let schema = match stored {
            Err(error) => {
                return Err(SchemaError::Storage(error));
            },
            Ok(None) => {
                return Ok(());
            },
            Ok(Some(schema)) => schema,
        };
        let fields = match compatibility::schema_fields(&schema) {
            Some(fields) => fields,
            None => {
                return Err(
                    SchemaError::Validation(
                        "Registered schema missing 'fields' object".to_owned(),
                    ),
                );
            },
        };
        if event.operation != Operation::Create && event.operation != Operation::Update {
            return Ok(());
        }
        match &event.after {
            None => Err(SchemaError::Validation("Event payload 'after' is missing".to_owned())),
            Some(payload) => match payload.as_object() {
                None => Err(
                    SchemaError::Validation("Event payload is not a JSON object".to_owned()),
                ),
                Some(payload) => match validation::check_payload(fields, payload) {
                    Ok(()) => Ok(()),
                    Err(message) => Err(SchemaError::Validation(message)),
                },
            },
        }
    }
}

} // verus!
