//! Negotiating a new schema version with everyone concerned.
//!
//! A handshake asks the state store for the current schema, registers the new one with the schema
//! registry service, saves it, and announces it; a breaking change goes to the dead letter queue
//! instead. What is asked and told stands in the steps below, and each step takes the reply.
use vstd::prelude::*;

use crate::json::model::Json;
use crate::json::value::{JsonObject, JsonValue};
use crate::source::{Change, ChangeEvent, Operation, Timestamp};
use crate::storage::compatibility::{self, SchemaCompatibility};
use crate::storage::error::{SchemaFault, StorageError};
use crate::storage::schema::SchemaRegistry;
use crate::text;

verus! {

/// The announcement of a new schema version.
#[derive(Debug)]
pub struct SchemaMigrationEvent {
    pub source_id: String,
    pub schema_id: u32,
    pub old_schema: Option<JsonValue>,
    pub new_schema: JsonValue,
    pub compatibility_mode: SchemaCompatibility,
    pub timestamp: Timestamp,
}

/// What a [`SchemaMigrationEvent`] says.
pub struct Migration {
    pub source_id: Seq<char>,
    pub schema_id: u32,
    pub old_schema: Option<Json>,
    pub new_schema: Json,
    pub compatibility_mode: SchemaCompatibility,
    pub timestamp: Timestamp,
}

impl View for SchemaMigrationEvent {
    type V = Migration;

    open spec fn view(&self) -> Migration {
        Migration {
            source_id: self.source_id@,
            schema_id: self.schema_id,
            old_schema: crate::source::json_option(self.old_schema),
            new_schema: self.new_schema@,
            compatibility_mode: self.compatibility_mode,
            timestamp: self.timestamp,
        }
    }
}

impl Clone for SchemaMigrationEvent {
    fn clone(&self) -> (r: SchemaMigrationEvent)
        ensures
            r@ == self@,
    {
        SchemaMigrationEvent {
            source_id: self.source_id.clone(),
            schema_id: self.schema_id,
            old_schema: crate::source::copy_json(&self.old_schema),
            new_schema: self.new_schema.clone(),
            compatibility_mode: self.compatibility_mode,
            timestamp: self.timestamp,
        }
    }
}

/// How a handshake ended.
#[derive(Debug, PartialEq, Eq)]
pub enum HandshakeResult {
    Accepted { schema_id: u32 },
    Rejected { reason: String, routed_to_dlq: bool },
}

/// What a [`HandshakeResult`] says.
pub enum Outcome {
    Accepted { schema_id: u32 },
    Rejected { reason: Seq<char>, routed_to_dlq: bool },
}

impl View for HandshakeResult {
    type V = Outcome;

    open spec fn view(&self) -> Outcome {
        match self {
            HandshakeResult::Accepted { schema_id } => Outcome::Accepted { schema_id: *schema_id },
            HandshakeResult::Rejected { reason, routed_to_dlq } => Outcome::Rejected {
                reason: reason@,
                routed_to_dlq: *routed_to_dlq,
            },
        }
    }
}

impl Clone for HandshakeResult {
    fn clone(&self) -> (r: HandshakeResult)
        ensures
            r@ == self@,
    {
        match self {
            HandshakeResult::Accepted { schema_id } => HandshakeResult::Accepted {
                schema_id: *schema_id,
            },
            HandshakeResult::Rejected { reason, routed_to_dlq } => HandshakeResult::Rejected {
                reason: reason.clone(),
                routed_to_dlq: *routed_to_dlq,
            },
        }
    }
}

/// What goes to the dead letter queue.
#[derive(Debug)]
pub struct DeadLetter {
    pub event: ChangeEvent,
    pub reason: String,
    /// The part of the pipeline that gave up on the event.
    pub component: String,
    pub attempts: u32,
}

/// What a [`DeadLetter`] says.
pub struct Refusal {
    pub event: Change,
    pub reason: Seq<char>,
    pub component: Seq<char>,
    pub attempts: u32,
}

impl View for DeadLetter {
    type V = Refusal;

    open spec fn view(&self) -> Refusal {
        Refusal {
            event: self.event@,
            reason: self.reason@,
            component: self.component@,
            attempts: self.attempts,
        }
    }
}

/// A new schema for a source, to be negotiated.
#[derive(Debug)]
pub struct SchemaMigrationHandshake {
    pub source_id: String,
    pub new_schema: JsonValue,
    pub mode: SchemaCompatibility,
}

/// What a [`SchemaMigrationHandshake`] is about.
pub struct Proposal {
    pub source_id: Seq<char>,
    pub new_schema: Json,
    pub mode: SchemaCompatibility,
}

impl View for SchemaMigrationHandshake {
    type V = Proposal;

    open spec fn view(&self) -> Proposal {
        Proposal { source_id: self.source_id@, new_schema: self.new_schema@, mode: self.mode }
    }
}

/// A handshake that waits for the schema registry service: it is to register `schema_text` under
/// the handshake's source.
#[derive(Debug)]
pub struct PendingRegistration {
    pub handshake: SchemaMigrationHandshake,
    pub old_schema: Option<JsonValue>,
    pub schema_text: String,
}

/// What a [`PendingRegistration`] stands at.
pub struct Registration {
    pub proposal: Proposal,
    pub old_schema: Option<Json>,
    pub schema_text: Seq<char>,
}

impl View for PendingRegistration {
    type V = Registration;

    open spec fn view(&self) -> Registration {
        Registration {
            proposal: self.handshake@,
            old_schema: crate::source::json_option(self.old_schema),
            schema_text: self.schema_text@,
        }
    }
}

/// A handshake that waits for the state store: it is to save the handshake's new schema under its
/// source.
#[derive(Debug)]
pub struct PendingSave {
    pub handshake: SchemaMigrationHandshake,
    pub old_schema: Option<JsonValue>,
    pub schema_id: u32,
}

/// What a [`PendingSave`] stands at.
pub struct Save {
    pub proposal: Proposal,
    pub old_schema: Option<Json>,
    pub schema_id: u32,
}

impl View for PendingSave {
    type V = Save;

    open spec fn view(&self) -> Save {
        Save {
            proposal: self.handshake@,
            old_schema: crate::source::json_option(self.old_schema),
            schema_id: self.schema_id,
        }
    }
}

/// What a handshake does once the state store has answered for the source's current schema.
#[derive(Debug)]
pub enum Negotiation {
    /// It is over.
    Over(HandshakeResult),
    /// It sends the letter to the dead letter queue and, whatever becomes of it there, is over.
    Refuse { letter: DeadLetter, result: HandshakeResult },
    /// It turns to the schema registry service.
    Register(PendingRegistration),
}

/// What a [`Negotiation`] says.
pub enum NegotiationStep {
    Over(Outcome),
    Refuse { letter: Refusal, result: Outcome },
    Register(Registration),
}

impl View for Negotiation {
    type V = NegotiationStep;

    open spec fn view(&self) -> NegotiationStep {
        match self {
            Negotiation::Over(result) => NegotiationStep::Over(result@),
            Negotiation::Refuse { letter, result } => NegotiationStep::Refuse {
                letter: letter@,
                result: result@,
            },
            Negotiation::Register(pending) => NegotiationStep::Register(pending@),
        }
    }
}

/// What a handshake does once the state store has answered to the save.
#[derive(Debug)]
pub enum Conclusion {
    /// It is over.
    Over(HandshakeResult),
    /// It announces the new version to whoever listens and, whether anyone does, is over.
    Announce { event: SchemaMigrationEvent, result: HandshakeResult },
}

/// What a [`Conclusion`] says.
pub enum ConclusionStep {
    Over(Outcome),
    Announce { event: Migration, result: Outcome },
}

impl View for Conclusion {
    type V = ConclusionStep;

    open spec fn view(&self) -> ConclusionStep {
        match self {
            Conclusion::Over(result) => ConclusionStep::Over(result@),
            Conclusion::Announce { event, result } => ConclusionStep::Announce {
                event: event@,
                result: result@,
            },
        }
    }
}

/// The event by which the dead letter queue knows a refused schema change.
pub open spec fn mutation_event(
    proposal: Proposal,
    old_schema: Option<Json>,
    now: Timestamp,
) -> Change {
    Change {
        id: "schema-mutation-"@ + proposal.source_id,
        source_database: proposal.source_id,
        source_table_or_collection: "schema_migrations"@,
        operation: Operation::Update,
        timestamp: now,
        key: Json::Object(seq![("source_id"@, Json::String(proposal.source_id))]),
        before: old_schema,
        after: Some(proposal.new_schema),
        transaction_id: None,
        offset: "0"@,
    }
}

/// What a handshake does once the state store has answered for the source's current schema: it is
/// rejected where the store failed, refused where the change breaks the mode, and else goes on to
/// register the new schema's compact text.
pub open spec fn negotiation(
    proposal: Proposal,
    stored: Result<Option<Json>, Seq<char>>,
    now: Timestamp,
) -> NegotiationStep {
    match stored {
        Err(message) => NegotiationStep::Over(
            Outcome::Rejected {
                reason: "Failed to read existing schema: "@ + message,
                routed_to_dlq: false,
            },
        ),
        Ok(old_schema) => match registration_violation(proposal, old_schema) {
            Some(message) => {
                let reason = SchemaFault::Incompatibility(message).text();
                NegotiationStep::Refuse {
                    letter: Refusal {
                        event: mutation_event(proposal, old_schema, now),
                        reason,
                        component: "SchemaMigrationHandshake"@,
                        attempts: 1,
                    },
                    result: Outcome::Rejected { reason, routed_to_dlq: true },
                }
            },
            None => NegotiationStep::Register(
                Registration {
                    proposal,
                    old_schema,
                    schema_text: crate::json::outside::json_text(proposal.new_schema),
                },
            ),
        },
    }
}

/// Why the proposal breaks its mode, where there is a schema that it would replace and it does.
pub open spec fn registration_violation(proposal: Proposal, old_schema: Option<Json>) -> Option<
    Seq<char>,
> {
    match old_schema {
        Some(old_schema) => compatibility::violation(
            old_schema,
            proposal.new_schema,
            proposal.mode,
        ),
        None => None,
    }
}

/// What a handshake does once the state store has answered to the save: it is rejected where the
/// store failed, and else accepted and announced.
pub open spec fn conclusion(
    save: Save,
    saved: Result<(), Seq<char>>,
    now: Timestamp,
) -> ConclusionStep {
    match saved {
        Err(message) => ConclusionStep::Over(
            Outcome::Rejected {
                reason: "Failed to store schema: "@ + message,
                routed_to_dlq: false,
            },
        ),
        Ok(()) => ConclusionStep::Announce {
            event: Migration {
                source_id: save.proposal.source_id,
                schema_id: save.schema_id,
                old_schema: save.old_schema,
                new_schema: save.proposal.new_schema,
                compatibility_mode: save.proposal.mode,
                timestamp: now,
            },
            result: Outcome::Accepted { schema_id: save.schema_id },
        },
    }
}

impl SchemaMigrationHandshake {
    /// A handshake on a new schema for a source. It begins with the question to the state store
    /// for that source's current schema.
    pub fn new(source_id: &str, new_schema: JsonValue, mode: SchemaCompatibility) -> (r:
        SchemaMigrationHandshake)
        ensures
            r@ == (Proposal { source_id: source_id@, new_schema: new_schema@, mode }),
    {
        SchemaMigrationHandshake { source_id: source_id.to_owned(), new_schema, mode }
    }

    /// Takes the state store's answer for the source's current schema.
    pub fn negotiate_handshake(
        self,
        stored: Result<Option<JsonValue>, StorageError>,
        now: Timestamp,
    ) -> (r: Negotiation)
        ensures
            r@ == negotiation(self@, crate::storage::schema::lookup(stored), now),
    {
        let old_schema = match stored {
            Ok(old_schema) => old_schema,
            Err(error) => {
                return Negotiation::Over(
                    HandshakeResult::Rejected {
                        reason: text::join(
                            "Failed to read existing schema: ",
                            error.message.as_str(),
                        ),
                        routed_to_dlq: false,
                    },
                );
            },
        };
        let verdict = match &old_schema {
            Some(old) => SchemaRegistry::check_compatibility(old, &self.new_schema, self.mode),
            None => Ok(()),
        };
        match verdict {
            Err(error) => {
                let reason = error.to_string();
                let event = self.mutation_event(old_schema, now);
                Negotiation::Refuse {
                    letter: DeadLetter {
                        event,
                        reason: reason.clone(),
                        component: "SchemaMigrationHandshake".to_owned(),
                        attempts: 1,
                    },
                    result: HandshakeResult::Rejected { reason, routed_to_dlq: true },
                }
            },
            Ok(()) => {
                let schema_text = self.new_schema.to_string();
                Negotiation::Register(
                    PendingRegistration { handshake: self, old_schema, schema_text },
                )
            },
        }
    }

    /// The event by which the dead letter queue knows the refused schema change.
    fn mutation_event(self, old_schema: Option<JsonValue>, now: Timestamp) -> (r: ChangeEvent)
        ensures
            r@ == mutation_event(self@, crate::source::json_option(old_schema), now),
    {
        let mut key = JsonObject::new();
        key.insert("source_id".to_owned(), JsonValue::String(self.source_id.clone()));
        proof {
            assert(key@ =~= seq![("source_id"@, Json::String(self.source_id@))]);
        }
        ChangeEvent {
            id: text::join("schema-mutation-", self.source_id.as_str()),
            source_database: self.source_id,
            source_table_or_collection: "schema_migrations".to_owned(),
            operation: Operation::Update,
            timestamp: now,
            key: JsonValue::Object(key),
            before: old_schema,
            after: Some(self.new_schema),
            transaction_id: None,
            offset: "0".to_owned(),
        }
    }
}

impl PendingRegistration {
    /// Takes the identifier that the schema registry service gave to the schema.
    pub fn registered(self, schema_id: u32) -> (r: PendingSave)
        ensures
            r@ == (Save {
                proposal: self@.proposal,
                old_schema: self@.old_schema,
                schema_id,
            }),
    {
        PendingSave { handshake: self.handshake, old_schema: self.old_schema, schema_id }
    }
}

impl PendingSave {
    /// Takes the state store's answer to the save.
    pub fn saved(self, saved: Result<(), StorageError>, now: Timestamp) -> (r: Conclusion)
        ensures
            r@ == conclusion(self@, crate::storage::schema::acknowledgement(saved), now),
    {
        match saved {
            Err(error) => Conclusion::Over(
                HandshakeResult::Rejected {
                    reason: text::join("Failed to store schema: ", error.message.as_str()),
                    routed_to_dlq: false,
                },
            ),
            Ok(()) => Conclusion::Announce {
                event: SchemaMigrationEvent {
                    source_id: self.handshake.source_id,
                    schema_id: self.schema_id,
                    old_schema: self.old_schema,
                    new_schema: self.handshake.new_schema,
                    compatibility_mode: self.handshake.mode,
                    timestamp: now,
                },
                result: HandshakeResult::Accepted { schema_id: self.schema_id },
            },
        }
    }
}

} // verus!
