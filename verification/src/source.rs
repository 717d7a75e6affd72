//! The change events that sources emit.
use vstd::prelude::*;

use crate::json::model::Json;
use crate::json::value::JsonValue;

verus! {

/// What happened to a row.
#[derive(Clone, Copy, Debug, PartialEq, Eq, Structural)]
pub enum Operation {
    Create,
    Update,
    Delete,
    /// The row was read by a snapshot.
    Snapshot,
    /// A transaction was committed.
    Commit,
}

/// A moment in UTC: whole seconds since the epoch, and nanoseconds since the last of them.
#[derive(Clone, Copy, Debug, PartialEq, Eq, Structural)]
pub struct Timestamp {
    pub seconds: i64,
    pub nanoseconds: u32,
}

/// A change to one row of a table, or to one document of a collection.
#[derive(Debug)]
pub struct ChangeEvent {
    pub id: String,
    pub source_database: String,
    pub source_table_or_collection: String,
    pub operation: Operation,
    pub timestamp: Timestamp,
    /// What the row is known by.
    pub key: JsonValue,
    /// The row as it was.
    pub before: Option<JsonValue>,
    /// The row as it is now.
    pub after: Option<JsonValue>,
    pub transaction_id: Option<String>,
    /// Where the event stands in the source's log.
    pub offset: String,
}

/// What a [`ChangeEvent`] says.
#[verifier::ext_equal]
pub struct Change {
    pub id: Seq<char>,
    pub source_database: Seq<char>,
    pub source_table_or_collection: Seq<char>,
    pub operation: Operation,
    pub timestamp: Timestamp,
    pub key: Json,
    pub before: Option<Json>,
    pub after: Option<Json>,
    pub transaction_id: Option<Seq<char>>,
    pub offset: Seq<char>,
}

/// What an optional value is.
pub open spec fn json_option(value: Option<JsonValue>) -> Option<Json> {
    match value {
        Some(value) => Some(value@),
        None => None,
    }
}

/// What an optional text says.
pub open spec fn text_option(text: Option<String>) -> Option<Seq<char>> {
    match text {
        Some(text) => Some(text@),
        None => None,
    }
}

/// What each of the events says.
pub open spec fn changes(events: Seq<ChangeEvent>) -> Seq<Change> {
    events.map_values(|event: ChangeEvent| event@)
}

impl View for ChangeEvent {
    type V = Change;

    open spec fn view(&self) -> Change {
        Change {
            id: self.id@,
            source_database: self.source_database@,
            source_table_or_collection: self.source_table_or_collection@,
            operation: self.operation,
            timestamp: self.timestamp,
            key: self.key@,
            before: json_option(self.before),
            after: json_option(self.after),
            transaction_id: text_option(self.transaction_id),
            offset: self.offset@,
        }
    }
}

/// An event says what its fields say, all of them; several events say, in their order, what each
/// says.
pub proof fn law_what_an_event_says(event: ChangeEvent, events: Seq<ChangeEvent>)
    ensures
        event@.id == event.id@,
        event@.source_database == event.source_database@,
        event@.source_table_or_collection == event.source_table_or_collection@,
        event@.operation == event.operation,
        event@.timestamp == event.timestamp,
        event@.key == event.key@,
        match event.before {
            Some(before) => event@.before == Some(before@),
            None => event@.before is None,
        },
        match event.after {
            Some(after) => event@.after == Some(after@),
            None => event@.after is None,
        },
        match event.transaction_id {
            Some(id) => event@.transaction_id == Some(id@),
            None => event@.transaction_id is None,
        },
        event@.offset == event.offset@,
        changes(events).len() == events.len(),
        forall|i: int| 0 <= i < events.len() ==> #[trigger] changes(events)[i] == events[i]@,
{
}

/// An optional value or text is there exactly where what it says is.
pub proof fn law_what_an_option_says(value: Option<JsonValue>, text: Option<String>)
    ensures
        match value {
            Some(value) => json_option(Some(value)) == Some(value@),
            None => json_option(None) is None,
        },
        match text {
            Some(text) => text_option(Some(text)) == Some(text@),
            None => text_option(None) is None,
        },
{
}

/// A copy of an optional value.
pub fn copy_json(value: &Option<JsonValue>) -> (r: Option<JsonValue>)
    ensures
        json_option(r) == json_option(*value),
{
    match value {
        Some(value) => Some(value.clone()),
        None => None,
    }
}

/// A copy of an optional text.
pub fn copy_text(text: &Option<String>) -> (r: Option<String>)
    ensures
        r == *text,
{
    match text {
        Some(text) => Some(text.clone()),
        None => None,
    }
}

impl Clone for ChangeEvent {
    fn clone(&self) -> (r: ChangeEvent)
        ensures
            r@ == self@,
    {
        ChangeEvent {
            id: self.id.clone(),
            source_database: self.source_database.clone(),
            source_table_or_collection: self.source_table_or_collection.clone(),
            operation: self.operation,
            timestamp: self.timestamp,
            key: self.key.clone(),
            before: copy_json(&self.before),
            after: copy_json(&self.after),
            transaction_id: copy_text(&self.transaction_id),
            offset: self.offset.clone(),
        }
    }
}

} // verus!
