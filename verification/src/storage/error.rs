//! The errors of schema registration and validation.
use vstd::prelude::*;

use crate::text;

verus! {

/// A failure of the state store, known here by the text that it shows.
#[derive(Debug)]
pub struct StorageError {
    pub message: String,
}

impl View for StorageError {
    type V = Seq<char>;

    open spec fn view(&self) -> Seq<char> {
        self.message@
    }
}

/// Why a schema was not registered, or an event not accepted.
#[derive(Debug)]
pub enum SchemaError {
    Storage(StorageError),
    Incompatibility(String),
    Validation(String),
}

/// What a [`SchemaError`] says.
pub enum SchemaFault {
    Storage(Seq<char>),
    Incompatibility(Seq<char>),
    Validation(Seq<char>),
}

impl SchemaFault {
    /// The text that the error shows.
    pub open spec fn text(self) -> Seq<char> {
        match self {
            SchemaFault::Storage(message) => "Storage error: "@ + message,
            SchemaFault::Incompatibility(message) => "Incompatible schema change: "@ + message,
            SchemaFault::Validation(message) => "Validation failed: "@ + message,
        }
    }
}

impl View for SchemaError {
    type V = SchemaFault;

    open spec fn view(&self) -> SchemaFault {
        match self {
            SchemaError::Storage(error) => SchemaFault::Storage(error@),
            SchemaError::Incompatibility(message) => SchemaFault::Incompatibility(message@),
            SchemaError::Validation(message) => SchemaFault::Validation(message@),
        }
    }
}

impl SchemaError {
    /// The text that the error shows.
    pub fn to_string(&self) -> (r: String)
        ensures
            r@ == self@.text(),
    {
        match self {
            SchemaError::Storage(error) => text::join("Storage error: ", error.message.as_str()),
            SchemaError::Incompatibility(message) => text::join(
                "Incompatible schema change: ",
                message.as_str(),
            ),
            SchemaError::Validation(message) => text::join(
                "Validation failed: ",
                message.as_str(),
            ),
        }
    }
}

} // verus!
