//! The decision logic of a change-data-capture pipeline: reconciling snapshot chunks with the
//! replication log between two watermarks, spooling events under backpressure, and keeping
//! registered schemas compatible.
pub mod text;
pub mod json;
pub mod source;
pub mod storage;
pub mod snapshot;
