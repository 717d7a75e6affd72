//! Registered schemas: what may replace them, and which events they accept.
pub mod compatibility;
pub mod error;
pub mod handshake;
pub mod laws;
pub mod schema;
pub mod validation;
