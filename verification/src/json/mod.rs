//! JSON values: what they mean, what they are compared and looked up by, and how they are written.
pub mod laws;
pub mod model;
pub mod number;
pub mod outside;
pub mod value;
