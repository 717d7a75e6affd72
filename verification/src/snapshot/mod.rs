//! Consistent snapshots of sources that go on changing.
pub mod chunk;
pub mod laws;
pub mod spooler;
pub mod watermark;
