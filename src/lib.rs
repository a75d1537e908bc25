//! An append-only store of fixed-width signed 32-bit records, addressed by
//! their position (the row id).

pub mod record;
pub mod store;
pub mod laws;
pub mod messages;
