//! Lifecycle tracking for asynchronous tasks, with their persisted record format.

pub mod codec;
pub mod record;
pub mod table;
pub mod task;
