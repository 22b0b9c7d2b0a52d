//! Stores that are read and written in step with their caller.

pub mod error;
pub mod event_store;
pub mod memory_store;
pub mod query_store;
pub mod reader;
pub mod writer;
