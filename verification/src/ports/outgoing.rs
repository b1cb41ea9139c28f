//! What the broker calls.
pub mod message_store;
pub mod metadata_store;
