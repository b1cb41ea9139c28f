//! The stores behind the broker and the on-disk formats they read.
pub mod disk_store;
pub mod kraft_metadata_store;
pub mod memory_store;
pub mod protocol;
