//! The wire formats: what arrives from clients and what is read from disk.
pub mod incoming;
pub mod outgoing;
