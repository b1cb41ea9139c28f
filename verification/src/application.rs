//! Request dispatch and the broker's error type.
pub mod broker;
pub mod error;
