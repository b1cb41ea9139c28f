//! The raw framing layer and the broker's view of topics.
pub mod error;
pub mod message;
pub mod protocol;
