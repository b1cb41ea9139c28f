//! What the transport calls.
pub mod message_handler;
pub mod protocol_parser;
