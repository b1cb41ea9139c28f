//! What arrives from clients: request decoding and response encoding.
pub mod kafka_protocol_parser;
pub mod protocol;
