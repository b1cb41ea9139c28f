//! A minimal Kafka broker core: wire codec, request decoding, metadata-log
//! reading and request dispatch, with machine-checked contracts.
pub mod adapters;
pub mod application;
pub mod codec;
pub mod config;
pub mod domain;
pub mod ports;
