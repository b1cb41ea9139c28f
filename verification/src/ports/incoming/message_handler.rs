//! The entry point for decoded requests.
use crate::adapters::incoming::protocol::messages::request::KafkaRequest;
use crate::adapters::incoming::protocol::messages::response::KafkaResponse;
use crate::application::error::ApplicationError;
use vstd::prelude::*;

verus! {

/// A response whose body has been encoded already.
pub struct Response {
    pub correlation_id: i32,
    pub payload: Vec<u8>,
}

/// Whatever answers requests.
pub trait MessageHandler {
    /// Answers one request.
    fn handle_request(&self, request: KafkaRequest) -> Result<KafkaResponse, ApplicationError>;
}

} // verus!
