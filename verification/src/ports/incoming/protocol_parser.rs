//! The codec that a transport needs.
use crate::adapters::incoming::protocol::messages::encoding::{encode_body, fits_frame};
use crate::adapters::incoming::protocol::messages::request::KafkaRequest;
use crate::adapters::incoming::protocol::messages::response::KafkaResponse;
use crate::application::error::ApplicationError;
use vstd::prelude::*;

verus! {

/// Whatever turns bytes into requests and responses into bytes.
pub trait ProtocolParser {
    /// Decodes a request from a frame without its length prefix.
    fn parse_request(&self, data: &[u8]) -> Result<KafkaRequest, ApplicationError>;

    /// Encodes a response together with its frame.
    fn encode_response(&self, response: KafkaResponse) -> Vec<u8>
        requires
            fits_frame(encode_body(response.deep_view())),
    ;
}

} // verus!
