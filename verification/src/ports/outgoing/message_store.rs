//! Where messages are kept.
use crate::application::error::ApplicationError;
use vstd::prelude::*;

verus! {

/// A message on its way into a partition log.
#[derive(Debug, Clone, PartialEq)]
pub struct KafkaMessage {
    pub topic_id: String,
    pub partition: i32,
    pub offset: i64,
    pub payload: Vec<u8>,
}

/// Whatever keeps messages.
pub trait MessageStore {
    /// Keeps one message.
    fn store_message(&self, message: KafkaMessage) -> Result<(), ApplicationError>;

    /// The stored bytes of a partition from `offset` on, if there are any.
    fn read_messages(&self, topic_id: &str, partition: i32, offset: i64) -> Result<
        Option<Vec<u8>>,
        ApplicationError,
    >;
}

} // verus!
