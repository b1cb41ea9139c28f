//! The parts of a broker, wired together.
use crate::adapters::incoming::kafka_protocol_parser::KafkaProtocolParser;
use crate::adapters::outgoing::memory_store::{MemoryMessageStore, MemoryMetadataStore};
use crate::application::broker::KafkaBroker;
use crate::ports::incoming::message_handler::MessageHandler;
use crate::ports::incoming::protocol_parser::ProtocolParser;
use std::sync::Arc;
use vstd::prelude::*;

verus! {

/// A request handler and the codec in front of it, both shared.
pub struct AppConfig<H: MessageHandler, P: ProtocolParser> {
    pub message_handler: Arc<H>,
    pub protocol_parser: Arc<P>,
}

impl AppConfig<KafkaBroker<MemoryMessageStore, MemoryMetadataStore>, KafkaProtocolParser> {
    /// A broker over stores that live in memory, with an empty metadata log.
    pub fn new() -> (r: Self)
        ensures
            r.message_handler.metadata_store.log@ == Seq::<u8>::empty(),
    {
        let broker = Arc::new(
            KafkaBroker::new(MemoryMessageStore::new(), MemoryMetadataStore::new(Vec::new())),
        );
        let protocol_parser = Arc::new(KafkaProtocolParser::new());
        AppConfig { message_handler: broker, protocol_parser }
    }
}

impl<H: MessageHandler, P: ProtocolParser> AppConfig<H, P> {
    /// The given handler behind the given codec.
    pub fn with_custom_components(message_handler: Arc<H>, protocol_parser: Arc<P>) -> (r: Self)
        ensures
            r.message_handler == message_handler,
            r.protocol_parser == protocol_parser,
    {
        AppConfig { message_handler, protocol_parser }
    }
}

} // verus!
