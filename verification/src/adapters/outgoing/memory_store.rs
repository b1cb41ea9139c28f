//! Stores that live in memory: a message store that keeps nothing, and a
//! metadata store over a copy of the metadata log.
use crate::adapters::outgoing::kraft_metadata_store::{query, KraftMetadataStore};
use crate::application::error::ApplicationError;
use crate::domain::message::{TopicMetadata, TopicMetadataModel};
use crate::ports::outgoing::message_store::{KafkaMessage, MessageStore};
use crate::ports::outgoing::metadata_store::MetadataStore;
use vstd::prelude::*;

verus! {

/// The store that accepts every message and returns none.
pub struct MemoryMessageStore {}

impl MemoryMessageStore {
    /// The empty store.
    pub fn new() -> Self {
        MemoryMessageStore {  }
    }
}

impl MessageStore for MemoryMessageStore {
    /// Accepts the message and drops it.
    fn store_message(&self, message: KafkaMessage) -> (r: Result<(), ApplicationError>)
        ensures
            r is Ok,
    {
        Ok(())
    }

    /// There is never anything to read.
    fn read_messages(&self, topic_id: &str, partition: i32, offset: i64) -> (r: Result<
        Option<Vec<u8>>,
        ApplicationError,
    >)
        ensures
            r == Ok::<Option<Vec<u8>>, ApplicationError>(None),
    {
        Ok(None)
    }
}

/// The metadata store over the bytes of a metadata log that it holds.
pub struct MemoryMetadataStore {
    pub log: Vec<u8>,
}

/// Whether `r` reports the outcome `expected` of a query, where a report
/// without entries is given as `None`.
pub open spec fn is_report(
    r: Result<Option<Vec<TopicMetadata>>, ApplicationError>,
    expected: Result<Seq<TopicMetadataModel>, ApplicationError>,
) -> bool {
    match r {
        Ok(Some(topics)) => topics@.len() > 0 && expected == Ok::<
            Seq<TopicMetadataModel>,
            ApplicationError,
        >(topics.deep_view()),
        Ok(None) => expected == Ok::<Seq<TopicMetadataModel>, ApplicationError>(Seq::empty()),
        Err(e) => expected == Err::<Seq<TopicMetadataModel>, ApplicationError>(e),
    }
}

/// The outcome of a query in the form that a metadata store hands to the
/// broker: a report without entries is given as `None`.
pub fn report(r: Result<Vec<TopicMetadata>, ApplicationError>) -> (out: Result<
    Option<Vec<TopicMetadata>>,
    ApplicationError,
>)
    ensures
        match (r, out) {
            (Ok(topics), Ok(Some(same))) => topics@.len() > 0 && same == topics,
            (Ok(topics), Ok(None)) => topics@.len() == 0,
            (Err(e), Err(same)) => e == same,
            _ => false,
        },
{
    match r {
        Ok(topics) => if topics.len() == 0 {
            Ok(None)
        } else {
            Ok(Some(topics))
        },
        Err(e) => Err(e),
    }
}

impl MemoryMetadataStore {
    /// The store over the log `log`.
    pub fn new(log: Vec<u8>) -> (r: Self)
        ensures
            r.log == log,
    {
        MemoryMetadataStore { log }
    }
}

impl MetadataStore for MemoryMetadataStore {
    /// One entry per name, in the order of the names.
    fn get_topic_metadata_by_names(&self, topic_names: Vec<String>) -> (r: Result<
        Option<Vec<TopicMetadata>>,
        ApplicationError,
    >)
        ensures
            is_report(r, query(self.log@, topic_names.deep_view(), false)),
    {
        let found = KraftMetadataStore::by_names(self.log.as_slice(), &topic_names);
        proof {
            if let Ok(topics) = &found {
                if topics@.len() == 0 {
                    assert(topics.deep_view() =~= Seq::<TopicMetadataModel>::empty());
                }
            }
        }
        report(found)
    }

    /// One entry per id, in the order of the ids.
    fn get_topic_metadata_by_ids(&self, topic_ids: Vec<String>) -> (r: Result<
        Option<Vec<TopicMetadata>>,
        ApplicationError,
    >)
        ensures
            is_report(r, query(self.log@, topic_ids.deep_view(), true)),
    {
        let found = KraftMetadataStore::by_ids(self.log.as_slice(), &topic_ids);
        proof {
            if let Ok(topics) = &found {
                if topics@.len() == 0 {
                    assert(topics.deep_view() =~= Seq::<TopicMetadataModel>::empty());
                }
            }
        }
        report(found)
    }
}

} // verus!
