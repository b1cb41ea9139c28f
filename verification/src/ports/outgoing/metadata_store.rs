//! Where the broker learns which topics exist.
use crate::application::error::ApplicationError;
use crate::domain::message::TopicMetadata;
use vstd::prelude::*;

verus! {

/// Whatever knows the topics of the cluster. Nothing is promised of what an
/// implementation returns: the broker decides on whatever comes back.
pub trait MetadataStore {
    /// The topics with the given names; `None` when there is nothing to
    /// report.
    fn get_topic_metadata_by_names(&self, topic_names: Vec<String>) -> Result<
        Option<Vec<TopicMetadata>>,
        ApplicationError,
    >;

    /// The topics with the given ids; `None` when there is nothing to
    /// report.
    fn get_topic_metadata_by_ids(&self, topic_ids: Vec<String>) -> Result<
        Option<Vec<TopicMetadata>>,
        ApplicationError,
    >;
}

} // verus!
