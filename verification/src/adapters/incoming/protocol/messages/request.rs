//! Decoded requests.
use crate::adapters::incoming::protocol::constants::{
    API_VERSIONS_KEY, DESCRIBE_TOPIC_PARTITIONS_KEY, FETCH_KEY,
};
use vstd::prelude::*;

verus! {

/// What stands in front of every request.
#[derive(Debug, Clone, PartialEq)]
pub struct RequestHeader {
    pub api_key: i16,
    pub api_version: i16,
    pub correlation_id: i32,
    pub client_id: Option<String>,
}

/// One topic that a `DescribeTopicPartitions` request asks about.
#[derive(Debug, Clone, PartialEq)]
pub struct TopicRequest {
    pub topic_name: String,
    pub partitions: Vec<i32>,
}

/// The body of a `DescribeTopicPartitions` request.
#[derive(Debug, Clone, PartialEq)]
pub struct DescribeTopicPartitionsRequest {
    pub topics: Vec<TopicRequest>,
}

/// One partition that a `Fetch` request asks for.
#[derive(Debug, Clone, Copy, PartialEq, Eq, Structural)]
pub struct FetchPartition {
    pub partition: i32,
    pub current_leader_epoch: i32,
    pub fetch_offset: i64,
    pub last_fetched_epoch: i32,
    pub log_start_offset: i64,
    pub partition_max_bytes: i32,
}

/// One topic that a `Fetch` request asks for.
#[derive(Debug, Clone, PartialEq)]
pub struct FetchTopic {
    pub topic_id: [u8; 16],
    pub partitions: Vec<FetchPartition>,
}

/// The body of a `Fetch` request, as far as the broker consults it.
#[derive(Debug, Clone, PartialEq)]
pub struct FetchRequest {
    pub topics: Vec<FetchTopic>,
}

/// The body of a request, by API.
#[derive(Debug, Clone, PartialEq)]
pub enum RequestPayload {
    ApiVersions,
    DescribeTopicPartitions(DescribeTopicPartitionsRequest),
    Fetch(FetchRequest),
}

/// A decoded request.
#[derive(Debug, Clone)]
pub struct KafkaRequest {
    pub header: RequestHeader,
    pub payload: RequestPayload,
}

/// Mathematical model of a [`RequestHeader`].
pub struct HeaderModel {
    pub api_key: i16,
    pub api_version: i16,
    pub correlation_id: i32,
    pub client_id: Option<Seq<char>>,
}

/// Mathematical model of a [`TopicRequest`].
pub struct TopicRequestModel {
    pub topic_name: Seq<char>,
    pub partitions: Seq<i32>,
}

/// Mathematical model of a [`FetchTopic`].
pub struct FetchTopicModel {
    pub topic_id: Seq<u8>,
    pub partitions: Seq<FetchPartition>,
}

/// Mathematical model of a [`RequestPayload`].
pub enum PayloadModel {
    ApiVersions,
    DescribeTopicPartitions(Seq<TopicRequestModel>),
    Fetch(Seq<FetchTopicModel>),
}

/// Mathematical model of a [`KafkaRequest`].
pub struct RequestModel {
    pub header: HeaderModel,
    pub payload: PayloadModel,
}

/// Model of an optional string.
pub open spec fn text_model(text: Option<String>) -> Option<Seq<char>> {
    match text {
        Some(t) => Some(t@),
        None => None,
    }
}

impl DeepView for RequestHeader {
    type V = HeaderModel;

    open spec fn deep_view(&self) -> HeaderModel {
        HeaderModel {
            api_key: self.api_key,
            api_version: self.api_version,
            correlation_id: self.correlation_id,
            client_id: text_model(self.client_id),
        }
    }
}

impl DeepView for TopicRequest {
    type V = TopicRequestModel;

    open spec fn deep_view(&self) -> TopicRequestModel {
        TopicRequestModel { topic_name: self.topic_name@, partitions: self.partitions@ }
    }
}

impl DeepView for FetchPartition {
    type V = FetchPartition;

    open spec fn deep_view(&self) -> FetchPartition {
        *self
    }
}

impl DeepView for FetchTopic {
    type V = FetchTopicModel;

    open spec fn deep_view(&self) -> FetchTopicModel {
        FetchTopicModel { topic_id: self.topic_id@, partitions: self.partitions@ }
    }
}

impl DeepView for RequestPayload {
    type V = PayloadModel;

    open spec fn deep_view(&self) -> PayloadModel {
        match self {
            RequestPayload::ApiVersions => PayloadModel::ApiVersions,
            RequestPayload::DescribeTopicPartitions(r) => PayloadModel::DescribeTopicPartitions(
                r.topics.deep_view(),
            ),
            RequestPayload::Fetch(r) => PayloadModel::Fetch(r.topics.deep_view()),
        }
    }
}

impl DeepView for KafkaRequest {
    type V = RequestModel;

    open spec fn deep_view(&self) -> RequestModel {
        RequestModel { header: self.header.deep_view(), payload: self.payload.deep_view() }
    }
}

/// The versions of each API that the broker serves: `ApiVersions` 0 to 4,
/// `Fetch` 16, `DescribeTopicPartitions` 0, and nothing else.
pub open spec fn supported_version(api_key: i16, api_version: i16) -> bool {
    if api_key == API_VERSIONS_KEY {
        0 <= api_version <= 4
    } else if api_key == FETCH_KEY {
        api_version == 16
    } else if api_key == DESCRIBE_TOPIC_PARTITIONS_KEY {
        api_version == 0
    } else {
        false
    }
}

impl RequestHeader {
    /// Whether the broker serves the API of this request in this version.
    pub fn is_supported_version(&self) -> (r: bool)
        ensures
            r == supported_version(self.api_key, self.api_version),
    {
        if self.api_key == API_VERSIONS_KEY {
            self.api_version >= 0 && self.api_version <= 4
        } else if self.api_key == FETCH_KEY {
            self.api_version == 16
        } else if self.api_key == DESCRIBE_TOPIC_PARTITIONS_KEY {
            self.api_version == 0
        } else {
            false
        }
    }
}

impl KafkaRequest {
    /// The request with the given header and body.
    pub fn new(header: RequestHeader, payload: RequestPayload) -> (r: Self)
        ensures
            r.header == header,
            r.payload == payload,
    {
        KafkaRequest { header, payload }
    }
}

} // verus!
