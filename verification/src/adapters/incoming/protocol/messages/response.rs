//! Responses and their wire encoding.
use crate::adapters::incoming::protocol::constants::{
    API_VERSIONS_KEY, DESCRIBE_TOPIC_PARTITIONS_KEY, FETCH_KEY, UNKNOWN_TOPIC_ID,
    UNKNOWN_TOPIC_OR_PARTITION,
};
use crate::codec::uuid::zero_uuid;
use crate::domain::message::TOPIC_AUTHORIZED_OPERATIONS;
use vstd::prelude::*;

verus! {

/// The range of versions that the broker serves of one API.
#[derive(Debug, Clone, Copy, PartialEq, Eq, Structural)]
pub struct ApiVersion {
    pub api_key: i16,
    pub min_version: i16,
    pub max_version: i16,
}

/// The body of an `ApiVersions` response.
#[derive(Debug, Clone, PartialEq)]
pub struct ApiVersionsResponse {
    pub api_versions: Vec<ApiVersion>,
}

/// One partition in a `DescribeTopicPartitions` response.
#[derive(Debug, Clone, PartialEq)]
pub struct PartitionInfo {
    pub partition_id: i32,
    pub error_code: i16,
    pub leader_id: i32,
    pub leader_epoch: i32,
    pub replicas: Vec<i32>,
    pub isr: Vec<i32>,
    pub eligible_leader_replicas: Vec<i32>,
    pub last_known_eligible_leader_replicas: Vec<i32>,
    pub offline_replicas: Vec<i32>,
}

/// One topic in a `DescribeTopicPartitions` response.
#[derive(Debug, Clone, PartialEq)]
pub struct TopicResponse {
    pub topic_name: String,
    pub topic_id: [u8; 16],
    pub error_code: i16,
    pub is_internal: bool,
    pub partitions: Vec<PartitionInfo>,
    pub topic_authorized_operations: i32,
}

/// The body of a `DescribeTopicPartitions` response.
#[derive(Debug, Clone, PartialEq)]
pub struct DescribeTopicPartitionsResponse {
    pub topics: Vec<TopicResponse>,
}

/// One partition in a `Fetch` response. It never carries records.
#[derive(Debug, Clone, Copy, PartialEq, Eq, Structural)]
pub struct FetchPartitionResponse {
    pub partition_index: i32,
    pub error_code: i16,
}

/// One topic in a `Fetch` response.
#[derive(Debug, Clone, PartialEq)]
pub struct FetchTopicResponse {
    pub topic_id: [u8; 16],
    pub partitions: Vec<FetchPartitionResponse>,
}

/// The body of a `Fetch` response.
#[derive(Debug, Clone, PartialEq)]
pub struct FetchResponse {
    pub throttle_time_ms: i32,
    pub error_code: i16,
    pub session_id: i32,
    pub responses: Vec<FetchTopicResponse>,
}

/// The body of a response, by API.
#[derive(Debug, Clone, PartialEq)]
pub enum ResponsePayload {
    ApiVersions(ApiVersionsResponse),
    DescribeTopicPartitions(DescribeTopicPartitionsResponse),
    Fetch(FetchResponse),
}

/// A response, ready to be encoded.
#[derive(Debug, Clone)]
pub struct KafkaResponse {
    pub correlation_id: i32,
    pub error_code: i16,
    pub payload: ResponsePayload,
}

/// Mathematical model of a [`PartitionInfo`].
pub struct PartitionInfoModel {
    pub partition_id: i32,
    pub error_code: i16,
    pub leader_id: i32,
    pub leader_epoch: i32,
    pub replicas: Seq<i32>,
    pub isr: Seq<i32>,
    pub eligible_leader_replicas: Seq<i32>,
    pub last_known_eligible_leader_replicas: Seq<i32>,
    pub offline_replicas: Seq<i32>,
}

/// Mathematical model of a [`TopicResponse`].
pub struct TopicResponseModel {
    pub topic_name: Seq<char>,
    pub topic_id: Seq<u8>,
    pub error_code: i16,
    pub is_internal: bool,
    pub partitions: Seq<PartitionInfoModel>,
    pub topic_authorized_operations: i32,
}

/// Mathematical model of a [`FetchTopicResponse`].
pub struct FetchTopicResponseModel {
    pub topic_id: Seq<u8>,
    pub partitions: Seq<FetchPartitionResponse>,
}

/// Mathematical model of a [`FetchResponse`].
pub struct FetchResponseModel {
    pub throttle_time_ms: i32,
    pub error_code: i16,
    pub session_id: i32,
    pub responses: Seq<FetchTopicResponseModel>,
}

/// Mathematical model of a [`ResponsePayload`].
pub enum ResponsePayloadModel {
    ApiVersions(Seq<ApiVersion>),
    DescribeTopicPartitions(Seq<TopicResponseModel>),
    Fetch(FetchResponseModel),
}

/// Mathematical model of a [`KafkaResponse`].
pub struct ResponseModel {
    pub correlation_id: i32,
    pub error_code: i16,
    pub payload: ResponsePayloadModel,
}

impl DeepView for PartitionInfo {
    type V = PartitionInfoModel;

    open spec fn deep_view(&self) -> PartitionInfoModel {
        PartitionInfoModel {
            partition_id: self.partition_id,
            error_code: self.error_code,
            leader_id: self.leader_id,
            leader_epoch: self.leader_epoch,
            replicas: self.replicas@,
            isr: self.isr@,
            eligible_leader_replicas: self.eligible_leader_replicas@,
            last_known_eligible_leader_replicas: self.last_known_eligible_leader_replicas@,
            offline_replicas: self.offline_replicas@,
        }
    }
}

impl DeepView for TopicResponse {
    type V = TopicResponseModel;

    open spec fn deep_view(&self) -> TopicResponseModel {
        TopicResponseModel {
            topic_name: self.topic_name@,
            topic_id: self.topic_id@,
            error_code: self.error_code,
            is_internal: self.is_internal,
            partitions: self.partitions.deep_view(),
            topic_authorized_operations: self.topic_authorized_operations,
        }
    }
}

impl DeepView for FetchTopicResponse {
    type V = FetchTopicResponseModel;

    open spec fn deep_view(&self) -> FetchTopicResponseModel {
        FetchTopicResponseModel { topic_id: self.topic_id@, partitions: self.partitions@ }
    }
}

impl DeepView for FetchResponse {
    type V = FetchResponseModel;

    open spec fn deep_view(&self) -> FetchResponseModel {
        FetchResponseModel {
            throttle_time_ms: self.throttle_time_ms,
            error_code: self.error_code,
            session_id: self.session_id,
            responses: self.responses.deep_view(),
        }
    }
}

impl DeepView for ResponsePayload {
    type V = ResponsePayloadModel;

    open spec fn deep_view(&self) -> ResponsePayloadModel {
        match self {
            ResponsePayload::ApiVersions(r) => ResponsePayloadModel::ApiVersions(r.api_versions@),
            ResponsePayload::DescribeTopicPartitions(r) => ResponsePayloadModel::DescribeTopicPartitions(
                r.topics.deep_view(),
            ),
            ResponsePayload::Fetch(r) => ResponsePayloadModel::Fetch(r.deep_view()),
        }
    }
}

impl DeepView for KafkaResponse {
    type V = ResponseModel;

    open spec fn deep_view(&self) -> ResponseModel {
        ResponseModel {
            correlation_id: self.correlation_id,
            error_code: self.error_code,
            payload: self.payload.deep_view(),
        }
    }
}

/// The APIs that the broker advertises: `ApiVersions` 0 to 4, `Fetch` 0 to
/// 16 and `DescribeTopicPartitions` 0.
pub open spec fn default_api_versions() -> Seq<ApiVersion> {
    seq![
        ApiVersion { api_key: 18, min_version: 0, max_version: 4 },
        ApiVersion { api_key: 1, min_version: 0, max_version: 16 },
        ApiVersion { api_key: 75, min_version: 0, max_version: 0 },
    ]
}

/// The one entry of a response that reports the topic `name` as unknown.
pub open spec fn unknown_topic_entry(name: Seq<char>) -> TopicResponseModel {
    TopicResponseModel {
        topic_name: name,
        topic_id: zero_uuid(),
        error_code: 3,
        is_internal: false,
        partitions: Seq::empty(),
        topic_authorized_operations: 0x0000_0DF8,
    }
}

/// The `Fetch` response for one topic with one partition 0 that carries
/// `error_code` and no records.
pub open spec fn single_topic_fetch(topic_id: Seq<u8>, error_code: i16) -> FetchResponseModel {
    FetchResponseModel {
        throttle_time_ms: 0,
        error_code: 0,
        session_id: 0,
        responses: seq![
            FetchTopicResponseModel {
                topic_id,
                partitions: seq![FetchPartitionResponse { partition_index: 0, error_code }],
            },
        ],
    }
}

/// The `Fetch` response without topics.
pub open spec fn empty_fetch() -> FetchResponseModel {
    FetchResponseModel {
        throttle_time_ms: 0,
        error_code: 0,
        session_id: 0,
        responses: Seq::empty(),
    }
}

impl ApiVersionsResponse {
    /// The response that advertises `api_versions`.
    pub fn new(api_versions: Vec<ApiVersion>) -> (r: Self)
        ensures
            r.api_versions == api_versions,
    {
        ApiVersionsResponse { api_versions }
    }

    /// The response that advertises what the broker serves.
    pub fn default() -> (r: Self)
        ensures
            r.api_versions@ == default_api_versions(),
    {
        let mut api_versions: Vec<ApiVersion> = Vec::new();
        api_versions.push(ApiVersion { api_key: API_VERSIONS_KEY, min_version: 0, max_version: 4 });
        api_versions.push(ApiVersion { api_key: FETCH_KEY, min_version: 0, max_version: 16 });
        api_versions.push(
            ApiVersion { api_key: DESCRIBE_TOPIC_PARTITIONS_KEY, min_version: 0, max_version: 0 },
        );
        assert(api_versions@ =~= default_api_versions());
        ApiVersionsResponse { api_versions }
    }
}

impl TopicResponse {
    /// The entry that reports the topic `topic_name` as unknown.
    pub fn unknown(topic_name: String) -> (r: Self)
        ensures
            r.deep_view() == unknown_topic_entry(topic_name@),
    {
        let partitions: Vec<PartitionInfo> = Vec::new();
        let topic_id = [0u8;16];
        assert(topic_id@ =~= zero_uuid());
        assert(partitions.deep_view() =~= Seq::<PartitionInfoModel>::empty());
        TopicResponse {
            topic_name,
            topic_id,
            error_code: UNKNOWN_TOPIC_OR_PARTITION,
            is_internal: false,
            partitions,
            topic_authorized_operations: TOPIC_AUTHORIZED_OPERATIONS,
        }
    }
}

impl DescribeTopicPartitionsResponse {
    /// The response that reports the one topic `topic_name` as unknown.
    pub fn new_unknown_topic(topic_name: String) -> (r: Self)
        ensures
            r.topics.deep_view() == seq![unknown_topic_entry(topic_name@)],
    {
        let entry = TopicResponse::unknown(topic_name);
        let ghost model = entry.deep_view();
        let mut topics: Vec<TopicResponse> = Vec::new();
        topics.push(entry);
        assert(topics.deep_view() =~= seq![model]);
        DescribeTopicPartitionsResponse { topics }
    }
}

impl FetchResponse {
    /// The response without topics.
    pub fn empty() -> (r: Self)
        ensures
            r.deep_view() == empty_fetch(),
    {
        let responses: Vec<FetchTopicResponse> = Vec::new();
        assert(responses.deep_view() =~= Seq::<FetchTopicResponseModel>::empty());
        FetchResponse { throttle_time_ms: 0, error_code: 0, session_id: 0, responses }
    }

    /// The response that reports that no topic has the id `topic_id`.
    pub fn unknown_topic(topic_id: [u8; 16]) -> (r: Self)
        ensures
            r.deep_view() == single_topic_fetch(topic_id@, 100),
    {
        FetchResponse::single(topic_id, UNKNOWN_TOPIC_ID)
    }

    /// The response that reports the topic `topic_id` as present and empty.
    pub fn empty_topic(topic_id: [u8; 16]) -> (r: Self)
        ensures
            r.deep_view() == single_topic_fetch(topic_id@, 0),
    {
        FetchResponse::single(topic_id, 0)
    }

    fn single(topic_id: [u8; 16], error_code: i16) -> (r: Self)
        ensures
            r.deep_view() == single_topic_fetch(topic_id@, error_code),
    {
        let mut partitions: Vec<FetchPartitionResponse> = Vec::new();
        partitions.push(FetchPartitionResponse { partition_index: 0, error_code });
        assert(partitions@ =~= seq![FetchPartitionResponse { partition_index: 0, error_code }]);
        let entry = FetchTopicResponse { topic_id, partitions };
        let ghost model = entry.deep_view();
        let mut responses: Vec<FetchTopicResponse> = Vec::new();
        responses.push(entry);
        assert(responses.deep_view() =~= seq![model]);
        FetchResponse { throttle_time_ms: 0, error_code: 0, session_id: 0, responses }
    }
}

impl KafkaResponse {
    /// The response to the request `correlation_id`.
    pub fn new(correlation_id: i32, error_code: i16, payload: ResponsePayload) -> (r: Self)
        ensures
            r.correlation_id == correlation_id,
            r.error_code == error_code,
            r.payload == payload,
    {
        KafkaResponse { correlation_id, error_code, payload }
    }
}

} // verus!
