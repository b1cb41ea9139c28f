//! The messages that clients send and receive.
pub mod encoding;
pub mod request;
pub mod response;

pub use crate::adapters::incoming::protocol::constants::ErrorCode;
pub use crate::ports::outgoing::message_store::KafkaMessage;
pub use request::{
    DescribeTopicPartitionsRequest, FetchPartition, FetchRequest, FetchTopic, KafkaRequest,
    RequestHeader, RequestPayload, TopicRequest,
};
pub use response::{
    ApiVersion, ApiVersionsResponse, DescribeTopicPartitionsResponse, FetchPartitionResponse,
    FetchResponse, FetchTopicResponse, KafkaResponse, PartitionInfo, ResponsePayload,
    TopicResponse,
};
