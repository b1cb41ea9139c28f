//! API keys, supported versions and error codes of the wire protocol.
use vstd::prelude::*;

verus! {

/// API key of `Fetch`.
pub const FETCH_KEY: i16 = 1;

/// API key of `ApiVersions`.
pub const API_VERSIONS_KEY: i16 = 18;

/// API key of `DescribeTopicPartitions`.
pub const DESCRIBE_TOPIC_PARTITIONS_KEY: i16 = 75;

/// Highest version of `ApiVersions` that is served.
pub const MAX_SUPPORTED_VERSION: i16 = 4;

/// The one version of `Fetch` that is served.
pub const FETCH_VERSION: i16 = 16;

/// No error.
pub const NONE: i16 = 0;

/// The named topic or partition does not exist.
pub const UNKNOWN_TOPIC_OR_PARTITION: i16 = 3;

/// The version of the requested API is not served.
pub const UNSUPPORTED_VERSION: i16 = 35;

/// The request is invalid.
pub const INVALID_REQUEST: i16 = 42;

/// No topic has the requested id.
pub const UNKNOWN_TOPIC_ID: i16 = 100;

/// The error codes that the broker reports.
#[derive(Debug, Clone, Copy, PartialEq, Eq, Structural)]
pub enum ErrorCode {
    NoError,
    UnknownTopicOrPartition,
    UnsupportedVersion,
    InvalidRequest,
    UnknownTopicId,
}

impl ErrorCode {
    /// The number that stands for the error on the wire.
    pub open spec fn spec_code(self) -> i16 {
        match self {
            ErrorCode::NoError => 0,
            ErrorCode::UnknownTopicOrPartition => 3,
            ErrorCode::UnsupportedVersion => 35,
            ErrorCode::InvalidRequest => 42,
            ErrorCode::UnknownTopicId => 100,
        }
    }

    /// The number that stands for the error on the wire.
    #[verifier::when_used_as_spec(spec_code)]
    pub fn code(self) -> (c: i16)
        ensures
            c == self.spec_code(),
    {
        match self {
            ErrorCode::NoError => NONE,
            ErrorCode::UnknownTopicOrPartition => UNKNOWN_TOPIC_OR_PARTITION,
            ErrorCode::UnsupportedVersion => UNSUPPORTED_VERSION,
            ErrorCode::InvalidRequest => INVALID_REQUEST,
            ErrorCode::UnknownTopicId => UNKNOWN_TOPIC_ID,
        }
    }
}

} // verus!
