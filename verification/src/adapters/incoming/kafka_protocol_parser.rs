//! From the bytes of a request to a decoded request, and from a response
//! to the bytes of its frame.
use crate::adapters::incoming::protocol::constants::{
    API_VERSIONS_KEY, DESCRIBE_TOPIC_PARTITIONS_KEY, FETCH_KEY, UNSUPPORTED_VERSION,
};
use crate::adapters::incoming::protocol::messages::encoding::{
    api_version_encoder, encode_all, encode_body, encode_body_of, encode_frame, fits_frame,
    frame_payload, lemma_encode_all_next, try_frame_payload,
};
use crate::adapters::incoming::protocol::messages::request::{
    DescribeTopicPartitionsRequest, FetchPartition, FetchRequest, FetchTopic, FetchTopicModel,
    HeaderModel, KafkaRequest, PayloadModel, RequestHeader, RequestModel, RequestPayload,
    TopicRequest, TopicRequestModel,
};
use crate::adapters::incoming::protocol::messages::response::{
    default_api_versions, ApiVersionsResponse, KafkaResponse, ResponseModel, ResponsePayload,
    ResponsePayloadModel,
};
use crate::application::error::{malformed, ApplicationError, Malformed, Violation};
use crate::codec::buffer::{
    advance, cursor_over, get_i16, get_i32, get_i64, get_u8, remaining, take_bytes, unread,
};
use crate::codec::compact::{
    decode_compact_array, decode_compact_string, text_from_utf8, CompactArray, CompactString,
    Deserialize,
};
use crate::codec::integers::{be16, be32, be64, signed16, signed32, signed64};
use crate::codec::uuid::{decode_raw_uuid, Uuid};
use crate::codec::compact::encode_compact_len;
use crate::codec::varint::{Decoded, Decoder};
use crate::ports::incoming::message_handler::MessageHandler;
use crate::ports::incoming::protocol_parser::ProtocolParser;
use bytes::Bytes;
use vstd::prelude::*;
use vstd::utf8::{decode_utf8, valid_utf8};

verus! {

/// The codec between the wire and the broker's messages.
#[derive(Clone)]
pub struct KafkaProtocolParser;

/// The client id behind its 16-bit length `len`. Lengths 0 and -1 stand for
/// no client id; other negative lengths are no lengths.
pub open spec fn decode_client_id(len: int, s: Seq<u8>) -> Decoded<Option<Seq<char>>> {
    if len < -1 {
        Err(Malformed::InvalidLength)
    } else if len <= 0 {
        Ok((None, s))
    } else if s.len() < len {
        Err(Malformed::BufferExhausted)
    } else if !valid_utf8(s.take(len)) {
        Err(Malformed::InvalidUtf8)
    } else {
        Ok((Some(decode_utf8(s.take(len))), s.skip(len)))
    }
}

/// The header of a request: API key, API version, correlation id, the
/// client id behind a 16-bit length, and one tag-buffer byte.
pub open spec fn decode_header(s: Seq<u8>) -> Decoded<HeaderModel> {
    if s.len() < 10 {
        Err(Malformed::BufferExhausted)
    } else {
        let s1 = s.skip(2);
        let s2 = s1.skip(2);
        let s3 = s2.skip(4);
        match decode_client_id(signed16(be16(s3)), s3.skip(2)) {
            Err(e) => Err(e),
            Ok((client_id, s4)) => if s4.len() < 1 {
                Err(Malformed::BufferExhausted)
            } else {
                Ok(
                    (
                        HeaderModel {
                            api_key: signed16(be16(s)) as i16,
                            api_version: signed16(be16(s1)) as i16,
                            correlation_id: signed32(be32(s2)) as i32,
                            client_id,
                        },
                        s4.skip(1),
                    ),
                )
            },
        }
    }
}

/// One topic of a `DescribeTopicPartitions` request: its name, which must
/// be present, and one tag-buffer byte.
pub open spec fn decode_topic_request(s: Seq<u8>) -> Decoded<TopicRequestModel> {
    match decode_compact_string(s) {
        Err(e) => Err(e),
        Ok((None, _)) => Err(Malformed::NullString),
        Ok((Some(name), s1)) => if s1.len() < 1 {
            Err(Malformed::BufferExhausted)
        } else {
            Ok((TopicRequestModel { topic_name: name, partitions: Seq::empty() }, s1.skip(1)))
        },
    }
}

/// The decoder of requested topics.
pub open spec fn topic_request_decoder() -> Decoder<TopicRequestModel> {
    |s: Seq<u8>| decode_topic_request(s)
}

/// The body of a `DescribeTopicPartitions` request: the topics, where a
/// null array reads as the empty one, the partition limit, one cursor byte
/// and one tag-buffer byte. The last three are read and not kept.
pub open spec fn decode_describe_topic_partitions(s: Seq<u8>) -> Decoded<Seq<TopicRequestModel>> {
    match decode_compact_array(topic_request_decoder(), s) {
        Err(e) => Err(e),
        Ok((topics, s1)) => if s1.len() < 6 {
            Err(Malformed::BufferExhausted)
        } else {
            Ok((topics, s1.skip(6)))
        },
    }
}

/// One partition of a `Fetch` request: partition, current leader epoch,
/// fetch offset, last fetched epoch, log start offset, maximum bytes, and
/// one tag-buffer byte.
pub open spec fn decode_fetch_partition(s: Seq<u8>) -> Decoded<FetchPartition> {
    if s.len() < 33 {
        Err(Malformed::BufferExhausted)
    } else {
        let s1 = s.skip(4);
        let s2 = s1.skip(4);
        let s3 = s2.skip(8);
        let s4 = s3.skip(4);
        let s5 = s4.skip(8);
        Ok(
            (
                FetchPartition {
                    partition: signed32(be32(s)) as i32,
                    current_leader_epoch: signed32(be32(s1)) as i32,
                    fetch_offset: signed64(be64(s2)) as i64,
                    last_fetched_epoch: signed32(be32(s3)) as i32,
                    log_start_offset: signed64(be64(s4)) as i64,
                    partition_max_bytes: signed32(be32(s5)) as i32,
                },
                s5.skip(4).skip(1),
            ),
        )
    }
}

/// The decoder of `Fetch` partitions.
pub open spec fn fetch_partition_decoder() -> Decoder<FetchPartition> {
    |s: Seq<u8>| decode_fetch_partition(s)
}

/// One topic of a `Fetch` request: the sixteen bytes of its id, its
/// partitions, and one tag-buffer byte.
pub open spec fn decode_fetch_topic(s: Seq<u8>) -> Decoded<FetchTopicModel> {
    match decode_raw_uuid(s) {
        Err(e) => Err(e),
        Ok((topic_id, s1)) => match decode_compact_array(fetch_partition_decoder(), s1) {
            Err(e) => Err(e),
            Ok((partitions, s2)) => if s2.len() < 1 {
                Err(Malformed::BufferExhausted)
            } else {
                Ok((FetchTopicModel { topic_id, partitions }, s2.skip(1)))
            },
        },
    }
}

/// The decoder of `Fetch` topics.
pub open spec fn fetch_topic_decoder() -> Decoder<FetchTopicModel> {
    |s: Seq<u8>| decode_fetch_topic(s)
}

/// The body of a `Fetch` request: 21 bytes of limits and session fields
/// that are passed over, then the topics. What follows the topics is not
/// read.
pub open spec fn decode_fetch(s: Seq<u8>) -> Decoded<Seq<FetchTopicModel>> {
    if s.len() < 21 {
        Err(Malformed::BufferExhausted)
    } else {
        decode_compact_array(fetch_topic_decoder(), s.skip(21))
    }
}

/// The body of a request with the API key `api_key`. The body of an
/// `ApiVersions` request is not read at all.
pub open spec fn decode_payload(api_key: i16, s: Seq<u8>) -> Result<
    PayloadModel,
    ApplicationError,
> {
    if api_key == API_VERSIONS_KEY {
        Ok(PayloadModel::ApiVersions)
    } else if api_key == DESCRIBE_TOPIC_PARTITIONS_KEY {
        match decode_describe_topic_partitions(s) {
            Ok((topics, _)) => Ok(PayloadModel::DescribeTopicPartitions(topics)),
            Err(reason) => Err(malformed(reason)),
        }
    } else if api_key == FETCH_KEY {
        match decode_fetch(s) {
            Ok((topics, _)) => Ok(PayloadModel::Fetch(topics)),
            Err(reason) => Err(malformed(reason)),
        }
    } else {
        Err(ApplicationError::Protocol(Violation::UnknownApiKey))
    }
}

/// A request without its length prefix: the header, then the body that the
/// API key of the header calls for.
pub open spec fn decode_request(s: Seq<u8>) -> Result<RequestModel, ApplicationError> {
    match decode_header(s) {
        Err(reason) => Err(malformed(reason)),
        Ok((header, body)) => match decode_payload(header.api_key, body) {
            Err(e) => Err(e),
            Ok(payload) => Ok(RequestModel { header, payload }),
        },
    }
}

/// The request that a length-prefixed frame at the front of `s` holds,
/// and the input behind the frame.
pub open spec fn decode_frame(s: Seq<u8>) -> Decoded<Seq<u8>> {
    if s.len() < 4 {
        Err(Malformed::IncompleteFrame)
    } else if signed32(be32(s)) < 0 {
        Err(Malformed::InvalidLength)
    } else if s.len() - 4 < signed32(be32(s)) {
        Err(Malformed::IncompleteFrame)
    } else {
        Ok((s.skip(4).take(signed32(be32(s))), s.skip(4).skip(signed32(be32(s)))))
    }
}

/// The response that answers a request which cannot be served in the
/// version it asks for: error code 35 and the advertised APIs.
pub open spec fn unsupported_version_response(correlation_id: i32) -> ResponseModel {
    ResponseModel {
        correlation_id,
        error_code: 35,
        payload: ResponsePayloadModel::ApiVersions(default_api_versions()),
    }
}

/// The unsupported-version response has a body of 29 bytes, so it always
/// fits its frame.
pub proof fn lemma_unsupported_version_fits(correlation_id: i32)
    ensures
        encode_body(unsupported_version_response(correlation_id)).len() == 29,
        fits_frame(encode_body(unsupported_version_response(correlation_id))),
{
    let versions = default_api_versions();
    let item = api_version_encoder();
    lemma_encode_all_next(item, versions, 0);
    lemma_encode_all_next(item, versions, 1);
    lemma_encode_all_next(item, versions, 2);
    assert(item(versions[0]).len() == 7);
    assert(item(versions[1]).len() == 7);
    assert(item(versions[2]).len() == 7);
    assert(encode_all(item, versions).len() == 21);
    assert(encode_compact_len(3).len() == 1);
}

/// The number of bytes that the four-byte length prefix of a frame
/// announces. A negative length is no length.
pub fn frame_body_len(prefix: &[u8; 4]) -> (r: Result<usize, ApplicationError>)
    ensures
        match r {
            Ok(n) => signed32(be32(prefix@)) >= 0 && n == signed32(be32(prefix@)),
            Err(e) => signed32(be32(prefix@)) < 0 && e == malformed(Malformed::InvalidLength),
        },
{
    let mut src = cursor_over(prefix.as_slice());
    let len = get_i32(&mut src);
    if len < 0 {
        Err(ApplicationError::MalformedRequest(Malformed::InvalidLength))
    } else {
        Ok(len as usize)
    }
}

/// Reads the header of a request.
fn read_header(src: &mut Bytes) -> (r: Result<RequestHeader, ApplicationError>)
    ensures
        match r {
            Ok(v) => decode_header(unread(*old(src))) matches Ok((value, rest)) && v.deep_view()
                == value && unread(*final(src)) == rest,
            Err(e) => decode_header(unread(*old(src))) matches Err(reason) && e == malformed(
                reason,
            ),
        },
{
    if remaining(src) < 10 {
        return Err(ApplicationError::MalformedRequest(Malformed::BufferExhausted));
    }
    let api_key = get_i16(src);
    let api_version = get_i16(src);
    let correlation_id = get_i32(src);
    let len = get_i16(src);
    let client_id = if len < -1 {
        return Err(ApplicationError::MalformedRequest(Malformed::InvalidLength));
    } else if len <= 0 {
        None
    } else {
        if remaining(src) < len as usize {
            return Err(ApplicationError::MalformedRequest(Malformed::BufferExhausted));
        }
        let raw = take_bytes(src, len as usize);
        match text_from_utf8(raw) {
            Some(text) => Some(text),
            None => {
                return Err(ApplicationError::MalformedRequest(Malformed::InvalidUtf8));
            },
        }
    };
    if remaining(src) < 1 {
        return Err(ApplicationError::MalformedRequest(Malformed::BufferExhausted));
    }
    let _ = get_u8(src);
    Ok(RequestHeader { api_key, api_version, correlation_id, client_id })
}

impl Deserialize<TopicRequest> for DescribeTopicPartitionsRequest {
    open spec fn decoder() -> Decoder<TopicRequestModel> {
        topic_request_decoder()
    }

    /// Reads one requested topic.
    fn deserialize(src: &mut Bytes) -> (r: Result<TopicRequest, ApplicationError>) {
        let topic_name = match CompactString::deserialize(src)? {
            Some(name) => name,
            None => {
                return Err(ApplicationError::MalformedRequest(Malformed::NullString));
            },
        };
        if remaining(src) < 1 {
            return Err(ApplicationError::MalformedRequest(Malformed::BufferExhausted));
        }
        let _ = get_u8(src);
        Ok(TopicRequest { topic_name, partitions: Vec::new() })
    }
}

/// Reads the body of a `DescribeTopicPartitions` request.
fn read_describe_topic_partitions(src: &mut Bytes) -> (r: Result<
    DescribeTopicPartitionsRequest,
    ApplicationError,
>)
    ensures
        match r {
            Ok(v) => decode_describe_topic_partitions(unread(*old(src))) matches Ok((value, rest))
                && v.topics.deep_view() == value && unread(*final(src)) == rest,
            Err(e) => decode_describe_topic_partitions(unread(*old(src))) matches Err(reason) && e
                == malformed(reason),
        },
{
    let topics = CompactArray::deserialize::<TopicRequest, DescribeTopicPartitionsRequest>(src)?;
    if remaining(src) < 6 {
        return Err(ApplicationError::MalformedRequest(Malformed::BufferExhausted));
    }
    advance(src, 6);
    Ok(DescribeTopicPartitionsRequest { topics })
}

impl Deserialize<FetchPartition> for FetchTopic {
    open spec fn decoder() -> Decoder<FetchPartition> {
        fetch_partition_decoder()
    }

    /// Reads one requested partition.
    fn deserialize(src: &mut Bytes) -> (r: Result<FetchPartition, ApplicationError>) {
        if remaining(src) < 33 {
            return Err(ApplicationError::MalformedRequest(Malformed::BufferExhausted));
        }
        let partition = get_i32(src);
        let current_leader_epoch = get_i32(src);
        let fetch_offset = get_i64(src);
        let last_fetched_epoch = get_i32(src);
        let log_start_offset = get_i64(src);
        let partition_max_bytes = get_i32(src);
        let _ = get_u8(src);
        Ok(
            FetchPartition {
                partition,
                current_leader_epoch,
                fetch_offset,
                last_fetched_epoch,
                log_start_offset,
                partition_max_bytes,
            },
        )
    }
}

impl Deserialize<FetchTopic> for FetchRequest {
    open spec fn decoder() -> Decoder<FetchTopicModel> {
        fetch_topic_decoder()
    }

    /// Reads one requested topic and its partitions.
    fn deserialize(src: &mut Bytes) -> (r: Result<FetchTopic, ApplicationError>) {
        let topic_id = Uuid::deserialize_raw(src)?;
        let partitions = CompactArray::deserialize::<FetchPartition, FetchTopic>(src)?;
        proof {
            assert(partitions.deep_view() =~= partitions@);
        }
        if remaining(src) < 1 {
            return Err(ApplicationError::MalformedRequest(Malformed::BufferExhausted));
        }
        let _ = get_u8(src);
        Ok(FetchTopic { topic_id, partitions })
    }
}

/// Reads the body of a `Fetch` request.
fn read_fetch(src: &mut Bytes) -> (r: Result<FetchRequest, ApplicationError>)
    ensures
        match r {
            Ok(v) => decode_fetch(unread(*old(src))) matches Ok((value, rest))
                && v.topics.deep_view() == value && unread(*final(src)) == rest,
            Err(e) => decode_fetch(unread(*old(src))) matches Err(reason) && e == malformed(
                reason,
            ),
        },
{
    if remaining(src) < 21 {
        return Err(ApplicationError::MalformedRequest(Malformed::BufferExhausted));
    }
    advance(src, 21);
    let topics = CompactArray::deserialize::<FetchTopic, FetchRequest>(src)?;
    Ok(FetchRequest { topics })
}

/// Whether `r` is the outcome `expected` of decoding a request.
pub open spec fn is_decoded(
    r: Result<KafkaRequest, ApplicationError>,
    expected: Result<RequestModel, ApplicationError>,
) -> bool {
    match r {
        Ok(request) => expected == Ok::<RequestModel, ApplicationError>(request.deep_view()),
        Err(e) => expected == Err::<RequestModel, ApplicationError>(e),
    }
}

impl KafkaProtocolParser {
    /// A codec. It holds no state.
    pub fn new() -> Self {
        KafkaProtocolParser
    }

    /// Takes one length-prefixed frame from the front of what has been
    /// received: four bytes of big-endian length, then that many bytes.
    pub fn read_frame(&self, src: &mut Bytes) -> (r: Result<Vec<u8>, ApplicationError>)
        ensures
            match r {
                Ok(v) => decode_frame(unread(*old(src))) matches Ok((value, rest)) && v@ == value
                    && unread(*final(src)) == rest,
                Err(e) => decode_frame(unread(*old(src))) matches Err(reason) && e == malformed(
                    reason,
                ),
            },
    {
        if remaining(src) < 4 {
            return Err(ApplicationError::MalformedRequest(Malformed::IncompleteFrame));
        }
        let len = get_i32(src);
        if len < 0 {
            return Err(ApplicationError::MalformedRequest(Malformed::InvalidLength));
        }
        if remaining(src) < len as usize {
            return Err(ApplicationError::MalformedRequest(Malformed::IncompleteFrame));
        }
        Ok(take_bytes(src, len as usize))
    }

    /// Decodes the header of the request `data`, a frame without its
    /// length prefix.
    pub fn parse_header(&self, data: &[u8]) -> (r: Result<RequestHeader, ApplicationError>)
        ensures
            match r {
                Ok(v) => decode_header(data@) matches Ok((value, _)) && v.deep_view() == value,
                Err(e) => decode_header(data@) matches Err(reason) && e == malformed(reason),
            },
    {
        let mut buf = cursor_over(data);
        read_header(&mut buf)
    }

    /// Decodes the request `data`, a frame without its length prefix.
    pub fn parse_request(&self, data: &[u8]) -> (r: Result<KafkaRequest, ApplicationError>)
        ensures
            is_decoded(r, decode_request(data@)),
    {
        let mut buf = cursor_over(data);
        let header = read_header(&mut buf)?;
        let payload = if header.api_key == API_VERSIONS_KEY {
            RequestPayload::ApiVersions
        } else if header.api_key == DESCRIBE_TOPIC_PARTITIONS_KEY {
            RequestPayload::DescribeTopicPartitions(read_describe_topic_partitions(&mut buf)?)
        } else if header.api_key == FETCH_KEY {
            RequestPayload::Fetch(read_fetch(&mut buf)?)
        } else {
            return Err(ApplicationError::Protocol(Violation::UnknownApiKey));
        };
        Ok(KafkaRequest::new(header, payload))
    }

    /// The response that tells a client that its request cannot be served
    /// as sent: error code 35 and the APIs that the broker advertises.
    pub fn unsupported_version(&self, correlation_id: i32) -> (r: KafkaResponse)
        ensures
            r.deep_view() == unsupported_version_response(correlation_id),
    {
        KafkaResponse::new(
            correlation_id,
            UNSUPPORTED_VERSION,
            ResponsePayload::ApiVersions(ApiVersionsResponse::default()),
        )
    }

    /// What to answer to a request that does not decode. Once the header
    /// has been read there is a correlation id to answer to, and the answer
    /// is the unsupported-version response. Without a header there is no
    /// answer.
    pub fn error_response(&self, data: &[u8]) -> (r: Option<KafkaResponse>)
        ensures
            match r {
                Some(response) => decode_header(data@) matches Ok((header, _))
                    && response.deep_view() == unsupported_version_response(header.correlation_id),
                None => decode_header(data@) is Err,
            },
    {
        match self.parse_header(data) {
            Ok(header) => Some(self.unsupported_version(header.correlation_id)),
            Err(_) => None,
        }
    }

    /// The framed answer to the request `data`, a frame without its length
    /// prefix. A request that decodes is handed to `handler`, and the
    /// handler's response is framed; the call fails where the handler fails
    /// or its response is too long for a frame. A request of which only the
    /// header decodes is answered with the unsupported-version response. A
    /// request whose header does not decode has no answer.
    pub fn answer_frame<H: MessageHandler>(&self, handler: &H, data: &[u8]) -> (r: Result<
        Vec<u8>,
        ApplicationError,
    >)
        ensures
            match decode_header(data@) {
                Err(reason) => r == Err::<Vec<u8>, ApplicationError>(malformed(reason)),
                Ok((header, _)) => match decode_request(data@) {
                    Err(_) => r matches Ok(out) && out@ == encode_frame(
                        unsupported_version_response(header.correlation_id),
                    ),
                    Ok(_) => r matches Ok(out) ==> exists|response: ResponseModel|
                        fits_frame(encode_body(response)) && out@ == #[trigger] encode_frame(
                            response,
                        ),
                },
            },
    {
        match self.parse_request(data) {
            Ok(request) => {
                let response = handler.handle_request(request)?;
                match self.try_encode_response(&response) {
                    Some(out) => {
                        assert(out@ == encode_frame(response.deep_view()));
                        Ok(out)
                    },
                    None => Err(ApplicationError::Protocol(Violation::FrameTooLarge)),
                }
            },
            Err(_) => match self.parse_header(data) {
                Ok(header) => {
                    proof {
                        lemma_unsupported_version_fits(header.correlation_id);
                    }
                    Ok(self.encode_response(self.unsupported_version(header.correlation_id)))
                },
                Err(e) => Err(e),
            },
        }
    }

    /// The frame of `response`: the length of what follows, the correlation
    /// id, and the body.
    pub fn encode_response(&self, response: KafkaResponse) -> (out: Vec<u8>)
        requires
            fits_frame(encode_body(response.deep_view())),
        ensures
            out@ == encode_frame(response.deep_view()),
    {
        let body = encode_body_of(&response);
        frame_payload(response.correlation_id, body.as_slice())
    }

    /// The frame of `response`, or nothing when the body is too long for
    /// the 32-bit length field.
    pub fn try_encode_response(&self, response: &KafkaResponse) -> (r: Option<Vec<u8>>)
        ensures
            match r {
                Some(out) => fits_frame(encode_body(response.deep_view())) && out@ == encode_frame(
                    response.deep_view(),
                ),
                None => !fits_frame(encode_body(response.deep_view())),
            },
    {
        let body = encode_body_of(response);
        try_frame_payload(response.correlation_id, body.as_slice())
    }
}

impl ProtocolParser for KafkaProtocolParser {
    /// Decodes the request `data`, a frame without its length prefix.
    fn parse_request(&self, data: &[u8]) -> (r: Result<KafkaRequest, ApplicationError>)
        ensures
            is_decoded(r, decode_request(data@)),
    {
        KafkaProtocolParser::parse_request(self, data)
    }

    /// The frame of `response`.
    fn encode_response(&self, response: KafkaResponse) -> (out: Vec<u8>)
        ensures
            out@ == encode_frame(response.deep_view()),
    {
        KafkaProtocolParser::encode_response(self, response)
    }
}

} // verus!
