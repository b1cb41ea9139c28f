//! The wire layout of responses, and the functions that produce it.
use crate::adapters::incoming::protocol::messages::response::{
    ApiVersion, FetchPartitionResponse, FetchResponse, FetchResponseModel, FetchTopicResponse,
    FetchTopicResponseModel, KafkaResponse, PartitionInfo, PartitionInfoModel, ResponseModel,
    ResponsePayload, ResponsePayloadModel, TopicResponse, TopicResponseModel,
};
use crate::codec::buffer::{
    buffer_to_vec, new_buffer, put_i16, put_i32, put_i64, put_slice, put_u8, written,
};
use crate::codec::compact::{
    encode_compact_len, encode_compact_string, CompactArray, CompactString,
};
use crate::codec::integers::{
    be16_bytes, be32, be32_bytes, be64_bytes, lemma_be32_round_trip, lemma_pattern_round_trip,
    pattern16, pattern32, pattern64, signed32,
};
use bytes::BytesMut;
use vstd::prelude::*;

verus! {

/// An encoder in ghost code.
pub type Encoder<T> = spec_fn(T) -> Seq<u8>;

/// The encodings of `items`, one behind the other.
pub open spec fn encode_all<T>(item: Encoder<T>, items: Seq<T>) -> Seq<u8>
    decreases items.len(),
{
    if items.len() == 0 {
        Seq::empty()
    } else {
        encode_all(item, items.drop_last()) + item(items.last())
    }
}

/// The encoding of the first `i + 1` items is that of the first `i`
/// followed by that of item `i`.
pub proof fn lemma_encode_all_next<T>(item: Encoder<T>, items: Seq<T>, i: int)
    requires
        0 <= i < items.len(),
    ensures
        encode_all(item, items.take(i + 1)) == encode_all(item, items.take(i)) + item(items[i]),
        encode_all(item, items.take(0)) == Seq::<u8>::empty(),
        encode_all(item, items.take(items.len() as int)) == encode_all(item, items),
{
    assert(items.take(i + 1).drop_last() =~= items.take(i));
    assert(items.take(items.len() as int) =~= items);
}

/// One advertised API: key, lowest and highest version, no tagged fields.
pub open spec fn encode_api_version(v: ApiVersion) -> Seq<u8> {
    be16_bytes(pattern16(v.api_key as int)) + be16_bytes(pattern16(v.min_version as int))
        + be16_bytes(pattern16(v.max_version as int)) + seq![0u8]
}

/// The encoder of advertised APIs.
pub open spec fn api_version_encoder() -> Encoder<ApiVersion> {
    |v: ApiVersion| encode_api_version(v)
}

/// The body of an `ApiVersions` response: error code, the advertised APIs
/// as a compact array, a throttle time of zero, no tagged fields.
pub open spec fn encode_api_versions_body(error_code: i16, versions: Seq<ApiVersion>) -> Seq<u8> {
    be16_bytes(pattern16(error_code as int)) + encode_compact_len(versions.len()) + encode_all(
        api_version_encoder(),
        versions,
    ) + be32_bytes(0) + seq![0u8]
}

/// One node id, big-endian.
pub open spec fn encode_node_id(id: i32) -> Seq<u8> {
    be32_bytes(pattern32(id as int))
}

/// The encoder of node ids.
pub open spec fn node_id_encoder() -> Encoder<i32> {
    |id: i32| encode_node_id(id)
}

/// A compact array of node ids.
pub open spec fn encode_node_ids(ids: Seq<i32>) -> Seq<u8> {
    encode_compact_len(ids.len()) + encode_all(node_id_encoder(), ids)
}

/// One partition: error code, partition id, leader, leader epoch, then the
/// replicas, the in-sync replicas, the eligible leaders, the last known
/// eligible leaders and the offline replicas, no tagged fields.
pub open spec fn encode_partition_info(p: PartitionInfoModel) -> Seq<u8> {
    be16_bytes(pattern16(p.error_code as int)) + be32_bytes(pattern32(p.partition_id as int))
        + be32_bytes(pattern32(p.leader_id as int)) + be32_bytes(pattern32(p.leader_epoch as int))
        + encode_node_ids(p.replicas) + encode_node_ids(p.isr) + encode_node_ids(
        p.eligible_leader_replicas,
    ) + encode_node_ids(p.last_known_eligible_leader_replicas) + encode_node_ids(
        p.offline_replicas,
    ) + seq![0u8]
}

/// The encoder of partitions.
pub open spec fn partition_info_encoder() -> Encoder<PartitionInfoModel> {
    |p: PartitionInfoModel| encode_partition_info(p)
}

/// One topic: error code, name, id, the internal flag, the partitions, the
/// authorized operations, no tagged fields.
pub open spec fn encode_topic_response(t: TopicResponseModel) -> Seq<u8> {
    be16_bytes(pattern16(t.error_code as int)) + encode_compact_string(Some(t.topic_name))
        + t.topic_id + seq![
        if t.is_internal {
            1u8
        } else {
            0u8
        },
    ] + encode_compact_len(t.partitions.len()) + encode_all(
        partition_info_encoder(),
        t.partitions,
    ) + be32_bytes(pattern32(t.topic_authorized_operations as int)) + seq![0u8]
}

/// The encoder of topics.
pub open spec fn topic_response_encoder() -> Encoder<TopicResponseModel> {
    |t: TopicResponseModel| encode_topic_response(t)
}

/// The body of a `DescribeTopicPartitions` response: a throttle time of
/// zero, a tag buffer, the topics, a tag buffer, the null cursor, and the
/// closing tag buffer.
pub open spec fn encode_describe_body(topics: Seq<TopicResponseModel>) -> Seq<u8> {
    be32_bytes(0) + seq![0u8] + encode_compact_len(topics.len()) + encode_all(
        topic_response_encoder(),
        topics,
    ) + seq![0u8] + seq![0xffu8] + seq![0u8]
}

/// One partition of a `Fetch` response: index, error code, three offsets
/// of zero, no aborted transactions, preferred replica zero, no records, no
/// tagged fields.
pub open spec fn encode_fetch_partition(p: FetchPartitionResponse) -> Seq<u8> {
    be32_bytes(pattern32(p.partition_index as int)) + be16_bytes(pattern16(p.error_code as int))
        + be64_bytes(0) + be64_bytes(0) + be64_bytes(0) + seq![1u8] + be32_bytes(0) + seq![1u8]
        + seq![0u8]
}

/// The encoder of `Fetch` partitions.
pub open spec fn fetch_partition_encoder() -> Encoder<FetchPartitionResponse> {
    |p: FetchPartitionResponse| encode_fetch_partition(p)
}

/// One topic of a `Fetch` response: id, partitions, no tagged fields.
pub open spec fn encode_fetch_topic(t: FetchTopicResponseModel) -> Seq<u8> {
    t.topic_id + encode_compact_len(t.partitions.len()) + encode_all(
        fetch_partition_encoder(),
        t.partitions,
    ) + seq![0u8]
}

/// The encoder of `Fetch` topics.
pub open spec fn fetch_topic_encoder() -> Encoder<FetchTopicResponseModel> {
    |t: FetchTopicResponseModel| encode_fetch_topic(t)
}

/// The body of a `Fetch` response: a tag buffer, throttle time, error
/// code, session id, the topics, no tagged fields.
pub open spec fn encode_fetch_body(f: FetchResponseModel) -> Seq<u8> {
    seq![0u8] + be32_bytes(pattern32(f.throttle_time_ms as int)) + be16_bytes(
        pattern16(f.error_code as int),
    ) + be32_bytes(pattern32(f.session_id as int)) + encode_compact_len(f.responses.len())
        + encode_all(fetch_topic_encoder(), f.responses) + seq![0u8]
}

/// The body of a response: what follows the correlation id.
pub open spec fn encode_body(r: ResponseModel) -> Seq<u8> {
    match r.payload {
        ResponsePayloadModel::ApiVersions(versions) => encode_api_versions_body(
            r.error_code,
            versions,
        ),
        ResponsePayloadModel::DescribeTopicPartitions(topics) => encode_describe_body(topics),
        ResponsePayloadModel::Fetch(f) => encode_fetch_body(f),
    }
}

/// A payload behind its frame: the length of all that follows it, the
/// correlation id, and the payload.
pub open spec fn frame(correlation_id: i32, payload: Seq<u8>) -> Seq<u8> {
    be32_bytes(pattern32((4 + payload.len()) as int)) + be32_bytes(pattern32(correlation_id as int))
        + payload
}

/// The payload is short enough for the length of its frame to fit the
/// signed 32-bit length field.
pub open spec fn fits_frame(payload: Seq<u8>) -> bool {
    4 + payload.len() <= 0x7fff_ffff
}

/// A framed response.
pub open spec fn encode_frame(r: ResponseModel) -> Seq<u8> {
    frame(r.correlation_id, encode_body(r))
}

/// Appends the advertised APIs of an `ApiVersions` response body.
pub fn write_api_versions_body(dst: &mut BytesMut, error_code: i16, versions: &Vec<ApiVersion>)
    ensures
        written(*final(dst)) == written(*old(dst)) + encode_api_versions_body(error_code, versions@),
{
    let ghost item = api_version_encoder();
    put_i16(dst, error_code);
    CompactArray::serialize_len(versions.len(), dst);
    let ghost start = written(*dst);
    let mut i: usize = 0;
    proof {
        assert(versions@.take(0) =~= Seq::<ApiVersion>::empty());
        assert(start + Seq::<u8>::empty() =~= start);
    }
    while i < versions.len()
        invariant
            i <= versions@.len(),
            item == api_version_encoder(),
            written(*dst) == start + encode_all(item, versions@.take(i as int)),
        decreases versions@.len() - i,
    {
        let ghost before = written(*dst);
        let v = versions[i];
        put_i16(dst, v.api_key);
        put_i16(dst, v.min_version);
        put_i16(dst, v.max_version);
        put_u8(dst, 0);
        proof {
            lemma_encode_all_next(item, versions@, i as int);
            assert(written(*dst) =~= before + encode_api_version(v));
            assert(written(*dst) =~= start + (encode_all(item, versions@.take(i as int)) + item(v)));
        }
        i = i + 1;
    }
    put_i32(dst, 0);
    put_u8(dst, 0);
    proof {
        assert(versions@.take(i as int) =~= versions@);
        assert(pattern32(0) == 0);
        assert(written(*dst) =~= written(*old(dst)) + encode_api_versions_body(error_code, versions@));
    }
}

/// Appends a compact array of node ids.
fn write_node_ids(dst: &mut BytesMut, ids: &Vec<i32>)
    ensures
        written(*final(dst)) == written(*old(dst)) + encode_node_ids(ids@),
{
    let ghost item = node_id_encoder();
    CompactArray::serialize_len(ids.len(), dst);
    let ghost start = written(*dst);
    let mut i: usize = 0;
    proof {
        assert(ids@.take(0) =~= Seq::<i32>::empty());
        assert(start + Seq::<u8>::empty() =~= start);
    }
    while i < ids.len()
        invariant
            i <= ids@.len(),
            item == node_id_encoder(),
            written(*dst) == start + encode_all(item, ids@.take(i as int)),
        decreases ids@.len() - i,
    {
        put_i32(dst, ids[i]);
        proof {
            lemma_encode_all_next(item, ids@, i as int);
            assert(written(*dst) =~= start + (encode_all(item, ids@.take(i as int)) + item(ids@[i as int])));
        }
        i = i + 1;
    }
    proof {
        assert(ids@.take(i as int) =~= ids@);
        assert(written(*dst) =~= written(*old(dst)) + encode_node_ids(ids@));
    }
}

/// Appends one partition of a `DescribeTopicPartitions` response.
fn write_partition_info(dst: &mut BytesMut, p: &PartitionInfo)
    ensures
        written(*final(dst)) == written(*old(dst)) + encode_partition_info(p.deep_view()),
{
    put_i16(dst, p.error_code);
    put_i32(dst, p.partition_id);
    put_i32(dst, p.leader_id);
    put_i32(dst, p.leader_epoch);
    write_node_ids(dst, &p.replicas);
    write_node_ids(dst, &p.isr);
    write_node_ids(dst, &p.eligible_leader_replicas);
    write_node_ids(dst, &p.last_known_eligible_leader_replicas);
    write_node_ids(dst, &p.offline_replicas);
    put_u8(dst, 0);
    proof {
        assert(written(*dst) =~= written(*old(dst)) + encode_partition_info(p.deep_view()));
    }
}

/// Appends one topic of a `DescribeTopicPartitions` response.
fn write_topic_response(dst: &mut BytesMut, t: &TopicResponse)
    ensures
        written(*final(dst)) == written(*old(dst)) + encode_topic_response(t.deep_view()),
{
    let ghost item = partition_info_encoder();
    let ghost models = t.partitions.deep_view();
    put_i16(dst, t.error_code);
    CompactString::serialize(t.topic_name.as_str(), dst);
    put_slice(dst, t.topic_id.as_slice());
    put_u8(
        dst,
        if t.is_internal {
            1
        } else {
            0
        },
    );
    CompactArray::serialize_len(t.partitions.len(), dst);
    let ghost start = written(*dst);
    let mut i: usize = 0;
    proof {
        assert(models.take(0) =~= Seq::<PartitionInfoModel>::empty());
        assert(start + Seq::<u8>::empty() =~= start);
    }
    while i < t.partitions.len()
        invariant
            i <= t.partitions@.len(),
            item == partition_info_encoder(),
            models == t.partitions.deep_view(),
            written(*dst) == start + encode_all(item, models.take(i as int)),
        decreases t.partitions@.len() - i,
    {
        write_partition_info(dst, &t.partitions[i]);
        proof {
            lemma_encode_all_next(item, models, i as int);
            assert(written(*dst) =~= start + (encode_all(item, models.take(i as int)) + item(
                models[i as int],
            )));
        }
        i = i + 1;
    }
    put_i32(dst, t.topic_authorized_operations);
    put_u8(dst, 0);
    proof {
        assert(models.take(i as int) =~= models);
        assert(written(*dst) =~= written(*old(dst)) + encode_topic_response(t.deep_view()));
    }
}

/// Appends the body of a `DescribeTopicPartitions` response.
fn write_describe_body(dst: &mut BytesMut, topics: &Vec<TopicResponse>)
    ensures
        written(*final(dst)) == written(*old(dst)) + encode_describe_body(topics.deep_view()),
{
    let ghost item = topic_response_encoder();
    let ghost models = topics.deep_view();
    put_i32(dst, 0);
    put_u8(dst, 0);
    CompactArray::serialize_len(topics.len(), dst);
    let ghost start = written(*dst);
    let mut i: usize = 0;
    proof {
        assert(models.take(0) =~= Seq::<TopicResponseModel>::empty());
        assert(start + Seq::<u8>::empty() =~= start);
    }
    while i < topics.len()
        invariant
            i <= topics@.len(),
            item == topic_response_encoder(),
            models == topics.deep_view(),
            written(*dst) == start + encode_all(item, models.take(i as int)),
        decreases topics@.len() - i,
    {
        write_topic_response(dst, &topics[i]);
        proof {
            lemma_encode_all_next(item, models, i as int);
            assert(written(*dst) =~= start + (encode_all(item, models.take(i as int)) + item(
                models[i as int],
            )));
        }
        i = i + 1;
    }
    put_u8(dst, 0);
    put_u8(dst, 0xff);
    put_u8(dst, 0);
    proof {
        assert(models.take(i as int) =~= models);
        assert(pattern32(0) == 0);
        assert(written(*dst) =~= written(*old(dst)) + encode_describe_body(topics.deep_view()));
    }
}

/// Appends one topic of a `Fetch` response.
fn write_fetch_topic(dst: &mut BytesMut, t: &FetchTopicResponse)
    ensures
        written(*final(dst)) == written(*old(dst)) + encode_fetch_topic(t.deep_view()),
{
    let ghost item = fetch_partition_encoder();
    put_slice(dst, t.topic_id.as_slice());
    CompactArray::serialize_len(t.partitions.len(), dst);
    let ghost start = written(*dst);
    let mut i: usize = 0;
    proof {
        assert(t.partitions@.take(0) =~= Seq::<FetchPartitionResponse>::empty());
        assert(start + Seq::<u8>::empty() =~= start);
    }
    while i < t.partitions.len()
        invariant
            i <= t.partitions@.len(),
            item == fetch_partition_encoder(),
            written(*dst) == start + encode_all(item, t.partitions@.take(i as int)),
        decreases t.partitions@.len() - i,
    {
        let ghost before = written(*dst);
        let p = t.partitions[i];
        put_i32(dst, p.partition_index);
        put_i16(dst, p.error_code);
        put_i64(dst, 0);
        put_i64(dst, 0);
        put_i64(dst, 0);
        put_u8(dst, 1);
        put_i32(dst, 0);
        put_u8(dst, 1);
        put_u8(dst, 0);
        proof {
            lemma_encode_all_next(item, t.partitions@, i as int);
            assert(pattern64(0) == 0 && pattern32(0) == 0);
            assert(written(*dst) =~= before + encode_fetch_partition(p));
            assert(written(*dst) =~= start + (encode_all(item, t.partitions@.take(i as int)) + item(p)));
        }
        i = i + 1;
    }
    put_u8(dst, 0);
    proof {
        assert(t.partitions@.take(i as int) =~= t.partitions@);
        assert(written(*dst) =~= written(*old(dst)) + encode_fetch_topic(t.deep_view()));
    }
}

/// Appends the body of a `Fetch` response.
fn write_fetch_body(dst: &mut BytesMut, f: &FetchResponse)
    ensures
        written(*final(dst)) == written(*old(dst)) + encode_fetch_body(f.deep_view()),
{
    let ghost item = fetch_topic_encoder();
    let ghost models = f.responses.deep_view();
    put_u8(dst, 0);
    put_i32(dst, f.throttle_time_ms);
    put_i16(dst, f.error_code);
    put_i32(dst, f.session_id);
    CompactArray::serialize_len(f.responses.len(), dst);
    let ghost start = written(*dst);
    let mut i: usize = 0;
    proof {
        assert(models.take(0) =~= Seq::<FetchTopicResponseModel>::empty());
        assert(start + Seq::<u8>::empty() =~= start);
    }
    while i < f.responses.len()
        invariant
            i <= f.responses@.len(),
            item == fetch_topic_encoder(),
            models == f.responses.deep_view(),
            written(*dst) == start + encode_all(item, models.take(i as int)),
        decreases f.responses@.len() - i,
    {
        write_fetch_topic(dst, &f.responses[i]);
        proof {
            lemma_encode_all_next(item, models, i as int);
            assert(written(*dst) =~= start + (encode_all(item, models.take(i as int)) + item(
                models[i as int],
            )));
        }
        i = i + 1;
    }
    put_u8(dst, 0);
    proof {
        assert(models.take(i as int) =~= models);
        assert(written(*dst) =~= written(*old(dst)) + encode_fetch_body(f.deep_view()));
    }
}

/// The body of `response`: what follows the correlation id on the wire.
pub fn encode_body_of(response: &KafkaResponse) -> (body: Vec<u8>)
    ensures
        body@ == encode_body(response.deep_view()),
{
    let mut body = new_buffer();
    match &response.payload {
        ResponsePayload::ApiVersions(r) => {
            write_api_versions_body(&mut body, response.error_code, &r.api_versions);
        },
        ResponsePayload::DescribeTopicPartitions(r) => {
            write_describe_body(&mut body, &r.topics);
        },
        ResponsePayload::Fetch(r) => {
            write_fetch_body(&mut body, r);
        },
    }
    assert(written(body) =~= encode_body(response.deep_view()));
    buffer_to_vec(&body)
}

/// The frame around `payload`: the length of what follows it, the
/// correlation id, and the payload.
pub fn frame_payload(correlation_id: i32, payload: &[u8]) -> (out: Vec<u8>)
    requires
        fits_frame(payload@),
    ensures
        out@ == frame(correlation_id, payload@),
{
    let mut out = new_buffer();
    let total: usize = payload.len() + 4;
    put_i32(&mut out, total as i32);
    put_i32(&mut out, correlation_id);
    put_slice(&mut out, payload);
    assert(written(out) =~= frame(correlation_id, payload@));
    buffer_to_vec(&out)
}

/// The frame around `payload`, or nothing when the payload is too long for
/// the length field.
pub fn try_frame_payload(correlation_id: i32, payload: &[u8]) -> (r: Option<Vec<u8>>)
    ensures
        match r {
            Some(out) => fits_frame(payload@) && out@ == frame(correlation_id, payload@),
            None => !fits_frame(payload@),
        },
{
    if payload.len() > 0x7fff_fffb {
        None
    } else {
        Some(frame_payload(correlation_id, payload))
    }
}

/// A framed payload starts with the length of the rest and with the
/// correlation id.
pub proof fn lemma_frame_layout(correlation_id: i32, payload: Seq<u8>)
    requires
        fits_frame(payload),
    ensures
        frame(correlation_id, payload).len() == 8 + payload.len(),
        signed32(be32(frame(correlation_id, payload)))
            == frame(correlation_id, payload).len() - 4,
        signed32(
            be32(frame(correlation_id, payload).skip(4)),
        ) == correlation_id,
        frame(correlation_id, payload).skip(8) == payload,
{
    let f = frame(correlation_id, payload);
    let head = be32_bytes(pattern32((4 + payload.len()) as int));
    let cid = be32_bytes(pattern32(correlation_id as int));
    lemma_pattern_round_trip(correlation_id as int);
    lemma_pattern_round_trip((4 + payload.len()) as int);
    assert(f =~= head + (cid + payload));
    lemma_be32_round_trip(pattern32((4 + payload.len()) as int), cid + payload);
    assert(f.skip(4) =~= cid + payload);
    lemma_be32_round_trip(pattern32(correlation_id as int), payload);
    assert(f.skip(8) =~= payload);
}

} // verus!
