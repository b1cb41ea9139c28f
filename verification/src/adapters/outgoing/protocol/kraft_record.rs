//! The cluster-metadata log: a run of record batches, each holding records
//! whose values describe topics, partitions and feature levels.
use crate::application::error::{malformed, ApplicationError, Malformed};
use crate::codec::buffer::{
    advance, fork, get_i16, get_i32, get_i64, get_i8, get_u16, get_u32, get_u8, remaining, unread,
};
pub use crate::codec::compact::{
    CompactArray, CompactNullableBytes, CompactString, Deserialize,
};
use crate::codec::compact::{
    after, decode_compact_array, decode_compact_bytes, decode_compact_len, decode_compact_string,
    decode_repeated, read_items, u32_decoder,
};
use crate::codec::integers::{be16, be32, be64, signed16, signed32, signed64, signed8};
pub use crate::codec::uuid::Uuid;
use crate::codec::uuid::{decode_uuid, uuid_decoder};
pub use crate::codec::varint::VarInt;
use crate::codec::varint::{
    decode_signed_varint, decode_unsigned_varint, lemma_varint_end_bound, Decoded, Decoder,
};
use bytes::Bytes;
use vstd::prelude::*;

verus! {

/// Record type of a topic record.
pub const TOPIC_RECORD: u8 = 2;

/// Record type of a partition record.
pub const PARTITION_RECORD: u8 = 3;

/// Record type of a feature-level record.
pub const FEATURE_LEVEL_RECORD: u8 = 12;

/// Number of bytes in front of the records of a batch: the twelve header
/// fields and the record count.
pub const BATCH_HEADER_BYTES: usize = 61;

/// Number of bytes of a batch that its `batch_length` does not count: the
/// base offset and the length itself.
pub const BATCH_PREFIX_BYTES: usize = 12;

/// Marker type for sequences behind a 32-bit count, where -1 is null.
pub struct NullableBytes;

/// A topic and its id.
#[derive(Debug, Clone)]
pub struct TopicValue {
    pub topic_name: String,
    pub topic_id: String,
}

/// One partition of a topic and where its replicas live.
#[derive(Debug, Clone)]
pub struct PartitionValue {
    pub partition_id: u32,
    pub topic_id: String,
    pub replicas: Vec<u32>,
    pub in_sync_replicas: Vec<u32>,
    pub removing_replicas: Vec<u32>,
    pub adding_replicas: Vec<u32>,
    pub leader_id: u32,
    pub leader_epoch: u32,
    pub partition_epoch: u32,
    pub directories: Vec<String>,
}

/// The level of a named cluster feature.
#[derive(Debug, Clone)]
pub struct FeatureLevelValue {
    pub name: String,
    pub level: u16,
}

/// The typed value of a record.
#[derive(Debug, Clone)]
pub enum RecordValue {
    FeatureLevel(FeatureLevelValue),
    Topic(TopicValue),
    Partition(PartitionValue),
    /// A record of a type that this reader does not interpret.
    Unknown(u8),
}

/// One record of a batch.
#[derive(Debug, Clone)]
pub struct Record {
    pub length: u64,
    pub attributes: i8,
    pub timestamp_delta: i64,
    pub offset_delta: i64,
    pub key: Option<Vec<u8>>,
    pub value_length: u64,
    pub value: RecordValue,
    /// Number of headers that the record announces. Header entries carry no
    /// bytes of their own in this format.
    pub header_count: u64,
}

/// One batch of the log.
#[derive(Debug, Clone)]
pub struct RecordBatch {
    pub base_offset: i64,
    pub batch_length: i32,
    pub partition_leader_epoch: i32,
    pub magic: i8,
    pub crc: u32,
    pub attributes: i16,
    pub last_offset_delta: i32,
    pub base_timestamp: i64,
    pub max_timestamp: i64,
    pub producer_id: i64,
    pub producer_epoch: i16,
    pub base_sequence: i32,
    pub records: Vec<Record>,
}

/// Mathematical model of a [`TopicValue`].
pub struct TopicModel {
    pub topic_name: Seq<char>,
    pub topic_id: Seq<char>,
}

/// Mathematical model of a [`PartitionValue`].
pub struct PartitionModel {
    pub partition_id: u32,
    pub topic_id: Seq<char>,
    pub replicas: Seq<u32>,
    pub in_sync_replicas: Seq<u32>,
    pub removing_replicas: Seq<u32>,
    pub adding_replicas: Seq<u32>,
    pub leader_id: u32,
    pub leader_epoch: u32,
    pub partition_epoch: u32,
    pub directories: Seq<Seq<char>>,
}

/// Mathematical model of a [`FeatureLevelValue`].
pub struct FeatureLevelModel {
    pub name: Seq<char>,
    pub level: u16,
}

/// Mathematical model of a [`RecordValue`].
pub enum ValueModel {
    FeatureLevel(FeatureLevelModel),
    Topic(TopicModel),
    Partition(PartitionModel),
    Unknown(u8),
}

/// Mathematical model of a [`Record`].
pub struct RecordModel {
    pub length: u64,
    pub attributes: i8,
    pub timestamp_delta: i64,
    pub offset_delta: i64,
    pub key: Option<Seq<u8>>,
    pub value_length: u64,
    pub value: ValueModel,
    pub header_count: u64,
}

/// Mathematical model of a [`RecordBatch`].
pub struct BatchModel {
    pub base_offset: i64,
    pub batch_length: i32,
    pub partition_leader_epoch: i32,
    pub magic: i8,
    pub crc: u32,
    pub attributes: i16,
    pub last_offset_delta: i32,
    pub base_timestamp: i64,
    pub max_timestamp: i64,
    pub producer_id: i64,
    pub producer_epoch: i16,
    pub base_sequence: i32,
    pub records: Seq<RecordModel>,
}

impl DeepView for TopicValue {
    type V = TopicModel;

    open spec fn deep_view(&self) -> TopicModel {
        TopicModel { topic_name: self.topic_name@, topic_id: self.topic_id@ }
    }
}

impl DeepView for PartitionValue {
    type V = PartitionModel;

    open spec fn deep_view(&self) -> PartitionModel {
        PartitionModel {
            partition_id: self.partition_id,
            topic_id: self.topic_id@,
            replicas: self.replicas@,
            in_sync_replicas: self.in_sync_replicas@,
            removing_replicas: self.removing_replicas@,
            adding_replicas: self.adding_replicas@,
            leader_id: self.leader_id,
            leader_epoch: self.leader_epoch,
            partition_epoch: self.partition_epoch,
            directories: self.directories.deep_view(),
        }
    }
}

impl DeepView for FeatureLevelValue {
    type V = FeatureLevelModel;

    open spec fn deep_view(&self) -> FeatureLevelModel {
        FeatureLevelModel { name: self.name@, level: self.level }
    }
}

impl DeepView for RecordValue {
    type V = ValueModel;

    open spec fn deep_view(&self) -> ValueModel {
        match self {
            RecordValue::FeatureLevel(v) => ValueModel::FeatureLevel(v.deep_view()),
            RecordValue::Topic(v) => ValueModel::Topic(v.deep_view()),
            RecordValue::Partition(v) => ValueModel::Partition(v.deep_view()),
            RecordValue::Unknown(t) => ValueModel::Unknown(*t),
        }
    }
}

/// Model of an optional byte string.
pub open spec fn bytes_model(key: Option<Vec<u8>>) -> Option<Seq<u8>> {
    match key {
        Some(k) => Some(k@),
        None => None,
    }
}

impl DeepView for Record {
    type V = RecordModel;

    open spec fn deep_view(&self) -> RecordModel {
        RecordModel {
            length: self.length,
            attributes: self.attributes,
            timestamp_delta: self.timestamp_delta,
            offset_delta: self.offset_delta,
            key: bytes_model(self.key),
            value_length: self.value_length,
            value: self.value.deep_view(),
            header_count: self.header_count,
        }
    }
}

impl DeepView for RecordBatch {
    type V = BatchModel;

    open spec fn deep_view(&self) -> BatchModel {
        BatchModel {
            base_offset: self.base_offset,
            batch_length: self.batch_length,
            partition_leader_epoch: self.partition_leader_epoch,
            magic: self.magic,
            crc: self.crc,
            attributes: self.attributes,
            last_offset_delta: self.last_offset_delta,
            base_timestamp: self.base_timestamp,
            max_timestamp: self.max_timestamp,
            producer_id: self.producer_id,
            producer_epoch: self.producer_epoch,
            base_sequence: self.base_sequence,
            records: self.records.deep_view(),
        }
    }
}

/// A string that may be null, read as empty when it is.
pub open spec fn text_or_empty(text: Option<Seq<char>>) -> Seq<char> {
    match text {
        Some(t) => t,
        None => Seq::empty(),
    }
}

/// The end of a structure without tagged fields: an unsigned varint 0.
pub open spec fn decode_tag_buffer(s: Seq<u8>) -> Decoded<()> {
    match decode_unsigned_varint(s) {
        Err(e) => Err(e),
        Ok((count, rest)) => if count == 0 {
            Ok(((), rest))
        } else {
            Err(Malformed::UnexpectedTaggedFields)
        },
    }
}

/// One byte that must hold the version `expected`.
pub open spec fn decode_version(s: Seq<u8>, expected: u8) -> Decoded<()> {
    if s.len() < 1 {
        Err(Malformed::BufferExhausted)
    } else if s[0] != expected {
        Err(Malformed::UnsupportedRecordVersion)
    } else {
        Ok(((), s.skip(1)))
    }
}

/// A topic record from its version byte on: version 0, name, id, tags.
/// The sixteen bytes of the id follow the name directly.
#[verifier::opaque]
pub open spec fn decode_topic_value(s: Seq<u8>) -> Decoded<TopicModel> {
    match decode_version(s, 0) {
        Err(e) => Err(e),
        Ok((_, s1)) => match decode_compact_string(s1) {
            Err(e) => Err(e),
            Ok((name, s2)) => match decode_uuid(s2) {
                Err(e) => Err(e),
                Ok((id, s3)) => match decode_tag_buffer(s3) {
                    Err(e) => Err(e),
                    Ok((_, s4)) => Ok(
                        (TopicModel { topic_name: text_or_empty(name), topic_id: id }, s4),
                    ),
                },
            },
        }
    }
}

/// A feature-level record from its version byte on: version 0, name,
/// level, tags.
#[verifier::opaque]
pub open spec fn decode_feature_level_value(s: Seq<u8>) -> Decoded<FeatureLevelModel> {
    match decode_version(s, 0) {
        Err(e) => Err(e),
        Ok((_, s1)) => match decode_compact_string(s1) {
            Err(e) => Err(e),
            Ok((name, s2)) => if s2.len() < 2 {
                Err(Malformed::BufferExhausted)
            } else {
                match decode_tag_buffer(s2.skip(2)) {
                    Err(e) => Err(e),
                    Ok((_, s3)) => Ok(
                        (
                            FeatureLevelModel { name: text_or_empty(name), level: be16(s2) as u16 },
                            s3,
                        ),
                    ),
                }
            },
        }
    }
}

/// The four replica sets of a partition record, in wire order: replicas,
/// in-sync, removing, adding.
#[verifier::opaque]
pub open spec fn decode_replica_sets(s: Seq<u8>) -> Decoded<
    (Seq<u32>, Seq<u32>, Seq<u32>, Seq<u32>),
> {
    match decode_compact_array(u32_decoder(), s) {
        Err(e) => Err(e),
        Ok((replicas, s1)) => match decode_compact_array(u32_decoder(), s1) {
            Err(e) => Err(e),
            Ok((in_sync, s2)) => match decode_compact_array(u32_decoder(), s2) {
                Err(e) => Err(e),
                Ok((removing, s3)) => match decode_compact_array(u32_decoder(), s3) {
                    Err(e) => Err(e),
                    Ok((adding, s4)) => Ok(((replicas, in_sync, removing, adding), s4)),
                },
            },
        },
    }
}

/// The leader, the two epochs, the directories and the tags that close a
/// partition record.
#[verifier::opaque]
pub open spec fn decode_partition_tail(s: Seq<u8>) -> Decoded<(u32, u32, u32, Seq<Seq<char>>)> {
    if s.len() < 12 {
        Err(Malformed::BufferExhausted)
    } else {
        let s1 = s.skip(4);
        let s2 = s1.skip(4);
        match decode_compact_array(uuid_decoder(), s2.skip(4)) {
            Err(e) => Err(e),
            Ok((directories, s3)) => match decode_tag_buffer(s3) {
                Err(e) => Err(e),
                Ok((_, s4)) => Ok(
                    ((be32(s) as u32, be32(s1) as u32, be32(s2) as u32, directories), s4),
                ),
            },
        }
    }
}

/// A partition record from its version byte on: version 1, partition id,
/// topic id, replica sets, leader, epochs, directories, tags.
#[verifier::opaque]
pub open spec fn decode_partition_value(s: Seq<u8>) -> Decoded<PartitionModel> {
    match decode_version(s, 1) {
        Err(e) => Err(e),
        Ok((_, s1)) => if s1.len() < 4 {
            Err(Malformed::BufferExhausted)
        } else {
            match decode_uuid(s1.skip(4)) {
                Err(e) => Err(e),
                Ok((topic_id, s2)) => match decode_replica_sets(s2) {
                    Err(e) => Err(e),
                    Ok((sets, s3)) => match decode_partition_tail(s3) {
                        Err(e) => Err(e),
                        Ok((tail, s4)) => Ok(
                            (
                                PartitionModel {
                                    partition_id: be32(s1) as u32,
                                    topic_id,
                                    replicas: sets.0,
                                    in_sync_replicas: sets.1,
                                    removing_replicas: sets.2,
                                    adding_replicas: sets.3,
                                    leader_id: tail.0,
                                    leader_epoch: tail.1,
                                    partition_epoch: tail.2,
                                    directories: tail.3,
                                },
                                s4,
                            ),
                        ),
                    },
                },
            }
        },
    }
}

/// A record value: frame version 1, the record type, and what the type
/// calls for. A value of another type decodes as `Unknown` once the type
/// has been read; nothing more of it is consumed.
#[verifier::opaque]
pub open spec fn decode_record_value(s: Seq<u8>) -> Decoded<ValueModel> {
    if s.len() < 1 {
        Err(Malformed::BufferExhausted)
    } else if s[0] != 1 {
        Err(Malformed::InvalidFrameVersion)
    } else if s.len() < 2 {
        Err(Malformed::BufferExhausted)
    } else {
        let body = s.skip(1).skip(1);
        if s[1] == TOPIC_RECORD {
            match decode_topic_value(body) {
                Err(e) => Err(e),
                Ok((v, rest)) => Ok((ValueModel::Topic(v), rest)),
            }
        } else if s[1] == PARTITION_RECORD {
            match decode_partition_value(body) {
                Err(e) => Err(e),
                Ok((v, rest)) => Ok((ValueModel::Partition(v), rest)),
            }
        } else if s[1] == FEATURE_LEVEL_RECORD {
            match decode_feature_level_value(body) {
                Err(e) => Err(e),
                Ok((v, rest)) => Ok((ValueModel::FeatureLevel(v), rest)),
            }
        } else {
            Ok((ValueModel::Unknown(s[1]), body))
        }
    }
}

/// What follows the value of a record whose body is `body` and whose
/// declared length is `length`, when `rest` is the input behind the value.
/// Behind a value of a known type stands the header count. A value of an
/// unknown type is skipped together with whatever else the record holds:
/// reading resumes `length` bytes into the body.
#[verifier::opaque]
pub open spec fn decode_record_end(
    length: u64,
    body: Seq<u8>,
    value: ValueModel,
    rest: Seq<u8>,
) -> Decoded<u64> {
    if value is Unknown {
        if length > body.len() {
            Err(Malformed::BufferExhausted)
        } else if body.len() - length > rest.len() {
            Err(Malformed::InvalidLength)
        } else {
            Ok((0u64, body.skip(length as int)))
        }
    } else {
        match decode_compact_len(rest) {
            Err(e) => Err(e),
            Ok((None, end)) => Ok((0u64, end)),
            Ok((Some(count), end)) => Ok((count as u64, end)),
        }
    }
}

/// One record: length, attributes, the two deltas, key, value length,
/// value, and the end of the record.
#[verifier::opaque]
pub open spec fn decode_record(s: Seq<u8>) -> Decoded<RecordModel> {
    match decode_unsigned_varint(s) {
        Err(e) => Err(e),
        Ok((length, body)) => if body.len() < 1 {
            Err(Malformed::BufferExhausted)
        } else {
            match decode_signed_varint(body.skip(1)) {
                Err(e) => Err(e),
                Ok((timestamp_delta, s2)) => match decode_signed_varint(s2) {
                    Err(e) => Err(e),
                    Ok((offset_delta, s3)) => match decode_compact_bytes(s3) {
                        Err(e) => Err(e),
                        Ok((key, s4)) => match decode_unsigned_varint(s4) {
                            Err(e) => Err(e),
                            Ok((value_length, s5)) => match decode_record_value(s5) {
                                Err(e) => Err(e),
                                Ok((value, s6)) => match decode_record_end(
                                    length,
                                    body,
                                    value,
                                    s6,
                                ) {
                                    Err(e) => Err(e),
                                    Ok((header_count, end)) => Ok(
                                        (
                                            RecordModel {
                                                length,
                                                attributes: signed8(body[0] as nat) as i8,
                                                timestamp_delta,
                                                offset_delta,
                                                key,
                                                value_length,
                                                value,
                                                header_count,
                                            },
                                            end,
                                        ),
                                    ),
                                },
                            },
                        },
                    },
                },
            }
        },
    }
}

/// The decoder of records.
pub open spec fn record_decoder() -> Decoder<RecordModel> {
    |s: Seq<u8>| decode_record(s)
}

/// The number of items that a 32-bit count announces: -1 is null and
/// announces none; any other negative number is no count.
pub open spec fn decode_count(s: Seq<u8>) -> Decoded<nat> {
    if s.len() < 4 {
        Err(Malformed::BufferExhausted)
    } else if signed32(be32(s)) < -1 {
        Err(Malformed::InvalidLength)
    } else if signed32(be32(s)) == -1 {
        Ok((0nat, s.skip(4)))
    } else {
        Ok((signed32(be32(s)) as nat, s.skip(4)))
    }
}

/// A sequence behind a 32-bit count, each item decoded by `item`.
pub open spec fn decode_counted<T>(item: Decoder<T>, s: Seq<u8>) -> Decoded<Seq<T>> {
    match decode_count(s) {
        Err(e) => Err(e),
        Ok((count, rest)) => decode_repeated(item, rest, count),
    }
}

/// One batch: the twelve header fields at their fixed places, the record
/// count, and that many records.
#[verifier::opaque]
pub open spec fn decode_batch(s: Seq<u8>) -> Decoded<BatchModel> {
    if s.len() < 61 {
        Err(Malformed::BufferExhausted)
    } else {
        let s1 = s.skip(8);
        let s2 = s1.skip(4);
        let s3 = s2.skip(4);
        let s4 = s3.skip(1);
        let s5 = s4.skip(4);
        let s6 = s5.skip(2);
        let s7 = s6.skip(4);
        let s8 = s7.skip(8);
        let s9 = s8.skip(8);
        let s10 = s9.skip(8);
        let s11 = s10.skip(2);
        let s12 = s11.skip(4);
        match decode_counted(record_decoder(), s12) {
            Err(e) => Err(e),
            Ok((records, rest)) => Ok(
                    (
                        BatchModel {
                            base_offset: signed64(be64(s)) as i64,
                            batch_length: signed32(be32(s1)) as i32,
                            partition_leader_epoch: signed32(be32(s2)) as i32,
                            magic: signed8(s3[0] as nat) as i8,
                            crc: be32(s4) as u32,
                            attributes: signed16(be16(s5)) as i16,
                            last_offset_delta: signed32(be32(s6)) as i32,
                            base_timestamp: signed64(be64(s7)) as i64,
                            max_timestamp: signed64(be64(s8)) as i64,
                            producer_id: signed64(be64(s9)) as i64,
                            producer_epoch: signed16(be16(s10)) as i16,
                            base_sequence: signed32(be32(s11)) as i32,
                            records,
                        },
                        rest,
                    ),
                ),
        }
    }
}

/// Where the batch at the front of `s` ends according to its own
/// `batch_length`, counted from the start of the batch.
pub open spec fn batch_end(s: Seq<u8>) -> int {
    12 + signed32(be32(s.skip(8)))
}

/// The batches of a log. Reading stops without error at the end of the
/// input and in front of a batch whose declared length runs past it. After
/// each batch reading resumes where the batch's declared length says it
/// ends, whether or not its records ended there.
#[verifier::opaque]
pub open spec fn decode_log(s: Seq<u8>) -> Decoded<Seq<BatchModel>>
    decreases s.len(),
{
    if s.len() == 0 {
        Ok((Seq::empty(), s))
    } else if s.len() < 12 {
        Err(Malformed::BufferExhausted)
    } else if batch_end(s) > s.len() {
        Ok((Seq::empty(), s))
    } else if batch_end(s) <= 0 {
        Err(Malformed::InvalidLength)
    } else {
        match decode_batch(s) {
            Err(e) => Err(e),
            Ok((batch, _)) => match decode_log(s.skip(batch_end(s))) {
                Err(e) => Err(e),
                Ok((others, rest)) => Ok((seq![batch] + others, rest)),
            },
        }
    }
}

/// `rest` is what is left of `s` after some bytes at its front were read.
pub open spec fn is_suffix(rest: Seq<u8>, s: Seq<u8>) -> bool {
    rest.len() <= s.len() && rest == s.skip(s.len() - rest.len())
}

proof fn lemma_suffix_chain(a: Seq<u8>, b: Seq<u8>, c: Seq<u8>)
    requires
        is_suffix(a, b),
        is_suffix(b, c),
    ensures
        is_suffix(a, c),
{
    assert(c.skip(c.len() - b.len()).skip(b.len() - a.len()) =~= c.skip(c.len() - a.len()));
}

proof fn lemma_skip_suffix(s: Seq<u8>, n: int)
    requires
        0 <= n <= s.len(),
    ensures
        is_suffix(s.skip(n), s),
{
}

proof fn lemma_varint_suffix(s: Seq<u8>)
    ensures
        decode_unsigned_varint(s) matches Ok((_, rest)) ==> is_suffix(rest, s),
        decode_signed_varint(s) matches Ok((_, rest)) ==> is_suffix(rest, s),
{
    lemma_varint_end_bound(s, 0);
}

proof fn lemma_compact_bytes_suffix(s: Seq<u8>)
    ensures
        decode_compact_bytes(s) matches Ok((_, rest)) ==> is_suffix(rest, s),
{
    lemma_varint_suffix(s);
    if let Ok((len, s1)) = decode_compact_len(s) {
        if let Some(n) = len {
            if s1.len() >= n {
                lemma_skip_suffix(s1, n as int);
                lemma_suffix_chain(s1.skip(n as int), s1, s);
            }
        }
    }
}

/// Reads the end of a structure without tagged fields.
fn read_tag_buffer(src: &mut Bytes) -> (r: Result<(), ApplicationError>)
    ensures
        match r {
            Ok(_) => decode_tag_buffer(unread(*old(src))) matches Ok((_, rest)) && unread(
                *final(src),
            ) == rest,
            Err(e) => decode_tag_buffer(unread(*old(src))) matches Err(reason) && e == malformed(
                reason,
            ),
        },
{
    let count = VarInt::deserialize(src)?;
    if count != 0 {
        return Err(ApplicationError::MalformedRequest(Malformed::UnexpectedTaggedFields));
    }
    Ok(())
}

/// Reads the version byte of a record and holds it against `expected`.
fn read_version(src: &mut Bytes, expected: u8) -> (r: Result<(), ApplicationError>)
    ensures
        match r {
            Ok(_) => decode_version(unread(*old(src)), expected) matches Ok((_, rest)) && unread(
                *final(src),
            ) == rest,
            Err(e) => decode_version(unread(*old(src)), expected) matches Err(reason) && e
                == malformed(reason),
        },
{
    if remaining(src) < 1 {
        return Err(ApplicationError::MalformedRequest(Malformed::BufferExhausted));
    }
    let version = get_u8(src);
    if version != expected {
        return Err(ApplicationError::MalformedRequest(Malformed::UnsupportedRecordVersion));
    }
    Ok(())
}

/// The text of a string that may be null.
fn or_empty(text: Option<String>) -> (r: String)
    ensures
        r@ == text_or_empty(
            match text {
                Some(t) => Some(t@),
                None => None,
            },
        ),
{
    match text {
        Some(t) => t,
        None => String::new(),
    }
}

fn read_topic_value(src: &mut Bytes) -> (r: Result<TopicValue, ApplicationError>)
    ensures
        match r {
            Ok(v) => decode_topic_value(unread(*old(src))) matches Ok((value, rest))
                && v.deep_view() == value && unread(*final(src)) == rest,
            Err(e) => decode_topic_value(unread(*old(src))) matches Err(reason) && e == malformed(
                reason,
            ),
        },
{
    proof {
        reveal(decode_topic_value);
    }
    read_version(src, 0)?;
    let name = CompactString::deserialize(src)?;
    let topic_id = Uuid::deserialize(src)?;
    read_tag_buffer(src)?;
    Ok(TopicValue { topic_name: or_empty(name), topic_id })
}

fn read_feature_level_value(src: &mut Bytes) -> (r: Result<FeatureLevelValue, ApplicationError>)
    ensures
        match r {
            Ok(v) => decode_feature_level_value(unread(*old(src))) matches Ok((value, rest))
                && v.deep_view() == value && unread(*final(src)) == rest,
            Err(e) => decode_feature_level_value(unread(*old(src))) matches Err(reason) && e
                == malformed(reason),
        },
{
    proof {
        reveal(decode_feature_level_value);
    }
    read_version(src, 0)?;
    let name = CompactString::deserialize(src)?;
    if remaining(src) < 2 {
        return Err(ApplicationError::MalformedRequest(Malformed::BufferExhausted));
    }
    let level = get_u16(src);
    read_tag_buffer(src)?;
    Ok(FeatureLevelValue { name: or_empty(name), level })
}

impl Deserialize<u32> for PartitionValue {
    open spec fn decoder() -> Decoder<u32> {
        u32_decoder()
    }

    /// Reads one replica id: four bytes, big-endian.
    fn deserialize(src: &mut Bytes) -> (r: Result<u32, ApplicationError>) {
        if remaining(src) < 4 {
            return Err(ApplicationError::MalformedRequest(Malformed::BufferExhausted));
        }
        Ok(get_u32(src))
    }
}

impl Deserialize<String> for PartitionValue {
    open spec fn decoder() -> Decoder<Seq<char>> {
        uuid_decoder()
    }

    /// Reads the id of one directory and returns its canonical text.
    fn deserialize(src: &mut Bytes) -> (r: Result<String, ApplicationError>) {
        Uuid::deserialize(src)
    }
}

impl Deserialize<Record> for RecordBatch {
    open spec fn decoder() -> Decoder<RecordModel> {
        record_decoder()
    }

    /// Reads one record of the batch.
    fn deserialize(src: &mut Bytes) -> (r: Result<Record, ApplicationError>) {
        Record::from_bytes(src)
    }
}

fn read_replica_sets(src: &mut Bytes) -> (r: Result<
    (Vec<u32>, Vec<u32>, Vec<u32>, Vec<u32>),
    ApplicationError,
>)
    ensures
        match r {
            Ok(v) => decode_replica_sets(unread(*old(src))) matches Ok((value, rest)) && value == (
                v.0@,
                v.1@,
                v.2@,
                v.3@,
            ) && unread(*final(src)) == rest,
            Err(e) => decode_replica_sets(unread(*old(src))) matches Err(reason) && e
                == malformed(reason),
        },
{
    proof {
        reveal(decode_replica_sets);
    }
    let replicas = CompactArray::deserialize::<u32, PartitionValue>(src)?;
    let in_sync = CompactArray::deserialize::<u32, PartitionValue>(src)?;
    let removing = CompactArray::deserialize::<u32, PartitionValue>(src)?;
    let adding = CompactArray::deserialize::<u32, PartitionValue>(src)?;
    proof {
        assert(replicas.deep_view() =~= replicas@);
        assert(in_sync.deep_view() =~= in_sync@);
        assert(removing.deep_view() =~= removing@);
        assert(adding.deep_view() =~= adding@);
    }
    Ok((replicas, in_sync, removing, adding))
}

fn read_partition_tail(src: &mut Bytes) -> (r: Result<
    (u32, u32, u32, Vec<String>),
    ApplicationError,
>)
    ensures
        match r {
            Ok(v) => decode_partition_tail(unread(*old(src))) matches Ok((value, rest)) && value
                == (v.0, v.1, v.2, v.3.deep_view()) && unread(*final(src)) == rest,
            Err(e) => decode_partition_tail(unread(*old(src))) matches Err(reason) && e
                == malformed(reason),
        },
{
    proof {
        reveal(decode_partition_tail);
    }
    if remaining(src) < 12 {
        return Err(ApplicationError::MalformedRequest(Malformed::BufferExhausted));
    }
    let leader_id = get_u32(src);
    let leader_epoch = get_u32(src);
    let partition_epoch = get_u32(src);
    let directories = CompactArray::deserialize::<String, PartitionValue>(src)?;
    read_tag_buffer(src)?;
    Ok((leader_id, leader_epoch, partition_epoch, directories))
}

fn read_partition_value(src: &mut Bytes) -> (r: Result<PartitionValue, ApplicationError>)
    ensures
        match r {
            Ok(v) => decode_partition_value(unread(*old(src))) matches Ok((value, rest))
                && v.deep_view() == value && unread(*final(src)) == rest,
            Err(e) => decode_partition_value(unread(*old(src))) matches Err(reason) && e
                == malformed(reason),
        },
{
    proof {
        reveal(decode_partition_value);
    }
    read_version(src, 1)?;
    if remaining(src) < 4 {
        return Err(ApplicationError::MalformedRequest(Malformed::BufferExhausted));
    }
    let partition_id = get_u32(src);
    let topic_id = Uuid::deserialize(src)?;
    let sets = read_replica_sets(src)?;
    let tail = read_partition_tail(src)?;
    Ok(
        PartitionValue {
            partition_id,
            topic_id,
            replicas: sets.0,
            in_sync_replicas: sets.1,
            removing_replicas: sets.2,
            adding_replicas: sets.3,
            leader_id: tail.0,
            leader_epoch: tail.1,
            partition_epoch: tail.2,
            directories: tail.3,
        },
    )
}

impl RecordValue {
    /// Reads a record value. A value of a type that is not interpreted is
    /// returned as `Unknown` with the cursor right behind the type byte.
    pub fn from_bytes(src: &mut Bytes) -> (r: Result<Self, ApplicationError>)
        ensures
            match r {
                Ok(v) => decode_record_value(unread(*old(src))) matches Ok((value, rest))
                    && v.deep_view() == value && unread(*final(src)) == rest,
                Err(e) => decode_record_value(unread(*old(src))) matches Err(reason) && e
                    == malformed(reason),
            },
    {
        proof {
            reveal(decode_record_value);
        }
        if remaining(src) < 1 {
            return Err(ApplicationError::MalformedRequest(Malformed::BufferExhausted));
        }
        let frame_version = get_u8(src);
        if frame_version != 1 {
            return Err(ApplicationError::MalformedRequest(Malformed::InvalidFrameVersion));
        }
        if remaining(src) < 1 {
            return Err(ApplicationError::MalformedRequest(Malformed::BufferExhausted));
        }
        let record_type = get_u8(src);
        assert(record_type == unread(*old(src))[1]);
        if record_type == TOPIC_RECORD {
            Ok(RecordValue::Topic(read_topic_value(src)?))
        } else if record_type == PARTITION_RECORD {
            Ok(RecordValue::Partition(read_partition_value(src)?))
        } else if record_type == FEATURE_LEVEL_RECORD {
            Ok(RecordValue::FeatureLevel(read_feature_level_value(src)?))
        } else {
            Ok(RecordValue::Unknown(record_type))
        }
    }
}

/// The input behind the value of a record is a part of the record's body.
proof fn lemma_value_behind_body(
    body: Seq<u8>,
    s1: Seq<u8>,
    s2: Seq<u8>,
    s3: Seq<u8>,
    s4: Seq<u8>,
    s5: Seq<u8>,
    s6: Seq<u8>,
)
    requires
        body.len() >= 1,
        s1 == body.skip(1),
        decode_signed_varint(s1) matches Ok((_, rest)) && rest == s2,
        decode_signed_varint(s2) matches Ok((_, rest)) && rest == s3,
        decode_compact_bytes(s3) matches Ok((_, rest)) && rest == s4,
        decode_unsigned_varint(s4) matches Ok((_, rest)) && rest == s5,
        decode_record_value(s5) matches Ok((_, rest)) && rest == s6,
    ensures
        decode_record_value(s5)->Ok_0.0 is Unknown ==> is_suffix(s6, body),
{
    reveal(decode_record_value);
    if decode_record_value(s5)->Ok_0.0 is Unknown {
        lemma_skip_suffix(body, 1);
        lemma_varint_suffix(s1);
        lemma_varint_suffix(s2);
        lemma_compact_bytes_suffix(s3);
        lemma_varint_suffix(s4);
        lemma_skip_suffix(s5, 1);
        lemma_skip_suffix(s5.skip(1), 1);
        lemma_suffix_chain(s2, s1, body);
        lemma_suffix_chain(s3, s2, body);
        lemma_suffix_chain(s4, s3, body);
        lemma_suffix_chain(s5, s4, body);
        lemma_suffix_chain(s5.skip(1).skip(1), s5.skip(1), s5);
        lemma_suffix_chain(s6, s5, body);
    }
}

/// Reads what follows the value of a record: the header count, or, behind
/// a value of an unknown type, nothing up to the declared end of the record.
fn read_record_end(
    src: &mut Bytes,
    length: u64,
    body_len: usize,
    unknown: bool,
    Ghost(body): Ghost<Seq<u8>>,
    Ghost(value): Ghost<ValueModel>,
) -> (r: Result<u64, ApplicationError>)
    requires
        body_len == body.len(),
        unknown == (value is Unknown),
        unknown ==> is_suffix(unread(*old(src)), body),
    ensures
        match r {
            Ok(count) => decode_record_end(length, body, value, unread(*old(src))) matches Ok(
                (c, rest),
            ) && count == c && unread(*final(src)) == rest,
            Err(e) => decode_record_end(length, body, value, unread(*old(src))) matches Err(
                reason,
            ) && e == malformed(reason),
        },
{
    proof {
        reveal(decode_record_end);
    }
    if unknown {
        if length > body_len as u64 {
            return Err(ApplicationError::MalformedRequest(Malformed::BufferExhausted));
        }
        let keep = body_len - length as usize;
        let left = remaining(src);
        if keep > left {
            return Err(ApplicationError::MalformedRequest(Malformed::InvalidLength));
        }
        advance(src, left - keep);
        proof {
            assert(body.skip(body.len() - left).skip(left - keep) =~= body.skip(length as int));
        }
        Ok(0)
    } else {
        match CompactArray::deserialize_len(src)? {
            Some(count) => Ok(count),
            None => Ok(0),
        }
    }
}

impl Record {
    /// Reads one record. A record whose value is of an unknown type is
    /// skipped up to its declared end.
    pub fn from_bytes(src: &mut Bytes) -> (r: Result<Self, ApplicationError>)
        ensures
            match r {
                Ok(v) => decode_record(unread(*old(src))) matches Ok((value, rest))
                    && v.deep_view() == value && unread(*final(src)) == rest,
                Err(e) => decode_record(unread(*old(src))) matches Err(reason) && e == malformed(
                    reason,
                ),
            },
    {
        proof {
            reveal(decode_record);
        }
        let length = VarInt::deserialize(src)?;
        let ghost body = unread(*src);
        let body_len = remaining(src);
        if body_len < 1 {
            return Err(ApplicationError::MalformedRequest(Malformed::BufferExhausted));
        }
        let attributes = get_i8(src);
        let ghost s1 = unread(*src);
        let timestamp_delta = VarInt::deserialize_signed(src)?;
        let ghost s2 = unread(*src);
        let offset_delta = VarInt::deserialize_signed(src)?;
        let ghost s3 = unread(*src);
        let key = CompactNullableBytes::deserialize(src)?;
        let ghost s4 = unread(*src);
        let value_length = VarInt::deserialize(src)?;
        let ghost s5 = unread(*src);
        let value = RecordValue::from_bytes(src)?;
        let ghost s6 = unread(*src);
        let unknown = match &value {
            RecordValue::Unknown(_) => true,
            _ => false,
        };
        proof {
            lemma_value_behind_body(body, s1, s2, s3, s4, s5, s6);
        }
        let header_count = read_record_end(
            src,
            length,
            body_len,
            unknown,
            Ghost(body),
            Ghost(value.deep_view()),
        )?;
        Ok(
            Record {
                length,
                attributes,
                timestamp_delta,
                offset_delta,
                key,
                value_length,
                value,
                header_count,
            },
        )
    }
}

impl NullableBytes {
    /// Reads a 32-bit count: -1 announces nothing, as zero does.
    pub fn deserialize_len(src: &mut Bytes) -> (r: Result<u32, ApplicationError>)
        ensures
            match r {
                Ok(count) => decode_count(unread(*old(src))) matches Ok((value, rest)) && count
                    == value && unread(*final(src)) == rest,
                Err(e) => decode_count(unread(*old(src))) matches Err(reason) && e == malformed(
                    reason,
                ),
            },
    {
        if remaining(src) < 4 {
            return Err(ApplicationError::MalformedRequest(Malformed::BufferExhausted));
        }
        let count = get_i32(src);
        if count < -1 {
            Err(ApplicationError::MalformedRequest(Malformed::InvalidLength))
        } else if count == -1 {
            Ok(0)
        } else {
            Ok(count as u32)
        }
    }
}

impl NullableBytes {
    /// Reads a sequence behind a 32-bit count, each item read by `U`.
    pub fn deserialize<T: DeepView, U: Deserialize<T>>(src: &mut Bytes) -> (r: Result<
        Vec<T>,
        ApplicationError,
    >)
        ensures
            match r {
                Ok(items) => decode_counted(U::decoder(), unread(*old(src))) matches Ok(
                    (value, rest),
                ) && items.deep_view() == value && unread(*final(src)) == rest,
                Err(e) => decode_counted(U::decoder(), unread(*old(src))) matches Err(reason)
                    && e == malformed(reason),
            },
    {
        let count = NullableBytes::deserialize_len(src)?;
        read_items::<T, U>(src, count as u64)
    }
}

impl RecordBatch {
    /// Reads one batch: its header and all the records it announces.
    pub fn from_bytes(src: &mut Bytes) -> (r: Result<Self, ApplicationError>)
        ensures
            match r {
                Ok(v) => decode_batch(unread(*old(src))) matches Ok((value, rest))
                    && v.deep_view() == value && unread(*final(src)) == rest,
                Err(e) => decode_batch(unread(*old(src))) matches Err(reason) && e == malformed(
                    reason,
                ),
            },
    {
        proof {
            reveal(decode_batch);
        }
        if remaining(src) < BATCH_HEADER_BYTES {
            return Err(ApplicationError::MalformedRequest(Malformed::BufferExhausted));
        }
        let base_offset = get_i64(src);
        let batch_length = get_i32(src);
        let partition_leader_epoch = get_i32(src);
        let magic = get_i8(src);
        let crc = get_u32(src);
        let attributes = get_i16(src);
        let last_offset_delta = get_i32(src);
        let base_timestamp = get_i64(src);
        let max_timestamp = get_i64(src);
        let producer_id = get_i64(src);
        let producer_epoch = get_i16(src);
        let base_sequence = get_i32(src);
        let records = NullableBytes::deserialize::<Record, RecordBatch>(src)?;
        Ok(
            RecordBatch {
                base_offset,
                batch_length,
                partition_leader_epoch,
                magic,
                crc,
                attributes,
                last_offset_delta,
                base_timestamp,
                max_timestamp,
                producer_id,
                producer_epoch,
                base_sequence,
                records,
            },
        )
    }

    /// Reads the batches of a log up to its end, or up to a last batch that
    /// the input holds only in part.
    pub fn read_log(src: &mut Bytes) -> (r: Result<Vec<Self>, ApplicationError>)
        ensures
            match r {
                Ok(v) => decode_log(unread(*old(src))) matches Ok((value, rest)) && v.deep_view()
                    == value && unread(*final(src)) == rest,
                Err(e) => decode_log(unread(*old(src))) matches Err(reason) && e == malformed(
                    reason,
                ),
            },
    {
        let ghost whole = decode_log(unread(*src));
        let mut batches: Vec<RecordBatch> = Vec::new();
        assert(batches.deep_view() =~= Seq::<BatchModel>::empty());
        assert(Seq::<BatchModel>::empty() + Seq::<BatchModel>::empty() =~= Seq::<
            BatchModel,
        >::empty());
        loop
            invariant
                whole == decode_log(unread(*old(src))),
                whole == after(batches.deep_view(), decode_log(unread(*src))),
            decreases unread(*src).len(),
        {
            let ghost cur = unread(*src);
            let ghost done = batches.deep_view();
            proof {
                reveal(decode_log);
                assert(done + Seq::<BatchModel>::empty() =~= done);
            }
            let left = remaining(src);
            if left == 0 {
                return Ok(batches);
            }
            if left < BATCH_PREFIX_BYTES {
                return Err(ApplicationError::MalformedRequest(Malformed::BufferExhausted));
            }
            let mut probe = fork(src);
            advance(&mut probe, 8);
            let batch_length = get_i32(&mut probe);
            let end: i64 = 12 + batch_length as i64;
            if end > 0 && end as u64 > left as u64 {
                return Ok(batches);
            }
            if end <= 0 {
                return Err(ApplicationError::MalformedRequest(Malformed::InvalidLength));
            }
            let mut next = fork(src);
            advance(&mut next, end as usize);
            let batch = RecordBatch::from_bytes(src)?;
            let ghost model = batch.deep_view();
            batches.push(batch);
            *src = next;
            proof {
                assert(batches.deep_view() =~= done.push(model));
                match decode_log(cur.skip(end as int)) {
                    Err(e) => {},
                    Ok((others, rest)) => {
                        assert(done + (seq![model] + others) =~= done.push(model) + others);
                    },
                }
            }
        }
    }
}

} // verus!
