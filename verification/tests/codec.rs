use bytes::{Bytes, BytesMut};
use kafka_broker::adapters::outgoing::protocol::kraft_record::{
    CompactArray, CompactNullableBytes, CompactString, PartitionValue, Uuid, VarInt,
};
use kafka_broker::application::error::{ApplicationError, Malformed};

fn encoded(value: u64) -> Vec<u8> {
    let mut out = BytesMut::new();
    VarInt::serialize(value, &mut out);
    out.to_vec()
}

fn bit_length(value: u64) -> usize {
    (64 - value.leading_zeros()) as usize
}

#[test]
fn unsigned_varint_round_trips_and_has_the_stated_length() {
    let samples: Vec<u64> = vec![
        0,
        1,
        127,
        128,
        300,
        16_383,
        16_384,
        2_097_151,
        2_097_152,
        u32::MAX as u64,
        (1u64 << 35) - 1,
        1u64 << 35,
        (1u64 << 56) - 1,
        1u64 << 56,
        (1u64 << 63) - 1,
        1u64 << 63,
        u64::MAX,
    ];
    for value in samples {
        let bytes = encoded(value);
        let expected_len = if value == 0 { 1 } else { (bit_length(value) + 6) / 7 };
        assert_eq!(bytes.len(), expected_len);
        let mut src = Bytes::copy_from_slice(&bytes);
        assert_eq!(VarInt::deserialize(&mut src).unwrap(), value);
        assert_eq!(src.len(), 0);
    }
}

#[test]
fn unsigned_varint_has_known_encodings() {
    assert_eq!(encoded(0), vec![0]);
    assert_eq!(encoded(127), vec![0x7f]);
    assert_eq!(encoded(128), vec![0x80, 0x01]);
    assert_eq!(encoded(300), vec![0xac, 0x02]);
    assert_eq!(encoded((1u64 << 63) - 1), vec![0xff, 0xff, 0xff, 0xff, 0xff, 0xff, 0xff, 0xff, 0x7f]);
    assert_eq!(
        encoded(u64::MAX),
        vec![0xff, 0xff, 0xff, 0xff, 0xff, 0xff, 0xff, 0xff, 0xff, 0x01]
    );
}

#[test]
fn unsigned_varint_leaves_what_follows() {
    let mut src = Bytes::copy_from_slice(&[0xac, 0x02, 9, 8]);
    assert_eq!(VarInt::deserialize(&mut src).unwrap(), 300);
    assert_eq!(&src[..], &[9, 8]);
}

#[test]
fn unsigned_varint_rejects_missing_terminator() {
    let mut empty = Bytes::new();
    assert_eq!(
        VarInt::deserialize(&mut empty).unwrap_err(),
        ApplicationError::MalformedRequest(Malformed::MalformedVarint)
    );
    let mut cut = Bytes::copy_from_slice(&[0x80, 0x80]);
    assert_eq!(
        VarInt::deserialize(&mut cut).unwrap_err(),
        ApplicationError::MalformedRequest(Malformed::MalformedVarint)
    );
    let mut long = Bytes::copy_from_slice(&[0xff; 11]);
    assert_eq!(
        VarInt::deserialize(&mut long).unwrap_err(),
        ApplicationError::MalformedRequest(Malformed::MalformedVarint)
    );
    let mut ten = Bytes::copy_from_slice(&[0x80, 0x80, 0x80, 0x80, 0x80, 0x80, 0x80, 0x80, 0x80, 0x80, 0]);
    assert_eq!(
        VarInt::deserialize(&mut ten).unwrap_err(),
        ApplicationError::MalformedRequest(Malformed::MalformedVarint)
    );
}

#[test]
fn unsigned_varint_cuts_the_tenth_byte_to_64_bits() {
    let mut src = Bytes::copy_from_slice(&[0x81, 0x80, 0x80, 0x80, 0x80, 0x80, 0x80, 0x80, 0x80, 0x03]);
    assert_eq!(VarInt::deserialize(&mut src).unwrap(), (1u64 << 63) + 1);
}

#[test]
fn signed_varint_is_zig_zag() {
    let cases: Vec<(i64, Vec<u8>)> = vec![
        (0, vec![0]),
        (-1, vec![1]),
        (1, vec![2]),
        (-2, vec![3]),
        (63, vec![126]),
        (-64, vec![127]),
        (64, vec![0x80, 0x01]),
        (i64::MAX, vec![0xfe, 0xff, 0xff, 0xff, 0xff, 0xff, 0xff, 0xff, 0xff, 0x01]),
        (i64::MIN, vec![0xff, 0xff, 0xff, 0xff, 0xff, 0xff, 0xff, 0xff, 0xff, 0x01]),
    ];
    for (value, bytes) in cases {
        let mut out = BytesMut::new();
        VarInt::serialize_signed(value, &mut out);
        assert_eq!(out.to_vec(), bytes);
        let mut src = Bytes::copy_from_slice(&bytes);
        assert_eq!(VarInt::deserialize_signed(&mut src).unwrap(), value);
        assert_eq!(src.len(), 0);
    }
}

#[test]
fn compact_string_null_and_empty_are_distinct() {
    let mut null = Bytes::copy_from_slice(&[0]);
    assert_eq!(CompactString::deserialize(&mut null).unwrap(), None);
    let mut empty = Bytes::copy_from_slice(&[1]);
    assert_eq!(CompactString::deserialize(&mut empty).unwrap(), Some(String::new()));
    let mut out = BytesMut::new();
    CompactString::serialize_null(&mut out);
    assert_eq!(out.to_vec(), vec![0]);
    let mut out = BytesMut::new();
    CompactString::serialize("", &mut out);
    assert_eq!(out.to_vec(), vec![1]);
}

#[test]
fn compact_string_round_trips() {
    let long = "x".repeat(200);
    let samples = vec!["a", "test-topic", "h\u{e9}llo \u{4e16}\u{754c} \u{1f600}", long.as_str()];
    for text in samples {
        let mut out = BytesMut::new();
        CompactString::serialize(text, &mut out);
        out.extend_from_slice(&[0x55]);
        let mut src = Bytes::copy_from_slice(&out);
        assert_eq!(CompactString::deserialize(&mut src).unwrap(), Some(text.to_string()));
        assert_eq!(&src[..], &[0x55]);
    }
    let mut out = BytesMut::new();
    CompactString::serialize("foo", &mut out);
    assert_eq!(out.to_vec(), vec![4, b'f', b'o', b'o']);
    let mut out = BytesMut::new();
    CompactString::serialize(&long, &mut out);
    assert_eq!(&out[..2], &[0xc9, 0x01]);
}

#[test]
fn compact_string_rejects_short_body_and_bad_utf8() {
    let mut short = Bytes::copy_from_slice(&[4, b'f', b'o']);
    assert_eq!(
        CompactString::deserialize(&mut short).unwrap_err(),
        ApplicationError::MalformedRequest(Malformed::BufferExhausted)
    );
    let mut bad = Bytes::copy_from_slice(&[3, 0xc3, 0x28]);
    assert_eq!(
        CompactString::deserialize(&mut bad).unwrap_err(),
        ApplicationError::MalformedRequest(Malformed::InvalidUtf8)
    );
    let mut no_prefix = Bytes::copy_from_slice(&[0x80]);
    assert_eq!(
        CompactString::deserialize(&mut no_prefix).unwrap_err(),
        ApplicationError::MalformedRequest(Malformed::MalformedVarint)
    );
}

#[test]
fn compact_bytes_null_empty_and_present() {
    let mut null = Bytes::copy_from_slice(&[0, 7]);
    assert_eq!(CompactNullableBytes::deserialize(&mut null).unwrap(), None);
    assert_eq!(&null[..], &[7]);
    let mut empty = Bytes::copy_from_slice(&[1, 7]);
    assert_eq!(CompactNullableBytes::deserialize(&mut empty).unwrap(), Some(vec![]));
    let mut some = Bytes::copy_from_slice(&[3, 0xff, 0x00, 7]);
    assert_eq!(CompactNullableBytes::deserialize(&mut some).unwrap(), Some(vec![0xff, 0x00]));
    assert_eq!(&some[..], &[7]);
    let mut short = Bytes::copy_from_slice(&[3, 0xff]);
    assert_eq!(
        CompactNullableBytes::deserialize(&mut short).unwrap_err(),
        ApplicationError::MalformedRequest(Malformed::BufferExhausted)
    );
}

#[test]
fn compact_bytes_round_trip() {
    let mut out = BytesMut::new();
    CompactNullableBytes::serialize_null(&mut out);
    CompactNullableBytes::serialize(&[], &mut out);
    CompactNullableBytes::serialize(&[0xca, 0xfe], &mut out);
    assert_eq!(out.to_vec(), vec![0, 1, 3, 0xca, 0xfe]);
    let mut src = Bytes::copy_from_slice(&out);
    assert_eq!(CompactNullableBytes::deserialize(&mut src).unwrap(), None);
    assert_eq!(CompactNullableBytes::deserialize(&mut src).unwrap(), Some(vec![]));
    assert_eq!(CompactNullableBytes::deserialize(&mut src).unwrap(), Some(vec![0xca, 0xfe]));
    assert_eq!(src.len(), 0);
}

#[test]
fn uuid_is_written_as_its_sixteen_bytes() {
    let id: [u8; 16] = [7; 16];
    let mut out = BytesMut::new();
    out.extend_from_slice(&[1u8]);
    Uuid::serialize(&id, &mut out);
    assert_eq!(out.len(), 17);
    assert_eq!(&out[1..], &id);
}

#[test]
fn compact_array_prefix_is_length_plus_one() {
    let mut out = BytesMut::new();
    CompactArray::serialize_len(0, &mut out);
    CompactArray::serialize_len(3, &mut out);
    CompactArray::serialize_len(127, &mut out);
    assert_eq!(out.to_vec(), vec![1, 4, 0x80, 0x01]);
    let mut src = Bytes::copy_from_slice(&[0, 1, 4, 0x80, 0x01]);
    assert_eq!(CompactArray::deserialize_len(&mut src).unwrap(), None);
    assert_eq!(CompactArray::deserialize_len(&mut src).unwrap(), Some(0));
    assert_eq!(CompactArray::deserialize_len(&mut src).unwrap(), Some(3));
    assert_eq!(CompactArray::deserialize_len(&mut src).unwrap(), Some(127));
}

#[test]
fn compact_array_of_u32_reads_big_endian_elements() {
    let mut src = Bytes::copy_from_slice(&[3, 0, 0, 0, 1, 0xff, 0xff, 0xff, 0xfe, 9]);
    assert_eq!(CompactArray::deserialize::<u32, PartitionValue>(&mut src).unwrap(), vec![1, 0xffff_fffe]);
    assert_eq!(&src[..], &[9]);
    let mut null = Bytes::copy_from_slice(&[0]);
    assert_eq!(CompactArray::deserialize::<u32, PartitionValue>(&mut null).unwrap(), Vec::<u32>::new());
    let mut empty = Bytes::copy_from_slice(&[1]);
    assert_eq!(CompactArray::deserialize::<u32, PartitionValue>(&mut empty).unwrap(), Vec::<u32>::new());
    let mut short = Bytes::copy_from_slice(&[3, 0, 0, 0, 1, 0xff]);
    assert_eq!(
        CompactArray::deserialize::<u32, PartitionValue>(&mut short).unwrap_err(),
        ApplicationError::MalformedRequest(Malformed::BufferExhausted)
    );
}

#[test]
fn uuid_text_is_lowercase_hex_in_five_groups() {
    let id: [u8; 16] = [
        0x00, 0x01, 0x02, 0x03, 0xa4, 0xb5, 0xc6, 0xd7, 0xe8, 0xf9, 0x0a, 0x1b, 0x2c, 0x3d, 0x4e,
        0xff,
    ];
    assert_eq!(Uuid::format(&id), "00010203-a4b5-c6d7-e8f9-0a1b2c3d4eff");
    let mut raw = id.to_vec();
    raw.push(7);
    let mut src = Bytes::copy_from_slice(&raw);
    assert_eq!(Uuid::deserialize(&mut src).unwrap(), "00010203-a4b5-c6d7-e8f9-0a1b2c3d4eff");
    assert_eq!(&src[..], &[7]);
    let mut src = Bytes::copy_from_slice(&raw);
    assert_eq!(Uuid::deserialize_raw(&mut src).unwrap(), id);
    assert_eq!(&src[..], &[7]);
    let mut short = Bytes::copy_from_slice(&raw[..15]);
    assert_eq!(
        Uuid::deserialize(&mut short).unwrap_err(),
        ApplicationError::MalformedRequest(Malformed::BufferExhausted)
    );
    let mut short = Bytes::copy_from_slice(&raw[..15]);
    assert_eq!(
        Uuid::deserialize_raw(&mut short).unwrap_err(),
        ApplicationError::MalformedRequest(Malformed::BufferExhausted)
    );
}

#[test]
fn uuid_parse_undoes_format_and_gives_zeros_for_other_text() {
    let id: [u8; 16] = [
        0x00, 0x01, 0x02, 0x03, 0xa4, 0xb5, 0xc6, 0xd7, 0xe8, 0xf9, 0x0a, 0x1b, 0x2c, 0x3d, 0x4e,
        0xff,
    ];
    assert_eq!(Uuid::parse(&Uuid::format(&id)), id);
    assert_eq!(Uuid::parse("00010203-A4B5-C6D7-E8F9-0A1B2C3D4EFF"), id);
    assert_eq!(Uuid::parse("00010203a4b5c6d7e8f90a1b2c3d4eff"), id);
    assert_eq!(Uuid::parse("test-topic"), [0u8; 16]);
    assert_eq!(Uuid::parse("abcd"), [0u8; 16]);
    assert_eq!(Uuid::parse(""), [0u8; 16]);
    assert_eq!(Uuid::parse("00010203-a4b5-c6d7-e8f9-0a1b2c3d4ef"), [0u8; 16]);
    assert_eq!(Uuid::parse("00010203-a4b5-c6d7-e8f9-0a1b2c3d4effaa"), [0u8; 16]);
    assert_eq!(Uuid::parse("g0010203-a4b5-c6d7-e8f9-0a1b2c3d4eff"), [0u8; 16]);
    assert_eq!(Uuid::parse("\u{e9}0010203-a4b5-c6d7-e8f9-0a1b2c3d4ef"), [0u8; 16]);
}

#[test]
fn compact_array_of_uuids_reads_each_as_text() {
    let mut raw = vec![3u8];
    raw.extend_from_slice(&[0x11; 16]);
    raw.extend_from_slice(&[0xab; 16]);
    let mut src = Bytes::copy_from_slice(&raw);
    assert_eq!(
        CompactArray::deserialize::<String, PartitionValue>(&mut src).unwrap(),
        vec![
            "11111111-1111-1111-1111-111111111111".to_string(),
            "abababab-abab-abab-abab-abababababab".to_string()
        ]
    );
    let mut short = Bytes::copy_from_slice(&raw[..20]);
    assert_eq!(
        CompactArray::deserialize::<String, PartitionValue>(&mut short).unwrap_err(),
        ApplicationError::MalformedRequest(Malformed::BufferExhausted)
    );
}
