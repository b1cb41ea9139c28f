use kafka_broker::adapters::incoming::protocol::constants::{
    ErrorCode, API_VERSIONS_KEY, MAX_SUPPORTED_VERSION,
};
use kafka_broker::adapters::incoming::protocol::utils::{
    encode_api_versions_response, encode_unsigned_varint,
};

#[test]
fn utils_test_encode_unsigned_varint() {
    assert_eq!(encode_unsigned_varint(0), vec![0]);
    assert_eq!(encode_unsigned_varint(1), vec![1]);
    assert_eq!(encode_unsigned_varint(127), vec![127]);
    assert_eq!(encode_unsigned_varint(128), vec![0x80, 0x01]);
    assert_eq!(encode_unsigned_varint(300), vec![0xAC, 0x02]);
}

#[test]
fn utils_test_encode_api_versions_response() {
    let api_versions = vec![(API_VERSIONS_KEY, 0, MAX_SUPPORTED_VERSION)];
    let encoded = encode_api_versions_response(0, &api_versions);

    let mut index = 0;

    assert_eq!(i16::from_be_bytes([encoded[index], encoded[index + 1]]), 0);
    index += 2;

    assert_eq!(encoded[index], 2);
    index += 1;

    assert_eq!(i16::from_be_bytes([encoded[index], encoded[index + 1]]), API_VERSIONS_KEY);
    index += 2;
    assert_eq!(i16::from_be_bytes([encoded[index], encoded[index + 1]]), 0);
    index += 2;
    assert_eq!(i16::from_be_bytes([encoded[index], encoded[index + 1]]), MAX_SUPPORTED_VERSION);
    index += 2;

    assert_eq!(encoded[index], 0);
    index += 1;

    assert_eq!(
        i32::from_be_bytes([
            encoded[index],
            encoded[index + 1],
            encoded[index + 2],
            encoded[index + 3]
        ]),
        0
    );
    index += 4;

    assert_eq!(encoded[index], 0);
}

#[test]
fn encode_api_versions_response_writes_negative_numbers_in_twos_complement() {
    let encoded = encode_api_versions_response(-2, &[(-1, i16::MIN, i16::MAX)]);
    assert_eq!(
        encoded,
        vec![0xff, 0xfe, 2, 0xff, 0xff, 0x80, 0x00, 0x7f, 0xff, 0, 0, 0, 0, 0, 0]
    );
}

#[test]
fn error_codes_have_their_wire_numbers() {
    assert_eq!(ErrorCode::NoError.code(), 0);
    assert_eq!(ErrorCode::UnknownTopicOrPartition.code(), 3);
    assert_eq!(ErrorCode::UnsupportedVersion.code(), 35);
    assert_eq!(ErrorCode::InvalidRequest.code(), 42);
    assert_eq!(ErrorCode::UnknownTopicId.code(), 100);
}
