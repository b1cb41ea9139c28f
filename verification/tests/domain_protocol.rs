use kafka_broker::domain::error::Error as DomainError;
use kafka_broker::domain::protocol::{
    encode_unsigned_varint, ApiVersion, ApiVersionsResponse, KafkaResponse, ProtocolParser,
    RequestHeader, UNSUPPORTED_VERSION,
};

#[test]
fn test_parse_request_header() {
    let mut test_data = Vec::new();
    test_data.extend_from_slice(&[0x00, 0x12]);
    test_data.extend_from_slice(&[0x00, 0x04]);
    test_data.extend_from_slice(&[0x6f, 0x7f, 0xc6, 0x61]);

    let header = RequestHeader::parse(&test_data).unwrap();
    assert_eq!(header.api_key, 18);
    assert_eq!(header.api_version, 4);
    assert_eq!(header.correlation_id, 1870644833);
}

#[test]
fn test_version_validation() {
    let header = RequestHeader { api_key: 18, api_version: 4, correlation_id: 1, client_id: None };
    assert_eq!(header.validate_version(), None);

    let header = RequestHeader { api_key: 18, api_version: 5, correlation_id: 1, client_id: None };
    assert_eq!(header.validate_version(), Some(UNSUPPORTED_VERSION));

    let header =
        RequestHeader { api_key: 18, api_version: -1, correlation_id: 1, client_id: None };
    assert_eq!(header.validate_version(), Some(UNSUPPORTED_VERSION));
}

#[test]
fn test_response_with_error_code() {
    let parser = ProtocolParser::new();
    let response = KafkaResponse {
        correlation_id: 42,
        error_code: UNSUPPORTED_VERSION,
        payload: ApiVersionsResponse::new(UNSUPPORTED_VERSION).encode(),
    };

    let encoded = parser.encode_response(response);

    let payload_start = 8;
    assert_eq!(
        i16::from_be_bytes([encoded[payload_start], encoded[payload_start + 1]]),
        UNSUPPORTED_VERSION
    );
}

#[test]
fn test_parse_request_with_valid_data() {
    let parser = ProtocolParser::new();
    let mut test_data = Vec::new();
    test_data.extend_from_slice(&[0x00, 0x12]);
    test_data.extend_from_slice(&[0x00, 0x04]);
    test_data.extend_from_slice(&7i32.to_be_bytes());
    test_data.extend_from_slice(&[1, 2]);

    let request = parser.parse_request(&test_data).unwrap();
    assert_eq!(request.header.correlation_id, 7);
    assert_eq!(request.header.api_key, 18);
    assert_eq!(request.header.api_version, 4);
}

#[test]
fn test_parse_request_with_invalid_size() {
    let parser = ProtocolParser::new();
    let test_data = vec![1, 2, 3];

    let result = parser.parse_request(&test_data);
    assert!(matches!(result, Err(DomainError::InvalidRequest)));
}

#[test]
fn test_encode_response() {
    let parser = ProtocolParser::new();
    let response = KafkaResponse { correlation_id: 7, error_code: 0, payload: vec![1, 2, 3] };

    let encoded = parser.encode_response(response);

    assert_eq!(i32::from_be_bytes([encoded[0], encoded[1], encoded[2], encoded[3]]), 7);
    assert_eq!(i32::from_be_bytes([encoded[4], encoded[5], encoded[6], encoded[7]]), 7);
    assert_eq!(&encoded[8..], &[1, 2, 3]);
}

#[test]
fn test_request_response_roundtrip() {
    let parser = ProtocolParser::new();
    let mut request_data = Vec::new();
    request_data.extend_from_slice(&[0x00, 0x12]);
    request_data.extend_from_slice(&[0x00, 0x04]);
    request_data.extend_from_slice(&42i32.to_be_bytes());
    request_data.extend_from_slice(&[1, 2, 3, 4]);

    let request = parser.parse_request(&request_data).unwrap();
    let response = KafkaResponse {
        correlation_id: request.header.correlation_id,
        error_code: 0,
        payload: vec![1, 2, 3, 4],
    };

    let encoded = parser.encode_response(response);
    assert_eq!(i32::from_be_bytes([encoded[4], encoded[5], encoded[6], encoded[7]]), 42);
}

#[test]
fn test_api_versions_response_encoding() {
    let response = ApiVersionsResponse::new(0);
    let encoded = response.encode();

    assert_eq!(i16::from_be_bytes([encoded[0], encoded[1]]), 0);

    assert_eq!(encoded[2], 2);

    let version = &response.api_versions[0];

    assert_eq!(i16::from_be_bytes([encoded[3], encoded[4]]), version.api_key);

    assert_eq!(i16::from_be_bytes([encoded[5], encoded[6]]), version.min_version);

    assert_eq!(i16::from_be_bytes([encoded[7], encoded[8]]), version.max_version);

    assert_eq!(encoded[9], 0);

    assert_eq!(i32::from_be_bytes([encoded[10], encoded[11], encoded[12], encoded[13]]), 0);

    assert_eq!(encoded[14], 0);

    assert_eq!(encoded.len(), 15);
}

#[test]
fn protocol_test_encode_unsigned_varint() {
    assert_eq!(encode_unsigned_varint(0), vec![0]);
    assert_eq!(encode_unsigned_varint(1), vec![1]);
    assert_eq!(encode_unsigned_varint(127), vec![127]);
    assert_eq!(encode_unsigned_varint(128), vec![0x80, 0x01]);
    assert_eq!(encode_unsigned_varint(300), vec![0xAC, 0x02]);
}

#[test]
fn raw_request_keeps_all_its_bytes_and_reads_signed_fields() {
    let parser = ProtocolParser::new();
    let data = [0xff, 0xfe, 0x80, 0x00, 0xff, 0xff, 0xff, 0xff, 9];
    let request = parser.parse_request(&data).unwrap();
    assert_eq!(request.header.api_key, -2);
    assert_eq!(request.header.api_version, i16::MIN);
    assert_eq!(request.header.correlation_id, -1);
    assert_eq!(request.header.client_id, None);
    assert_eq!(request.payload, data.to_vec());
    assert!(matches!(RequestHeader::parse(&data[..7]), Err(DomainError::InvalidRequest)));
    assert!(RequestHeader::parse(&data[..8]).is_ok());
}

#[test]
fn version_range_of_an_entry_is_min_then_max() {
    let entry = ApiVersion { api_key: 18, min_version: 1, max_version: 0x0203 };
    assert_eq!(entry.encode(), vec![0, 1, 2, 3]);
}

#[test]
fn raw_frame_is_refused_only_when_too_long() {
    let parser = ProtocolParser::new();
    let response = KafkaResponse { correlation_id: -1, error_code: 0, payload: vec![9] };
    assert_eq!(
        parser.try_encode_response(&response),
        Some(vec![0, 0, 0, 5, 0xff, 0xff, 0xff, 0xff, 9])
    );
}

#[test]
fn api_versions_answer_has_the_exact_layout() {
    assert_eq!(
        ApiVersionsResponse::new(0).encode(),
        vec![0, 0, 2, 0, 18, 0, 0, 0, 4, 0, 0, 0, 0, 0, 0]
    );
    let two = ApiVersionsResponse {
        error_code: 35,
        api_versions: vec![
            ApiVersion { api_key: 18, min_version: 0, max_version: 4 },
            ApiVersion { api_key: 75, min_version: -1, max_version: 0 },
        ],
    };
    assert_eq!(
        two.encode(),
        vec![0, 35, 3, 0, 18, 0, 0, 0, 4, 0, 0, 75, 0xff, 0xff, 0, 0, 0, 0, 0, 0, 0, 0]
    );
}
