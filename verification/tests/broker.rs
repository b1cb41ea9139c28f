use kafka_broker::adapters::incoming::kafka_protocol_parser::KafkaProtocolParser;
use kafka_broker::adapters::incoming::protocol::constants::{
    API_VERSIONS_KEY, DESCRIBE_TOPIC_PARTITIONS_KEY, FETCH_KEY, UNKNOWN_TOPIC_OR_PARTITION,
};
use kafka_broker::adapters::incoming::protocol::messages::{
    DescribeTopicPartitionsRequest, FetchPartition, FetchRequest, FetchTopic, KafkaRequest,
    RequestHeader, RequestPayload, ResponsePayload, TopicRequest,
};
use kafka_broker::adapters::outgoing::memory_store::{MemoryMessageStore, MemoryMetadataStore};
use kafka_broker::application::broker::KafkaBroker;
use kafka_broker::application::error::{ApplicationError, Violation};
use kafka_broker::domain::message::{Partition, TopicMetadata};
use kafka_broker::ports::incoming::message_handler::MessageHandler;
use kafka_broker::ports::outgoing::message_store::{KafkaMessage, MessageStore};
use kafka_broker::ports::outgoing::metadata_store::MetadataStore;

struct MockMessageStore;

impl MessageStore for MockMessageStore {
    fn store_message(&self, _message: KafkaMessage) -> Result<(), ApplicationError> {
        Ok(())
    }

    fn read_messages(
        &self,
        _topic_id: &str,
        _partition: i32,
        _offset: i64,
    ) -> Result<Option<Vec<u8>>, ApplicationError> {
        Ok(None)
    }
}

struct MockMetadataStore {
    topics: Vec<TopicMetadata>,
}

impl MockMetadataStore {
    fn new(topics: Vec<TopicMetadata>) -> Self {
        Self { topics }
    }
}

impl MetadataStore for MockMetadataStore {
    fn get_topic_metadata_by_names(
        &self,
        topic_names: Vec<String>,
    ) -> Result<Option<Vec<TopicMetadata>>, ApplicationError> {
        let mut result = Vec::new();
        for topic_name in topic_names {
            if let Some(topic) = self.topics.iter().find(|t| t.name == topic_name) {
                result.push(topic.clone());
            }
        }
        if result.is_empty() {
            Ok(None)
        } else {
            Ok(Some(result))
        }
    }

    fn get_topic_metadata_by_ids(
        &self,
        topic_ids: Vec<String>,
    ) -> Result<Option<Vec<TopicMetadata>>, ApplicationError> {
        let mut result = Vec::new();
        for topic_id in topic_ids {
            if let Some(topic) = self.topics.iter().find(|t| t.topic_id == topic_id) {
                result.push(topic.clone());
            }
        }
        if result.is_empty() {
            Ok(None)
        } else {
            Ok(Some(result))
        }
    }
}

struct FailingMetadataStore;

impl MetadataStore for FailingMetadataStore {
    fn get_topic_metadata_by_names(
        &self,
        _topic_names: Vec<String>,
    ) -> Result<Option<Vec<TopicMetadata>>, ApplicationError> {
        Err(ApplicationError::Io("no such file".to_string()))
    }

    fn get_topic_metadata_by_ids(
        &self,
        _topic_ids: Vec<String>,
    ) -> Result<Option<Vec<TopicMetadata>>, ApplicationError> {
        Err(ApplicationError::Io("no such file".to_string()))
    }
}

fn describe_request(api_version: i16, correlation_id: i32, names: &[&str]) -> KafkaRequest {
    KafkaRequest::new(
        RequestHeader {
            api_key: DESCRIBE_TOPIC_PARTITIONS_KEY,
            api_version,
            correlation_id,
            client_id: None,
        },
        RequestPayload::DescribeTopicPartitions(DescribeTopicPartitionsRequest {
            topics: names
                .iter()
                .map(|n| TopicRequest { topic_name: n.to_string(), partitions: vec![] })
                .collect(),
        }),
    )
}

fn fetch_request(correlation_id: i32, ids: &[[u8; 16]]) -> KafkaRequest {
    KafkaRequest::new(
        RequestHeader { api_key: FETCH_KEY, api_version: 16, correlation_id, client_id: None },
        RequestPayload::Fetch(FetchRequest {
            topics: ids
                .iter()
                .map(|id| FetchTopic {
                    topic_id: *id,
                    partitions: vec![FetchPartition {
                        partition: 0,
                        current_leader_epoch: -1,
                        fetch_offset: 0,
                        last_fetched_epoch: -1,
                        log_start_offset: -1,
                        partition_max_bytes: 1024,
                    }],
                })
                .collect(),
        }),
    )
}

#[test]
fn test_handle_describe_topic_partitions_existing_topic() {
    let topic_id = "00000000-0000-0000-0000-000000000001".to_string();
    let topic_metadata = TopicMetadata {
        error_code: 0,
        name: "test-topic".to_string(),
        topic_id: topic_id.clone(),
        is_internal: false,
        partitions: vec![],
        topic_authorized_operations: 0x0DF,
    };

    let broker =
        KafkaBroker::new(MockMessageStore, MockMetadataStore::new(vec![topic_metadata]));

    let request = describe_request(0, 123, &["test-topic"]);

    let response = broker.handle_request(request).unwrap();
    assert_eq!(response.correlation_id, 123);
    assert_eq!(response.error_code, 0);

    match response.payload {
        ResponsePayload::DescribeTopicPartitions(resp) => {
            assert_eq!(resp.topics.len(), 1);
            assert_eq!(resp.topics[0].topic_name, "test-topic");
            let expected_topic_id = hex::decode(topic_id.replace("-", "")).unwrap();
            assert_eq!(&resp.topics[0].topic_id[..], &expected_topic_id[..]);
            assert_eq!(resp.topics[0].error_code, 0);
            assert_eq!(resp.topics[0].partitions.len(), 0);
        }
        _ => panic!("Expected DescribeTopicPartitions response"),
    }
}

#[test]
fn test_handle_describe_topic_partitions_nonexistent_topic() {
    let broker = KafkaBroker::new(MockMessageStore, MockMetadataStore::new(vec![]));

    let request = describe_request(0, 123, &["test-topic"]);

    let response = broker.handle_request(request).unwrap();
    assert_eq!(response.correlation_id, 123);
    assert_eq!(response.error_code, 0);

    match response.payload {
        ResponsePayload::DescribeTopicPartitions(resp) => {
            assert_eq!(resp.topics.len(), 1);
            assert_eq!(resp.topics[0].topic_name, "test-topic");
            assert_eq!(resp.topics[0].topic_id, [0u8; 16]);
            assert_eq!(resp.topics[0].error_code, UNKNOWN_TOPIC_OR_PARTITION);
            assert_eq!(resp.topics[0].partitions.len(), 0);
        }
        _ => panic!("Expected DescribeTopicPartitions response"),
    }
}

fn varint(mut value: u64) -> Vec<u8> {
    let mut out = Vec::new();
    loop {
        let byte = (value & 0x7f) as u8;
        value >>= 7;
        if value == 0 {
            out.push(byte);
            return out;
        }
        out.push(byte | 0x80);
    }
}

fn record(value: &[u8]) -> Vec<u8> {
    let mut body = vec![0u8, 0, 0, 0];
    body.extend(varint(value.len() as u64));
    body.extend_from_slice(value);
    body.push(1);
    let mut out = varint(body.len() as u64);
    out.extend(body);
    out
}

fn batch(records: &[Vec<u8>]) -> Vec<u8> {
    let size: usize = records.iter().map(|r| r.len()).sum();
    let mut out = vec![0u8; 8];
    out.extend_from_slice(&((49 + size) as i32).to_be_bytes());
    out.extend_from_slice(&[0; 45]);
    out.extend_from_slice(&(records.len() as i32).to_be_bytes());
    for r in records {
        out.extend_from_slice(r);
    }
    out
}

const FOO_ID: [u8; 16] =
    [0x00, 0x00, 0x00, 0x00, 0x00, 0x00, 0x40, 0x00, 0x80, 0x00, 0x00, 0x00, 0x00, 0x00, 0x00, 0x01];

fn foo_log() -> Vec<u8> {
    let mut topic = vec![1u8, 2, 0, 4, b'f', b'o', b'o'];
    topic.extend_from_slice(&FOO_ID);
    topic.push(0);
    let partition = |id: u32| {
        let mut v = vec![1u8, 3, 1];
        v.extend_from_slice(&id.to_be_bytes());
        v.extend_from_slice(&FOO_ID);
        v.extend_from_slice(&[2, 0, 0, 0, 1, 2, 0, 0, 0, 1, 1, 1]);
        v.extend_from_slice(&1u32.to_be_bytes());
        v.extend_from_slice(&0u32.to_be_bytes());
        v.extend_from_slice(&0u32.to_be_bytes());
        v.extend_from_slice(&[1, 0]);
        v
    };
    let mut log = batch(&[record(&topic)]);
    log.extend(batch(&[record(&partition(0)), record(&partition(1))]));
    log
}

fn serve(log: Vec<u8>, request_bytes: &[u8]) -> Vec<u8> {
    let parser = KafkaProtocolParser::new();
    let broker = KafkaBroker::new(MemoryMessageStore::new(), MemoryMetadataStore::new(log));
    let request = parser.parse_request(request_bytes).unwrap();
    let response = broker.handle_request(request).unwrap();
    parser.try_encode_response(&response).unwrap()
}

#[test]
fn api_versions_request_is_answered_with_the_advertised_apis() {
    let request = [0x00, 0x12, 0x00, 0x04, 0x00, 0x00, 0x00, 0x7b, 0x00, 0x00, 0x00];
    let encoded = serve(vec![], &request);
    assert_eq!(&encoded[4..8], &[0x00, 0x00, 0x00, 0x7b]);
    assert_eq!(&encoded[8..10], &[0, 0]);
    assert_eq!(encoded[10], 4);
    assert_eq!(&encoded[10 + 1 + 3 * 7..10 + 1 + 3 * 7 + 4], &[0, 0, 0, 0]);
    assert_eq!(encoded.len(), 37);
}

#[test]
fn unsupported_version_is_answered_with_error_35() {
    let header =
        RequestHeader { api_key: 18, api_version: 7, correlation_id: 9, client_id: None };
    let broker = KafkaBroker::new(MemoryMessageStore::new(), MemoryMetadataStore::new(vec![]));
    let response =
        broker.handle_request(KafkaRequest::new(header, RequestPayload::ApiVersions)).unwrap();
    assert_eq!(response.correlation_id, 9);
    assert_eq!(response.error_code, 35);
    match &response.payload {
        ResponsePayload::ApiVersions(body) => {
            let set: Vec<(i16, i16, i16)> = body
                .api_versions
                .iter()
                .map(|v| (v.api_key, v.min_version, v.max_version))
                .collect();
            assert_eq!(set, vec![(18, 0, 4), (1, 0, 16), (75, 0, 0)]);
        }
        _ => panic!("Expected ApiVersions response"),
    }
    let encoded = KafkaProtocolParser::new().encode_response(response);
    assert_eq!(i32::from_be_bytes([encoded[0], encoded[1], encoded[2], encoded[3]]), 33);
    assert_eq!(&encoded[4..8], &[0, 0, 0, 9]);
    assert_eq!(&encoded[8..10], &[0, 35]);
}

#[test]
fn version_table_decides_between_the_api_and_error_35() {
    let broker = KafkaBroker::new(MemoryMessageStore::new(), MemoryMetadataStore::new(vec![]));
    let payload_for = |key: i16| match key {
        75 => RequestPayload::DescribeTopicPartitions(DescribeTopicPartitionsRequest {
            topics: vec![],
        }),
        1 => RequestPayload::Fetch(FetchRequest { topics: vec![] }),
        _ => RequestPayload::ApiVersions,
    };
    for key in [-1i16, 0, 1, 2, 18, 19, 75, 76] {
        for version in [-1i16, 0, 1, 4, 5, 15, 16, 17] {
            let header = RequestHeader {
                api_key: key,
                api_version: version,
                correlation_id: 1,
                client_id: None,
            };
            let supported = match key {
                18 => (0..=4).contains(&version),
                1 => version == 16,
                75 => version == 0,
                _ => false,
            };
            assert_eq!(header.is_supported_version(), supported);
            let response =
                broker.handle_request(KafkaRequest::new(header, payload_for(key))).unwrap();
            if supported {
                assert_eq!(response.error_code, 0);
                match response.payload {
                    ResponsePayload::ApiVersions(_) => assert_eq!(key, API_VERSIONS_KEY),
                    ResponsePayload::DescribeTopicPartitions(_) => {
                        assert_eq!(key, DESCRIBE_TOPIC_PARTITIONS_KEY)
                    }
                    ResponsePayload::Fetch(_) => assert_eq!(key, FETCH_KEY),
                }
            } else {
                assert_eq!(response.error_code, 35);
                assert!(matches!(response.payload, ResponsePayload::ApiVersions(_)));
            }
        }
    }
}

#[test]
fn describe_unknown_topic_reports_error_3_and_zero_id() {
    let mut request = vec![0x00, 0x4b, 0x00, 0x00, 0x00, 0x00, 0x00, 0x7b, 0x00, 0x00, 0x00];
    request.push(2);
    request.push(11);
    request.extend_from_slice(b"test-topic");
    request.push(0);
    request.extend_from_slice(&[0, 0, 0, 1, 0xff, 0]);
    let encoded = serve(vec![], &request);
    assert_eq!(&encoded[4..8], &[0, 0, 0, 123]);
    assert_eq!(encoded[13], 2);
    assert_eq!(&encoded[14..16], &[0, 3]);
    assert_eq!(encoded[16], 11);
    assert_eq!(&encoded[17..27], b"test-topic");
    assert_eq!(&encoded[27..43], &[0u8; 16]);
    assert_eq!(encoded[43], 0);
    assert_eq!(encoded[44], 1);
    assert_eq!(&encoded[45..49], &[0x00, 0x00, 0x0d, 0xf8]);
}

#[test]
fn describe_present_topic_reports_its_id_and_partitions() {
    let broker = KafkaBroker::new(MemoryMessageStore::new(), MemoryMetadataStore::new(foo_log()));
    let response = broker.handle_request(describe_request(0, 5, &["foo"])).unwrap();
    assert_eq!(response.correlation_id, 5);
    match response.payload {
        ResponsePayload::DescribeTopicPartitions(resp) => {
            assert_eq!(resp.topics.len(), 1);
            let topic = &resp.topics[0];
            assert_eq!(topic.error_code, 0);
            assert_eq!(topic.topic_name, "foo");
            assert_eq!(topic.topic_id, FOO_ID);
            assert!(!topic.is_internal);
            assert_eq!(topic.topic_authorized_operations, 0x0000_0df8);
            assert_eq!(topic.partitions.len(), 2);
            assert_eq!(topic.partitions[0].error_code, 0);
            assert_eq!(topic.partitions[0].partition_id, 0);
            assert_eq!(topic.partitions[1].error_code, 0);
            assert_eq!(topic.partitions[1].partition_id, 1);
            assert_eq!(topic.partitions[1].leader_id, 1);
            assert_eq!(topic.partitions[1].leader_epoch, 0);
            assert_eq!(topic.partitions[1].replicas, vec![1]);
            assert_eq!(topic.partitions[1].isr, vec![1]);
            assert_eq!(topic.partitions[1].eligible_leader_replicas, Vec::<i32>::new());
            assert_eq!(topic.partitions[1].offline_replicas, Vec::<i32>::new());
        }
        _ => panic!("Expected DescribeTopicPartitions response"),
    }
}

#[test]
fn describe_maps_store_entries_field_by_field() {
    let entry = TopicMetadata {
        error_code: 0,
        name: "t".to_string(),
        topic_id: "not-a-uuid".to_string(),
        is_internal: true,
        partitions: vec![Partition::new(
            7,
            0xffff_ffff,
            0x8000_0000,
            3,
            vec![1, 0xffff_fffe],
            vec![2],
            vec![3],
            vec![4],
            vec![5],
            9,
        )],
        topic_authorized_operations: 17,
    };
    let broker = KafkaBroker::new(MockMessageStore, MockMetadataStore::new(vec![entry]));
    let response = broker.handle_request(describe_request(0, 5, &["t", "u"])).unwrap();
    match response.payload {
        ResponsePayload::DescribeTopicPartitions(resp) => {
            assert_eq!(resp.topics.len(), 1);
            let topic = &resp.topics[0];
            assert_eq!(topic.topic_id, [0u8; 16]);
            assert!(topic.is_internal);
            assert_eq!(topic.topic_authorized_operations, 17);
            let p = &topic.partitions[0];
            assert_eq!(p.error_code, 7);
            assert_eq!(p.partition_id, -1);
            assert_eq!(p.leader_id, i32::MIN);
            assert_eq!(p.leader_epoch, 3);
            assert_eq!(p.replicas, vec![1, -2]);
            assert_eq!(p.isr, vec![2]);
            assert_eq!(p.eligible_leader_replicas, vec![3]);
            assert_eq!(p.last_known_eligible_leader_replicas, vec![4]);
            assert_eq!(p.offline_replicas, vec![5]);
        }
        _ => panic!("Expected DescribeTopicPartitions response"),
    }
}

#[test]
fn fetch_with_unknown_topic_id_reports_error_100() {
    let id = [0x11u8; 16];
    let broker = KafkaBroker::new(MemoryMessageStore::new(), MemoryMetadataStore::new(foo_log()));
    let response = broker.handle_request(fetch_request(4, &[id])).unwrap();
    assert_eq!(response.correlation_id, 4);
    assert_eq!(response.error_code, 0);
    match response.payload {
        ResponsePayload::Fetch(resp) => {
            assert_eq!(resp.responses.len(), 1);
            assert_eq!(resp.responses[0].topic_id, id);
            assert_eq!(resp.responses[0].partitions.len(), 1);
            assert_eq!(resp.responses[0].partitions[0].partition_index, 0);
            assert_eq!(resp.responses[0].partitions[0].error_code, 100);
        }
        _ => panic!("Expected Fetch response"),
    }
}

#[test]
fn fetch_with_known_topic_id_reports_an_empty_topic() {
    let broker = KafkaBroker::new(MemoryMessageStore::new(), MemoryMetadataStore::new(foo_log()));
    let response = broker.handle_request(fetch_request(4, &[FOO_ID, [0x11; 16]])).unwrap();
    match response.payload {
        ResponsePayload::Fetch(resp) => {
            assert_eq!(resp.responses.len(), 1);
            assert_eq!(resp.responses[0].topic_id, FOO_ID);
            assert_eq!(resp.responses[0].partitions[0].error_code, 0);
        }
        _ => panic!("Expected Fetch response"),
    }
    let none = KafkaBroker::new(MockMessageStore, MockMetadataStore::new(vec![]));
    match none.handle_request(fetch_request(4, &[FOO_ID])).unwrap().payload {
        ResponsePayload::Fetch(resp) => {
            assert_eq!(resp.responses[0].partitions[0].error_code, 100)
        }
        _ => panic!("Expected Fetch response"),
    }
}

#[test]
fn fetch_without_topics_gets_an_empty_response() {
    let broker = KafkaBroker::new(MemoryMessageStore::new(), MemoryMetadataStore::new(vec![]));
    let response = broker.handle_request(fetch_request(4, &[])).unwrap();
    match response.payload {
        ResponsePayload::Fetch(resp) => {
            assert_eq!(resp.responses.len(), 0);
            assert_eq!(resp.error_code, 0);
            assert_eq!(resp.throttle_time_ms, 0);
            assert_eq!(resp.session_id, 0);
        }
        _ => panic!("Expected Fetch response"),
    }
}

#[test]
fn store_failures_and_mismatched_payloads_fail_the_request() {
    let broker = KafkaBroker::new(MemoryMessageStore::new(), FailingMetadataStore);
    assert_eq!(
        broker.handle_request(describe_request(0, 1, &["foo"])).unwrap_err(),
        ApplicationError::Io("no such file".to_string())
    );
    assert_eq!(
        broker.handle_request(fetch_request(1, &[FOO_ID])).unwrap_err(),
        ApplicationError::Io("no such file".to_string())
    );
    assert!(broker.handle_request(describe_request(3, 1, &["foo"])).is_ok());
    let mismatched = KafkaRequest::new(
        RequestHeader {
            api_key: DESCRIBE_TOPIC_PARTITIONS_KEY,
            api_version: 0,
            correlation_id: 1,
            client_id: None,
        },
        RequestPayload::ApiVersions,
    );
    assert_eq!(
        broker.handle_request(mismatched).unwrap_err(),
        ApplicationError::Protocol(Violation::PayloadMismatch)
    );
    let mismatched = KafkaRequest::new(
        RequestHeader { api_key: FETCH_KEY, api_version: 16, correlation_id: 1, client_id: None },
        RequestPayload::ApiVersions,
    );
    assert_eq!(
        broker.handle_request(mismatched).unwrap_err(),
        ApplicationError::Protocol(Violation::PayloadMismatch)
    );
    let corrupt = KafkaBroker::new(MemoryMessageStore::new(), MemoryMetadataStore::new(vec![1]));
    assert!(matches!(
        corrupt.handle_request(describe_request(0, 1, &["foo"])).unwrap_err(),
        ApplicationError::MalformedRequest(_)
    ));
}

#[test]
fn answer_frame_answers_by_how_far_the_request_decodes() {
    let parser = KafkaProtocolParser::new();
    let broker = KafkaBroker::new(MemoryMessageStore::new(), MemoryMetadataStore::new(foo_log()));

    let api_versions = [0x00, 0x12, 0x00, 0x04, 0x00, 0x00, 0x00, 0x7b, 0x00, 0x00, 0x00];
    let answer = parser.answer_frame(&broker, &api_versions).unwrap();
    assert_eq!(answer, serve(foo_log(), &api_versions));
    assert_eq!(&answer[..4], &[0, 0, 0, 33]);
    assert_eq!(&answer[4..10], &[0, 0, 0, 123, 0, 0]);

    let unknown_key = [0x00, 0x63, 0x00, 0x00, 0x00, 0x00, 0x00, 0x07, 0x00, 0x00, 0x00];
    let answer = parser.answer_frame(&broker, &unknown_key).unwrap();
    assert_eq!(&answer[..4], &[0, 0, 0, 33]);
    assert_eq!(&answer[4..10], &[0, 0, 0, 7, 0, 35]);
    assert_eq!(answer[10], 4);

    let broken_body = [0x00, 0x4b, 0x00, 0x00, 0x00, 0x00, 0x00, 0x08, 0x00, 0x00, 0x00, 0x80];
    let answer = parser.answer_frame(&broker, &broken_body).unwrap();
    assert_eq!(&answer[4..10], &[0, 0, 0, 8, 0, 35]);

    assert_eq!(
        parser.answer_frame(&broker, &[0, 18, 0]).unwrap_err(),
        ApplicationError::MalformedRequest(kafka_broker::application::error::Malformed::BufferExhausted)
    );

    let failing = KafkaBroker::new(MemoryMessageStore::new(), FailingMetadataStore);
    let mut describe = vec![0x00, 0x4b, 0x00, 0x00, 0x00, 0x00, 0x00, 0x09, 0x00, 0x00, 0x00];
    describe.extend_from_slice(&[2, 4, b'f', b'o', b'o', 0, 0, 0, 0, 1, 0xff, 0]);
    assert_eq!(
        parser.answer_frame(&failing, &describe).unwrap_err(),
        ApplicationError::Io("no such file".to_string())
    );
    let answer = parser.answer_frame(&broker, &describe).unwrap();
    assert_eq!(answer, serve(foo_log(), &describe));
}
