use kafka_broker::adapters::incoming::protocol::messages::{KafkaRequest, KafkaResponse};
use kafka_broker::application::error::ApplicationError;
use kafka_broker::config::AppConfig;
use kafka_broker::ports::incoming::message_handler::MessageHandler;
use kafka_broker::ports::incoming::protocol_parser::ProtocolParser;
use std::sync::Arc;

pub struct MockProtocolParser;

impl MockProtocolParser {
    pub fn new() -> Self {
        Self
    }
}

impl ProtocolParser for MockProtocolParser {
    fn parse_request(&self, _buffer: &[u8]) -> Result<KafkaRequest, ApplicationError> {
        panic!("Mock implementation")
    }

    fn encode_response(&self, _response: KafkaResponse) -> Vec<u8> {
        panic!("Mock implementation")
    }
}

pub struct MockMessageHandler;

impl MockMessageHandler {
    pub fn new() -> Self {
        Self
    }
}

impl MessageHandler for MockMessageHandler {
    fn handle_request(&self, _request: KafkaRequest) -> Result<KafkaResponse, ApplicationError> {
        panic!("Mock implementation")
    }
}

pub fn create_test_config() -> AppConfig<MockMessageHandler, MockProtocolParser> {
    AppConfig::with_custom_components(
        Arc::new(MockMessageHandler::new()),
        Arc::new(MockProtocolParser::new()),
    )
}

#[test]
fn test_app_config_creation() {
    let config = AppConfig::new();
    assert!(Arc::strong_count(&config.message_handler) >= 1);
    assert!(Arc::strong_count(&config.protocol_parser) >= 1);
}

#[test]
fn test_app_config_with_custom_components() {
    let config = create_test_config();
    assert!(Arc::strong_count(&config.message_handler) >= 1);
    assert!(Arc::strong_count(&config.protocol_parser) >= 1);
}

#[test]
fn default_config_answers_api_versions() {
    let config = AppConfig::new();
    let request = config
        .protocol_parser
        .parse_request(&[0, 18, 0, 4, 0, 0, 0, 5, 0, 0, 0])
        .unwrap();
    let response = config.message_handler.handle_request(request).unwrap();
    assert_eq!(response.correlation_id, 5);
    assert_eq!(response.error_code, 0);
}
