use rust_lt::protocols::jdbc::JdbcConnection;
use rust_lt::protocols::jms::{JmsConnectionFactory, JmsMessage, JmsMessageType};
use rust_lt::protocols::kafka::{
    KafkaAdmin,
    KafkaConsumeResult,
    KafkaConsumer,
    KafkaConsumerConfig,
    KafkaMessage,
    KafkaProducer,
    KafkaProducerConfig,
};
use rust_lt::protocols::ws::WsClient;
use rust_lt::string_map::StringMap;

#[test]
fn test_jdbc_connection_creation() {
    let conn = JdbcConnection::new(
        "jdbc:postgresql://localhost:5432/testdb".to_string(),
        "user".to_string(),
        "pass".to_string(),
    );
    assert_eq!(conn.connection_string, "jdbc:postgresql://localhost:5432/testdb");
}

#[test]
fn test_jms_connection_factory_creation() {
    let factory = JmsConnectionFactory::new("tcp://localhost:61616".to_string());
    assert_eq!(factory.broker_url, "tcp://localhost:61616");
}

#[test]
fn test_jms_message_creation() {
    let msg = JmsMessage::text("Hello JMS".to_string())
        .with_property("priority".to_string(), "high".to_string());

    assert_eq!(msg.body, "Hello JMS");
    assert_eq!(msg.message_type, JmsMessageType::Text);
    assert_eq!(msg.properties.get("priority"), Some(&"high".to_string()));
}

#[test]
fn test_kafka_producer_creation() {
    let producer = KafkaProducer::new("localhost:9092".to_string());
    assert_eq!(producer.brokers, "localhost:9092");
}

#[test]
fn test_kafka_consumer_creation() {
    let consumer = KafkaConsumer::new("localhost:9092".to_string(), "test-group".to_string());
    assert_eq!(consumer.brokers, "localhost:9092");
    assert_eq!(consumer.group_id, "test-group");
}

#[test]
fn test_kafka_message_builder() {
    let msg = KafkaMessage::from_string("test message".to_string())
        .with_key("key1".to_string())
        .with_header("trace-id".to_string(), "12345".to_string())
        .with_partition(0);

    assert_eq!(msg.key, Some("key1".to_string()));
    assert_eq!(msg.payload, b"test message");
    assert_eq!(msg.headers.get("trace-id"), Some(&"12345".to_string()));
    assert_eq!(msg.partition, Some(0));
}

#[test]
fn test_kafka_producer_config() {
    let config = KafkaProducerConfig {
        timeout_ms: 10000,
        acks: 1,
        compression_type: "gzip".to_string(),
        ..Default::default()
    };

    assert_eq!(config.timeout_ms, 10000);
    assert_eq!(config.acks, 1);
    assert_eq!(config.compression_type, "gzip");
}

#[test]
fn test_kafka_consumer_config() {
    let config = KafkaConsumerConfig {
        auto_offset_reset: "earliest".to_string(),
        enable_auto_commit: false,
        ..Default::default()
    };

    assert_eq!(config.auto_offset_reset, "earliest");
    assert!(!config.enable_auto_commit);
}

#[test]
fn test_kafka_producer_send() {
    let producer = KafkaProducer::new("localhost:9092".to_string());
    let message = KafkaMessage::from_string("test".to_string());

    let result = producer.send("test-topic", message);
    assert!(result.is_ok());

    let produce_result = result.unwrap();
    assert_eq!(produce_result.topic, "test-topic");
}

#[test]
fn test_kafka_consumer_subscribe() {
    let consumer = KafkaConsumer::new("localhost:9092".to_string(), "test-group".to_string());
    let result = consumer.subscribe(vec!["topic1".to_string(), "topic2".to_string()]);
    assert!(result.is_ok());
}

#[test]
fn test_kafka_admin_operations() {
    let admin = KafkaAdmin::new("localhost:9092".to_string());

    let topics = admin.list_topics();
    assert!(topics.is_ok());
}

#[test]
fn test_consume_result_conversion() {
    let result = KafkaConsumeResult {
        topic: "test".to_string(),
        partition: 0,
        offset: 100,
        key: Some(b"key".to_vec()),
        payload: b"payload".to_vec(),
        timestamp: 1234567890,
        headers: StringMap::new(),
    };

    assert_eq!(result.payload_as_string().unwrap(), "payload");
    assert_eq!(result.key_as_string().unwrap().unwrap(), "key");
}

#[test]
fn test_ws_client_creation() {
    let client = WsClient::new("ws://localhost:8080".to_string());
    assert_eq!(client.url, "ws://localhost:8080");
}

#[test]
fn placeholder_protocols_fail_with_their_messages() {
    let conn = JdbcConnection::new("c".to_string(), "u".to_string(), "p".to_string());
    assert_eq!(conn.connect().err().unwrap().message, "JDBC protocol not yet fully implemented");
    let factory = JmsConnectionFactory::new("tcp://b".to_string())
        .with_credentials("u".to_string(), "p".to_string());
    assert_eq!(factory.username, Some("u".to_string()));
    assert_eq!(
        factory.create_connection().err().unwrap().message,
        "JMS protocol not yet fully implemented"
    );
    let ws = WsClient::new("ws://x".to_string());
    assert_eq!(ws.connect().err().unwrap().message, "WebSocket protocol not yet fully implemented");
}

#[test]
fn bytes_messages_read_as_text() {
    let msg = JmsMessage::bytes(vec![104, 105]);
    assert_eq!(msg.body, "hi");
    assert_eq!(msg.message_type, JmsMessageType::Bytes);
    let bad = JmsMessage::bytes(vec![104, 0xff]);
    assert_eq!(bad.body, "h\u{FFFD}");
}

#[test]
fn invalid_utf8_payload_is_an_error() {
    let result = KafkaConsumeResult {
        topic: "t".to_string(),
        partition: 1,
        offset: 2,
        key: None,
        payload: vec![0xff, 0xfe],
        timestamp: 0,
        headers: StringMap::new(),
    };
    assert!(result.payload_as_string().is_err());
    assert!(result.key_as_string().is_none());
}

#[test]
fn simulated_kafka_answers() {
    let producer = KafkaProducer::with_config("b".to_string(), KafkaProducerConfig::default());
    let sent = producer
        .send_batch(
            "t",
            vec![KafkaMessage::new(vec![1, 2, 3]), KafkaMessage::from_string("héllo".to_string())],
        )
        .unwrap();
    assert_eq!(sent.len(), 2);
    assert_eq!(sent[0].partition, 0);
    assert_eq!(sent[0].offset, 123);
    assert_eq!(sent[0].bytes_sent, 3);
    assert_eq!(sent[1].bytes_sent, 6);

    let consumer = KafkaConsumer::with_config("b".to_string(), "g".to_string(), KafkaConsumerConfig::default());
    assert_eq!(consumer.poll_wait_ms(5000), 100);
    assert_eq!(consumer.poll_wait_ms(30), 30);
    let record = consumer.polled(77).unwrap();
    assert_eq!(record.topic, "test-topic");
    assert_eq!(record.offset, 456);
    assert_eq!(record.payload_as_string().unwrap(), "test message");
    assert_eq!(record.timestamp, 77);
    assert!(consumer.batch_continues(0, 2, 10, 100));
    assert!(!consumer.batch_continues(2, 2, 10, 100));
    assert!(!consumer.batch_continues(0, 2, 100, 100));

    let admin = KafkaAdmin::new("b".to_string());
    assert_eq!(admin.list_topics().unwrap(), vec!["test-topic-1".to_string(), "test-topic-2".to_string()]);
    assert!(admin.create_topic("t", 3, 1).is_ok());
    assert!(admin.delete_topic("t").is_ok());
}

#[test]
fn kafka_clients_start_with_default_settings() {
    let producer = KafkaProducer::new("localhost:9092".to_string());
    assert_eq!(producer.config.timeout_ms, 5000);
    assert_eq!(producer.config.acks, -1);
    assert_eq!(producer.config.compression_type, "none");
    assert_eq!(producer.config.batch_size, 16384);
    assert_eq!(producer.config.linger_ms, 0);
    assert!(producer.config.additional_config.is_empty());

    let consumer = KafkaConsumer::new("localhost:9092".to_string(), "g".to_string());
    assert_eq!(consumer.config.auto_offset_reset, "latest");
    assert!(consumer.config.enable_auto_commit);
    assert_eq!(consumer.config.auto_commit_interval_ms, 5000);
    assert_eq!(consumer.config.session_timeout_ms, 10000);
    assert_eq!(consumer.config.max_poll_records, 500);
    assert!(consumer.config.additional_config.is_empty());
}
