//! Kafka messages, producers, consumers and administration.  No broker is
//! contacted: sends, polls and topic listings give fixed, simulated answers.
use vstd::prelude::*;
use vstd::utf8::{encode_utf8, valid_utf8};
use crate::string_map::StringMap;
use crate::text::owned;
use crate::clock::{instant_now, millis_since};
use crate::protocols::ProtocolError;

verus! {

/// Kafka producer configuration.
#[derive(Debug)]
pub struct KafkaProducerConfig {
    /// Message timeout in milliseconds.
    pub timeout_ms: u64,
    /// Acknowledgements required (0, 1, or -1 for all replicas).
    pub acks: i32,
    /// Compression (none, gzip, snappy, lz4, zstd).
    pub compression_type: String,
    /// Batch size in bytes.
    pub batch_size: usize,
    /// Linger time in milliseconds.
    pub linger_ms: u64,
    /// Further settings.
    pub additional_config: StringMap,
}

impl Default for KafkaProducerConfig {
    fn default() -> (r: Self)
        ensures
            r.timeout_ms == 5000,
            r.acks == -1,
            r.compression_type@ == "none"@,
            r.batch_size == 16384,
            r.linger_ms == 0,
            r.additional_config@ == Map::<Seq<char>, Seq<char>>::empty(),
    {
        KafkaProducerConfig {
            timeout_ms: 5000,
            acks: -1,
            compression_type: owned("none"),
            batch_size: 16384,
            linger_ms: 0,
            additional_config: StringMap::new(),
        }
    }
}

/// Kafka consumer configuration.
#[derive(Debug)]
pub struct KafkaConsumerConfig {
    /// Where to start without a committed offset (earliest, latest, none).
    pub auto_offset_reset: String,
    /// Whether offsets are committed automatically.
    pub enable_auto_commit: bool,
    /// Auto-commit interval in milliseconds.
    pub auto_commit_interval_ms: u64,
    /// Session timeout in milliseconds.
    pub session_timeout_ms: u64,
    /// Records returned by one poll at most.
    pub max_poll_records: usize,
    /// Further settings.
    pub additional_config: StringMap,
}

impl Default for KafkaConsumerConfig {
    fn default() -> (r: Self)
        ensures
            r.auto_offset_reset@ == "latest"@,
            r.enable_auto_commit,
            r.auto_commit_interval_ms == 5000,
            r.session_timeout_ms == 10000,
            r.max_poll_records == 500,
            r.additional_config@ == Map::<Seq<char>, Seq<char>>::empty(),
    {
        KafkaConsumerConfig {
            auto_offset_reset: owned("latest"),
            enable_auto_commit: true,
            auto_commit_interval_ms: 5000,
            session_timeout_ms: 10000,
            max_poll_records: 500,
            additional_config: StringMap::new(),
        }
    }
}

/// A record to send.
#[derive(Debug)]
pub struct KafkaMessage {
    pub key: Option<String>,
    pub payload: Vec<u8>,
    pub headers: StringMap,
    /// Target partition (`None`: chosen by the producer).
    pub partition: Option<i32>,
}

impl KafkaMessage {
    /// A record with a payload and nothing else.
    pub fn new(payload: Vec<u8>) -> (r: Self)
        ensures
            r.key is None,
            r.payload == payload,
            r.headers@ == Map::<Seq<char>, Seq<char>>::empty(),
            r.partition is None,
    {
        KafkaMessage { key: None, payload, headers: StringMap::new(), partition: None }
    }

    /// A record whose payload is the UTF-8 encoding of `text`.
    pub fn from_string(text: String) -> (r: Self)
        ensures
            r.key is None,
            r.payload@ == encode_utf8(text@),
            r.headers@ == Map::<Seq<char>, Seq<char>>::empty(),
            r.partition is None,
    {
        let bytes = vstd::slice::slice_to_vec(text.as_str().as_bytes());
        Self::new(bytes)
    }

    /// The record with a key.
    pub fn with_key(self, key: String) -> (r: Self)
        ensures
            r.key == Some(key),
            r.payload == self.payload,
            r.headers@ == self.headers@,
            r.partition == self.partition,
    {
        let mut s = self;
        s.key = Some(key);
        s
    }

    /// The record with a header set.
    pub fn with_header(self, key: String, value: String) -> (r: Self)
        ensures
            r.key == self.key,
            r.payload == self.payload,
            r.headers@ == self.headers@.insert(key@, value@),
            r.partition == self.partition,
    {
        let mut s = self;
        s.headers.insert(key, value);
        s
    }

    /// The record aimed at a partition.
    pub fn with_partition(self, partition: i32) -> (r: Self)
        ensures
            r.key == self.key,
            r.payload == self.payload,
            r.headers@ == self.headers@,
            r.partition == Some(partition),
    {
        let mut s = self;
        s.partition = Some(partition);
        s
    }
}

/// The outcome of sending a record.
#[derive(Debug)]
pub struct KafkaProduceResult {
    pub topic: String,
    pub partition: i32,
    pub offset: i64,
    pub latency_ms: u64,
    pub bytes_sent: usize,
}

/// `r` reports sending `payload_len` bytes to `topic`: the simulated
/// answer is partition 0, offset 123.
pub open spec fn simulated_send(r: KafkaProduceResult, topic: Seq<char>, payload_len: nat) -> bool {
    r.topic@ == topic && r.partition == 0 && r.offset == 123 && r.bytes_sent == payload_len
}

/// Sends records (simulated).
pub struct KafkaProducer {
    pub brokers: String,
    pub config: KafkaProducerConfig,
}

impl KafkaProducer {
    /// A producer with the default configuration.
    pub fn new(brokers: String) -> (r: Self)
        ensures
            r.brokers == brokers,
            r.config.timeout_ms == 5000,
            r.config.acks == -1,
            r.config.compression_type@ == "none"@,
            r.config.batch_size == 16384,
            r.config.linger_ms == 0,
            r.config.additional_config@ == Map::<Seq<char>, Seq<char>>::empty(),
    {
        KafkaProducer { brokers, config: KafkaProducerConfig::default() }
    }

    /// A producer with a configuration.
    pub fn with_config(brokers: String, config: KafkaProducerConfig) -> (r: Self)
        ensures
            r.brokers == brokers,
            r.config == config,
    {
        KafkaProducer { brokers, config }
    }

    /// The result of sending `message` to `topic` in `latency_ms`.
    pub fn produce_result(&self, topic: &str, message: &KafkaMessage, latency_ms: u64) -> (r:
        KafkaProduceResult)
        ensures
            simulated_send(r, topic@, message.payload@.len()),
            r.latency_ms == latency_ms,
    {
        KafkaProduceResult {
            topic: owned(topic),
            partition: 0,
            offset: 123,
            latency_ms,
            bytes_sent: message.payload.len(),
        }
    }

    /// Sends a record (simulated: always succeeds).  The latency is read
    /// from the clock, so nothing is stated of it.
    pub fn send(&self, topic: &str, message: KafkaMessage) -> (r: Result<
        KafkaProduceResult,
        ProtocolError,
    >)
        ensures
            r matches Ok(p) && simulated_send(p, topic@, message.payload@.len()),
    {
        let start = instant_now();
        let latency = millis_since(&start) as u64;
        Ok(self.produce_result(topic, &message, latency))
    }

    /// Sends records in order, stopping at the first failure.
    pub fn send_batch(&self, topic: &str, messages: Vec<KafkaMessage>) -> (r: Result<
        Vec<KafkaProduceResult>,
        ProtocolError,
    >)
        ensures
            r matches Ok(v) && v@.len() == messages@.len() && forall|i: int|
                0 <= i < v@.len() ==> simulated_send(
                    #[trigger] v@[i],
                    topic@,
                    messages@[i].payload@.len(),
                ),
    {
        let mut results: Vec<KafkaProduceResult> = Vec::new();
        let mut rest = messages;
        let ghost all = rest@;
        let n = rest.len();
        let mut i: usize = 0;
        while i < n
            invariant
                n == all.len(),
                i <= n,
                rest@ == all.skip(i as int),
                results@.len() == i,
                forall|j: int|
                    0 <= j < i ==> simulated_send(
                        #[trigger] results@[j],
                        topic@,
                        all[j].payload@.len(),
                    ),
            decreases n - i,
        {
            let m = rest.remove(0);
            proof {
                assert(all.skip(i as int)[0] == all[i as int]);
                assert(rest@ =~= all.skip(i + 1));
            }
            match self.send(topic, m) {
                Ok(p) => {
                    results.push(p);
                },
                Err(e) => {
                    return Err(e);
                },
            }
            i += 1;
        }
        Ok(results)
    }
}

/// A record received.
#[derive(Debug)]
pub struct KafkaConsumeResult {
    pub topic: String,
    pub partition: i32,
    pub offset: i64,
    pub key: Option<Vec<u8>>,
    pub payload: Vec<u8>,
    pub timestamp: i64,
    pub headers: StringMap,
}

/// Bytes that are not valid UTF-8.
#[derive(Debug)]
pub struct InvalidUtf8;

#[verifier::external_type_specification]
#[verifier::external_body]
pub struct ExFromUtf8Error(std::string::FromUtf8Error);

/// `String::from_utf8`: succeeds exactly on valid UTF-8, and the text then
/// has these bytes as its encoding.
#[verifier::external_body]
fn string_from_utf8(bytes: Vec<u8>) -> (r: Result<String, std::string::FromUtf8Error>)
    ensures
        r is Ok <==> valid_utf8(bytes@),
        r matches Ok(s) ==> encode_utf8(s@) == bytes@,
{
    String::from_utf8(bytes)
}

/// The text whose UTF-8 encoding is `bytes`, or the error.
fn utf8_text(bytes: &Vec<u8>) -> (r: Result<String, InvalidUtf8>)
    ensures
        r is Ok <==> valid_utf8(bytes@),
        r matches Ok(s) ==> encode_utf8(s@) == bytes@,
{
    match string_from_utf8(vstd::slice::slice_to_vec(bytes.as_slice())) {
        Ok(s) => Ok(s),
        Err(_) => Err(InvalidUtf8),
    }
}

impl KafkaConsumeResult {
    /// The payload as text, when it is valid UTF-8.
    pub fn payload_as_string(&self) -> (r: Result<String, InvalidUtf8>)
        ensures
            r is Ok <==> valid_utf8(self.payload@),
            r matches Ok(s) ==> encode_utf8(s@) == self.payload@,
    {
        utf8_text(&self.payload)
    }

    /// The key as text, when there is a key (and whether it is valid UTF-8).
    pub fn key_as_string(&self) -> (r: Option<Result<String, InvalidUtf8>>)
        ensures
            r is Some <==> self.key is Some,
            r matches Some(t) ==> (t is Ok <==> valid_utf8(self.key->0@)),
            r matches Some(Ok(s)) ==> encode_utf8(s@) == self.key->0@,
    {
        match &self.key {
            Some(k) => Some(utf8_text(k)),
            None => None,
        }
    }
}

/// Receives records (simulated).
pub struct KafkaConsumer {
    pub brokers: String,
    pub group_id: String,
    pub config: KafkaConsumerConfig,
}

impl KafkaConsumer {
    /// A consumer with the default configuration.
    pub fn new(brokers: String, group_id: String) -> (r: Self)
        ensures
            r.brokers == brokers,
            r.group_id == group_id,
            r.config.auto_offset_reset@ == "latest"@,
            r.config.enable_auto_commit,
            r.config.auto_commit_interval_ms == 5000,
            r.config.session_timeout_ms == 10000,
            r.config.max_poll_records == 500,
            r.config.additional_config@ == Map::<Seq<char>, Seq<char>>::empty(),
    {
        KafkaConsumer { brokers, group_id, config: KafkaConsumerConfig::default() }
    }

    /// A consumer with a configuration.
    pub fn with_config(brokers: String, group_id: String, config: KafkaConsumerConfig) -> (r:
        Self)
        ensures
            r.brokers == brokers,
            r.group_id == group_id,
            r.config == config,
    {
        KafkaConsumer { brokers, group_id, config }
    }

    /// Subscribes to topics (simulated: always succeeds).
    pub fn subscribe(&self, topics: Vec<String>) -> (r: Result<(), ProtocolError>)
        ensures
            r is Ok,
    {
        Ok(())
    }

    /// How long a poll waits before answering: the timeout, at most 100 ms.
    pub fn poll_wait_ms(&self, timeout_ms: u64) -> (r: u64)
        ensures
            r == if timeout_ms < 100 {
                timeout_ms
            } else {
                100
            },
    {
        if timeout_ms < 100 {
            timeout_ms
        } else {
            100
        }
    }

    /// The record a poll answers with at time `timestamp_ms`: on topic
    /// `test-topic`, partition 0, offset 456, no key, payload
    /// `test message`, no headers.
    pub fn polled(&self, timestamp_ms: i64) -> (r: Option<KafkaConsumeResult>)
        ensures
            r matches Some(m) && m.topic@ == "test-topic"@ && m.partition == 0 && m.offset == 456
                && m.key is None && m.payload@ == encode_utf8("test message"@) && m.timestamp
                == timestamp_ms && m.headers@ == Map::<Seq<char>, Seq<char>>::empty(),
    {
        let payload = vstd::slice::slice_to_vec("test message".as_bytes());
        Some(
            KafkaConsumeResult {
                topic: owned("test-topic"),
                partition: 0,
                offset: 456,
                key: None,
                payload,
                timestamp: timestamp_ms,
                headers: StringMap::new(),
            },
        )
    }

    /// Whether a batch poll goes on: fewer than `max_messages` collected
    /// and the timeout not reached.
    pub fn batch_continues(
        &self,
        collected: usize,
        max_messages: usize,
        elapsed_ms: u128,
        timeout_ms: u64,
    ) -> (r: bool)
        ensures
            r == (collected < max_messages && elapsed_ms < timeout_ms),
    {
        collected < max_messages && elapsed_ms < timeout_ms as u128
    }
}

/// Administers topics (simulated).
pub struct KafkaAdmin {
    pub brokers: String,
}

impl KafkaAdmin {
    pub fn new(brokers: String) -> (r: Self)
        ensures
            r.brokers == brokers,
    {
        KafkaAdmin { brokers }
    }

    /// Creates a topic (simulated: always succeeds).
    pub fn create_topic(&self, topic: &str, partitions: i32, replication_factor: i32) -> (r:
        Result<(), ProtocolError>)
        ensures
            r is Ok,
    {
        Ok(())
    }

    /// Deletes a topic (simulated: always succeeds).
    pub fn delete_topic(&self, topic: &str) -> (r: Result<(), ProtocolError>)
        ensures
            r is Ok,
    {
        Ok(())
    }

    /// The topics (simulated: `test-topic-1` and `test-topic-2`).
    pub fn list_topics(&self) -> (r: Result<Vec<String>, ProtocolError>)
        ensures
            r matches Ok(v) && v@.len() == 2 && v@[0]@ == "test-topic-1"@ && v@[1]@
                == "test-topic-2"@,
    {
        let mut v: Vec<String> = Vec::new();
        v.push(owned("test-topic-1"));
        v.push(owned("test-topic-2"));
        Ok(v)
    }
}

/// A text sent as a record's payload reads back as the same text: its
/// encoding is valid UTF-8, and no other text has the same encoding.
pub proof fn law_text_payload_roundtrip(text: Seq<char>, back: Seq<char>)
    ensures
        valid_utf8(encode_utf8(text)),
        encode_utf8(back) == encode_utf8(text) ==> back == text,
{
    vstd::utf8::encode_utf8_valid_utf8(text);
    vstd::utf8::encode_utf8_decode_utf8(text);
    vstd::utf8::encode_utf8_decode_utf8(back);
}

} // verus!
