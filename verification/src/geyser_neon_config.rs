//! The pipeline configuration: loaded once at startup, immutable afterwards,
//! and shared read-only by every worker. Numeric fields arrive as text, as
//! the broker client takes them, and are validated here: each must be a
//! non-negative integer within the range the client accepts, and the metrics
//! port must be a valid port number. An invalid field is a fatal startup
//! error for the caller.

use vstd::prelude::*;

use crate::decimal::{parse_u64, spec_parse_u64};
use crate::message_type::MessageType;

verus! {

/// Verbosity of the broker client's own logging.
#[derive(Debug, Clone, Copy, PartialEq, Eq, Structural)]
pub enum LogLevel {
    Emerg,
    Alert,
    Critical,
    Error,
    Warning,
    Notice,
    Info,
    Debug,
}

/// Verbosity of the pipeline's own logging.
#[derive(Debug, Clone, Copy, PartialEq, Eq, Structural)]
pub enum GlobalLogLevel {
    Off,
    Error,
    Warn,
    Info,
    Debug,
    Trace,
}

/// The configuration surface: broker endpoints, authentication, one topic
/// per category, queue capacity, producer tuning, and the metrics port.
#[derive(Debug, Clone, PartialEq, Eq)]
pub struct GeyserPluginKafkaConfig {
    /// Servers list in the broker client's own format.
    pub brokers_list: String,
    pub sasl_username: String,
    pub sasl_password: String,
    pub sasl_mechanism: String,
    pub security_protocol: String,
    pub update_account_topic: String,
    pub update_slot_topic: String,
    pub notify_transaction_topic: String,
    pub notify_block_topic: String,
    /// From 0 to 2147483647.
    pub producer_send_max_retries: String,
    pub producer_queue_max_messages: String,
    pub producer_message_max_bytes: String,
    pub producer_request_timeout_ms: String,
    pub producer_retry_backoff_ms: String,
    pub max_in_flight_requests_per_connection: String,
    pub compression_codec: String,
    pub compression_level: String,
    pub batch_size: String,
    pub batch_num_messages: String,
    pub linger_ms: String,
    pub acks: String,
    /// Upper bound on the time a produced message may wait for successful
    /// delivery, internal retries included. 0 means unbounded.
    pub message_timeout_ms: String,
    pub statistics_interval_ms: String,
    pub prometheus_port: String,
    pub internal_queue_capacity: String,
    pub kafka_log_level: LogLevel,
    pub global_log_level: GlobalLogLevel,
}

/// The largest value the broker client accepts for its numeric properties.
pub const NUMERIC_FIELD_MAX: u64 = 2147483647;

/// A numeric configuration field: a non-negative decimal integer within the
/// broker client's accepted range.
pub open spec fn spec_numeric_field_ok(s: Seq<char>) -> bool {
    match spec_parse_u64(s) {
        Some(n) => n <= NUMERIC_FIELD_MAX,
        None => false,
    }
}

/// The metrics port the configuration asks for, if it is a valid port
/// number.
pub open spec fn spec_prometheus_port(s: Seq<char>) -> Option<u16> {
    match spec_parse_u64(s) {
        Some(n) => if n <= u16::MAX {
            Some(n as u16)
        } else {
            None
        },
        None => None,
    }
}

/// The bounded-queue capacity the configuration asks for, if the field is a
/// decimal integer that fits the machine's size type. Anything else is
/// invalid: like every numeric field, a capacity that does not parse is a
/// fatal startup error, never a silent default.
pub open spec fn spec_queue_capacity(s: Seq<char>) -> Option<usize> {
    match spec_parse_u64(s) {
        Some(n) => if n <= usize::MAX {
            Some(n as usize)
        } else {
            None
        },
        None => None,
    }
}

/// Every numeric field of the configuration is valid.
pub open spec fn spec_config_valid(c: GeyserPluginKafkaConfig) -> bool {
    &&& spec_queue_capacity(c.internal_queue_capacity@) is Some
    &&& spec_numeric_field_ok(c.producer_send_max_retries@)
    &&& spec_numeric_field_ok(c.producer_queue_max_messages@)
    &&& spec_numeric_field_ok(c.producer_message_max_bytes@)
    &&& spec_numeric_field_ok(c.producer_request_timeout_ms@)
    &&& spec_numeric_field_ok(c.producer_retry_backoff_ms@)
    &&& spec_numeric_field_ok(c.max_in_flight_requests_per_connection@)
    &&& spec_numeric_field_ok(c.compression_level@)
    &&& spec_numeric_field_ok(c.batch_size@)
    &&& spec_numeric_field_ok(c.batch_num_messages@)
    &&& spec_numeric_field_ok(c.linger_ms@)
    &&& spec_numeric_field_ok(c.message_timeout_ms@)
    &&& spec_numeric_field_ok(c.statistics_interval_ms@)
    &&& spec_prometheus_port(c.prometheus_port@) is Some
}

/// The topic configured for each category.
pub open spec fn spec_topic_for(c: GeyserPluginKafkaConfig, category: MessageType) -> Seq<char> {
    match category {
        MessageType::UpdateAccount => c.update_account_topic@,
        MessageType::UpdateSlot => c.update_slot_topic@,
        MessageType::NotifyTransaction => c.notify_transaction_topic@,
        MessageType::NotifyBlock => c.notify_block_topic@,
    }
}

/// The properties handed to the broker client, in order, as key/value text
/// pairs.
pub open spec fn spec_producer_settings(c: GeyserPluginKafkaConfig) -> Seq<(Seq<char>, Seq<char>)> {
    seq![
        ("bootstrap.servers"@, c.brokers_list@),
        ("message.timeout.ms"@, c.message_timeout_ms@),
        ("security.protocol"@, c.security_protocol@),
        ("sasl.mechanism"@, c.sasl_mechanism@),
        ("sasl.username"@, c.sasl_username@),
        ("sasl.password"@, c.sasl_password@),
        ("message.send.max.retries"@, c.producer_send_max_retries@),
        ("queue.buffering.max.messages"@, c.producer_queue_max_messages@),
        ("message.max.bytes"@, c.producer_message_max_bytes@),
        ("request.timeout.ms"@, c.producer_request_timeout_ms@),
        ("retry.backoff.ms"@, c.producer_retry_backoff_ms@),
        ("max.in.flight.requests.per.connection"@, c.max_in_flight_requests_per_connection@),
        ("compression.codec"@, c.compression_codec@),
        ("compression.level"@, c.compression_level@),
        ("batch.size"@, c.batch_size@),
        ("batch.num.messages"@, c.batch_num_messages@),
        ("linger.ms"@, c.linger_ms@),
        ("acks"@, c.acks@),
        ("statistics.interval.ms"@, c.statistics_interval_ms@),
    ]
}

/// The views of a list of key/value pairs.
pub open spec fn settings_view(s: Seq<(String, String)>) -> Seq<(Seq<char>, Seq<char>)> {
    Seq::new(s.len(), |i: int| (s[i].0@, s[i].1@))
}

fn numeric_field_ok(s: &String) -> (b: bool)
    ensures
        b == spec_numeric_field_ok(s@),
{
    match parse_u64(s.as_str()) {
        Some(n) => n <= NUMERIC_FIELD_MAX,
        None => false,
    }
}

impl GeyserPluginKafkaConfig {
    /// Whether every numeric field parses as a non-negative integer in the
    /// broker client's accepted range and the metrics port is a valid port
    /// number. A configuration failing this check is a fatal startup error.
    pub fn validate(&self) -> (ok: bool)
        ensures
            ok == spec_config_valid(*self),
    {
        self.queue_capacity().is_some()
            && numeric_field_ok(&self.producer_send_max_retries)
            && numeric_field_ok(&self.producer_queue_max_messages)
            && numeric_field_ok(&self.producer_message_max_bytes)
            && numeric_field_ok(&self.producer_request_timeout_ms)
            && numeric_field_ok(&self.producer_retry_backoff_ms)
            && numeric_field_ok(&self.max_in_flight_requests_per_connection)
            && numeric_field_ok(&self.compression_level)
            && numeric_field_ok(&self.batch_size)
            && numeric_field_ok(&self.batch_num_messages)
            && numeric_field_ok(&self.linger_ms)
            && numeric_field_ok(&self.message_timeout_ms)
            && numeric_field_ok(&self.statistics_interval_ms)
            && self.prometheus_port().is_some()
    }

    /// The metrics port, if the configured value is a valid port number.
    pub fn prometheus_port(&self) -> (r: Option<u16>)
        ensures
            r == spec_prometheus_port(self.prometheus_port@),
    {
        match parse_u64(self.prometheus_port.as_str()) {
            Some(n) => if n <= u16::MAX as u64 {
                Some(n as u16)
            } else {
                None
            },
            None => None,
        }
    }

    /// The capacity of each per-category ingestion queue, if the configured
    /// value is a decimal integer the machine can hold; `None` is a fatal
    /// startup error.
    pub fn queue_capacity(&self) -> (r: Option<usize>)
        ensures
            r == spec_queue_capacity(self.internal_queue_capacity@),
    {
        match parse_u64(self.internal_queue_capacity.as_str()) {
            Some(n) => if n <= usize::MAX as u64 {
                Some(n as usize)
            } else {
                None
            },
            None => None,
        }
    }

    /// The broker topic configured for a category. Exactly one topic per
    /// category; the mapping is fixed by the configuration at startup.
    pub fn topic_for(&self, category: MessageType) -> (t: &String)
        ensures
            t@ == spec_topic_for(*self, category),
    {
        match category {
            MessageType::UpdateAccount => &self.update_account_topic,
            MessageType::UpdateSlot => &self.update_slot_topic,
            MessageType::NotifyTransaction => &self.notify_transaction_topic,
            MessageType::NotifyBlock => &self.notify_block_topic,
        }
    }

    /// The key/value property pairs a broker client is configured with,
    /// exactly as the client expects them.
    pub fn producer_settings(&self) -> (r: Vec<(String, String)>)
        ensures
            settings_view(r@) == spec_producer_settings(*self),
    {
        let mut r: Vec<(String, String)> = Vec::new();
        r.push((String::from_str("bootstrap.servers"), self.brokers_list.clone()));
        r.push((String::from_str("message.timeout.ms"), self.message_timeout_ms.clone()));
        r.push((String::from_str("security.protocol"), self.security_protocol.clone()));
        r.push((String::from_str("sasl.mechanism"), self.sasl_mechanism.clone()));
        r.push((String::from_str("sasl.username"), self.sasl_username.clone()));
        r.push((String::from_str("sasl.password"), self.sasl_password.clone()));
        r.push(
            (String::from_str("message.send.max.retries"), self.producer_send_max_retries.clone()),
        );
        r.push(
            (
                String::from_str("queue.buffering.max.messages"),
                self.producer_queue_max_messages.clone(),
            ),
        );
        r.push((String::from_str("message.max.bytes"), self.producer_message_max_bytes.clone()));
        r.push(
            (String::from_str("request.timeout.ms"), self.producer_request_timeout_ms.clone()),
        );
        r.push((String::from_str("retry.backoff.ms"), self.producer_retry_backoff_ms.clone()));
        r.push(
            (
                String::from_str("max.in.flight.requests.per.connection"),
                self.max_in_flight_requests_per_connection.clone(),
            ),
        );
        r.push((String::from_str("compression.codec"), self.compression_codec.clone()));
        r.push((String::from_str("compression.level"), self.compression_level.clone()));
        r.push((String::from_str("batch.size"), self.batch_size.clone()));
        r.push((String::from_str("batch.num.messages"), self.batch_num_messages.clone()));
        r.push((String::from_str("linger.ms"), self.linger_ms.clone()));
        r.push((String::from_str("acks"), self.acks.clone()));
        r.push(
            (String::from_str("statistics.interval.ms"), self.statistics_interval_ms.clone()),
        );
        proof {
            assert(settings_view(r@) =~= spec_producer_settings(*self));
        }
        r
    }
}

} // verus!
