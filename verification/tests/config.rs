use geyser_neon::geyser_neon_config::{GeyserPluginKafkaConfig, GlobalLogLevel, LogLevel};
use geyser_neon::message_type::MessageType;

fn sample_config() -> GeyserPluginKafkaConfig {
    GeyserPluginKafkaConfig {
        brokers_list: String::from("broker-a:9092,broker-b:9092"),
        sasl_username: String::from("user"),
        sasl_password: String::from("SECRET-REDACTED"),
        sasl_mechanism: String::from("SCRAM-SHA-512"),
        security_protocol: String::from("SASL_SSL"),
        update_account_topic: String::from("update_account"),
        update_slot_topic: String::from("update_slot"),
        notify_transaction_topic: String::from("notify_transaction"),
        notify_block_topic: String::from("notify_block"),
        producer_send_max_retries: String::from("100"),
        producer_queue_max_messages: String::from("100000"),
        producer_message_max_bytes: String::from("104857600"),
        producer_request_timeout_ms: String::from("30000"),
        producer_retry_backoff_ms: String::from("100"),
        max_in_flight_requests_per_connection: String::from("5"),
        compression_codec: String::from("lz4"),
        compression_level: String::from("0"),
        batch_size: String::from("16384"),
        batch_num_messages: String::from("10000"),
        linger_ms: String::from("5"),
        acks: String::from("all"),
        message_timeout_ms: String::from("300000"),
        statistics_interval_ms: String::from("1000"),
        prometheus_port: String::from("9090"),
        internal_queue_capacity: String::from("30000"),
        kafka_log_level: LogLevel::Info,
        global_log_level: GlobalLogLevel::Info,
    }
}

#[test]
fn valid_config_passes_validation() {
    assert!(sample_config().validate());
}

#[test]
fn non_numeric_field_fails_validation() {
    let mut c = sample_config();
    c.message_timeout_ms = String::from("five seconds");
    assert!(!c.validate());
    let mut c = sample_config();
    c.batch_size = String::from("");
    assert!(!c.validate());
    let mut c = sample_config();
    c.linger_ms = String::from("-1");
    assert!(!c.validate());
}

#[test]
fn out_of_range_field_fails_validation() {
    let mut c = sample_config();
    // One past the largest value the broker client accepts.
    c.producer_send_max_retries = String::from("2147483648");
    assert!(!c.validate());
    let mut c = sample_config();
    c.producer_send_max_retries = String::from("2147483647");
    assert!(c.validate());
}

#[test]
fn prometheus_port_parses_in_range_only() {
    let mut c = sample_config();
    assert_eq!(c.prometheus_port(), Some(9090));
    c.prometheus_port = String::from("65535");
    assert_eq!(c.prometheus_port(), Some(65535));
    c.prometheus_port = String::from("65536");
    assert_eq!(c.prometheus_port(), None);
    assert!(!c.validate());
    c.prometheus_port = String::from("no-port");
    assert_eq!(c.prometheus_port(), None);
}

#[test]
fn queue_capacity_must_be_a_valid_integer() {
    let mut c = sample_config();
    assert_eq!(c.queue_capacity(), Some(30000));
    c.internal_queue_capacity = String::from("512");
    assert_eq!(c.queue_capacity(), Some(512));
    assert!(c.validate());
    // An unparsable capacity is a fatal startup error, not a silent default.
    c.internal_queue_capacity = String::from("not-a-number");
    assert_eq!(c.queue_capacity(), None);
    assert!(!c.validate());
    c.internal_queue_capacity = String::from("18446744073709551616");
    assert_eq!(c.queue_capacity(), None);
    assert!(!c.validate());
}

#[test]
fn exactly_one_topic_per_category() {
    let c = sample_config();
    assert_eq!(c.topic_for(MessageType::UpdateAccount), "update_account");
    assert_eq!(c.topic_for(MessageType::UpdateSlot), "update_slot");
    assert_eq!(c.topic_for(MessageType::NotifyTransaction), "notify_transaction");
    assert_eq!(c.topic_for(MessageType::NotifyBlock), "notify_block");
}

#[test]
fn producer_settings_carry_every_property_in_order() {
    let c = sample_config();
    let settings = c.producer_settings();
    let pairs: Vec<(&str, &str)> = settings
        .iter()
        .map(|(k, v)| (k.as_str(), v.as_str()))
        .collect();
    assert_eq!(
        pairs,
        vec![
            ("bootstrap.servers", "broker-a:9092,broker-b:9092"),
            ("message.timeout.ms", "300000"),
            ("security.protocol", "SASL_SSL"),
            ("sasl.mechanism", "SCRAM-SHA-512"),
            ("sasl.username", "user"),
            ("sasl.password", "SECRET-REDACTED"),
            ("message.send.max.retries", "100"),
            ("queue.buffering.max.messages", "100000"),
            ("message.max.bytes", "104857600"),
            ("request.timeout.ms", "30000"),
            ("retry.backoff.ms", "100"),
            ("max.in.flight.requests.per.connection", "5"),
            ("compression.codec", "lz4"),
            ("compression.level", "0"),
            ("batch.size", "16384"),
            ("batch.num.messages", "10000"),
            ("linger.ms", "5"),
            ("acks", "all"),
            ("statistics.interval.ms", "1000"),
        ]
    );
}
