use geyser_neon::build_info::get_build_info;
use geyser_neon::decimal::{parse_u64, u64_to_dec_string};
use geyser_neon::geyser_neon_config::{GeyserPluginKafkaConfig, GlobalLogLevel, LogLevel};
use geyser_neon::kafka_producer_stats::Stats;
use geyser_neon::kafka_structs::{
    KafkaReplicaTransactionInfo, KafkaReplicaTransactionInfoVersions, KafkaSanitizedTransaction,
    KafkaSlotStatus, KafkaTransactionStatusMeta, NotifyTransaction, UpdateSlotStatus,
};
use geyser_neon::message_type::{GetMessageType, MessageType};
use geyser_neon::prometheus::render_metrics;

#[test]
fn decimal_rendering_is_exact() {
    assert_eq!(u64_to_dec_string(0), "0");
    assert_eq!(u64_to_dec_string(7), "7");
    assert_eq!(u64_to_dec_string(10), "10");
    assert_eq!(u64_to_dec_string(30000), "30000");
    assert_eq!(u64_to_dec_string(18446744073709551615), "18446744073709551615");
}

#[test]
fn decimal_parsing_is_exact() {
    assert_eq!(parse_u64("0"), Some(0));
    assert_eq!(parse_u64("007"), Some(7));
    assert_eq!(parse_u64("30000"), Some(30000));
    assert_eq!(parse_u64("18446744073709551615"), Some(18446744073709551615));
    assert_eq!(parse_u64("18446744073709551616"), None);
    assert_eq!(parse_u64(""), None);
    assert_eq!(parse_u64("12a"), None);
    assert_eq!(parse_u64("-5"), None);
    assert_eq!(parse_u64(" 5"), None);
}

#[test]
fn categories_report_their_type_and_name() {
    let slot = UpdateSlotStatus {
        slot: 1,
        parent: None,
        status: KafkaSlotStatus::Processed,
        retrieved_time: 0,
    };
    assert!(matches!(slot.get_type(), MessageType::UpdateSlot));
    let t = NotifyTransaction {
        transaction_info: KafkaReplicaTransactionInfoVersions::V0_0_1(
            KafkaReplicaTransactionInfo {
                signature: vec![],
                is_vote: false,
                transaction: KafkaSanitizedTransaction {
                    message_hash: vec![],
                    is_simple_vote_tx: false,
                    signatures: vec![],
                },
                transaction_status_meta: KafkaTransactionStatusMeta {
                    status_err: None,
                    fee: 0,
                    pre_balances: vec![],
                    post_balances: vec![],
                    log_messages: None,
                    rewards: None,
                },
            },
        ),
        slot: 1,
    };
    assert!(matches!(t.get_type(), MessageType::NotifyTransaction));
    assert_eq!(MessageType::UpdateAccount.name(), "UpdateAccount");
    assert_eq!(MessageType::NotifyBlock.name(), "NotifyBlock");
}

#[test]
fn build_info_names_the_crate() {
    let info = get_build_info();
    assert_eq!(info, "geyser_neon 0.1.0, verified streaming pipeline build");
}

fn metrics_config() -> GeyserPluginKafkaConfig {
    GeyserPluginKafkaConfig {
        brokers_list: String::new(),
        sasl_username: String::new(),
        sasl_password: String::new(),
        sasl_mechanism: String::new(),
        security_protocol: String::new(),
        update_account_topic: String::from("acc"),
        update_slot_topic: String::from("slot"),
        notify_transaction_topic: String::from("tx"),
        notify_block_topic: String::from("blk"),
        producer_send_max_retries: String::from("1"),
        producer_queue_max_messages: String::from("1"),
        producer_message_max_bytes: String::from("1"),
        producer_request_timeout_ms: String::from("1"),
        producer_retry_backoff_ms: String::from("1"),
        max_in_flight_requests_per_connection: String::from("1"),
        compression_codec: String::new(),
        compression_level: String::from("0"),
        batch_size: String::from("1"),
        batch_num_messages: String::from("1"),
        linger_ms: String::from("1"),
        acks: String::from("1"),
        message_timeout_ms: String::from("1"),
        statistics_interval_ms: String::from("1"),
        prometheus_port: String::from("9090"),
        internal_queue_capacity: String::from("10"),
        kafka_log_level: LogLevel::Error,
        global_log_level: GlobalLogLevel::Error,
    }
}

#[test]
fn metrics_exposition_is_exact() {
    let s = Stats {
        kafka_update_account: 5,
        kafka_update_slot: 4,
        kafka_notify_transaction: 3,
        kafka_notify_block: 2,
        kafka_error_update_account: 1,
        kafka_error_update_slot: 0,
        kafka_error_notify_transaction: 7,
        kafka_error_notify_block: 8,
        kafka_error_serialize: 0,
        kafka_bytes_tx: 123456,
    };
    let text = render_metrics(&s, &metrics_config());
    let mut expected = String::new();
    expected.push_str("# HELP kafka_bytes_sent How many bytes were sent to Kafka cluster\n");
    expected.push_str("# TYPE kafka_bytes_sent counter\n");
    expected.push_str("kafka_bytes_sent_total 123456\n");
    expected.push_str("# HELP kafka_errors_serialize How many messages have not been serialized\n");
    expected.push_str("# TYPE kafka_errors_serialize counter\n");
    expected.push_str("kafka_errors_serialize_total 0\n");
    expected.push_str("# HELP kafka_messages_sent How many messages have been sent\n");
    expected.push_str("# TYPE kafka_messages_sent counter\n");
    expected.push_str("kafka_messages_sent_total{topic=\"acc\"} 5\n");
    expected.push_str("kafka_messages_sent_total{topic=\"slot\"} 4\n");
    expected.push_str("kafka_messages_sent_total{topic=\"tx\"} 3\n");
    expected.push_str("kafka_messages_sent_total{topic=\"blk\"} 2\n");
    expected.push_str("# HELP kafka_messages_unsent How many messages have not been sent\n");
    expected.push_str("# TYPE kafka_messages_unsent counter\n");
    expected.push_str("kafka_messages_unsent_total{topic=\"acc\"} 1\n");
    expected.push_str("kafka_messages_unsent_total{topic=\"slot\"} 0\n");
    expected.push_str("kafka_messages_unsent_total{topic=\"tx\"} 7\n");
    expected.push_str("kafka_messages_unsent_total{topic=\"blk\"} 8\n");
    expected.push_str("# EOF\n");
    assert_eq!(text, expected);
}
