use geyser_neon::event_codec::{deserialize_event, serialize_event};
use geyser_neon::kafka_structs::{
    KafkaEvent, KafkaReplicaAccountInfo, KafkaReplicaAccountInfoV2,
    KafkaReplicaAccountInfoVersions, KafkaReplicaBlockInfo, KafkaReplicaBlockInfoVersions,
    KafkaReplicaTransactionInfo, KafkaReplicaTransactionInfoV2,
    KafkaReplicaTransactionInfoVersions, KafkaReward, KafkaRewardType, KafkaSanitizedTransaction,
    KafkaSlotStatus, KafkaTransactionStatusMeta, NotifyBlockMetaData, NotifyTransaction,
    UpdateAccount, UpdateSlotStatus,
};

fn round_trip(e: KafkaEvent) {
    let bytes = serialize_event(&e);
    let back = deserialize_event(&bytes);
    assert_eq!(back, Some(e));
}

#[test]
fn round_trip_update_account_v1() {
    round_trip(KafkaEvent::UpdateAccount(UpdateAccount {
        account: KafkaReplicaAccountInfoVersions::V0_0_1(KafkaReplicaAccountInfo {
            pubkey: vec![1, 2, 3],
            lamports: 18446744073709551615,
            owner: vec![],
            executable: true,
            rent_epoch: 0,
            data: vec![0; 100],
            write_version: 12345678901234567,
        }),
        slot: 99,
        is_startup: true,
    }));
}

#[test]
fn round_trip_update_account_v2() {
    round_trip(KafkaEvent::UpdateAccount(UpdateAccount {
        account: KafkaReplicaAccountInfoVersions::V0_0_2(KafkaReplicaAccountInfoV2 {
            pubkey: vec![255; 32],
            lamports: 0,
            owner: vec![4; 32],
            executable: false,
            rent_epoch: 800,
            data: vec![],
            write_version: 1,
            txn_signature: Some(vec![9; 64]),
        }),
        slot: 0,
        is_startup: false,
    }));
    round_trip(KafkaEvent::UpdateAccount(UpdateAccount {
        account: KafkaReplicaAccountInfoVersions::V0_0_2(KafkaReplicaAccountInfoV2 {
            pubkey: vec![],
            lamports: 5,
            owner: vec![],
            executable: false,
            rent_epoch: 0,
            data: vec![7],
            write_version: 2,
            txn_signature: None,
        }),
        slot: 3,
        is_startup: false,
    }));
}

#[test]
fn round_trip_update_slot_status() {
    for status in [
        KafkaSlotStatus::Processed,
        KafkaSlotStatus::Rooted,
        KafkaSlotStatus::Confirmed,
    ] {
        round_trip(KafkaEvent::UpdateSlot(UpdateSlotStatus {
            slot: 123456,
            parent: Some(123455),
            status,
            retrieved_time: -1662000000123456,
        }));
        round_trip(KafkaEvent::UpdateSlot(UpdateSlotStatus {
            slot: 0,
            parent: None,
            status,
            retrieved_time: 9223372036854775807,
        }));
    }
}

#[test]
fn round_trip_notify_transaction() {
    round_trip(KafkaEvent::NotifyTransaction(NotifyTransaction {
        transaction_info: KafkaReplicaTransactionInfoVersions::V0_0_1(
            KafkaReplicaTransactionInfo {
                signature: vec![8; 64],
                is_vote: true,
                transaction: KafkaSanitizedTransaction {
                    message_hash: vec![3; 32],
                    is_simple_vote_tx: true,
                    signatures: vec![vec![8; 64], vec![9; 64], vec![]],
                },
                transaction_status_meta: KafkaTransactionStatusMeta {
                    status_err: Some(String::from("InstructionError(0, Custom(42))")),
                    fee: 5000,
                    pre_balances: vec![100, 200, 18446744073709551615],
                    post_balances: vec![95, 205, 0],
                    log_messages: Some(vec![
                        String::from("Program log: hello"),
                        String::new(),
                        String::from("\u{4e16}\u{754c}"),
                    ]),
                    rewards: Some(vec![KafkaReward {
                        pubkey: String::from("collector"),
                        lamports: 5,
                        post_balance: 12,
                        reward_type: Some(KafkaRewardType::Rent),
                        commission: None,
                    }]),
                },
            },
        ),
        slot: 42,
    }));
    round_trip(KafkaEvent::NotifyTransaction(NotifyTransaction {
        transaction_info: KafkaReplicaTransactionInfoVersions::V0_0_2(
            KafkaReplicaTransactionInfoV2 {
                signature: vec![],
                is_vote: false,
                transaction: KafkaSanitizedTransaction {
                    message_hash: vec![],
                    is_simple_vote_tx: false,
                    signatures: vec![],
                },
                transaction_status_meta: KafkaTransactionStatusMeta {
                    status_err: None,
                    fee: 0,
                    pre_balances: vec![],
                    post_balances: vec![],
                    log_messages: None,
                    rewards: None,
                },
                index: 18446744073709551615,
            },
        ),
        slot: 1,
    }));
}

#[test]
fn round_trip_notify_block() {
    round_trip(KafkaEvent::NotifyBlock(NotifyBlockMetaData {
        block_info: KafkaReplicaBlockInfoVersions::V0_0_1(KafkaReplicaBlockInfo {
            slot: 7777,
            blockhash: String::from("9fQhZ snowflake \u{00e9}\u{4e16}\u{754c}"),
            rewards: vec![
                KafkaReward {
                    pubkey: String::from("validator-one"),
                    lamports: -50,
                    post_balance: 12345,
                    reward_type: Some(KafkaRewardType::Staking),
                    commission: Some(10),
                },
                KafkaReward {
                    pubkey: String::new(),
                    lamports: 9223372036854775807,
                    post_balance: 0,
                    reward_type: None,
                    commission: None,
                },
                KafkaReward {
                    pubkey: String::from("fee-collector"),
                    lamports: i64::MIN,
                    post_balance: 1,
                    reward_type: Some(KafkaRewardType::Fee),
                    commission: Some(0),
                },
            ],
            block_time: Some(1662000000),
            block_height: Some(140000000),
        }),
    }));
    round_trip(KafkaEvent::NotifyBlock(NotifyBlockMetaData {
        block_info: KafkaReplicaBlockInfoVersions::V0_0_1(KafkaReplicaBlockInfo {
            slot: 0,
            blockhash: String::new(),
            rewards: vec![],
            block_time: None,
            block_height: None,
        }),
    }));
}

#[test]
fn deserialize_rejects_trailing_bytes() {
    let e = KafkaEvent::UpdateSlot(UpdateSlotStatus {
        slot: 5,
        parent: None,
        status: KafkaSlotStatus::Processed,
        retrieved_time: 0,
    });
    let mut bytes = serialize_event(&e);
    bytes.push(0);
    assert_eq!(deserialize_event(&bytes), None);
}

#[test]
fn deserialize_rejects_truncation_and_bad_tags() {
    let e = KafkaEvent::UpdateSlot(UpdateSlotStatus {
        slot: 5,
        parent: Some(4),
        status: KafkaSlotStatus::Confirmed,
        retrieved_time: 11,
    });
    let bytes = serialize_event(&e);
    for n in 0..bytes.len() {
        let truncated = bytes[..n].to_vec();
        assert_eq!(deserialize_event(&truncated), None);
    }
    let mut bad_category = bytes.clone();
    bad_category[0] = 200;
    assert_eq!(deserialize_event(&bad_category), None);
    // A boolean encoded as anything but 0 or 1 is rejected: the encoding is
    // canonical.
    let a = KafkaEvent::UpdateAccount(UpdateAccount {
        account: KafkaReplicaAccountInfoVersions::V0_0_1(KafkaReplicaAccountInfo {
            pubkey: vec![],
            lamports: 0,
            owner: vec![],
            executable: false,
            rent_epoch: 0,
            data: vec![],
            write_version: 0,
        }),
        slot: 0,
        is_startup: false,
    });
    let mut abytes = serialize_event(&a);
    let last = abytes.len() - 1;
    abytes[last] = 2; // the trailing is_startup flag
    assert_eq!(deserialize_event(&abytes), None);
}

#[test]
fn transaction_encoding_rejects_every_truncation() {
    let e = KafkaEvent::NotifyTransaction(NotifyTransaction {
        transaction_info: KafkaReplicaTransactionInfoVersions::V0_0_1(
            KafkaReplicaTransactionInfo {
                signature: vec![8; 64],
                is_vote: false,
                transaction: KafkaSanitizedTransaction {
                    message_hash: vec![3; 32],
                    is_simple_vote_tx: false,
                    signatures: vec![vec![8; 64]],
                },
                transaction_status_meta: KafkaTransactionStatusMeta {
                    status_err: Some(String::from("err")),
                    fee: 1,
                    pre_balances: vec![2, 3],
                    post_balances: vec![4],
                    log_messages: Some(vec![String::from("log line")]),
                    rewards: Some(vec![KafkaReward {
                        pubkey: String::from("p"),
                        lamports: -1,
                        post_balance: 0,
                        reward_type: None,
                        commission: Some(1),
                    }]),
                },
            },
        ),
        slot: 11,
    });
    let bytes = serialize_event(&e);
    assert_eq!(deserialize_event(&bytes), Some(e));
    for n in 0..bytes.len() {
        let truncated = bytes[..n].to_vec();
        assert_eq!(deserialize_event(&truncated), None);
    }
}

#[test]
fn deserialize_rejects_invalid_utf8_text() {
    let e = KafkaEvent::NotifyBlock(NotifyBlockMetaData {
        block_info: KafkaReplicaBlockInfoVersions::V0_0_1(KafkaReplicaBlockInfo {
            slot: 1,
            blockhash: String::from("ok"),
            rewards: vec![],
            block_time: None,
            block_height: None,
        }),
    });
    let mut bytes = serialize_event(&e);
    // The blockhash bytes "ok" sit right after the block tag, version tag,
    // slot, and text length; overwrite them with an invalid UTF-8 sequence.
    let pos = bytes
        .windows(2)
        .position(|w| w == b"ok")
        .expect("the blockhash bytes appear in the serialization");
    bytes[pos] = 0xC0;
    bytes[pos + 1] = 0x20;
    assert_eq!(deserialize_event(&bytes), None);
}
