use geyser_neon::kafka_structs::{
    KafkaReplicaAccountInfo, KafkaReplicaAccountInfoV2, KafkaReplicaAccountInfoVersions,
    KafkaReplicaBlockInfo, KafkaReplicaBlockInfoVersions, KafkaReplicaTransactionInfo,
    KafkaReplicaTransactionInfoVersions, KafkaSanitizedTransaction, KafkaSlotStatus,
    KafkaTransactionStatusMeta, NotifyBlockMetaData, NotifyTransaction, UpdateAccount,
    UpdateSlotStatus,
};

fn sample_transaction(signature: Vec<u8>) -> KafkaSanitizedTransaction {
    KafkaSanitizedTransaction {
        message_hash: vec![1; 32],
        is_simple_vote_tx: false,
        signatures: vec![signature],
    }
}

fn sample_meta() -> KafkaTransactionStatusMeta {
    KafkaTransactionStatusMeta {
        status_err: None,
        fee: 5000,
        pre_balances: vec![10, 20],
        post_balances: vec![9, 21],
        log_messages: None,
        rewards: None,
    }
}

fn sample_account(pubkey: Vec<u8>, write_version: u64, slot: u64) -> UpdateAccount {
    UpdateAccount {
        account: KafkaReplicaAccountInfoVersions::V0_0_1(KafkaReplicaAccountInfo {
            pubkey,
            lamports: 17,
            owner: vec![9, 9, 9],
            executable: false,
            rent_epoch: 4,
            data: vec![1, 2, 3, 4],
            write_version,
        }),
        slot,
        is_startup: false,
    }
}

#[test]
fn account_key_is_deterministic() {
    let a = sample_account(vec![7; 32], 5, 100);
    let b = sample_account(vec![7; 32], 5, 100);
    assert_eq!(a.get_hash(), b.get_hash());
}

#[test]
fn account_key_matches_content_hash() {
    let pubkey = vec![11u8; 32];
    let a = sample_account(pubkey.clone(), 5, 100);
    let mut input = pubkey;
    input.extend_from_slice(&5u64.to_le_bytes());
    input.extend_from_slice(&100u64.to_le_bytes());
    let expected = blake3::hash(&input).to_string();
    assert_eq!(a.get_hash(), expected);
}

#[test]
fn account_key_depends_on_write_version_and_slot() {
    let a = sample_account(vec![7; 32], 5, 100);
    let b = sample_account(vec![7; 32], 6, 100);
    let c = sample_account(vec![7; 32], 5, 101);
    assert_ne!(a.get_hash(), b.get_hash());
    assert_ne!(a.get_hash(), c.get_hash());
    assert_eq!(a.get_hash().len(), 64);
}

#[test]
fn account_key_same_for_v2_with_same_hashed_fields() {
    let v1 = sample_account(vec![3; 32], 9, 42);
    let v2 = UpdateAccount {
        account: KafkaReplicaAccountInfoVersions::V0_0_2(KafkaReplicaAccountInfoV2 {
            pubkey: vec![3; 32],
            lamports: 999,
            owner: vec![],
            executable: true,
            rent_epoch: 0,
            data: vec![5],
            write_version: 9,
            txn_signature: Some(vec![1; 64]),
        }),
        slot: 42,
        is_startup: true,
    };
    // The key hashes pubkey, write_version and slot only, so the two agree.
    assert_eq!(v1.get_hash(), v2.get_hash());
}

#[test]
fn slot_status_key_is_slot_then_status_name() {
    let u = UpdateSlotStatus {
        slot: 100,
        parent: Some(99),
        status: KafkaSlotStatus::Rooted,
        retrieved_time: 0,
    };
    assert_eq!(u.get_hash(), "100Rooted");
    let v = UpdateSlotStatus {
        slot: 0,
        parent: None,
        status: KafkaSlotStatus::Processed,
        retrieved_time: 5,
    };
    assert_eq!(v.get_hash(), "0Processed");
    let w = UpdateSlotStatus {
        slot: 18446744073709551615,
        parent: None,
        status: KafkaSlotStatus::Confirmed,
        retrieved_time: -1,
    };
    assert_eq!(w.get_hash(), "18446744073709551615Confirmed");
}

#[test]
fn transaction_key_matches_content_hash() {
    let signature = vec![42u8; 64];
    let t = NotifyTransaction {
        transaction_info: KafkaReplicaTransactionInfoVersions::V0_0_1(
            KafkaReplicaTransactionInfo {
                signature: signature.clone(),
                is_vote: false,
                transaction: sample_transaction(signature.clone()),
                transaction_status_meta: sample_meta(),
            },
        ),
        slot: 7,
    };
    let mut input = signature;
    input.extend_from_slice(&7u64.to_le_bytes());
    let expected = blake3::hash(&input).to_string();
    assert_eq!(t.get_hash(), expected);
    assert_eq!(t.get_hash(), t.get_hash());
}

#[test]
fn transaction_key_ignores_metadata() {
    // The key hashes signature and slot only: two notifications differing
    // everywhere else share a key.
    let signature = vec![6u8; 64];
    let a = NotifyTransaction {
        transaction_info: KafkaReplicaTransactionInfoVersions::V0_0_1(
            KafkaReplicaTransactionInfo {
                signature: signature.clone(),
                is_vote: false,
                transaction: sample_transaction(signature.clone()),
                transaction_status_meta: sample_meta(),
            },
        ),
        slot: 9,
    };
    let b = NotifyTransaction {
        transaction_info: KafkaReplicaTransactionInfoVersions::V0_0_1(
            KafkaReplicaTransactionInfo {
                signature: signature.clone(),
                is_vote: true,
                transaction: KafkaSanitizedTransaction {
                    message_hash: vec![9; 32],
                    is_simple_vote_tx: true,
                    signatures: vec![],
                },
                transaction_status_meta: KafkaTransactionStatusMeta {
                    status_err: Some(String::from("AccountNotFound")),
                    fee: 1,
                    pre_balances: vec![],
                    post_balances: vec![],
                    log_messages: Some(vec![String::from("log")]),
                    rewards: Some(vec![]),
                },
            },
        ),
        slot: 9,
    };
    assert_eq!(a.get_hash(), b.get_hash());
}

#[test]
fn block_key_is_blockhash_verbatim() {
    let b = NotifyBlockMetaData {
        block_info: KafkaReplicaBlockInfoVersions::V0_0_1(KafkaReplicaBlockInfo {
            slot: 1,
            blockhash: String::from("abc123"),
            rewards: vec![],
            block_time: None,
            block_height: None,
        }),
    };
    assert_eq!(b.get_hash(), "abc123");
}
