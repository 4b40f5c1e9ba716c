use geyser_neon::channel::EnqueueResult;
use geyser_neon::kafka_structs::{
    KafkaReplicaAccountInfo, KafkaReplicaAccountInfoVersions, KafkaReplicaBlockInfo,
    KafkaReplicaBlockInfoVersions, KafkaReplicaTransactionInfo,
    KafkaReplicaTransactionInfoVersions, KafkaSanitizedTransaction, KafkaSlotStatus,
    KafkaTransactionStatusMeta, NotifyBlockMetaData, NotifyTransaction, UpdateAccount,
    UpdateSlotStatus,
};
use geyser_neon::message_type::MessageType;
use geyser_neon::pipeline::PipelineManager;
use geyser_neon::worker::WorkerPhase;

fn account_event(write_version: u64, slot: u64) -> UpdateAccount {
    UpdateAccount {
        account: KafkaReplicaAccountInfoVersions::V0_0_1(KafkaReplicaAccountInfo {
            pubkey: vec![7; 32],
            lamports: 1,
            owner: vec![2; 32],
            executable: false,
            rent_epoch: 3,
            data: vec![1, 2, 3],
            write_version,
        }),
        slot,
        is_startup: false,
    }
}

fn slot_event(slot: u64) -> UpdateSlotStatus {
    UpdateSlotStatus {
        slot,
        parent: slot.checked_sub(1),
        status: KafkaSlotStatus::Processed,
        retrieved_time: 1662000000,
    }
}

fn transaction_event(slot: u64) -> NotifyTransaction {
    NotifyTransaction {
        transaction_info: KafkaReplicaTransactionInfoVersions::V0_0_1(
            KafkaReplicaTransactionInfo {
                signature: vec![5; 64],
                is_vote: false,
                transaction: KafkaSanitizedTransaction {
                    message_hash: vec![2; 32],
                    is_simple_vote_tx: false,
                    signatures: vec![vec![5; 64]],
                },
                transaction_status_meta: KafkaTransactionStatusMeta {
                    status_err: None,
                    fee: 5000,
                    pre_balances: vec![10],
                    post_balances: vec![5],
                    log_messages: None,
                    rewards: None,
                },
            },
        ),
        slot,
    }
}

fn block_event(slot: u64) -> NotifyBlockMetaData {
    NotifyBlockMetaData {
        block_info: KafkaReplicaBlockInfoVersions::V0_0_1(KafkaReplicaBlockInfo {
            slot,
            blockhash: format!("hash-{slot}"),
            rewards: vec![],
            block_time: Some(1662000000),
            block_height: Some(slot),
        }),
    }
}

#[test]
fn successful_account_send_increments_sent_only() {
    // Scenario: enqueue an account update with write_version 5, slot 100;
    // the derived key is stable across two identical events, and a
    // successful simulated send bumps the sent counter by one while
    // send_failed stays put.
    let mut p = PipelineManager::new(100);
    let e1 = account_event(5, 100);
    let e2 = account_event(5, 100);
    let expected_key = e1.get_hash();
    assert!(matches!(p.enqueue_update_account(e1), EnqueueResult::Accepted));
    assert!(matches!(p.enqueue_update_account(e2), EnqueueResult::Accepted));

    let env1 = p.poll_update_account().expect("a queued event must dispatch");
    let env2 = p.poll_update_account().expect("a queued event must dispatch");
    assert_eq!(env1.category, MessageType::UpdateAccount);
    assert_eq!(env1.key, expected_key);
    assert_eq!(env2.key, expected_key);
    assert_eq!(env1.payload, env2.payload);

    let before = p.stats_snapshot();
    assert_eq!(before.kafka_update_account, 0);

    let len1 = env1.payload.len() as u64;
    p.resolve_update_account_send(true, len1);
    let after = p.stats_snapshot();
    assert_eq!(after.kafka_update_account, 1);
    assert_eq!(after.kafka_error_update_account, 0);
    assert_eq!(after.kafka_bytes_tx, len1);

    let len2 = env2.payload.len() as u64;
    p.resolve_update_account_send(true, len2);
    let last = p.stats_snapshot();
    assert_eq!(last.kafka_update_account, 2);
    assert_eq!(last.kafka_bytes_tx, len1 + len2);
}

#[test]
fn failed_transaction_send_counts_failure_and_never_retries() {
    // Scenario: a broker send fails for a transaction notification; the
    // failure counter increments, the success counter does not, and the
    // worker does not re-enqueue or re-dispatch the event.
    let mut p = PipelineManager::new(8);
    assert!(matches!(
        p.enqueue_notify_transaction(transaction_event(7)),
        EnqueueResult::Accepted
    ));
    let env = p.poll_notify_transaction().expect("a queued event must dispatch");
    assert_eq!(env.category, MessageType::NotifyTransaction);

    p.resolve_notify_transaction_send(false, env.payload.len() as u64);
    let s = p.stats_snapshot();
    assert_eq!(s.kafka_error_notify_transaction, 1);
    assert_eq!(s.kafka_notify_transaction, 0);
    assert_eq!(s.kafka_bytes_tx, 0);
    // Nothing was put back: the queue is empty and nothing is in flight.
    assert_eq!(p.queued_notify_transaction(), 0);
    assert_eq!(p.transaction_worker().in_flight(), 0);
    assert!(p.poll_notify_transaction().is_none());
}

#[test]
fn no_head_of_line_blocking_across_sends() {
    // One send is left unresolved (hanging); later events of the same
    // category are still dequeued and dispatched.
    let mut p = PipelineManager::new(8);
    for i in 0..3 {
        assert!(matches!(
            p.enqueue_update_account(account_event(i, 100)),
            EnqueueResult::Accepted
        ));
    }
    let _hanging = p.poll_update_account().expect("dispatch");
    // The first send never resolves, yet the next two dispatch fine.
    let second = p.poll_update_account().expect("dispatch despite a hanging send");
    let third = p.poll_update_account().expect("dispatch despite a hanging send");
    assert_eq!(p.account_worker().in_flight(), 3);
    assert_ne!(second.key, third.key);
}

#[test]
fn shutdown_drains_queued_events_then_terminates() {
    // Scenario: shutdown arrives while 3 events per category are queued.
    // Draining processes all of them; once their sends resolve, every
    // worker terminates.
    let mut p = PipelineManager::new(100);
    for i in 0..3 {
        assert!(matches!(
            p.enqueue_update_account(account_event(i, i)),
            EnqueueResult::Accepted
        ));
        assert!(matches!(
            p.enqueue_update_slot_status(slot_event(i + 1)),
            EnqueueResult::Accepted
        ));
        assert!(matches!(
            p.enqueue_notify_transaction(transaction_event(i)),
            EnqueueResult::Accepted
        ));
        assert!(matches!(p.enqueue_notify_block(block_event(i)), EnqueueResult::Accepted));
    }

    p.begin_shutdown();
    assert!(p.is_stopped());
    // New events are refused once shutdown begins.
    assert!(matches!(
        p.enqueue_update_account(account_event(9, 9)),
        EnqueueResult::Closed(_)
    ));

    // Drain each category: exactly the three queued envelopes come out.
    let drained = p.drain_update_account();
    assert_eq!(drained.len(), 3);
    for env in &drained {
        assert_eq!(env.category, MessageType::UpdateAccount);
        p.resolve_update_account_send(true, env.payload.len() as u64);
    }
    assert!(p.poll_update_account().is_none());
    assert_eq!(p.queued_update_account(), 0);
    p.finish_update_account();
    assert_eq!(p.account_worker().phase(), WorkerPhase::Terminated);

    let drained = p.drain_update_slot_status();
    assert_eq!(drained.len(), 3);
    // Drained envelopes keep arrival order: the slots were 1, 2, 3.
    assert_eq!(drained[0].key, "1Processed");
    assert_eq!(drained[1].key, "2Processed");
    assert_eq!(drained[2].key, "3Processed");
    for env in &drained {
        p.resolve_update_slot_status_send(true, env.payload.len() as u64);
    }
    assert!(p.poll_update_slot_status().is_none());
    p.finish_update_slot_status();
    assert_eq!(p.slot_status_worker().phase(), WorkerPhase::Terminated);

    for _ in 0..3 {
        let env = p.poll_notify_transaction().expect("draining must process queued events");
        p.resolve_notify_transaction_send(true, env.payload.len() as u64);
    }
    assert!(p.poll_notify_transaction().is_none());
    p.finish_notify_transaction();
    assert_eq!(p.transaction_worker().phase(), WorkerPhase::Terminated);

    for _ in 0..3 {
        let env = p.poll_notify_block().expect("draining must process queued events");
        p.resolve_notify_block_send(true, env.payload.len() as u64);
    }
    assert!(p.poll_notify_block().is_none());
    p.finish_notify_block();
    assert_eq!(p.block_worker().phase(), WorkerPhase::Terminated);

    let s = p.stats_snapshot();
    assert_eq!(s.kafka_update_account, 3);
    assert_eq!(s.kafka_update_slot, 3);
    assert_eq!(s.kafka_notify_transaction, 3);
    assert_eq!(s.kafka_notify_block, 3);
}

#[test]
fn counters_only_grow_across_operations() {
    let mut p = PipelineManager::new(8);
    let mut snapshots = Vec::new();
    snapshots.push(p.stats_snapshot());
    assert!(matches!(
        p.enqueue_update_account(account_event(1, 1)),
        EnqueueResult::Accepted
    ));
    snapshots.push(p.stats_snapshot());
    let env = p.poll_update_account().unwrap();
    snapshots.push(p.stats_snapshot());
    p.resolve_update_account_send(false, env.payload.len() as u64);
    snapshots.push(p.stats_snapshot());
    assert!(matches!(
        p.enqueue_notify_block(block_event(2)),
        EnqueueResult::Accepted
    ));
    let env = p.poll_notify_block().unwrap();
    p.resolve_notify_block_send(true, env.payload.len() as u64);
    snapshots.push(p.stats_snapshot());
    for w in snapshots.windows(2) {
        let (a, b) = (&w[0], &w[1]);
        assert!(a.kafka_update_account <= b.kafka_update_account);
        assert!(a.kafka_update_slot <= b.kafka_update_slot);
        assert!(a.kafka_notify_transaction <= b.kafka_notify_transaction);
        assert!(a.kafka_notify_block <= b.kafka_notify_block);
        assert!(a.kafka_error_update_account <= b.kafka_error_update_account);
        assert!(a.kafka_error_update_slot <= b.kafka_error_update_slot);
        assert!(a.kafka_error_notify_transaction <= b.kafka_error_notify_transaction);
        assert!(a.kafka_error_notify_block <= b.kafka_error_notify_block);
        assert!(a.kafka_error_serialize <= b.kafka_error_serialize);
        assert!(a.kafka_bytes_tx <= b.kafka_bytes_tx);
    }
}
