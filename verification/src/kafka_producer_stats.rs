//! The process-wide delivery statistics: per-category counters of messages
//! sent and unsent, the serialization-failure counter, and the total bytes
//! transmitted. Counters only ever grow; nothing is deleted.

use vstd::prelude::*;

use crate::worker::{lemma_worker_counters_monotonic, spec_worker_step, WorkerOp, WorkerView};

verus! {

/// A snapshot of every delivery counter, as exposed to the metrics
/// endpoint.
#[derive(Debug, Clone, PartialEq, Eq, Structural)]
pub struct Stats {
    pub kafka_update_account: u64,
    pub kafka_update_slot: u64,
    pub kafka_notify_transaction: u64,
    pub kafka_notify_block: u64,
    pub kafka_error_update_account: u64,
    pub kafka_error_update_slot: u64,
    pub kafka_error_notify_transaction: u64,
    pub kafka_error_notify_block: u64,
    pub kafka_error_serialize: u64,
    pub kafka_bytes_tx: u64,
}

#[verifier::ext_equal]
pub struct StatsView {
    pub kafka_update_account: nat,
    pub kafka_update_slot: nat,
    pub kafka_notify_transaction: nat,
    pub kafka_notify_block: nat,
    pub kafka_error_update_account: nat,
    pub kafka_error_update_slot: nat,
    pub kafka_error_notify_transaction: nat,
    pub kafka_error_notify_block: nat,
    pub kafka_error_serialize: nat,
    pub kafka_bytes_tx: nat,
}

impl View for Stats {
    type V = StatsView;

    open spec fn view(&self) -> StatsView {
        StatsView {
            kafka_update_account: self.kafka_update_account as nat,
            kafka_update_slot: self.kafka_update_slot as nat,
            kafka_notify_transaction: self.kafka_notify_transaction as nat,
            kafka_notify_block: self.kafka_notify_block as nat,
            kafka_error_update_account: self.kafka_error_update_account as nat,
            kafka_error_update_slot: self.kafka_error_update_slot as nat,
            kafka_error_notify_transaction: self.kafka_error_notify_transaction as nat,
            kafka_error_notify_block: self.kafka_error_notify_block as nat,
            kafka_error_serialize: self.kafka_error_serialize as nat,
            kafka_bytes_tx: self.kafka_bytes_tx as nat,
        }
    }
}

/// Pointwise order on snapshots: every counter of `a` is at most the
/// corresponding counter of `b`.
pub open spec fn stats_le(a: StatsView, b: StatsView) -> bool {
    &&& a.kafka_update_account <= b.kafka_update_account
    &&& a.kafka_update_slot <= b.kafka_update_slot
    &&& a.kafka_notify_transaction <= b.kafka_notify_transaction
    &&& a.kafka_notify_block <= b.kafka_notify_block
    &&& a.kafka_error_update_account <= b.kafka_error_update_account
    &&& a.kafka_error_update_slot <= b.kafka_error_update_slot
    &&& a.kafka_error_notify_transaction <= b.kafka_error_notify_transaction
    &&& a.kafka_error_notify_block <= b.kafka_error_notify_block
    &&& a.kafka_error_serialize <= b.kafka_error_serialize
    &&& a.kafka_bytes_tx <= b.kafka_bytes_tx
}

/// Addition capped at the largest representable counter value, used when
/// totalling the per-worker byte counts.
pub open spec fn sat_add_u64(a: nat, b: nat) -> nat {
    if a + b > u64::MAX {
        u64::MAX as nat
    } else {
        a + b
    }
}

/// The registry snapshot assembled from the four per-category workers.
/// Serialization failures cannot occur — the codec is total, which is
/// proved — so that counter reads zero.
pub open spec fn spec_snapshot(
    account: WorkerView,
    slot: WorkerView,
    transaction: WorkerView,
    block: WorkerView,
) -> StatsView {
    StatsView {
        kafka_update_account: account.sent,
        kafka_update_slot: slot.sent,
        kafka_notify_transaction: transaction.sent,
        kafka_notify_block: block.sent,
        kafka_error_update_account: account.send_failed,
        kafka_error_update_slot: slot.send_failed,
        kafka_error_notify_transaction: transaction.send_failed,
        kafka_error_notify_block: block.send_failed,
        kafka_error_serialize: 0,
        kafka_bytes_tx: sat_add_u64(
            sat_add_u64(sat_add_u64(account.bytes_tx, slot.bytes_tx), transaction.bytes_tx),
            block.bytes_tx,
        ),
    }
}

/// Counters are non-decreasing over time: however worker steps interleave,
/// a registry snapshot taken later is pointwise at least a snapshot taken
/// earlier.
pub proof fn lemma_stats_monotonic(
    account: WorkerView,
    slot: WorkerView,
    transaction: WorkerView,
    block: WorkerView,
    account_op: WorkerOp,
    slot_op: WorkerOp,
    transaction_op: WorkerOp,
    block_op: WorkerOp,
)
    ensures
        stats_le(
            spec_snapshot(account, slot, transaction, block),
            spec_snapshot(
                spec_worker_step(account, account_op).0,
                spec_worker_step(slot, slot_op).0,
                spec_worker_step(transaction, transaction_op).0,
                spec_worker_step(block, block_op).0,
            ),
        ),
{
    lemma_worker_counters_monotonic(account, account_op);
    lemma_worker_counters_monotonic(slot, slot_op);
    lemma_worker_counters_monotonic(transaction, transaction_op);
    lemma_worker_counters_monotonic(block, block_op);
}

} // verus!
