//! The event data model: the four categories of state-change notifications
//! that the pipeline relays, with a versioned payload each, together with
//! their specification-level views.
//!
//! Payload fields are held as plain values (byte vectors for public keys and
//! signatures, integers for slots and timestamps) so that every rule about
//! them can be verified; the upstream representation is converted into these
//! types at the boundary where notifications enter.

use vstd::prelude::*;

verus! {

// ---------------------------------------------------------------------------
// Account updates
// ---------------------------------------------------------------------------
/// Information about an account being updated.
#[derive(Debug, Clone, PartialEq, Eq)]
pub struct KafkaReplicaAccountInfo {
    /// The Pubkey for the account.
    pub pubkey: Vec<u8>,
    /// The lamports for the account.
    pub lamports: u64,
    /// The Pubkey of the owner program account.
    pub owner: Vec<u8>,
    /// This account's data contains a loaded program (and is now read-only).
    pub executable: bool,
    /// The epoch at which this account will next owe rent.
    pub rent_epoch: u64,
    /// The data held in this account.
    pub data: Vec<u8>,
    /// A monotonically increasing number distinguishing successive updates to
    /// the same account within a slot; higher supersedes lower.
    pub write_version: u64,
}

/// Information about an account being updated, extended with the signature of
/// the transaction that caused the update.
#[derive(Debug, Clone, PartialEq, Eq)]
pub struct KafkaReplicaAccountInfoV2 {
    pub pubkey: Vec<u8>,
    pub lamports: u64,
    pub owner: Vec<u8>,
    pub executable: bool,
    pub rent_epoch: u64,
    pub data: Vec<u8>,
    pub write_version: u64,
    /// First signature of the transaction causing this account modification.
    pub txn_signature: Option<Vec<u8>>,
}

/// The versioned account payload: every upstream version maps to exactly one
/// of these variants.
#[derive(Debug, Clone, PartialEq, Eq)]
pub enum KafkaReplicaAccountInfoVersions {
    V0_0_1(KafkaReplicaAccountInfo),
    V0_0_2(KafkaReplicaAccountInfoV2),
}

/// An account-update event: a versioned payload, the slot it belongs to, and
/// whether it was produced during startup restore.
#[derive(Debug, Clone, PartialEq, Eq)]
pub struct UpdateAccount {
    pub account: KafkaReplicaAccountInfoVersions,
    pub slot: u64,
    pub is_startup: bool,
}

#[verifier::ext_equal]
pub struct KafkaReplicaAccountInfoView {
    pub pubkey: Seq<u8>,
    pub lamports: u64,
    pub owner: Seq<u8>,
    pub executable: bool,
    pub rent_epoch: u64,
    pub data: Seq<u8>,
    pub write_version: u64,
}

#[verifier::ext_equal]
pub struct KafkaReplicaAccountInfoV2View {
    pub pubkey: Seq<u8>,
    pub lamports: u64,
    pub owner: Seq<u8>,
    pub executable: bool,
    pub rent_epoch: u64,
    pub data: Seq<u8>,
    pub write_version: u64,
    pub txn_signature: Option<Seq<u8>>,
}

#[verifier::ext_equal]
pub enum KafkaReplicaAccountInfoVersionsView {
    V0_0_1(KafkaReplicaAccountInfoView),
    V0_0_2(KafkaReplicaAccountInfoV2View),
}

#[verifier::ext_equal]
pub struct UpdateAccountView {
    pub account: KafkaReplicaAccountInfoVersionsView,
    pub slot: u64,
    pub is_startup: bool,
}

impl View for KafkaReplicaAccountInfo {
    type V = KafkaReplicaAccountInfoView;

    open spec fn view(&self) -> KafkaReplicaAccountInfoView {
        KafkaReplicaAccountInfoView {
            pubkey: self.pubkey@,
            lamports: self.lamports,
            owner: self.owner@,
            executable: self.executable,
            rent_epoch: self.rent_epoch,
            data: self.data@,
            write_version: self.write_version,
        }
    }
}

impl View for KafkaReplicaAccountInfoV2 {
    type V = KafkaReplicaAccountInfoV2View;

    open spec fn view(&self) -> KafkaReplicaAccountInfoV2View {
        KafkaReplicaAccountInfoV2View {
            pubkey: self.pubkey@,
            lamports: self.lamports,
            owner: self.owner@,
            executable: self.executable,
            rent_epoch: self.rent_epoch,
            data: self.data@,
            write_version: self.write_version,
            txn_signature: match self.txn_signature {
                Some(ref s) => Some(s@),
                None => None,
            },
        }
    }
}

impl View for KafkaReplicaAccountInfoVersions {
    type V = KafkaReplicaAccountInfoVersionsView;

    open spec fn view(&self) -> KafkaReplicaAccountInfoVersionsView {
        match self {
            KafkaReplicaAccountInfoVersions::V0_0_1(a) => KafkaReplicaAccountInfoVersionsView::V0_0_1(a@),
            KafkaReplicaAccountInfoVersions::V0_0_2(a) => KafkaReplicaAccountInfoVersionsView::V0_0_2(a@),
        }
    }
}

impl View for UpdateAccount {
    type V = UpdateAccountView;

    open spec fn view(&self) -> UpdateAccountView {
        UpdateAccountView { account: self.account@, slot: self.slot, is_startup: self.is_startup }
    }
}

// ---------------------------------------------------------------------------
// Slot status updates
// ---------------------------------------------------------------------------
/// The current status of a slot.
#[derive(Debug, Clone, Copy, PartialEq, Eq, Structural)]
pub enum KafkaSlotStatus {
    /// The highest slot of the heaviest fork processed by the node.
    Processed,
    /// The highest slot having reached max vote lockout.
    Rooted,
    /// The highest slot voted on by a supermajority of the cluster.
    Confirmed,
}

impl KafkaSlotStatus {
    /// The status's display name, used in the derived message key.
    pub open spec fn spec_name(self) -> Seq<char> {
        match self {
            KafkaSlotStatus::Processed => "Processed"@,
            KafkaSlotStatus::Rooted => "Rooted"@,
            KafkaSlotStatus::Confirmed => "Confirmed"@,
        }
    }

    pub fn name(&self) -> (r: &'static str)
        ensures
            r@ == self.spec_name(),
    {
        match self {
            KafkaSlotStatus::Processed => "Processed",
            KafkaSlotStatus::Rooted => "Rooted",
            KafkaSlotStatus::Confirmed => "Confirmed",
        }
    }
}

/// A slot-status transition: the slot, its optional parent, the status
/// reached, and the time the notification was observed (microseconds since
/// the Unix epoch).
#[derive(Debug, Clone, PartialEq, Eq)]
pub struct UpdateSlotStatus {
    pub slot: u64,
    pub parent: Option<u64>,
    pub status: KafkaSlotStatus,
    pub retrieved_time: i64,
}

#[verifier::ext_equal]
pub struct UpdateSlotStatusView {
    pub slot: u64,
    pub parent: Option<u64>,
    pub status: KafkaSlotStatus,
    pub retrieved_time: i64,
}

impl View for UpdateSlotStatus {
    type V = UpdateSlotStatusView;

    open spec fn view(&self) -> UpdateSlotStatusView {
        UpdateSlotStatusView {
            slot: self.slot,
            parent: self.parent,
            status: self.status,
            retrieved_time: self.retrieved_time,
        }
    }
}

// ---------------------------------------------------------------------------
// Transaction notifications
// ---------------------------------------------------------------------------
/// The sanitized transaction itself, reduced to plain values: the hash of
/// its message, the vote flag, and its signatures.
#[derive(Debug, Clone, PartialEq, Eq)]
pub struct KafkaSanitizedTransaction {
    /// The hash of the transaction's message.
    pub message_hash: Vec<u8>,
    pub is_simple_vote_tx: bool,
    /// All signatures of the transaction, first one identifying it.
    pub signatures: Vec<Vec<u8>>,
}

/// Metadata of the transaction's execution, as plain values. Token balances
/// and inner instructions of the upstream metadata carry floating-point and
/// deeply nested upstream types and are not carried here.
#[derive(Debug, Clone, PartialEq, Eq)]
pub struct KafkaTransactionStatusMeta {
    /// `None` when the transaction succeeded; otherwise the text form of the
    /// execution error.
    pub status_err: Option<String>,
    pub fee: u64,
    pub pre_balances: Vec<u64>,
    pub post_balances: Vec<u64>,
    pub log_messages: Option<Vec<String>>,
    pub rewards: Option<Vec<KafkaReward>>,
}

/// Information about a confirmed transaction: the identifying signature,
/// whether it is a simple vote transaction, the sanitized transaction and
/// its execution metadata.
#[derive(Debug, Clone, PartialEq, Eq)]
pub struct KafkaReplicaTransactionInfo {
    /// The first signature of the transaction, used for identifying it.
    pub signature: Vec<u8>,
    /// Indicates if the transaction is a simple vote transaction.
    pub is_vote: bool,
    /// The sanitized transaction.
    pub transaction: KafkaSanitizedTransaction,
    /// Metadata of the transaction status.
    pub transaction_status_meta: KafkaTransactionStatusMeta,
}

/// Transaction information extended with the transaction's index in its block.
#[derive(Debug, Clone, PartialEq, Eq)]
pub struct KafkaReplicaTransactionInfoV2 {
    pub signature: Vec<u8>,
    pub is_vote: bool,
    pub transaction: KafkaSanitizedTransaction,
    pub transaction_status_meta: KafkaTransactionStatusMeta,
    /// The transaction's index in the block.
    pub index: u64,
}

/// The versioned transaction payload.
#[derive(Debug, Clone, PartialEq, Eq)]
pub enum KafkaReplicaTransactionInfoVersions {
    V0_0_1(KafkaReplicaTransactionInfo),
    V0_0_2(KafkaReplicaTransactionInfoV2),
}

/// A transaction notification: a versioned payload and the slot it was
/// confirmed in.
#[derive(Debug, Clone, PartialEq, Eq)]
pub struct NotifyTransaction {
    pub transaction_info: KafkaReplicaTransactionInfoVersions,
    pub slot: u64,
}

#[verifier::ext_equal]
pub struct KafkaSanitizedTransactionView {
    pub message_hash: Seq<u8>,
    pub is_simple_vote_tx: bool,
    pub signatures: Seq<Seq<u8>>,
}

#[verifier::ext_equal]
pub struct KafkaTransactionStatusMetaView {
    pub status_err: Option<Seq<char>>,
    pub fee: u64,
    pub pre_balances: Seq<u64>,
    pub post_balances: Seq<u64>,
    pub log_messages: Option<Seq<Seq<char>>>,
    pub rewards: Option<Seq<KafkaRewardView>>,
}

#[verifier::ext_equal]
pub struct KafkaReplicaTransactionInfoView {
    pub signature: Seq<u8>,
    pub is_vote: bool,
    pub transaction: KafkaSanitizedTransactionView,
    pub transaction_status_meta: KafkaTransactionStatusMetaView,
}

#[verifier::ext_equal]
pub struct KafkaReplicaTransactionInfoV2View {
    pub signature: Seq<u8>,
    pub is_vote: bool,
    pub transaction: KafkaSanitizedTransactionView,
    pub transaction_status_meta: KafkaTransactionStatusMetaView,
    pub index: u64,
}

#[verifier::ext_equal]
pub enum KafkaReplicaTransactionInfoVersionsView {
    V0_0_1(KafkaReplicaTransactionInfoView),
    V0_0_2(KafkaReplicaTransactionInfoV2View),
}

#[verifier::ext_equal]
pub struct NotifyTransactionView {
    pub transaction_info: KafkaReplicaTransactionInfoVersionsView,
    pub slot: u64,
}

impl View for KafkaSanitizedTransaction {
    type V = KafkaSanitizedTransactionView;

    open spec fn view(&self) -> KafkaSanitizedTransactionView {
        KafkaSanitizedTransactionView {
            message_hash: self.message_hash@,
            is_simple_vote_tx: self.is_simple_vote_tx,
            signatures: Seq::new(self.signatures@.len(), |i: int| self.signatures@[i]@),
        }
    }
}

impl View for KafkaTransactionStatusMeta {
    type V = KafkaTransactionStatusMetaView;

    open spec fn view(&self) -> KafkaTransactionStatusMetaView {
        KafkaTransactionStatusMetaView {
            status_err: match self.status_err {
                Some(ref s) => Some(s@),
                None => None,
            },
            fee: self.fee,
            pre_balances: self.pre_balances@,
            post_balances: self.post_balances@,
            log_messages: match self.log_messages {
                Some(ref ms) => Some(Seq::new(ms@.len(), |i: int| ms@[i]@)),
                None => None,
            },
            rewards: match self.rewards {
                Some(ref rs) => Some(Seq::new(rs@.len(), |i: int| rs@[i]@)),
                None => None,
            },
        }
    }
}

impl View for KafkaReplicaTransactionInfo {
    type V = KafkaReplicaTransactionInfoView;

    open spec fn view(&self) -> KafkaReplicaTransactionInfoView {
        KafkaReplicaTransactionInfoView {
            signature: self.signature@,
            is_vote: self.is_vote,
            transaction: self.transaction@,
            transaction_status_meta: self.transaction_status_meta@,
        }
    }
}

impl View for KafkaReplicaTransactionInfoV2 {
    type V = KafkaReplicaTransactionInfoV2View;

    open spec fn view(&self) -> KafkaReplicaTransactionInfoV2View {
        KafkaReplicaTransactionInfoV2View {
            signature: self.signature@,
            is_vote: self.is_vote,
            transaction: self.transaction@,
            transaction_status_meta: self.transaction_status_meta@,
            index: self.index,
        }
    }
}

impl View for KafkaReplicaTransactionInfoVersions {
    type V = KafkaReplicaTransactionInfoVersionsView;

    open spec fn view(&self) -> KafkaReplicaTransactionInfoVersionsView {
        match self {
            KafkaReplicaTransactionInfoVersions::V0_0_1(t) => KafkaReplicaTransactionInfoVersionsView::V0_0_1(t@),
            KafkaReplicaTransactionInfoVersions::V0_0_2(t) => KafkaReplicaTransactionInfoVersionsView::V0_0_2(t@),
        }
    }
}

impl View for NotifyTransaction {
    type V = NotifyTransactionView;

    open spec fn view(&self) -> NotifyTransactionView {
        NotifyTransactionView { transaction_info: self.transaction_info@, slot: self.slot }
    }
}

// ---------------------------------------------------------------------------
// Block metadata
// ---------------------------------------------------------------------------
/// The kind of a block reward.
#[derive(Debug, Clone, Copy, PartialEq, Eq, Structural)]
pub enum KafkaRewardType {
    Fee,
    Rent,
    Staking,
    Voting,
}

/// One reward credited or debited in a block.
#[derive(Debug, Clone, PartialEq, Eq)]
pub struct KafkaReward {
    pub pubkey: String,
    pub lamports: i64,
    pub post_balance: u64,
    pub reward_type: Option<KafkaRewardType>,
    pub commission: Option<u8>,
}

/// Metadata of a finalized block.
#[derive(Debug, Clone, PartialEq, Eq)]
pub struct KafkaReplicaBlockInfo {
    pub slot: u64,
    pub blockhash: String,
    pub rewards: Vec<KafkaReward>,
    pub block_time: Option<i64>,
    pub block_height: Option<u64>,
}

/// The versioned block payload.
#[derive(Debug, Clone, PartialEq, Eq)]
pub enum KafkaReplicaBlockInfoVersions {
    V0_0_1(KafkaReplicaBlockInfo),
}

/// A block-metadata event.
#[derive(Debug, Clone, PartialEq, Eq)]
pub struct NotifyBlockMetaData {
    pub block_info: KafkaReplicaBlockInfoVersions,
}

#[verifier::ext_equal]
pub struct KafkaRewardView {
    pub pubkey: Seq<char>,
    pub lamports: i64,
    pub post_balance: u64,
    pub reward_type: Option<KafkaRewardType>,
    pub commission: Option<u8>,
}

#[verifier::ext_equal]
pub struct KafkaReplicaBlockInfoView {
    pub slot: u64,
    pub blockhash: Seq<char>,
    pub rewards: Seq<KafkaRewardView>,
    pub block_time: Option<i64>,
    pub block_height: Option<u64>,
}

#[verifier::ext_equal]
pub enum KafkaReplicaBlockInfoVersionsView {
    V0_0_1(KafkaReplicaBlockInfoView),
}

#[verifier::ext_equal]
pub struct NotifyBlockMetaDataView {
    pub block_info: KafkaReplicaBlockInfoVersionsView,
}

impl View for KafkaReward {
    type V = KafkaRewardView;

    open spec fn view(&self) -> KafkaRewardView {
        KafkaRewardView {
            pubkey: self.pubkey@,
            lamports: self.lamports,
            post_balance: self.post_balance,
            reward_type: self.reward_type,
            commission: self.commission,
        }
    }
}

impl View for KafkaReplicaBlockInfo {
    type V = KafkaReplicaBlockInfoView;

    open spec fn view(&self) -> KafkaReplicaBlockInfoView {
        KafkaReplicaBlockInfoView {
            slot: self.slot,
            blockhash: self.blockhash@,
            rewards: Seq::new(self.rewards@.len(), |i: int| self.rewards@[i]@),
            block_time: self.block_time,
            block_height: self.block_height,
        }
    }
}

impl View for KafkaReplicaBlockInfoVersions {
    type V = KafkaReplicaBlockInfoVersionsView;

    open spec fn view(&self) -> KafkaReplicaBlockInfoVersionsView {
        match self {
            KafkaReplicaBlockInfoVersions::V0_0_1(b) => KafkaReplicaBlockInfoVersionsView::V0_0_1(b@),
        }
    }
}

impl View for NotifyBlockMetaData {
    type V = NotifyBlockMetaDataView;

    open spec fn view(&self) -> NotifyBlockMetaDataView {
        NotifyBlockMetaDataView { block_info: self.block_info@ }
    }
}

// ---------------------------------------------------------------------------
// The tagged union over the four categories
// ---------------------------------------------------------------------------
/// An event of any category, as carried by a per-category ingestion queue.
#[derive(Debug, Clone, PartialEq, Eq)]
pub enum KafkaEvent {
    UpdateAccount(UpdateAccount),
    UpdateSlot(UpdateSlotStatus),
    NotifyTransaction(NotifyTransaction),
    NotifyBlock(NotifyBlockMetaData),
}

#[verifier::ext_equal]
pub enum KafkaEventView {
    UpdateAccount(UpdateAccountView),
    UpdateSlot(UpdateSlotStatusView),
    NotifyTransaction(NotifyTransactionView),
    NotifyBlock(NotifyBlockMetaDataView),
}

impl View for KafkaEvent {
    type V = KafkaEventView;

    open spec fn view(&self) -> KafkaEventView {
        match self {
            KafkaEvent::UpdateAccount(u) => KafkaEventView::UpdateAccount(u@),
            KafkaEvent::UpdateSlot(u) => KafkaEventView::UpdateSlot(u@),
            KafkaEvent::NotifyTransaction(t) => KafkaEventView::NotifyTransaction(t@),
            KafkaEvent::NotifyBlock(b) => KafkaEventView::NotifyBlock(b@),
        }
    }
}

} // verus!
