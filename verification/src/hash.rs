//! Deterministic per-message key derivation. The key doubles as the broker
//! partition / deduplication key: account and transaction events use a
//! content hash so repeated updates to the same entity land on the same
//! partition, slot-status events use the slot number concatenated with the
//! status name, and block events use the blockhash verbatim.

use vstd::prelude::*;

use crate::decimal::{dec_chars, u64_to_dec_string};
use crate::kafka_structs::{
    KafkaEvent, KafkaEventView, KafkaReplicaAccountInfoVersions, KafkaReplicaAccountInfoVersionsView,
    KafkaReplicaBlockInfoVersions, KafkaReplicaBlockInfoVersionsView,
    KafkaReplicaTransactionInfoVersions, KafkaReplicaTransactionInfoVersionsView,
    NotifyBlockMetaData, NotifyBlockMetaDataView, NotifyTransaction, NotifyTransactionView,
    UpdateAccount, UpdateAccountView, UpdateSlotStatus, UpdateSlotStatusView,
};
use vstd::bytes::{spec_u64_to_le_bytes, u64_to_le_bytes};

verus! {

/// The lowercase hexadecimal digest that the blake3 content hash assigns to
/// a byte string. The digest is a function of the input bytes alone.
pub uninterp spec fn blake3_hex_of(input: Seq<u8>) -> Seq<char>;

/// Relies on blake3::hash and blake3::Hash::to_hex: the digest of the input
/// bytes alone, displayed as 64 lowercase hexadecimal characters.
#[verifier::external_body]
fn blake3_hex(input: &Vec<u8>) -> (r: String)
    ensures
        r@ == blake3_hex_of(input@),
        r@.len() == 64,
{
    blake3::hash(input.as_slice()).to_string()
}

/// The bytes hashed for an account update: pubkey, then the write version
/// and the slot in little-endian order.
pub open spec fn account_hash_input(u: UpdateAccountView) -> Seq<u8> {
    let (pubkey, write_version) = match u.account {
        KafkaReplicaAccountInfoVersionsView::V0_0_1(a) => (a.pubkey, a.write_version),
        KafkaReplicaAccountInfoVersionsView::V0_0_2(a) => (a.pubkey, a.write_version),
    };
    pubkey + spec_u64_to_le_bytes(write_version) + spec_u64_to_le_bytes(u.slot)
}

/// The bytes hashed for a transaction notification: the signature, then the
/// slot in little-endian order.
pub open spec fn transaction_hash_input(t: NotifyTransactionView) -> Seq<u8> {
    let signature = match t.transaction_info {
        KafkaReplicaTransactionInfoVersionsView::V0_0_1(i) => i.signature,
        KafkaReplicaTransactionInfoVersionsView::V0_0_2(i) => i.signature,
    };
    signature + spec_u64_to_le_bytes(t.slot)
}

/// The key of an account update.
pub open spec fn account_key(u: UpdateAccountView) -> Seq<char> {
    blake3_hex_of(account_hash_input(u))
}

/// The key of a slot-status update: the decimal slot number, then the status
/// name.
pub open spec fn slot_status_key(u: UpdateSlotStatusView) -> Seq<char> {
    dec_chars(u.slot as nat) + u.status.spec_name()
}

/// The key of a transaction notification.
pub open spec fn transaction_key(t: NotifyTransactionView) -> Seq<char> {
    blake3_hex_of(transaction_hash_input(t))
}

/// The key of a block-metadata event: the blockhash, verbatim.
pub open spec fn block_key(b: NotifyBlockMetaDataView) -> Seq<char> {
    match b.block_info {
        KafkaReplicaBlockInfoVersionsView::V0_0_1(info) => info.blockhash,
    }
}

/// The key of an event of any category.
pub open spec fn event_key(e: KafkaEventView) -> Seq<char> {
    match e {
        KafkaEventView::UpdateAccount(u) => account_key(u),
        KafkaEventView::UpdateSlot(u) => slot_status_key(u),
        KafkaEventView::NotifyTransaction(t) => transaction_key(t),
        KafkaEventView::NotifyBlock(b) => block_key(b),
    }
}

/// The key deriver is a pure function of event content: two events of the
/// same category with identical content are assigned identical keys.
pub proof fn lemma_key_deriver_deterministic(e1: KafkaEventView, e2: KafkaEventView)
    requires
        e1 == e2,
    ensures
        event_key(e1) == event_key(e2),
{
}

impl UpdateAccount {
    /// The content-hash key of this account update: 64 hexadecimal
    /// characters.
    pub fn get_hash(&self) -> (r: String)
        ensures
            r@ == account_key(self@),
            r@.len() == 64,
    {
        let mut input: Vec<u8> = Vec::new();
        match &self.account {
            KafkaReplicaAccountInfoVersions::V0_0_1(account_info) => {
                input.extend_from_slice(account_info.pubkey.as_slice());
                let mut wv = u64_to_le_bytes(account_info.write_version);
                input.append(&mut wv);
            },
            KafkaReplicaAccountInfoVersions::V0_0_2(account_info) => {
                input.extend_from_slice(account_info.pubkey.as_slice());
                let mut wv = u64_to_le_bytes(account_info.write_version);
                input.append(&mut wv);
            },
        }
        let mut slot = u64_to_le_bytes(self.slot);
        input.append(&mut slot);
        proof {
            assert(input@ =~= account_hash_input(self@));
        }
        blake3_hex(&input)
    }
}

impl UpdateSlotStatus {
    /// The key of this slot-status update: decimal slot number, then status
    /// name.
    pub fn get_hash(&self) -> (r: String)
        ensures
            r@ == slot_status_key(self@),
    {
        let mut s = u64_to_dec_string(self.slot);
        s.append(self.status.name());
        s
    }
}

impl NotifyTransaction {
    /// The content-hash key of this transaction notification: 64 hexadecimal
    /// characters.
    pub fn get_hash(&self) -> (r: String)
        ensures
            r@ == transaction_key(self@),
            r@.len() == 64,
    {
        let mut input: Vec<u8> = Vec::new();
        match &self.transaction_info {
            KafkaReplicaTransactionInfoVersions::V0_0_1(transaction_info) => {
                input.extend_from_slice(transaction_info.signature.as_slice());
            },
            KafkaReplicaTransactionInfoVersions::V0_0_2(transaction_info) => {
                input.extend_from_slice(transaction_info.signature.as_slice());
            },
        }
        let mut slot = u64_to_le_bytes(self.slot);
        input.append(&mut slot);
        proof {
            assert(input@ =~= transaction_hash_input(self@));
        }
        blake3_hex(&input)
    }
}

impl NotifyBlockMetaData {
    /// The key of this block-metadata event: the blockhash itself.
    pub fn get_hash(&self) -> (r: &String)
        ensures
            r@ == block_key(self@),
    {
        match &self.block_info {
            KafkaReplicaBlockInfoVersions::V0_0_1(block_info) => &block_info.blockhash,
        }
    }
}

impl KafkaEvent {
    /// The key of this event, per its category's rule. Content-hash keys
    /// (accounts and transactions) are 64 hexadecimal characters.
    pub fn derive_key(&self) -> (r: String)
        ensures
            r@ == event_key(self@),
            self@ matches KafkaEventView::UpdateAccount(_) ==> r@.len() == 64,
            self@ matches KafkaEventView::NotifyTransaction(_) ==> r@.len() == 64,
    {
        match self {
            KafkaEvent::UpdateAccount(u) => u.get_hash(),
            KafkaEvent::UpdateSlot(u) => u.get_hash(),
            KafkaEvent::NotifyTransaction(t) => t.get_hash(),
            KafkaEvent::NotifyBlock(b) => b.get_hash().clone(),
        }
    }
}

} // verus!
