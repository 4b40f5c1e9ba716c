//! The wire codec for events. Every event is framed as a category tag
//! followed by its payload, built from the primitives in `codec`; the parser
//! accepts exactly what the serializer produces, and parsing a serialized
//! event yields the event back unchanged.

use vstd::prelude::*;

use crate::codec::{
    dec_bool, dec_bytes, dec_i64, dec_string, dec_u64, dec_u8, enc_bool, enc_bytes, enc_i64,
    enc_string, enc_u64, enc_u8, lemma_parse_ser_bool, lemma_parse_ser_bytes, lemma_parse_ser_i64,
    lemma_parse_ser_string, lemma_parse_ser_u64, lemma_parse_ser_u8, parse_bool, parse_bytes,
    parse_i64, parse_string, parse_u64, parse_u8, ser_bool, ser_bytes, ser_i64, ser_string,
    ser_u64, ser_u8,
};
use crate::kafka_structs::{
    KafkaEvent, KafkaEventView, KafkaReplicaAccountInfo, KafkaReplicaAccountInfoV2,
    KafkaReplicaAccountInfoV2View, KafkaReplicaAccountInfoVersions,
    KafkaReplicaAccountInfoVersionsView, KafkaReplicaAccountInfoView, KafkaReplicaBlockInfo,
    KafkaReplicaBlockInfoVersions, KafkaReplicaBlockInfoVersionsView, KafkaReplicaBlockInfoView,
    KafkaReplicaTransactionInfo, KafkaReplicaTransactionInfoV2, KafkaReplicaTransactionInfoV2View,
    KafkaReplicaTransactionInfoVersions, KafkaReplicaTransactionInfoVersionsView,
    KafkaReplicaTransactionInfoView, KafkaReward, KafkaRewardType, KafkaRewardView,
    KafkaSanitizedTransaction, KafkaSanitizedTransactionView, KafkaSlotStatus,
    KafkaTransactionStatusMeta, KafkaTransactionStatusMetaView, NotifyBlockMetaData,
    NotifyBlockMetaDataView, NotifyTransaction, NotifyTransactionView, UpdateAccount,
    UpdateAccountView, UpdateSlotStatus, UpdateSlotStatusView,
};
use vstd::utf8::encode_utf8;

verus! {

// ---------------------------------------------------------------------------
// Well-formedness: the length bounds under which a value is serializable.
// Every value built from machine-sized vectors and strings satisfies them.
// ---------------------------------------------------------------------------
pub open spec fn wf_text(s: Seq<char>) -> bool {
    encode_utf8(s).len() <= u64::MAX
}

pub open spec fn wf_account_v1(a: KafkaReplicaAccountInfoView) -> bool {
    a.pubkey.len() <= u64::MAX && a.owner.len() <= u64::MAX && a.data.len() <= u64::MAX
}

pub open spec fn wf_account_v2(a: KafkaReplicaAccountInfoV2View) -> bool {
    &&& a.pubkey.len() <= u64::MAX
    &&& a.owner.len() <= u64::MAX
    &&& a.data.len() <= u64::MAX
    &&& match a.txn_signature {
        Some(s) => s.len() <= u64::MAX,
        None => true,
    }
}

pub open spec fn wf_update_account(u: UpdateAccountView) -> bool {
    match u.account {
        KafkaReplicaAccountInfoVersionsView::V0_0_1(a) => wf_account_v1(a),
        KafkaReplicaAccountInfoVersionsView::V0_0_2(a) => wf_account_v2(a),
    }
}

pub open spec fn wf_sanitized_transaction(t: KafkaSanitizedTransactionView) -> bool {
    &&& t.message_hash.len() <= u64::MAX
    &&& wf_bytes_seq(t.signatures)
}

pub open spec fn wf_status_meta(m: KafkaTransactionStatusMetaView) -> bool {
    &&& match m.status_err {
        Some(s) => wf_text(s),
        None => true,
    }
    &&& m.pre_balances.len() <= u64::MAX
    &&& m.post_balances.len() <= u64::MAX
    &&& match m.log_messages {
        Some(ls) => wf_text_seq(ls),
        None => true,
    }
    &&& match m.rewards {
        Some(rs) => rs.len() <= u64::MAX && forall|i: int|
            0 <= i < rs.len() ==> wf_reward(#[trigger] rs[i]),
        None => true,
    }
}

pub open spec fn wf_transaction_v1(t: KafkaReplicaTransactionInfoView) -> bool {
    &&& t.signature.len() <= u64::MAX
    &&& wf_sanitized_transaction(t.transaction)
    &&& wf_status_meta(t.transaction_status_meta)
}

pub open spec fn wf_transaction_v2(t: KafkaReplicaTransactionInfoV2View) -> bool {
    &&& t.signature.len() <= u64::MAX
    &&& wf_sanitized_transaction(t.transaction)
    &&& wf_status_meta(t.transaction_status_meta)
}

pub open spec fn wf_transaction_info(t: KafkaReplicaTransactionInfoVersionsView) -> bool {
    match t {
        KafkaReplicaTransactionInfoVersionsView::V0_0_1(i) => wf_transaction_v1(i),
        KafkaReplicaTransactionInfoVersionsView::V0_0_2(i) => wf_transaction_v2(i),
    }
}

pub open spec fn wf_notify_transaction(t: NotifyTransactionView) -> bool {
    wf_transaction_info(t.transaction_info)
}

pub open spec fn wf_reward(r: KafkaRewardView) -> bool {
    wf_text(r.pubkey)
}

pub open spec fn wf_block_info(b: KafkaReplicaBlockInfoView) -> bool {
    &&& wf_text(b.blockhash)
    &&& b.rewards.len() <= u64::MAX
    &&& forall|i: int| 0 <= i < b.rewards.len() ==> wf_reward(#[trigger] b.rewards[i])
}

pub open spec fn wf_notify_block(b: NotifyBlockMetaDataView) -> bool {
    match b.block_info {
        KafkaReplicaBlockInfoVersionsView::V0_0_1(info) => wf_block_info(info),
    }
}

pub open spec fn wf_event(e: KafkaEventView) -> bool {
    match e {
        KafkaEventView::UpdateAccount(u) => wf_update_account(u),
        KafkaEventView::UpdateSlot(_) => true,
        KafkaEventView::NotifyTransaction(t) => wf_notify_transaction(t),
        KafkaEventView::NotifyBlock(b) => wf_notify_block(b),
    }
}

// ---------------------------------------------------------------------------
// Options
// ---------------------------------------------------------------------------
pub open spec fn ser_opt_u64(v: Option<u64>) -> Seq<u8> {
    match v {
        None => ser_u8(0),
        Some(x) => ser_u8(1) + ser_u64(x),
    }
}

pub open spec fn parse_opt_u64(s: Seq<u8>) -> Option<(Option<u64>, Seq<u8>)> {
    match parse_u8(s) {
        Some((t, r)) => if t == 0 {
            Some((None, r))
        } else if t == 1 {
            match parse_u64(r) {
                Some((v, r2)) => Some((Some(v), r2)),
                None => None,
            }
        } else {
            None
        },
        None => None,
    }
}

pub proof fn lemma_parse_ser_opt_u64(v: Option<u64>, rest: Seq<u8>)
    ensures
        parse_opt_u64(ser_opt_u64(v) + rest) == Some((v, rest)),
{
    match v {
        None => {
            lemma_parse_ser_u8(0, rest);
        },
        Some(x) => {
            assert(ser_opt_u64(v) + rest =~= ser_u8(1) + (ser_u64(x) + rest));
            lemma_parse_ser_u8(1, ser_u64(x) + rest);
            lemma_parse_ser_u64(x, rest);
        },
    }
}

pub fn enc_opt_u64(out: &mut Vec<u8>, v: &Option<u64>)
    ensures
        final(out)@ == old(out)@ + ser_opt_u64(*v),
{
    match v {
        None => enc_u8(out, 0),
        Some(x) => {
            enc_u8(out, 1);
            enc_u64(out, *x);
            proof {
                assert(out@ =~= old(out)@ + ser_opt_u64(*v));
            }
        },
    }
}

pub fn dec_opt_u64(data: &Vec<u8>, pos: usize) -> (r: Option<(Option<u64>, usize)>)
    requires
        pos <= data@.len(),
    ensures
        match r {
            Some((v, next)) => pos <= next <= data@.len() && parse_opt_u64(data@.skip(pos as int))
                == Some((v, data@.skip(next as int))),
            None => parse_opt_u64(data@.skip(pos as int)) is None,
        },
{
    match dec_u8(data, pos) {
        Some((t, next)) => {
            if t == 0 {
                Some((None, next))
            } else if t == 1 {
                match dec_u64(data, next) {
                    Some((v, next2)) => Some((Some(v), next2)),
                    None => None,
                }
            } else {
                None
            }
        },
        None => None,
    }
}

pub open spec fn ser_opt_i64(v: Option<i64>) -> Seq<u8> {
    match v {
        None => ser_u8(0),
        Some(x) => ser_u8(1) + ser_i64(x),
    }
}

pub open spec fn parse_opt_i64(s: Seq<u8>) -> Option<(Option<i64>, Seq<u8>)> {
    match parse_u8(s) {
        Some((t, r)) => if t == 0 {
            Some((None, r))
        } else if t == 1 {
            match parse_i64(r) {
                Some((v, r2)) => Some((Some(v), r2)),
                None => None,
            }
        } else {
            None
        },
        None => None,
    }
}

pub proof fn lemma_parse_ser_opt_i64(v: Option<i64>, rest: Seq<u8>)
    ensures
        parse_opt_i64(ser_opt_i64(v) + rest) == Some((v, rest)),
{
    match v {
        None => {
            lemma_parse_ser_u8(0, rest);
        },
        Some(x) => {
            assert(ser_opt_i64(v) + rest =~= ser_u8(1) + (ser_i64(x) + rest));
            lemma_parse_ser_u8(1, ser_i64(x) + rest);
            lemma_parse_ser_i64(x, rest);
        },
    }
}

pub fn enc_opt_i64(out: &mut Vec<u8>, v: &Option<i64>)
    ensures
        final(out)@ == old(out)@ + ser_opt_i64(*v),
{
    match v {
        None => enc_u8(out, 0),
        Some(x) => {
            enc_u8(out, 1);
            enc_i64(out, *x);
            proof {
                assert(out@ =~= old(out)@ + ser_opt_i64(*v));
            }
        },
    }
}

pub fn dec_opt_i64(data: &Vec<u8>, pos: usize) -> (r: Option<(Option<i64>, usize)>)
    requires
        pos <= data@.len(),
    ensures
        match r {
            Some((v, next)) => pos <= next <= data@.len() && parse_opt_i64(data@.skip(pos as int))
                == Some((v, data@.skip(next as int))),
            None => parse_opt_i64(data@.skip(pos as int)) is None,
        },
{
    match dec_u8(data, pos) {
        Some((t, next)) => {
            if t == 0 {
                Some((None, next))
            } else if t == 1 {
                match dec_i64(data, next) {
                    Some((v, next2)) => Some((Some(v), next2)),
                    None => None,
                }
            } else {
                None
            }
        },
        None => None,
    }
}

pub open spec fn ser_opt_u8(v: Option<u8>) -> Seq<u8> {
    match v {
        None => ser_u8(0),
        Some(x) => ser_u8(1) + ser_u8(x),
    }
}

pub open spec fn parse_opt_u8(s: Seq<u8>) -> Option<(Option<u8>, Seq<u8>)> {
    match parse_u8(s) {
        Some((t, r)) => if t == 0 {
            Some((None, r))
        } else if t == 1 {
            match parse_u8(r) {
                Some((v, r2)) => Some((Some(v), r2)),
                None => None,
            }
        } else {
            None
        },
        None => None,
    }
}

pub proof fn lemma_parse_ser_opt_u8(v: Option<u8>, rest: Seq<u8>)
    ensures
        parse_opt_u8(ser_opt_u8(v) + rest) == Some((v, rest)),
{
    match v {
        None => {
            lemma_parse_ser_u8(0, rest);
        },
        Some(x) => {
            assert(ser_opt_u8(v) + rest =~= ser_u8(1) + (ser_u8(x) + rest));
            lemma_parse_ser_u8(1, ser_u8(x) + rest);
            lemma_parse_ser_u8(x, rest);
        },
    }
}

pub fn enc_opt_u8(out: &mut Vec<u8>, v: &Option<u8>)
    ensures
        final(out)@ == old(out)@ + ser_opt_u8(*v),
{
    match v {
        None => enc_u8(out, 0),
        Some(x) => {
            enc_u8(out, 1);
            enc_u8(out, *x);
            proof {
                assert(out@ =~= old(out)@ + ser_opt_u8(*v));
            }
        },
    }
}

pub fn dec_opt_u8(data: &Vec<u8>, pos: usize) -> (r: Option<(Option<u8>, usize)>)
    requires
        pos <= data@.len(),
    ensures
        match r {
            Some((v, next)) => pos <= next <= data@.len() && parse_opt_u8(data@.skip(pos as int))
                == Some((v, data@.skip(next as int))),
            None => parse_opt_u8(data@.skip(pos as int)) is None,
        },
{
    match dec_u8(data, pos) {
        Some((t, next)) => {
            if t == 0 {
                Some((None, next))
            } else if t == 1 {
                match dec_u8(data, next) {
                    Some((v, next2)) => Some((Some(v), next2)),
                    None => None,
                }
            } else {
                None
            }
        },
        None => None,
    }
}

pub open spec fn ser_opt_bytes(v: Option<Seq<u8>>) -> Seq<u8> {
    match v {
        None => ser_u8(0),
        Some(x) => ser_u8(1) + ser_bytes(x),
    }
}

pub open spec fn parse_opt_bytes(s: Seq<u8>) -> Option<(Option<Seq<u8>>, Seq<u8>)> {
    match parse_u8(s) {
        Some((t, r)) => if t == 0 {
            Some((None, r))
        } else if t == 1 {
            match parse_bytes(r) {
                Some((v, r2)) => Some((Some(v), r2)),
                None => None,
            }
        } else {
            None
        },
        None => None,
    }
}

pub proof fn lemma_parse_ser_opt_bytes(v: Option<Seq<u8>>, rest: Seq<u8>)
    requires
        match v {
            Some(x) => x.len() <= u64::MAX,
            None => true,
        },
    ensures
        parse_opt_bytes(ser_opt_bytes(v) + rest) == Some((v, rest)),
{
    match v {
        None => {
            lemma_parse_ser_u8(0, rest);
        },
        Some(x) => {
            assert(ser_opt_bytes(v) + rest =~= ser_u8(1) + (ser_bytes(x) + rest));
            lemma_parse_ser_u8(1, ser_bytes(x) + rest);
            lemma_parse_ser_bytes(x, rest);
        },
    }
}

pub fn enc_opt_bytes(out: &mut Vec<u8>, v: &Option<Vec<u8>>)
    ensures
        final(out)@ == old(out)@ + ser_opt_bytes(match *v {
            Some(ref x) => Some(x@),
            None => None,
        }),
{
    match v {
        None => enc_u8(out, 0),
        Some(x) => {
            enc_u8(out, 1);
            enc_bytes(out, x);
            proof {
                assert(out@ =~= old(out)@ + ser_opt_bytes(Some(x@)));
            }
        },
    }
}

pub fn dec_opt_bytes(data: &Vec<u8>, pos: usize) -> (r: Option<(Option<Vec<u8>>, usize)>)
    requires
        pos <= data@.len(),
    ensures
        match r {
            Some((v, next)) => pos <= next <= data@.len() && parse_opt_bytes(
                data@.skip(pos as int),
            ) == Some(
                (
                    match v {
                        Some(x) => Some(x@),
                        None => None,
                    },
                    data@.skip(next as int),
                ),
            ),
            None => parse_opt_bytes(data@.skip(pos as int)) is None,
        },
{
    match dec_u8(data, pos) {
        Some((t, next)) => {
            if t == 0 {
                Some((None, next))
            } else if t == 1 {
                match dec_bytes(data, next) {
                    Some((v, next2)) => Some((Some(v), next2)),
                    None => None,
                }
            } else {
                None
            }
        },
        None => None,
    }
}

// ---------------------------------------------------------------------------
// Small enums
// ---------------------------------------------------------------------------
pub open spec fn slot_status_tag(v: KafkaSlotStatus) -> u8 {
    match v {
        KafkaSlotStatus::Processed => 0,
        KafkaSlotStatus::Rooted => 1,
        KafkaSlotStatus::Confirmed => 2,
    }
}

pub open spec fn ser_slot_status(v: KafkaSlotStatus) -> Seq<u8> {
    ser_u8(slot_status_tag(v))
}

pub open spec fn parse_slot_status(s: Seq<u8>) -> Option<(KafkaSlotStatus, Seq<u8>)> {
    match parse_u8(s) {
        Some((t, r)) => if t == 0 {
            Some((KafkaSlotStatus::Processed, r))
        } else if t == 1 {
            Some((KafkaSlotStatus::Rooted, r))
        } else if t == 2 {
            Some((KafkaSlotStatus::Confirmed, r))
        } else {
            None
        },
        None => None,
    }
}

pub proof fn lemma_parse_ser_slot_status(v: KafkaSlotStatus, rest: Seq<u8>)
    ensures
        parse_slot_status(ser_slot_status(v) + rest) == Some((v, rest)),
{
    lemma_parse_ser_u8(slot_status_tag(v), rest);
}

pub fn enc_slot_status(out: &mut Vec<u8>, v: &KafkaSlotStatus)
    ensures
        final(out)@ == old(out)@ + ser_slot_status(*v),
{
    let tag: u8 = match v {
        KafkaSlotStatus::Processed => 0,
        KafkaSlotStatus::Rooted => 1,
        KafkaSlotStatus::Confirmed => 2,
    };
    enc_u8(out, tag);
}

pub fn dec_slot_status(data: &Vec<u8>, pos: usize) -> (r: Option<(KafkaSlotStatus, usize)>)
    requires
        pos <= data@.len(),
    ensures
        match r {
            Some((v, next)) => pos <= next <= data@.len() && parse_slot_status(
                data@.skip(pos as int),
            ) == Some((v, data@.skip(next as int))),
            None => parse_slot_status(data@.skip(pos as int)) is None,
        },
{
    match dec_u8(data, pos) {
        Some((t, next)) => {
            if t == 0 {
                Some((KafkaSlotStatus::Processed, next))
            } else if t == 1 {
                Some((KafkaSlotStatus::Rooted, next))
            } else if t == 2 {
                Some((KafkaSlotStatus::Confirmed, next))
            } else {
                None
            }
        },
        None => None,
    }
}

pub open spec fn reward_type_tag(v: KafkaRewardType) -> u8 {
    match v {
        KafkaRewardType::Fee => 0,
        KafkaRewardType::Rent => 1,
        KafkaRewardType::Staking => 2,
        KafkaRewardType::Voting => 3,
    }
}

pub open spec fn ser_opt_reward_type(v: Option<KafkaRewardType>) -> Seq<u8> {
    match v {
        None => ser_u8(0),
        Some(x) => ser_u8(1) + ser_u8(reward_type_tag(x)),
    }
}

pub open spec fn parse_reward_type(s: Seq<u8>) -> Option<(KafkaRewardType, Seq<u8>)> {
    match parse_u8(s) {
        Some((t, r)) => if t == 0 {
            Some((KafkaRewardType::Fee, r))
        } else if t == 1 {
            Some((KafkaRewardType::Rent, r))
        } else if t == 2 {
            Some((KafkaRewardType::Staking, r))
        } else if t == 3 {
            Some((KafkaRewardType::Voting, r))
        } else {
            None
        },
        None => None,
    }
}

pub open spec fn parse_opt_reward_type(s: Seq<u8>) -> Option<(Option<KafkaRewardType>, Seq<u8>)> {
    match parse_u8(s) {
        Some((t, r)) => if t == 0 {
            Some((None, r))
        } else if t == 1 {
            match parse_reward_type(r) {
                Some((v, r2)) => Some((Some(v), r2)),
                None => None,
            }
        } else {
            None
        },
        None => None,
    }
}

pub proof fn lemma_parse_ser_opt_reward_type(v: Option<KafkaRewardType>, rest: Seq<u8>)
    ensures
        parse_opt_reward_type(ser_opt_reward_type(v) + rest) == Some((v, rest)),
{
    match v {
        None => {
            lemma_parse_ser_u8(0, rest);
        },
        Some(x) => {
            assert(ser_opt_reward_type(v) + rest =~= ser_u8(1) + (ser_u8(reward_type_tag(x))
                + rest));
            lemma_parse_ser_u8(1, ser_u8(reward_type_tag(x)) + rest);
            lemma_parse_ser_u8(reward_type_tag(x), rest);
        },
    }
}

pub fn enc_opt_reward_type(out: &mut Vec<u8>, v: &Option<KafkaRewardType>)
    ensures
        final(out)@ == old(out)@ + ser_opt_reward_type(*v),
{
    match v {
        None => enc_u8(out, 0),
        Some(x) => {
            enc_u8(out, 1);
            let tag: u8 = match x {
                KafkaRewardType::Fee => 0,
                KafkaRewardType::Rent => 1,
                KafkaRewardType::Staking => 2,
                KafkaRewardType::Voting => 3,
            };
            enc_u8(out, tag);
            proof {
                assert(out@ =~= old(out)@ + ser_opt_reward_type(*v));
            }
        },
    }
}

pub fn dec_opt_reward_type(data: &Vec<u8>, pos: usize) -> (r: Option<
    (Option<KafkaRewardType>, usize),
>)
    requires
        pos <= data@.len(),
    ensures
        match r {
            Some((v, next)) => pos <= next <= data@.len() && parse_opt_reward_type(
                data@.skip(pos as int),
            ) == Some((v, data@.skip(next as int))),
            None => parse_opt_reward_type(data@.skip(pos as int)) is None,
        },
{
    match dec_u8(data, pos) {
        Some((t, next)) => {
            if t == 0 {
                Some((None, next))
            } else if t == 1 {
                match dec_u8(data, next) {
                    Some((t2, next2)) => {
                        if t2 == 0 {
                            Some((Some(KafkaRewardType::Fee), next2))
                        } else if t2 == 1 {
                            Some((Some(KafkaRewardType::Rent), next2))
                        } else if t2 == 2 {
                            Some((Some(KafkaRewardType::Staking), next2))
                        } else if t2 == 3 {
                            Some((Some(KafkaRewardType::Voting), next2))
                        } else {
                            None
                        }
                    },
                    None => None,
                }
            } else {
                None
            }
        },
        None => None,
    }
}

// ---------------------------------------------------------------------------
// Account payloads
// ---------------------------------------------------------------------------
pub open spec fn ser_account_v1(a: KafkaReplicaAccountInfoView) -> Seq<u8> {
    ser_bytes(a.pubkey) + ser_u64(a.lamports) + ser_bytes(a.owner) + ser_bool(a.executable)
        + ser_u64(a.rent_epoch) + ser_bytes(a.data) + ser_u64(a.write_version)
}

pub open spec fn parse_account_v1(s: Seq<u8>) -> Option<(KafkaReplicaAccountInfoView, Seq<u8>)> {
    match parse_bytes(s) {
        Some((pubkey, s)) => match parse_u64(s) {
            Some((lamports, s)) => match parse_bytes(s) {
                Some((owner, s)) => match parse_bool(s) {
                    Some((executable, s)) => match parse_u64(s) {
                        Some((rent_epoch, s)) => match parse_bytes(s) {
                            Some((data, s)) => match parse_u64(s) {
                                Some((write_version, s)) => Some(
                                    (
                                        KafkaReplicaAccountInfoView {
                                            pubkey,
                                            lamports,
                                            owner,
                                            executable,
                                            rent_epoch,
                                            data,
                                            write_version,
                                        },
                                        s,
                                    ),
                                ),
                                None => None,
                            },
                            None => None,
                        },
                        None => None,
                    },
                    None => None,
                },
                None => None,
            },
            None => None,
        },
        None => None,
    }
}

pub proof fn lemma_parse_ser_account_v1(a: KafkaReplicaAccountInfoView, rest: Seq<u8>)
    requires
        wf_account_v1(a),
    ensures
        parse_account_v1(ser_account_v1(a) + rest) == Some((a, rest)),
{
    let t6 = ser_u64(a.write_version) + rest;
    let t5 = ser_bytes(a.data) + t6;
    let t4 = ser_u64(a.rent_epoch) + t5;
    let t3 = ser_bool(a.executable) + t4;
    let t2 = ser_bytes(a.owner) + t3;
    let t1 = ser_u64(a.lamports) + t2;
    assert(ser_account_v1(a) + rest =~= ser_bytes(a.pubkey) + t1);
    lemma_parse_ser_bytes(a.pubkey, t1);
    lemma_parse_ser_u64(a.lamports, t2);
    lemma_parse_ser_bytes(a.owner, t3);
    lemma_parse_ser_bool(a.executable, t4);
    lemma_parse_ser_u64(a.rent_epoch, t5);
    lemma_parse_ser_bytes(a.data, t6);
    lemma_parse_ser_u64(a.write_version, rest);
}

pub fn enc_account_v1(out: &mut Vec<u8>, a: &KafkaReplicaAccountInfo)
    ensures
        final(out)@ == old(out)@ + ser_account_v1(a@),
{
    enc_bytes(out, &a.pubkey);
    enc_u64(out, a.lamports);
    enc_bytes(out, &a.owner);
    enc_bool(out, a.executable);
    enc_u64(out, a.rent_epoch);
    enc_bytes(out, &a.data);
    enc_u64(out, a.write_version);
    proof {
        assert(out@ =~= old(out)@ + ser_account_v1(a@));
    }
}

pub fn dec_account_v1(data: &Vec<u8>, pos: usize) -> (r: Option<(KafkaReplicaAccountInfo, usize)>)
    requires
        pos <= data@.len(),
    ensures
        match r {
            Some((v, next)) => pos <= next <= data@.len() && parse_account_v1(
                data@.skip(pos as int),
            ) == Some((v@, data@.skip(next as int))),
            None => parse_account_v1(data@.skip(pos as int)) is None,
        },
{
    let (pubkey, pos) = match dec_bytes(data, pos) {
        Some(x) => x,
        None => {
            return None;
        },
    };
    let (lamports, pos) = match dec_u64(data, pos) {
        Some(x) => x,
        None => {
            return None;
        },
    };
    let (owner, pos) = match dec_bytes(data, pos) {
        Some(x) => x,
        None => {
            return None;
        },
    };
    let (executable, pos) = match dec_bool(data, pos) {
        Some(x) => x,
        None => {
            return None;
        },
    };
    let (rent_epoch, pos) = match dec_u64(data, pos) {
        Some(x) => x,
        None => {
            return None;
        },
    };
    let (data_field, pos) = match dec_bytes(data, pos) {
        Some(x) => x,
        None => {
            return None;
        },
    };
    let (write_version, pos) = match dec_u64(data, pos) {
        Some(x) => x,
        None => {
            return None;
        },
    };
    let v = KafkaReplicaAccountInfo {
        pubkey,
        lamports,
        owner,
        executable,
        rent_epoch,
        data: data_field,
        write_version,
    };
    Some((v, pos))
}

pub open spec fn ser_account_v2(a: KafkaReplicaAccountInfoV2View) -> Seq<u8> {
    ser_bytes(a.pubkey) + ser_u64(a.lamports) + ser_bytes(a.owner) + ser_bool(a.executable)
        + ser_u64(a.rent_epoch) + ser_bytes(a.data) + ser_u64(a.write_version) + ser_opt_bytes(
        a.txn_signature,
    )
}

pub open spec fn parse_account_v2(s: Seq<u8>) -> Option<(KafkaReplicaAccountInfoV2View, Seq<u8>)> {
    match parse_bytes(s) {
        Some((pubkey, s)) => match parse_u64(s) {
            Some((lamports, s)) => match parse_bytes(s) {
                Some((owner, s)) => match parse_bool(s) {
                    Some((executable, s)) => match parse_u64(s) {
                        Some((rent_epoch, s)) => match parse_bytes(s) {
                            Some((data, s)) => match parse_u64(s) {
                                Some((write_version, s)) => match parse_opt_bytes(s) {
                                    Some((txn_signature, s)) => Some(
                                        (
                                            KafkaReplicaAccountInfoV2View {
                                                pubkey,
                                                lamports,
                                                owner,
                                                executable,
                                                rent_epoch,
                                                data,
                                                write_version,
                                                txn_signature,
                                            },
                                            s,
                                        ),
                                    ),
                                    None => None,
                                },
                                None => None,
                            },
                            None => None,
                        },
                        None => None,
                    },
                    None => None,
                },
                None => None,
            },
            None => None,
        },
        None => None,
    }
}

pub proof fn lemma_parse_ser_account_v2(a: KafkaReplicaAccountInfoV2View, rest: Seq<u8>)
    requires
        wf_account_v2(a),
    ensures
        parse_account_v2(ser_account_v2(a) + rest) == Some((a, rest)),
{
    let t7 = ser_opt_bytes(a.txn_signature) + rest;
    let t6 = ser_u64(a.write_version) + t7;
    let t5 = ser_bytes(a.data) + t6;
    let t4 = ser_u64(a.rent_epoch) + t5;
    let t3 = ser_bool(a.executable) + t4;
    let t2 = ser_bytes(a.owner) + t3;
    let t1 = ser_u64(a.lamports) + t2;
    assert(ser_account_v2(a) + rest =~= ser_bytes(a.pubkey) + t1);
    lemma_parse_ser_bytes(a.pubkey, t1);
    lemma_parse_ser_u64(a.lamports, t2);
    lemma_parse_ser_bytes(a.owner, t3);
    lemma_parse_ser_bool(a.executable, t4);
    lemma_parse_ser_u64(a.rent_epoch, t5);
    lemma_parse_ser_bytes(a.data, t6);
    lemma_parse_ser_u64(a.write_version, t7);
    lemma_parse_ser_opt_bytes(a.txn_signature, rest);
}

pub fn enc_account_v2(out: &mut Vec<u8>, a: &KafkaReplicaAccountInfoV2)
    ensures
        final(out)@ == old(out)@ + ser_account_v2(a@),
{
    enc_bytes(out, &a.pubkey);
    enc_u64(out, a.lamports);
    enc_bytes(out, &a.owner);
    enc_bool(out, a.executable);
    enc_u64(out, a.rent_epoch);
    enc_bytes(out, &a.data);
    enc_u64(out, a.write_version);
    enc_opt_bytes(out, &a.txn_signature);
    proof {
        assert(out@ =~= old(out)@ + ser_account_v2(a@));
    }
}

pub fn dec_account_v2(data: &Vec<u8>, pos: usize) -> (r: Option<
    (KafkaReplicaAccountInfoV2, usize),
>)
    requires
        pos <= data@.len(),
    ensures
        match r {
            Some((v, next)) => pos <= next <= data@.len() && parse_account_v2(
                data@.skip(pos as int),
            ) == Some((v@, data@.skip(next as int))),
            None => parse_account_v2(data@.skip(pos as int)) is None,
        },
{
    let (pubkey, pos) = match dec_bytes(data, pos) {
        Some(x) => x,
        None => {
            return None;
        },
    };
    let (lamports, pos) = match dec_u64(data, pos) {
        Some(x) => x,
        None => {
            return None;
        },
    };
    let (owner, pos) = match dec_bytes(data, pos) {
        Some(x) => x,
        None => {
            return None;
        },
    };
    let (executable, pos) = match dec_bool(data, pos) {
        Some(x) => x,
        None => {
            return None;
        },
    };
    let (rent_epoch, pos) = match dec_u64(data, pos) {
        Some(x) => x,
        None => {
            return None;
        },
    };
    let (data_field, pos) = match dec_bytes(data, pos) {
        Some(x) => x,
        None => {
            return None;
        },
    };
    let (write_version, pos) = match dec_u64(data, pos) {
        Some(x) => x,
        None => {
            return None;
        },
    };
    let (txn_signature, pos) = match dec_opt_bytes(data, pos) {
        Some(x) => x,
        None => {
            return None;
        },
    };
    let v = KafkaReplicaAccountInfoV2 {
        pubkey,
        lamports,
        owner,
        executable,
        rent_epoch,
        data: data_field,
        write_version,
        txn_signature,
    };
    Some((v, pos))
}

pub open spec fn ser_account_versions(a: KafkaReplicaAccountInfoVersionsView) -> Seq<u8> {
    match a {
        KafkaReplicaAccountInfoVersionsView::V0_0_1(v) => ser_u8(0) + ser_account_v1(v),
        KafkaReplicaAccountInfoVersionsView::V0_0_2(v) => ser_u8(1) + ser_account_v2(v),
    }
}

pub open spec fn parse_account_versions(s: Seq<u8>) -> Option<
    (KafkaReplicaAccountInfoVersionsView, Seq<u8>),
> {
    match parse_u8(s) {
        Some((t, r)) => if t == 0 {
            match parse_account_v1(r) {
                Some((v, r2)) => Some((KafkaReplicaAccountInfoVersionsView::V0_0_1(v), r2)),
                None => None,
            }
        } else if t == 1 {
            match parse_account_v2(r) {
                Some((v, r2)) => Some((KafkaReplicaAccountInfoVersionsView::V0_0_2(v), r2)),
                None => None,
            }
        } else {
            None
        },
        None => None,
    }
}

pub proof fn lemma_parse_ser_account_versions(
    a: KafkaReplicaAccountInfoVersionsView,
    rest: Seq<u8>,
)
    requires
        match a {
            KafkaReplicaAccountInfoVersionsView::V0_0_1(v) => wf_account_v1(v),
            KafkaReplicaAccountInfoVersionsView::V0_0_2(v) => wf_account_v2(v),
        },
    ensures
        parse_account_versions(ser_account_versions(a) + rest) == Some((a, rest)),
{
    match a {
        KafkaReplicaAccountInfoVersionsView::V0_0_1(v) => {
            assert(ser_account_versions(a) + rest =~= ser_u8(0) + (ser_account_v1(v) + rest));
            lemma_parse_ser_u8(0, ser_account_v1(v) + rest);
            lemma_parse_ser_account_v1(v, rest);
        },
        KafkaReplicaAccountInfoVersionsView::V0_0_2(v) => {
            assert(ser_account_versions(a) + rest =~= ser_u8(1) + (ser_account_v2(v) + rest));
            lemma_parse_ser_u8(1, ser_account_v2(v) + rest);
            lemma_parse_ser_account_v2(v, rest);
        },
    }
}

pub fn enc_account_versions(out: &mut Vec<u8>, a: &KafkaReplicaAccountInfoVersions)
    ensures
        final(out)@ == old(out)@ + ser_account_versions(a@),
{
    match a {
        KafkaReplicaAccountInfoVersions::V0_0_1(v) => {
            enc_u8(out, 0);
            enc_account_v1(out, v);
        },
        KafkaReplicaAccountInfoVersions::V0_0_2(v) => {
            enc_u8(out, 1);
            enc_account_v2(out, v);
        },
    }
    proof {
        assert(out@ =~= old(out)@ + ser_account_versions(a@));
    }
}

pub fn dec_account_versions(data: &Vec<u8>, pos: usize) -> (r: Option<
    (KafkaReplicaAccountInfoVersions, usize),
>)
    requires
        pos <= data@.len(),
    ensures
        match r {
            Some((v, next)) => pos <= next <= data@.len() && parse_account_versions(
                data@.skip(pos as int),
            ) == Some((v@, data@.skip(next as int))),
            None => parse_account_versions(data@.skip(pos as int)) is None,
        },
{
    match dec_u8(data, pos) {
        Some((t, next)) => {
            if t == 0 {
                match dec_account_v1(data, next) {
                    Some((v, next2)) => Some((KafkaReplicaAccountInfoVersions::V0_0_1(v), next2)),
                    None => None,
                }
            } else if t == 1 {
                match dec_account_v2(data, next) {
                    Some((v, next2)) => Some((KafkaReplicaAccountInfoVersions::V0_0_2(v), next2)),
                    None => None,
                }
            } else {
                None
            }
        },
        None => None,
    }
}

// ---------------------------------------------------------------------------
// The four event structs
// ---------------------------------------------------------------------------
pub open spec fn ser_update_account(u: UpdateAccountView) -> Seq<u8> {
    ser_account_versions(u.account) + ser_u64(u.slot) + ser_bool(u.is_startup)
}

pub open spec fn parse_update_account(s: Seq<u8>) -> Option<(UpdateAccountView, Seq<u8>)> {
    match parse_account_versions(s) {
        Some((account, s)) => match parse_u64(s) {
            Some((slot, s)) => match parse_bool(s) {
                Some((is_startup, s)) => Some((UpdateAccountView { account, slot, is_startup }, s)),
                None => None,
            },
            None => None,
        },
        None => None,
    }
}

pub proof fn lemma_parse_ser_update_account(u: UpdateAccountView, rest: Seq<u8>)
    requires
        wf_update_account(u),
    ensures
        parse_update_account(ser_update_account(u) + rest) == Some((u, rest)),
{
    let t2 = ser_bool(u.is_startup) + rest;
    let t1 = ser_u64(u.slot) + t2;
    assert(ser_update_account(u) + rest =~= ser_account_versions(u.account) + t1);
    lemma_parse_ser_account_versions(u.account, t1);
    lemma_parse_ser_u64(u.slot, t2);
    lemma_parse_ser_bool(u.is_startup, rest);
}

pub fn enc_update_account(out: &mut Vec<u8>, u: &UpdateAccount)
    ensures
        final(out)@ == old(out)@ + ser_update_account(u@),
{
    enc_account_versions(out, &u.account);
    enc_u64(out, u.slot);
    enc_bool(out, u.is_startup);
    proof {
        assert(out@ =~= old(out)@ + ser_update_account(u@));
    }
}

pub fn dec_update_account(data: &Vec<u8>, pos: usize) -> (r: Option<(UpdateAccount, usize)>)
    requires
        pos <= data@.len(),
    ensures
        match r {
            Some((v, next)) => pos <= next <= data@.len() && parse_update_account(
                data@.skip(pos as int),
            ) == Some((v@, data@.skip(next as int))),
            None => parse_update_account(data@.skip(pos as int)) is None,
        },
{
    let (account, pos) = match dec_account_versions(data, pos) {
        Some(x) => x,
        None => {
            return None;
        },
    };
    let (slot, pos) = match dec_u64(data, pos) {
        Some(x) => x,
        None => {
            return None;
        },
    };
    let (is_startup, pos) = match dec_bool(data, pos) {
        Some(x) => x,
        None => {
            return None;
        },
    };
    Some((UpdateAccount { account, slot, is_startup }, pos))
}

pub open spec fn ser_update_slot_status(u: UpdateSlotStatusView) -> Seq<u8> {
    ser_u64(u.slot) + ser_opt_u64(u.parent) + ser_slot_status(u.status) + ser_i64(u.retrieved_time)
}

pub open spec fn parse_update_slot_status(s: Seq<u8>) -> Option<(UpdateSlotStatusView, Seq<u8>)> {
    match parse_u64(s) {
        Some((slot, s)) => match parse_opt_u64(s) {
            Some((parent, s)) => match parse_slot_status(s) {
                Some((status, s)) => match parse_i64(s) {
                    Some((retrieved_time, s)) => Some(
                        (UpdateSlotStatusView { slot, parent, status, retrieved_time }, s),
                    ),
                    None => None,
                },
                None => None,
            },
            None => None,
        },
        None => None,
    }
}

pub proof fn lemma_parse_ser_update_slot_status(u: UpdateSlotStatusView, rest: Seq<u8>)
    ensures
        parse_update_slot_status(ser_update_slot_status(u) + rest) == Some((u, rest)),
{
    let t3 = ser_i64(u.retrieved_time) + rest;
    let t2 = ser_slot_status(u.status) + t3;
    let t1 = ser_opt_u64(u.parent) + t2;
    assert(ser_update_slot_status(u) + rest =~= ser_u64(u.slot) + t1);
    lemma_parse_ser_u64(u.slot, t1);
    lemma_parse_ser_opt_u64(u.parent, t2);
    lemma_parse_ser_slot_status(u.status, t3);
    lemma_parse_ser_i64(u.retrieved_time, rest);
}

pub fn enc_update_slot_status(out: &mut Vec<u8>, u: &UpdateSlotStatus)
    ensures
        final(out)@ == old(out)@ + ser_update_slot_status(u@),
{
    enc_u64(out, u.slot);
    enc_opt_u64(out, &u.parent);
    enc_slot_status(out, &u.status);
    enc_i64(out, u.retrieved_time);
    proof {
        assert(out@ =~= old(out)@ + ser_update_slot_status(u@));
    }
}

pub fn dec_update_slot_status(data: &Vec<u8>, pos: usize) -> (r: Option<(UpdateSlotStatus, usize)>)
    requires
        pos <= data@.len(),
    ensures
        match r {
            Some((v, next)) => pos <= next <= data@.len() && parse_update_slot_status(
                data@.skip(pos as int),
            ) == Some((v@, data@.skip(next as int))),
            None => parse_update_slot_status(data@.skip(pos as int)) is None,
        },
{
    let (slot, pos) = match dec_u64(data, pos) {
        Some(x) => x,
        None => {
            return None;
        },
    };
    let (parent, pos) = match dec_opt_u64(data, pos) {
        Some(x) => x,
        None => {
            return None;
        },
    };
    let (status, pos) = match dec_slot_status(data, pos) {
        Some(x) => x,
        None => {
            return None;
        },
    };
    let (retrieved_time, pos) = match dec_i64(data, pos) {
        Some(x) => x,
        None => {
            return None;
        },
    };
    Some((UpdateSlotStatus { slot, parent, status, retrieved_time }, pos))
}

// ---------------------------------------------------------------------------
// Transaction payloads
// ---------------------------------------------------------------------------
pub open spec fn ser_opt_string(v: Option<Seq<char>>) -> Seq<u8> {
    match v {
        None => ser_u8(0),
        Some(s) => ser_u8(1) + ser_string(s),
    }
}

pub open spec fn parse_opt_string(s: Seq<u8>) -> Option<(Option<Seq<char>>, Seq<u8>)> {
    match parse_u8(s) {
        Some((t, r)) => if t == 0 {
            Some((None, r))
        } else if t == 1 {
            match parse_string(r) {
                Some((v, r2)) => Some((Some(v), r2)),
                None => None,
            }
        } else {
            None
        },
        None => None,
    }
}

pub proof fn lemma_parse_ser_opt_string(v: Option<Seq<char>>, rest: Seq<u8>)
    requires
        match v {
            Some(s) => wf_text(s),
            None => true,
        },
    ensures
        parse_opt_string(ser_opt_string(v) + rest) == Some((v, rest)),
{
    match v {
        None => {
            lemma_parse_ser_u8(0, rest);
        },
        Some(s) => {
            assert(ser_opt_string(v) + rest =~= ser_u8(1) + (ser_string(s) + rest));
            lemma_parse_ser_u8(1, ser_string(s) + rest);
            lemma_parse_ser_string(s, rest);
        },
    }
}

pub fn enc_opt_string(out: &mut Vec<u8>, v: &Option<String>)
    ensures
        final(out)@ == old(out)@ + ser_opt_string(match *v {
            Some(ref s) => Some(s@),
            None => None,
        }),
{
    match v {
        None => enc_u8(out, 0),
        Some(s) => {
            enc_u8(out, 1);
            enc_string(out, s);
            proof {
                assert(out@ =~= old(out)@ + ser_opt_string(Some(s@)));
            }
        },
    }
}

pub fn dec_opt_string(data: &Vec<u8>, pos: usize) -> (r: Option<(Option<String>, usize)>)
    requires
        pos <= data@.len(),
    ensures
        match r {
            Some((v, next)) => pos <= next <= data@.len() && parse_opt_string(
                data@.skip(pos as int),
            ) == Some(
                (
                    match v {
                        Some(s) => Some(s@),
                        None => None,
                    },
                    data@.skip(next as int),
                ),
            ),
            None => parse_opt_string(data@.skip(pos as int)) is None,
        },
{
    match dec_u8(data, pos) {
        Some((t, next)) => {
            if t == 0 {
                Some((None, next))
            } else if t == 1 {
                match dec_string(data, next) {
                    Some((v, next2)) => Some((Some(v), next2)),
                    None => None,
                }
            } else {
                None
            }
        },
        None => None,
    }
}

pub open spec fn ser_opt_vec_string(v: Option<Seq<Seq<char>>>) -> Seq<u8> {
    match v {
        None => ser_u8(0),
        Some(vs) => ser_u8(1) + ser_vec_string(vs),
    }
}

pub open spec fn parse_opt_vec_string(s: Seq<u8>) -> Option<(Option<Seq<Seq<char>>>, Seq<u8>)> {
    match parse_u8(s) {
        Some((t, r)) => if t == 0 {
            Some((None, r))
        } else if t == 1 {
            match parse_vec_string(r) {
                Some((v, r2)) => Some((Some(v), r2)),
                None => None,
            }
        } else {
            None
        },
        None => None,
    }
}

pub proof fn lemma_parse_ser_opt_vec_string(v: Option<Seq<Seq<char>>>, rest: Seq<u8>)
    requires
        match v {
            Some(vs) => wf_text_seq(vs),
            None => true,
        },
    ensures
        parse_opt_vec_string(ser_opt_vec_string(v) + rest) == Some((v, rest)),
{
    match v {
        None => {
            lemma_parse_ser_u8(0, rest);
        },
        Some(vs) => {
            assert(ser_opt_vec_string(v) + rest =~= ser_u8(1) + (ser_vec_string(vs) + rest));
            lemma_parse_ser_u8(1, ser_vec_string(vs) + rest);
            lemma_parse_ser_vec_string(vs, rest);
        },
    }
}

pub fn enc_opt_vec_string(out: &mut Vec<u8>, v: &Option<Vec<String>>)
    ensures
        final(out)@ == old(out)@ + ser_opt_vec_string(match *v {
            Some(ref vs) => Some(string_seq_view(vs@)),
            None => None,
        }),
{
    match v {
        None => enc_u8(out, 0),
        Some(vs) => {
            enc_u8(out, 1);
            enc_vec_string(out, vs);
            proof {
                assert(out@ =~= old(out)@ + ser_opt_vec_string(Some(string_seq_view(vs@))));
            }
        },
    }
}

pub fn dec_opt_vec_string(data: &Vec<u8>, pos: usize) -> (r: Option<(Option<Vec<String>>, usize)>)
    requires
        pos <= data@.len(),
    ensures
        match r {
            Some((v, next)) => pos <= next <= data@.len() && parse_opt_vec_string(
                data@.skip(pos as int),
            ) == Some(
                (
                    match v {
                        Some(vs) => Some(string_seq_view(vs@)),
                        None => None,
                    },
                    data@.skip(next as int),
                ),
            ),
            None => parse_opt_vec_string(data@.skip(pos as int)) is None,
        },
{
    match dec_u8(data, pos) {
        Some((t, next)) => {
            if t == 0 {
                Some((None, next))
            } else if t == 1 {
                match dec_vec_string(data, next) {
                    Some((v, next2)) => Some((Some(v), next2)),
                    None => None,
                }
            } else {
                None
            }
        },
        None => None,
    }
}

pub open spec fn ser_opt_rewards(v: Option<Seq<KafkaRewardView>>) -> Seq<u8> {
    match v {
        None => ser_u8(0),
        Some(rs) => ser_u8(1) + ser_rewards(rs),
    }
}

pub open spec fn parse_opt_rewards(s: Seq<u8>) -> Option<
    (Option<Seq<KafkaRewardView>>, Seq<u8>),
> {
    match parse_u8(s) {
        Some((t, r)) => if t == 0 {
            Some((None, r))
        } else if t == 1 {
            match parse_rewards(r) {
                Some((v, r2)) => Some((Some(v), r2)),
                None => None,
            }
        } else {
            None
        },
        None => None,
    }
}

pub proof fn lemma_parse_ser_opt_rewards(v: Option<Seq<KafkaRewardView>>, rest: Seq<u8>)
    requires
        match v {
            Some(rs) => rs.len() <= u64::MAX && forall|i: int|
                0 <= i < rs.len() ==> wf_reward(#[trigger] rs[i]),
            None => true,
        },
    ensures
        parse_opt_rewards(ser_opt_rewards(v) + rest) == Some((v, rest)),
{
    match v {
        None => {
            lemma_parse_ser_u8(0, rest);
        },
        Some(rs) => {
            assert(ser_opt_rewards(v) + rest =~= ser_u8(1) + (ser_rewards(rs) + rest));
            lemma_parse_ser_u8(1, ser_rewards(rs) + rest);
            lemma_parse_ser_rewards(rs, rest);
        },
    }
}

pub fn enc_opt_rewards(out: &mut Vec<u8>, v: &Option<Vec<KafkaReward>>)
    ensures
        final(out)@ == old(out)@ + ser_opt_rewards(match *v {
            Some(ref rs) => Some(rewards_view(rs@)),
            None => None,
        }),
{
    match v {
        None => enc_u8(out, 0),
        Some(rs) => {
            enc_u8(out, 1);
            enc_rewards(out, rs);
            proof {
                assert(out@ =~= old(out)@ + ser_opt_rewards(Some(rewards_view(rs@))));
            }
        },
    }
}

pub fn dec_opt_rewards(data: &Vec<u8>, pos: usize) -> (r: Option<
    (Option<Vec<KafkaReward>>, usize),
>)
    requires
        pos <= data@.len(),
    ensures
        match r {
            Some((v, next)) => pos <= next <= data@.len() && parse_opt_rewards(
                data@.skip(pos as int),
            ) == Some(
                (
                    match v {
                        Some(rs) => Some(rewards_view(rs@)),
                        None => None,
                    },
                    data@.skip(next as int),
                ),
            ),
            None => parse_opt_rewards(data@.skip(pos as int)) is None,
        },
{
    match dec_u8(data, pos) {
        Some((t, next)) => {
            if t == 0 {
                Some((None, next))
            } else if t == 1 {
                match dec_rewards(data, next) {
                    Some((v, next2)) => Some((Some(v), next2)),
                    None => None,
                }
            } else {
                None
            }
        },
        None => None,
    }
}

pub open spec fn ser_sanitized_transaction(t: KafkaSanitizedTransactionView) -> Seq<u8> {
    ser_bytes(t.message_hash) + ser_bool(t.is_simple_vote_tx) + ser_vec_bytes(t.signatures)
}

pub open spec fn parse_sanitized_transaction(s: Seq<u8>) -> Option<
    (KafkaSanitizedTransactionView, Seq<u8>),
> {
    match parse_bytes(s) {
        Some((message_hash, s)) => match parse_bool(s) {
            Some((is_simple_vote_tx, s)) => match parse_vec_bytes(s) {
                Some((signatures, s)) => Some(
                    (
                        KafkaSanitizedTransactionView {
                            message_hash,
                            is_simple_vote_tx,
                            signatures,
                        },
                        s,
                    ),
                ),
                None => None,
            },
            None => None,
        },
        None => None,
    }
}

pub proof fn lemma_parse_ser_sanitized_transaction(t: KafkaSanitizedTransactionView, rest: Seq<u8>)
    requires
        wf_sanitized_transaction(t),
    ensures
        parse_sanitized_transaction(ser_sanitized_transaction(t) + rest) == Some((t, rest)),
{
    let t2 = ser_vec_bytes(t.signatures) + rest;
    let t1 = ser_bool(t.is_simple_vote_tx) + t2;
    assert(ser_sanitized_transaction(t) + rest =~= ser_bytes(t.message_hash) + t1);
    lemma_parse_ser_bytes(t.message_hash, t1);
    lemma_parse_ser_bool(t.is_simple_vote_tx, t2);
    lemma_parse_ser_vec_bytes(t.signatures, rest);
}

pub fn enc_sanitized_transaction(out: &mut Vec<u8>, t: &KafkaSanitizedTransaction)
    ensures
        final(out)@ == old(out)@ + ser_sanitized_transaction(t@),
{
    enc_bytes(out, &t.message_hash);
    enc_bool(out, t.is_simple_vote_tx);
    enc_vec_bytes(out, &t.signatures);
    proof {
        assert(bytes_seq_view(t.signatures@) =~= t@.signatures);
        assert(out@ =~= old(out)@ + ser_sanitized_transaction(t@));
    }
}

pub fn dec_sanitized_transaction(data: &Vec<u8>, pos: usize) -> (r: Option<
    (KafkaSanitizedTransaction, usize),
>)
    requires
        pos <= data@.len(),
    ensures
        match r {
            Some((v, next)) => pos <= next <= data@.len() && parse_sanitized_transaction(
                data@.skip(pos as int),
            ) == Some((v@, data@.skip(next as int))),
            None => parse_sanitized_transaction(data@.skip(pos as int)) is None,
        },
{
    let (message_hash, pos2) = match dec_bytes(data, pos) {
        Some(x) => x,
        None => {
            return None;
        },
    };
    let (is_simple_vote_tx, pos3) = match dec_bool(data, pos2) {
        Some(x) => x,
        None => {
            return None;
        },
    };
    let (signatures, pos4) = match dec_vec_bytes(data, pos3) {
        Some(x) => x,
        None => {
            return None;
        },
    };
    let v = KafkaSanitizedTransaction { message_hash, is_simple_vote_tx, signatures };
    proof {
        assert(v@.signatures =~= bytes_seq_view(signatures@));
    }
    Some((v, pos4))
}

pub open spec fn ser_status_meta(m: KafkaTransactionStatusMetaView) -> Seq<u8> {
    ser_opt_string(m.status_err) + ser_u64(m.fee) + ser_vec_u64(m.pre_balances) + ser_vec_u64(
        m.post_balances,
    ) + ser_opt_vec_string(m.log_messages) + ser_opt_rewards(m.rewards)
}

pub open spec fn parse_status_meta(s: Seq<u8>) -> Option<
    (KafkaTransactionStatusMetaView, Seq<u8>),
> {
    match parse_opt_string(s) {
        Some((status_err, s)) => match parse_u64(s) {
            Some((fee, s)) => match parse_vec_u64(s) {
                Some((pre_balances, s)) => match parse_vec_u64(s) {
                    Some((post_balances, s)) => match parse_opt_vec_string(s) {
                        Some((log_messages, s)) => match parse_opt_rewards(s) {
                            Some((rewards, s)) => Some(
                                (
                                    KafkaTransactionStatusMetaView {
                                        status_err,
                                        fee,
                                        pre_balances,
                                        post_balances,
                                        log_messages,
                                        rewards,
                                    },
                                    s,
                                ),
                            ),
                            None => None,
                        },
                        None => None,
                    },
                    None => None,
                },
                None => None,
            },
            None => None,
        },
        None => None,
    }
}

#[verifier::rlimit(60)]
#[verifier::spinoff_prover]
pub proof fn lemma_parse_ser_status_meta(m: KafkaTransactionStatusMetaView, rest: Seq<u8>)
    requires
        wf_status_meta(m),
    ensures
        parse_status_meta(ser_status_meta(m) + rest) == Some((m, rest)),
{
    let t5 = ser_opt_rewards(m.rewards) + rest;
    let t4 = ser_opt_vec_string(m.log_messages) + t5;
    let t3 = ser_vec_u64(m.post_balances) + t4;
    let t2 = ser_vec_u64(m.pre_balances) + t3;
    let t1 = ser_u64(m.fee) + t2;
    assert(ser_status_meta(m) + rest =~= ser_opt_string(m.status_err) + t1);
    lemma_parse_ser_opt_string(m.status_err, t1);
    lemma_parse_ser_u64(m.fee, t2);
    lemma_parse_ser_vec_u64(m.pre_balances, t3);
    lemma_parse_ser_vec_u64(m.post_balances, t4);
    lemma_parse_ser_opt_vec_string(m.log_messages, t5);
    lemma_parse_ser_opt_rewards(m.rewards, rest);
}

pub fn enc_status_meta(out: &mut Vec<u8>, m: &KafkaTransactionStatusMeta)
    ensures
        final(out)@ == old(out)@ + ser_status_meta(m@),
{
    enc_opt_string(out, &m.status_err);
    enc_u64(out, m.fee);
    enc_vec_u64(out, &m.pre_balances);
    enc_vec_u64(out, &m.post_balances);
    enc_opt_vec_string(out, &m.log_messages);
    enc_opt_rewards(out, &m.rewards);
    proof {
        assert(out@ =~= old(out)@ + ser_status_meta(m@));
    }
}

pub fn dec_status_meta(data: &Vec<u8>, pos: usize) -> (r: Option<
    (KafkaTransactionStatusMeta, usize),
>)
    requires
        pos <= data@.len(),
    ensures
        match r {
            Some((v, next)) => pos <= next <= data@.len() && parse_status_meta(
                data@.skip(pos as int),
            ) == Some((v@, data@.skip(next as int))),
            None => parse_status_meta(data@.skip(pos as int)) is None,
        },
{
    let (status_err, pos2) = match dec_opt_string(data, pos) {
        Some(x) => x,
        None => {
            return None;
        },
    };
    let (fee, pos3) = match dec_u64(data, pos2) {
        Some(x) => x,
        None => {
            return None;
        },
    };
    let (pre_balances, pos4) = match dec_vec_u64(data, pos3) {
        Some(x) => x,
        None => {
            return None;
        },
    };
    let (post_balances, pos5) = match dec_vec_u64(data, pos4) {
        Some(x) => x,
        None => {
            return None;
        },
    };
    let (log_messages, pos6) = match dec_opt_vec_string(data, pos5) {
        Some(x) => x,
        None => {
            return None;
        },
    };
    let (rewards, pos7) = match dec_opt_rewards(data, pos6) {
        Some(x) => x,
        None => {
            return None;
        },
    };
    let v = KafkaTransactionStatusMeta {
        status_err,
        fee,
        pre_balances,
        post_balances,
        log_messages,
        rewards,
    };
    proof {
        assert(v@ =~= parse_status_meta(data@.skip(pos as int))->Some_0.0);
    }
    Some((v, pos7))
}

pub open spec fn ser_transaction_v1(t: KafkaReplicaTransactionInfoView) -> Seq<u8> {
    ser_bytes(t.signature) + ser_bool(t.is_vote) + ser_sanitized_transaction(t.transaction)
        + ser_status_meta(t.transaction_status_meta)
}

pub open spec fn parse_transaction_v1(s: Seq<u8>) -> Option<
    (KafkaReplicaTransactionInfoView, Seq<u8>),
> {
    match parse_bytes(s) {
        Some((signature, s)) => match parse_bool(s) {
            Some((is_vote, s)) => match parse_sanitized_transaction(s) {
                Some((transaction, s)) => match parse_status_meta(s) {
                    Some((transaction_status_meta, s)) => Some(
                        (
                            KafkaReplicaTransactionInfoView {
                                signature,
                                is_vote,
                                transaction,
                                transaction_status_meta,
                            },
                            s,
                        ),
                    ),
                    None => None,
                },
                None => None,
            },
            None => None,
        },
        None => None,
    }
}

pub proof fn lemma_parse_ser_transaction_v1(t: KafkaReplicaTransactionInfoView, rest: Seq<u8>)
    requires
        wf_transaction_v1(t),
    ensures
        parse_transaction_v1(ser_transaction_v1(t) + rest) == Some((t, rest)),
{
    let t3 = ser_status_meta(t.transaction_status_meta) + rest;
    let t2 = ser_sanitized_transaction(t.transaction) + t3;
    let t1 = ser_bool(t.is_vote) + t2;
    assert(ser_transaction_v1(t) + rest =~= ser_bytes(t.signature) + t1);
    lemma_parse_ser_bytes(t.signature, t1);
    lemma_parse_ser_bool(t.is_vote, t2);
    lemma_parse_ser_sanitized_transaction(t.transaction, t3);
    lemma_parse_ser_status_meta(t.transaction_status_meta, rest);
}

pub fn enc_transaction_v1(out: &mut Vec<u8>, t: &KafkaReplicaTransactionInfo)
    ensures
        final(out)@ == old(out)@ + ser_transaction_v1(t@),
{
    enc_bytes(out, &t.signature);
    enc_bool(out, t.is_vote);
    enc_sanitized_transaction(out, &t.transaction);
    enc_status_meta(out, &t.transaction_status_meta);
    proof {
        assert(out@ =~= old(out)@ + ser_transaction_v1(t@));
    }
}

pub fn dec_transaction_v1(data: &Vec<u8>, pos: usize) -> (r: Option<
    (KafkaReplicaTransactionInfo, usize),
>)
    requires
        pos <= data@.len(),
    ensures
        match r {
            Some((v, next)) => pos <= next <= data@.len() && parse_transaction_v1(
                data@.skip(pos as int),
            ) == Some((v@, data@.skip(next as int))),
            None => parse_transaction_v1(data@.skip(pos as int)) is None,
        },
{
    let (signature, pos2) = match dec_bytes(data, pos) {
        Some(x) => x,
        None => {
            return None;
        },
    };
    let (is_vote, pos3) = match dec_bool(data, pos2) {
        Some(x) => x,
        None => {
            return None;
        },
    };
    let (transaction, pos4) = match dec_sanitized_transaction(data, pos3) {
        Some(x) => x,
        None => {
            return None;
        },
    };
    let (transaction_status_meta, pos5) = match dec_status_meta(data, pos4) {
        Some(x) => x,
        None => {
            return None;
        },
    };
    Some(
        (
            KafkaReplicaTransactionInfo { signature, is_vote, transaction, transaction_status_meta },
            pos5,
        ),
    )
}

pub open spec fn ser_transaction_v2(t: KafkaReplicaTransactionInfoV2View) -> Seq<u8> {
    ser_bytes(t.signature) + ser_bool(t.is_vote) + ser_sanitized_transaction(t.transaction)
        + ser_status_meta(t.transaction_status_meta) + ser_u64(t.index)
}

pub open spec fn parse_transaction_v2(s: Seq<u8>) -> Option<
    (KafkaReplicaTransactionInfoV2View, Seq<u8>),
> {
    match parse_bytes(s) {
        Some((signature, s)) => match parse_bool(s) {
            Some((is_vote, s)) => match parse_sanitized_transaction(s) {
                Some((transaction, s)) => match parse_status_meta(s) {
                    Some((transaction_status_meta, s)) => match parse_u64(s) {
                        Some((index, s)) => Some(
                            (
                                KafkaReplicaTransactionInfoV2View {
                                    signature,
                                    is_vote,
                                    transaction,
                                    transaction_status_meta,
                                    index,
                                },
                                s,
                            ),
                        ),
                        None => None,
                    },
                    None => None,
                },
                None => None,
            },
            None => None,
        },
        None => None,
    }
}

pub proof fn lemma_parse_ser_transaction_v2(t: KafkaReplicaTransactionInfoV2View, rest: Seq<u8>)
    requires
        wf_transaction_v2(t),
    ensures
        parse_transaction_v2(ser_transaction_v2(t) + rest) == Some((t, rest)),
{
    let t4 = ser_u64(t.index) + rest;
    let t3 = ser_status_meta(t.transaction_status_meta) + t4;
    let t2 = ser_sanitized_transaction(t.transaction) + t3;
    let t1 = ser_bool(t.is_vote) + t2;
    assert(ser_transaction_v2(t) + rest =~= ser_bytes(t.signature) + t1);
    lemma_parse_ser_bytes(t.signature, t1);
    lemma_parse_ser_bool(t.is_vote, t2);
    lemma_parse_ser_sanitized_transaction(t.transaction, t3);
    lemma_parse_ser_status_meta(t.transaction_status_meta, t4);
    lemma_parse_ser_u64(t.index, rest);
}

pub fn enc_transaction_v2(out: &mut Vec<u8>, t: &KafkaReplicaTransactionInfoV2)
    ensures
        final(out)@ == old(out)@ + ser_transaction_v2(t@),
{
    enc_bytes(out, &t.signature);
    enc_bool(out, t.is_vote);
    enc_sanitized_transaction(out, &t.transaction);
    enc_status_meta(out, &t.transaction_status_meta);
    enc_u64(out, t.index);
    proof {
        assert(out@ =~= old(out)@ + ser_transaction_v2(t@));
    }
}

pub fn dec_transaction_v2(data: &Vec<u8>, pos: usize) -> (r: Option<
    (KafkaReplicaTransactionInfoV2, usize),
>)
    requires
        pos <= data@.len(),
    ensures
        match r {
            Some((v, next)) => pos <= next <= data@.len() && parse_transaction_v2(
                data@.skip(pos as int),
            ) == Some((v@, data@.skip(next as int))),
            None => parse_transaction_v2(data@.skip(pos as int)) is None,
        },
{
    let (signature, pos2) = match dec_bytes(data, pos) {
        Some(x) => x,
        None => {
            return None;
        },
    };
    let (is_vote, pos3) = match dec_bool(data, pos2) {
        Some(x) => x,
        None => {
            return None;
        },
    };
    let (transaction, pos4) = match dec_sanitized_transaction(data, pos3) {
        Some(x) => x,
        None => {
            return None;
        },
    };
    let (transaction_status_meta, pos5) = match dec_status_meta(data, pos4) {
        Some(x) => x,
        None => {
            return None;
        },
    };
    let (index, pos6) = match dec_u64(data, pos5) {
        Some(x) => x,
        None => {
            return None;
        },
    };
    Some(
        (
            KafkaReplicaTransactionInfoV2 {
                signature,
                is_vote,
                transaction,
                transaction_status_meta,
                index,
            },
            pos6,
        ),
    )
}

pub open spec fn ser_transaction_versions(t: KafkaReplicaTransactionInfoVersionsView) -> Seq<u8> {
    match t {
        KafkaReplicaTransactionInfoVersionsView::V0_0_1(v) => ser_u8(0) + ser_transaction_v1(v),
        KafkaReplicaTransactionInfoVersionsView::V0_0_2(v) => ser_u8(1) + ser_transaction_v2(v),
    }
}

pub open spec fn parse_transaction_versions(s: Seq<u8>) -> Option<
    (KafkaReplicaTransactionInfoVersionsView, Seq<u8>),
> {
    match parse_u8(s) {
        Some((t, r)) => if t == 0 {
            match parse_transaction_v1(r) {
                Some((v, r2)) => Some((KafkaReplicaTransactionInfoVersionsView::V0_0_1(v), r2)),
                None => None,
            }
        } else if t == 1 {
            match parse_transaction_v2(r) {
                Some((v, r2)) => Some((KafkaReplicaTransactionInfoVersionsView::V0_0_2(v), r2)),
                None => None,
            }
        } else {
            None
        },
        None => None,
    }
}

pub proof fn lemma_parse_ser_transaction_versions(
    t: KafkaReplicaTransactionInfoVersionsView,
    rest: Seq<u8>,
)
    requires
        wf_transaction_info(t),
    ensures
        parse_transaction_versions(ser_transaction_versions(t) + rest) == Some((t, rest)),
{
    match t {
        KafkaReplicaTransactionInfoVersionsView::V0_0_1(v) => {
            assert(ser_transaction_versions(t) + rest =~= ser_u8(0) + (ser_transaction_v1(v)
                + rest));
            lemma_parse_ser_u8(0, ser_transaction_v1(v) + rest);
            lemma_parse_ser_transaction_v1(v, rest);
        },
        KafkaReplicaTransactionInfoVersionsView::V0_0_2(v) => {
            assert(ser_transaction_versions(t) + rest =~= ser_u8(1) + (ser_transaction_v2(v)
                + rest));
            lemma_parse_ser_u8(1, ser_transaction_v2(v) + rest);
            lemma_parse_ser_transaction_v2(v, rest);
        },
    }
}

pub fn enc_transaction_versions(out: &mut Vec<u8>, t: &KafkaReplicaTransactionInfoVersions)
    ensures
        final(out)@ == old(out)@ + ser_transaction_versions(t@),
{
    match t {
        KafkaReplicaTransactionInfoVersions::V0_0_1(v) => {
            enc_u8(out, 0);
            enc_transaction_v1(out, v);
        },
        KafkaReplicaTransactionInfoVersions::V0_0_2(v) => {
            enc_u8(out, 1);
            enc_transaction_v2(out, v);
        },
    }
    proof {
        assert(out@ =~= old(out)@ + ser_transaction_versions(t@));
    }
}

pub fn dec_transaction_versions(data: &Vec<u8>, pos: usize) -> (r: Option<
    (KafkaReplicaTransactionInfoVersions, usize),
>)
    requires
        pos <= data@.len(),
    ensures
        match r {
            Some((v, next)) => pos <= next <= data@.len() && parse_transaction_versions(
                data@.skip(pos as int),
            ) == Some((v@, data@.skip(next as int))),
            None => parse_transaction_versions(data@.skip(pos as int)) is None,
        },
{
    match dec_u8(data, pos) {
        Some((t, next)) => {
            if t == 0 {
                match dec_transaction_v1(data, next) {
                    Some((v, next2)) => Some(
                        (KafkaReplicaTransactionInfoVersions::V0_0_1(v), next2),
                    ),
                    None => None,
                }
            } else if t == 1 {
                match dec_transaction_v2(data, next) {
                    Some((v, next2)) => Some(
                        (KafkaReplicaTransactionInfoVersions::V0_0_2(v), next2),
                    ),
                    None => None,
                }
            } else {
                None
            }
        },
        None => None,
    }
}

pub open spec fn ser_notify_transaction(t: NotifyTransactionView) -> Seq<u8> {
    ser_transaction_versions(t.transaction_info) + ser_u64(t.slot)
}

pub open spec fn parse_notify_transaction(s: Seq<u8>) -> Option<(NotifyTransactionView, Seq<u8>)> {
    match parse_transaction_versions(s) {
        Some((transaction_info, s)) => match parse_u64(s) {
            Some((slot, s)) => Some((NotifyTransactionView { transaction_info, slot }, s)),
            None => None,
        },
        None => None,
    }
}

pub proof fn lemma_parse_ser_notify_transaction(t: NotifyTransactionView, rest: Seq<u8>)
    requires
        wf_notify_transaction(t),
    ensures
        parse_notify_transaction(ser_notify_transaction(t) + rest) == Some((t, rest)),
{
    let t1 = ser_u64(t.slot) + rest;
    assert(ser_notify_transaction(t) + rest =~= ser_transaction_versions(t.transaction_info) + t1);
    lemma_parse_ser_transaction_versions(t.transaction_info, t1);
    lemma_parse_ser_u64(t.slot, rest);
}

pub fn enc_notify_transaction(out: &mut Vec<u8>, t: &NotifyTransaction)
    ensures
        final(out)@ == old(out)@ + ser_notify_transaction(t@),
{
    enc_transaction_versions(out, &t.transaction_info);
    enc_u64(out, t.slot);
    proof {
        assert(out@ =~= old(out)@ + ser_notify_transaction(t@));
    }
}

pub fn dec_notify_transaction(data: &Vec<u8>, pos: usize) -> (r: Option<
    (NotifyTransaction, usize),
>)
    requires
        pos <= data@.len(),
    ensures
        match r {
            Some((v, next)) => pos <= next <= data@.len() && parse_notify_transaction(
                data@.skip(pos as int),
            ) == Some((v@, data@.skip(next as int))),
            None => parse_notify_transaction(data@.skip(pos as int)) is None,
        },
{
    let (transaction_info, pos) = match dec_transaction_versions(data, pos) {
        Some(x) => x,
        None => {
            return None;
        },
    };
    let (slot, pos) = match dec_u64(data, pos) {
        Some(x) => x,
        None => {
            return None;
        },
    };
    Some((NotifyTransaction { transaction_info, slot }, pos))
}

// ---------------------------------------------------------------------------
// Block payloads
// ---------------------------------------------------------------------------
pub open spec fn ser_reward(r: KafkaRewardView) -> Seq<u8> {
    ser_string(r.pubkey) + ser_i64(r.lamports) + ser_u64(r.post_balance) + ser_opt_reward_type(
        r.reward_type,
    ) + ser_opt_u8(r.commission)
}

pub open spec fn parse_reward(s: Seq<u8>) -> Option<(KafkaRewardView, Seq<u8>)> {
    match parse_string(s) {
        Some((pubkey, s)) => match parse_i64(s) {
            Some((lamports, s)) => match parse_u64(s) {
                Some((post_balance, s)) => match parse_opt_reward_type(s) {
                    Some((reward_type, s)) => match parse_opt_u8(s) {
                        Some((commission, s)) => Some(
                            (
                                KafkaRewardView {
                                    pubkey,
                                    lamports,
                                    post_balance,
                                    reward_type,
                                    commission,
                                },
                                s,
                            ),
                        ),
                        None => None,
                    },
                    None => None,
                },
                None => None,
            },
            None => None,
        },
        None => None,
    }
}

pub proof fn lemma_parse_ser_reward(r: KafkaRewardView, rest: Seq<u8>)
    requires
        wf_reward(r),
    ensures
        parse_reward(ser_reward(r) + rest) == Some((r, rest)),
{
    let t4 = ser_opt_u8(r.commission) + rest;
    let t3 = ser_opt_reward_type(r.reward_type) + t4;
    let t2 = ser_u64(r.post_balance) + t3;
    let t1 = ser_i64(r.lamports) + t2;
    assert(ser_reward(r) + rest =~= ser_string(r.pubkey) + t1);
    lemma_parse_ser_string(r.pubkey, t1);
    lemma_parse_ser_i64(r.lamports, t2);
    lemma_parse_ser_u64(r.post_balance, t3);
    lemma_parse_ser_opt_reward_type(r.reward_type, t4);
    lemma_parse_ser_opt_u8(r.commission, rest);
}

pub fn enc_reward(out: &mut Vec<u8>, r: &KafkaReward)
    ensures
        final(out)@ == old(out)@ + ser_reward(r@),
{
    enc_string(out, &r.pubkey);
    enc_i64(out, r.lamports);
    enc_u64(out, r.post_balance);
    enc_opt_reward_type(out, &r.reward_type);
    enc_opt_u8(out, &r.commission);
    proof {
        assert(out@ =~= old(out)@ + ser_reward(r@));
    }
}

pub fn dec_reward(data: &Vec<u8>, pos: usize) -> (r: Option<(KafkaReward, usize)>)
    requires
        pos <= data@.len(),
    ensures
        match r {
            Some((v, next)) => pos <= next <= data@.len() && parse_reward(data@.skip(pos as int))
                == Some((v@, data@.skip(next as int))),
            None => parse_reward(data@.skip(pos as int)) is None,
        },
{
    let (pubkey, pos) = match dec_string(data, pos) {
        Some(x) => x,
        None => {
            return None;
        },
    };
    let (lamports, pos) = match dec_i64(data, pos) {
        Some(x) => x,
        None => {
            return None;
        },
    };
    let (post_balance, pos) = match dec_u64(data, pos) {
        Some(x) => x,
        None => {
            return None;
        },
    };
    let (reward_type, pos) = match dec_opt_reward_type(data, pos) {
        Some(x) => x,
        None => {
            return None;
        },
    };
    let (commission, pos) = match dec_opt_u8(data, pos) {
        Some(x) => x,
        None => {
            return None;
        },
    };
    Some((KafkaReward { pubkey, lamports, post_balance, reward_type, commission }, pos))
}

/// The views of a vector of rewards, in order.
pub open spec fn rewards_view(rs: Seq<KafkaReward>) -> Seq<KafkaRewardView> {
    Seq::new(rs.len(), |i: int| rs[i]@)
}

pub open spec fn ser_reward_seq(rs: Seq<KafkaRewardView>) -> Seq<u8>
    decreases rs.len(),
{
    if rs.len() == 0 {
        Seq::empty()
    } else {
        ser_reward(rs[0]) + ser_reward_seq(rs.skip(1))
    }
}

/// A reward list travels as a 64-bit count followed by the rewards.
pub open spec fn ser_rewards(rs: Seq<KafkaRewardView>) -> Seq<u8> {
    ser_u64(rs.len() as u64) + ser_reward_seq(rs)
}

pub open spec fn parse_reward_seq(s: Seq<u8>, n: nat) -> Option<(Seq<KafkaRewardView>, Seq<u8>)>
    decreases n,
{
    if n == 0 {
        Some((Seq::empty(), s))
    } else {
        match parse_reward(s) {
            Some((r0, s1)) => match parse_reward_seq(s1, (n - 1) as nat) {
                Some((rs, s2)) => Some((seq![r0] + rs, s2)),
                None => None,
            },
            None => None,
        }
    }
}

pub open spec fn parse_rewards(s: Seq<u8>) -> Option<(Seq<KafkaRewardView>, Seq<u8>)> {
    match parse_u64(s) {
        Some((n, r)) => parse_reward_seq(r, n as nat),
        None => None,
    }
}

pub proof fn lemma_parse_ser_reward_seq(rs: Seq<KafkaRewardView>, rest: Seq<u8>)
    requires
        forall|i: int| 0 <= i < rs.len() ==> wf_reward(#[trigger] rs[i]),
    ensures
        parse_reward_seq(ser_reward_seq(rs) + rest, rs.len()) == Some((rs, rest)),
    decreases rs.len(),
{
    if rs.len() == 0 {
        assert(ser_reward_seq(rs) + rest =~= rest);
        assert(rs =~= Seq::<KafkaRewardView>::empty());
    } else {
        let tail = rs.skip(1);
        assert(ser_reward_seq(rs) + rest =~= ser_reward(rs[0]) + (ser_reward_seq(tail) + rest));
        lemma_parse_ser_reward(rs[0], ser_reward_seq(tail) + rest);
        lemma_parse_ser_reward_seq(tail, rest);
        assert(seq![rs[0]] + tail =~= rs);
    }
}

pub proof fn lemma_parse_ser_rewards(rs: Seq<KafkaRewardView>, rest: Seq<u8>)
    requires
        rs.len() <= u64::MAX,
        forall|i: int| 0 <= i < rs.len() ==> wf_reward(#[trigger] rs[i]),
    ensures
        parse_rewards(ser_rewards(rs) + rest) == Some((rs, rest)),
{
    assert(ser_rewards(rs) + rest =~= ser_u64(rs.len() as u64) + (ser_reward_seq(rs) + rest));
    lemma_parse_ser_u64(rs.len() as u64, ser_reward_seq(rs) + rest);
    lemma_parse_ser_reward_seq(rs, rest);
}

proof fn lemma_ser_reward_seq_push(rs: Seq<KafkaRewardView>, r: KafkaRewardView)
    ensures
        ser_reward_seq(rs.push(r)) == ser_reward_seq(rs) + ser_reward(r),
    decreases rs.len(),
{
    if rs.len() == 0 {
        assert(rs.push(r)[0] == r);
        assert(rs.push(r).skip(1) =~= rs);
        assert(ser_reward_seq(rs.push(r)) == ser_reward(r) + ser_reward_seq(rs));
        assert(ser_reward_seq(rs) == Seq::<u8>::empty());
        assert(ser_reward(r) + Seq::<u8>::empty() =~= Seq::<u8>::empty() + ser_reward(r));
    } else {
        let s = rs.skip(1);
        assert(rs.push(r).skip(1) =~= s.push(r));
        lemma_ser_reward_seq_push(s, r);
        assert(rs.push(r)[0] == rs[0]);
        assert(ser_reward_seq(rs.push(r)) == ser_reward(rs[0]) + ser_reward_seq(s.push(r)));
        assert(ser_reward(rs[0]) + (ser_reward_seq(s) + ser_reward(r)) =~= (ser_reward(rs[0])
            + ser_reward_seq(s)) + ser_reward(r));
        assert(ser_reward_seq(rs) == ser_reward(rs[0]) + ser_reward_seq(s));
    }
}

pub fn enc_rewards(out: &mut Vec<u8>, rs: &Vec<KafkaReward>)
    ensures
        final(out)@ == old(out)@ + ser_rewards(rewards_view(rs@)),
{
    enc_u64(out, rs.len() as u64);
    let n = rs.len();
    let mut i: usize = 0;
    while i < n
        invariant
            0 <= i <= n == rs@.len(),
            out@ == old(out)@ + ser_u64(rs@.len() as u64) + ser_reward_seq(
                rewards_view(rs@).take(i as int),
            ),
        decreases n - i,
    {
        let ghost pre = out@;
        enc_reward(out, &rs[i]);
        proof {
            lemma_ser_reward_seq_push(rewards_view(rs@).take(i as int), rs@[i as int]@);
            assert(rewards_view(rs@).take(i + 1) =~= rewards_view(rs@).take(i as int).push(
                rs@[i as int]@,
            ));
            assert(out@ =~= old(out)@ + ser_u64(rs@.len() as u64) + ser_reward_seq(
                rewards_view(rs@).take(i + 1),
            ));
        }
        i += 1;
    }
    proof {
        assert(rewards_view(rs@).take(n as int) =~= rewards_view(rs@));
        assert(out@ =~= old(out)@ + ser_rewards(rewards_view(rs@)));
    }
}

/// The result of a partial element-list parse, with `prefix` already
/// consumed.
spec fn with_prefix<T>(
    prefix: Seq<T>,
    r: Option<(Seq<T>, Seq<u8>)>,
) -> Option<(Seq<T>, Seq<u8>)> {
    match r {
        Some((rs, rem)) => Some((prefix + rs, rem)),
        None => None,
    }
}

pub fn dec_rewards(data: &Vec<u8>, pos: usize) -> (r: Option<(Vec<KafkaReward>, usize)>)
    requires
        pos <= data@.len(),
    ensures
        match r {
            Some((v, next)) => pos <= next <= data@.len() && parse_rewards(data@.skip(pos as int))
                == Some((rewards_view(v@), data@.skip(next as int))),
            None => parse_rewards(data@.skip(pos as int)) is None,
        },
{
    let (n, start) = match dec_u64(data, pos) {
        Some(x) => x,
        None => {
            return None;
        },
    };
    let mut acc: Vec<KafkaReward> = Vec::new();
    let mut cur: usize = start;
    let mut i: u64 = 0;
    proof {
        assert(rewards_view(acc@) =~= Seq::<KafkaRewardView>::empty());
    }
    while i < n
        invariant
            0 <= i <= n,
            pos <= start <= cur <= data@.len(),
            parse_u64(data@.skip(pos as int)) == Some((n, data@.skip(start as int))),
            parse_reward_seq(data@.skip(start as int), n as nat) == with_prefix(
                rewards_view(acc@),
                parse_reward_seq(data@.skip(cur as int), (n - i) as nat),
            ),
        decreases n - i,
    {
        match dec_reward(data, cur) {
            Some((rv, next)) => {
                proof {
                    let prefix = rewards_view(acc@);
                    let inner = parse_reward_seq(data@.skip(next as int), (n - i - 1) as nat);
                    if inner is Some {
                        let (rs2, rem) = inner->Some_0;
                        assert(prefix + (seq![rv@] + rs2) =~= prefix.push(rv@) + rs2);
                    }
                    assert(rewards_view(acc@.push(rv)) =~= rewards_view(acc@).push(rv@));
                }
                acc.push(rv);
                cur = next;
                i += 1;
            },
            None => {
                return None;
            },
        }
    }
    proof {
        assert(rewards_view(acc@) + Seq::<KafkaRewardView>::empty() =~= rewards_view(acc@));
    }
    Some((acc, cur))
}

// ---------------------------------------------------------------------------
// Repeated elements: u64 lists, byte-string lists, text lists, each framed
// as a 64-bit count followed by the elements
// ---------------------------------------------------------------------------
pub open spec fn ser_u64_seq(vs: Seq<u64>) -> Seq<u8>
    decreases vs.len(),
{
    if vs.len() == 0 {
        Seq::empty()
    } else {
        ser_u64(vs[0]) + ser_u64_seq(vs.skip(1))
    }
}

pub open spec fn ser_vec_u64(vs: Seq<u64>) -> Seq<u8> {
    ser_u64(vs.len() as u64) + ser_u64_seq(vs)
}

pub open spec fn parse_u64_seq(s: Seq<u8>, n: nat) -> Option<(Seq<u64>, Seq<u8>)>
    decreases n,
{
    if n == 0 {
        Some((Seq::empty(), s))
    } else {
        match parse_u64(s) {
            Some((v0, s1)) => match parse_u64_seq(s1, (n - 1) as nat) {
                Some((vs, s2)) => Some((seq![v0] + vs, s2)),
                None => None,
            },
            None => None,
        }
    }
}

pub open spec fn parse_vec_u64(s: Seq<u8>) -> Option<(Seq<u64>, Seq<u8>)> {
    match parse_u64(s) {
        Some((n, r)) => parse_u64_seq(r, n as nat),
        None => None,
    }
}

pub proof fn lemma_parse_ser_u64_seq(vs: Seq<u64>, rest: Seq<u8>)
    ensures
        parse_u64_seq(ser_u64_seq(vs) + rest, vs.len()) == Some((vs, rest)),
    decreases vs.len(),
{
    if vs.len() == 0 {
        assert(ser_u64_seq(vs) + rest =~= rest);
        assert(vs =~= Seq::<u64>::empty());
    } else {
        let tail = vs.skip(1);
        assert(ser_u64_seq(vs) + rest =~= ser_u64(vs[0]) + (ser_u64_seq(tail) + rest));
        lemma_parse_ser_u64(vs[0], ser_u64_seq(tail) + rest);
        lemma_parse_ser_u64_seq(tail, rest);
        assert(seq![vs[0]] + tail =~= vs);
    }
}

pub proof fn lemma_parse_ser_vec_u64(vs: Seq<u64>, rest: Seq<u8>)
    requires
        vs.len() <= u64::MAX,
    ensures
        parse_vec_u64(ser_vec_u64(vs) + rest) == Some((vs, rest)),
{
    assert(ser_vec_u64(vs) + rest =~= ser_u64(vs.len() as u64) + (ser_u64_seq(vs) + rest));
    lemma_parse_ser_u64(vs.len() as u64, ser_u64_seq(vs) + rest);
    lemma_parse_ser_u64_seq(vs, rest);
}

proof fn lemma_ser_u64_seq_push(vs: Seq<u64>, v: u64)
    ensures
        ser_u64_seq(vs.push(v)) == ser_u64_seq(vs) + ser_u64(v),
    decreases vs.len(),
{
    if vs.len() == 0 {
        assert(vs.push(v)[0] == v);
        assert(vs.push(v).skip(1) =~= vs);
        assert(ser_u64_seq(vs.push(v)) == ser_u64(v) + ser_u64_seq(vs));
        assert(ser_u64_seq(vs) == Seq::<u8>::empty());
        assert(ser_u64(v) + Seq::<u8>::empty() =~= Seq::<u8>::empty() + ser_u64(v));
    } else {
        let s = vs.skip(1);
        assert(vs.push(v).skip(1) =~= s.push(v));
        lemma_ser_u64_seq_push(s, v);
        assert(vs.push(v)[0] == vs[0]);
        assert(ser_u64_seq(vs.push(v)) == ser_u64(vs[0]) + ser_u64_seq(s.push(v)));
        assert(ser_u64(vs[0]) + (ser_u64_seq(s) + ser_u64(v)) =~= (ser_u64(vs[0]) + ser_u64_seq(s))
            + ser_u64(v));
        assert(ser_u64_seq(vs) == ser_u64(vs[0]) + ser_u64_seq(s));
    }
}

pub fn enc_vec_u64(out: &mut Vec<u8>, vs: &Vec<u64>)
    ensures
        final(out)@ == old(out)@ + ser_vec_u64(vs@),
{
    enc_u64(out, vs.len() as u64);
    let n = vs.len();
    let mut i: usize = 0;
    while i < n
        invariant
            0 <= i <= n == vs@.len(),
            out@ == old(out)@ + ser_u64(vs@.len() as u64) + ser_u64_seq(vs@.take(i as int)),
        decreases n - i,
    {
        enc_u64(out, vs[i]);
        proof {
            lemma_ser_u64_seq_push(vs@.take(i as int), vs@[i as int]);
            assert(vs@.take(i + 1) =~= vs@.take(i as int).push(vs@[i as int]));
            assert(out@ =~= old(out)@ + ser_u64(vs@.len() as u64) + ser_u64_seq(vs@.take(i + 1)));
        }
        i += 1;
    }
    proof {
        assert(vs@.take(n as int) =~= vs@);
        assert(out@ =~= old(out)@ + ser_vec_u64(vs@));
    }
}

pub fn dec_vec_u64(data: &Vec<u8>, pos: usize) -> (r: Option<(Vec<u64>, usize)>)
    requires
        pos <= data@.len(),
    ensures
        match r {
            Some((v, next)) => pos <= next <= data@.len() && parse_vec_u64(data@.skip(pos as int))
                == Some((v@, data@.skip(next as int))),
            None => parse_vec_u64(data@.skip(pos as int)) is None,
        },
{
    let (n, start) = match dec_u64(data, pos) {
        Some(x) => x,
        None => {
            return None;
        },
    };
    let mut acc: Vec<u64> = Vec::new();
    let mut cur: usize = start;
    let mut i: u64 = 0;
    proof {
        assert(acc@ =~= Seq::<u64>::empty());
    }
    while i < n
        invariant
            0 <= i <= n,
            pos <= start <= cur <= data@.len(),
            parse_u64(data@.skip(pos as int)) == Some((n, data@.skip(start as int))),
            parse_u64_seq(data@.skip(start as int), n as nat) == with_prefix(
                acc@,
                parse_u64_seq(data@.skip(cur as int), (n - i) as nat),
            ),
        decreases n - i,
    {
        match dec_u64(data, cur) {
            Some((v, next)) => {
                proof {
                    let prefix = acc@;
                    let inner = parse_u64_seq(data@.skip(next as int), (n - i - 1) as nat);
                    if inner is Some {
                        let (vs2, rem) = inner->Some_0;
                        assert(prefix + (seq![v] + vs2) =~= prefix.push(v) + vs2);
                    }
                }
                acc.push(v);
                cur = next;
                i += 1;
            },
            None => {
                return None;
            },
        }
    }
    proof {
        assert(acc@ + Seq::<u64>::empty() =~= acc@);
    }
    Some((acc, cur))
}

/// The views of a list of byte strings.
pub open spec fn bytes_seq_view(vs: Seq<Vec<u8>>) -> Seq<Seq<u8>> {
    Seq::new(vs.len(), |i: int| vs[i]@)
}

pub open spec fn wf_bytes_seq(vs: Seq<Seq<u8>>) -> bool {
    &&& vs.len() <= u64::MAX
    &&& forall|i: int| 0 <= i < vs.len() ==> (#[trigger] vs[i]).len() <= u64::MAX
}

pub open spec fn ser_bytes_seq(vs: Seq<Seq<u8>>) -> Seq<u8>
    decreases vs.len(),
{
    if vs.len() == 0 {
        Seq::empty()
    } else {
        ser_bytes(vs[0]) + ser_bytes_seq(vs.skip(1))
    }
}

pub open spec fn ser_vec_bytes(vs: Seq<Seq<u8>>) -> Seq<u8> {
    ser_u64(vs.len() as u64) + ser_bytes_seq(vs)
}

pub open spec fn parse_bytes_seq(s: Seq<u8>, n: nat) -> Option<(Seq<Seq<u8>>, Seq<u8>)>
    decreases n,
{
    if n == 0 {
        Some((Seq::empty(), s))
    } else {
        match parse_bytes(s) {
            Some((v0, s1)) => match parse_bytes_seq(s1, (n - 1) as nat) {
                Some((vs, s2)) => Some((seq![v0] + vs, s2)),
                None => None,
            },
            None => None,
        }
    }
}

pub open spec fn parse_vec_bytes(s: Seq<u8>) -> Option<(Seq<Seq<u8>>, Seq<u8>)> {
    match parse_u64(s) {
        Some((n, r)) => parse_bytes_seq(r, n as nat),
        None => None,
    }
}

pub proof fn lemma_parse_ser_bytes_seq(vs: Seq<Seq<u8>>, rest: Seq<u8>)
    requires
        forall|i: int| 0 <= i < vs.len() ==> (#[trigger] vs[i]).len() <= u64::MAX,
    ensures
        parse_bytes_seq(ser_bytes_seq(vs) + rest, vs.len()) == Some((vs, rest)),
    decreases vs.len(),
{
    if vs.len() == 0 {
        assert(ser_bytes_seq(vs) + rest =~= rest);
        assert(vs =~= Seq::<Seq<u8>>::empty());
    } else {
        let tail = vs.skip(1);
        assert(ser_bytes_seq(vs) + rest =~= ser_bytes(vs[0]) + (ser_bytes_seq(tail) + rest));
        lemma_parse_ser_bytes(vs[0], ser_bytes_seq(tail) + rest);
        lemma_parse_ser_bytes_seq(tail, rest);
        assert(seq![vs[0]] + tail =~= vs);
    }
}

pub proof fn lemma_parse_ser_vec_bytes(vs: Seq<Seq<u8>>, rest: Seq<u8>)
    requires
        wf_bytes_seq(vs),
    ensures
        parse_vec_bytes(ser_vec_bytes(vs) + rest) == Some((vs, rest)),
{
    assert(ser_vec_bytes(vs) + rest =~= ser_u64(vs.len() as u64) + (ser_bytes_seq(vs) + rest));
    lemma_parse_ser_u64(vs.len() as u64, ser_bytes_seq(vs) + rest);
    lemma_parse_ser_bytes_seq(vs, rest);
}

proof fn lemma_ser_bytes_seq_push(vs: Seq<Seq<u8>>, v: Seq<u8>)
    ensures
        ser_bytes_seq(vs.push(v)) == ser_bytes_seq(vs) + ser_bytes(v),
    decreases vs.len(),
{
    if vs.len() == 0 {
        assert(vs.push(v)[0] == v);
        assert(vs.push(v).skip(1) =~= vs);
        assert(ser_bytes_seq(vs.push(v)) == ser_bytes(v) + ser_bytes_seq(vs));
        assert(ser_bytes_seq(vs) == Seq::<u8>::empty());
        assert(ser_bytes(v) + Seq::<u8>::empty() =~= Seq::<u8>::empty() + ser_bytes(v));
    } else {
        let s = vs.skip(1);
        assert(vs.push(v).skip(1) =~= s.push(v));
        lemma_ser_bytes_seq_push(s, v);
        assert(vs.push(v)[0] == vs[0]);
        assert(ser_bytes_seq(vs.push(v)) == ser_bytes(vs[0]) + ser_bytes_seq(s.push(v)));
        assert(ser_bytes(vs[0]) + (ser_bytes_seq(s) + ser_bytes(v)) =~= (ser_bytes(vs[0])
            + ser_bytes_seq(s)) + ser_bytes(v));
        assert(ser_bytes_seq(vs) == ser_bytes(vs[0]) + ser_bytes_seq(s));
    }
}

pub fn enc_vec_bytes(out: &mut Vec<u8>, vs: &Vec<Vec<u8>>)
    ensures
        final(out)@ == old(out)@ + ser_vec_bytes(bytes_seq_view(vs@)),
{
    enc_u64(out, vs.len() as u64);
    let n = vs.len();
    let mut i: usize = 0;
    while i < n
        invariant
            0 <= i <= n == vs@.len(),
            out@ == old(out)@ + ser_u64(vs@.len() as u64) + ser_bytes_seq(
                bytes_seq_view(vs@).take(i as int),
            ),
        decreases n - i,
    {
        enc_bytes(out, &vs[i]);
        proof {
            lemma_ser_bytes_seq_push(bytes_seq_view(vs@).take(i as int), vs@[i as int]@);
            assert(bytes_seq_view(vs@).take(i + 1) =~= bytes_seq_view(vs@).take(i as int).push(
                vs@[i as int]@,
            ));
            assert(out@ =~= old(out)@ + ser_u64(vs@.len() as u64) + ser_bytes_seq(
                bytes_seq_view(vs@).take(i + 1),
            ));
        }
        i += 1;
    }
    proof {
        assert(bytes_seq_view(vs@).take(n as int) =~= bytes_seq_view(vs@));
        assert(out@ =~= old(out)@ + ser_vec_bytes(bytes_seq_view(vs@)));
    }
}

pub fn dec_vec_bytes(data: &Vec<u8>, pos: usize) -> (r: Option<(Vec<Vec<u8>>, usize)>)
    requires
        pos <= data@.len(),
    ensures
        match r {
            Some((v, next)) => pos <= next <= data@.len() && parse_vec_bytes(
                data@.skip(pos as int),
            ) == Some((bytes_seq_view(v@), data@.skip(next as int))),
            None => parse_vec_bytes(data@.skip(pos as int)) is None,
        },
{
    let (n, start) = match dec_u64(data, pos) {
        Some(x) => x,
        None => {
            return None;
        },
    };
    let mut acc: Vec<Vec<u8>> = Vec::new();
    let mut cur: usize = start;
    let mut i: u64 = 0;
    proof {
        assert(bytes_seq_view(acc@) =~= Seq::<Seq<u8>>::empty());
    }
    while i < n
        invariant
            0 <= i <= n,
            pos <= start <= cur <= data@.len(),
            parse_u64(data@.skip(pos as int)) == Some((n, data@.skip(start as int))),
            parse_bytes_seq(data@.skip(start as int), n as nat) == with_prefix(
                bytes_seq_view(acc@),
                parse_bytes_seq(data@.skip(cur as int), (n - i) as nat),
            ),
        decreases n - i,
    {
        match dec_bytes(data, cur) {
            Some((v, next)) => {
                proof {
                    let prefix = bytes_seq_view(acc@);
                    let inner = parse_bytes_seq(data@.skip(next as int), (n - i - 1) as nat);
                    if inner is Some {
                        let (vs2, rem) = inner->Some_0;
                        assert(prefix + (seq![v@] + vs2) =~= prefix.push(v@) + vs2);
                    }
                    assert(bytes_seq_view(acc@.push(v)) =~= bytes_seq_view(acc@).push(v@));
                }
                acc.push(v);
                cur = next;
                i += 1;
            },
            None => {
                return None;
            },
        }
    }
    proof {
        assert(bytes_seq_view(acc@) + Seq::<Seq<u8>>::empty() =~= bytes_seq_view(acc@));
    }
    Some((acc, cur))
}

/// The views of a list of text strings.
pub open spec fn string_seq_view(vs: Seq<String>) -> Seq<Seq<char>> {
    Seq::new(vs.len(), |i: int| vs[i]@)
}

pub open spec fn wf_text_seq(vs: Seq<Seq<char>>) -> bool {
    &&& vs.len() <= u64::MAX
    &&& forall|i: int| 0 <= i < vs.len() ==> wf_text(#[trigger] vs[i])
}

pub open spec fn ser_string_seq(vs: Seq<Seq<char>>) -> Seq<u8>
    decreases vs.len(),
{
    if vs.len() == 0 {
        Seq::empty()
    } else {
        ser_string(vs[0]) + ser_string_seq(vs.skip(1))
    }
}

pub open spec fn ser_vec_string(vs: Seq<Seq<char>>) -> Seq<u8> {
    ser_u64(vs.len() as u64) + ser_string_seq(vs)
}

pub open spec fn parse_string_seq(s: Seq<u8>, n: nat) -> Option<(Seq<Seq<char>>, Seq<u8>)>
    decreases n,
{
    if n == 0 {
        Some((Seq::empty(), s))
    } else {
        match parse_string(s) {
            Some((v0, s1)) => match parse_string_seq(s1, (n - 1) as nat) {
                Some((vs, s2)) => Some((seq![v0] + vs, s2)),
                None => None,
            },
            None => None,
        }
    }
}

pub open spec fn parse_vec_string(s: Seq<u8>) -> Option<(Seq<Seq<char>>, Seq<u8>)> {
    match parse_u64(s) {
        Some((n, r)) => parse_string_seq(r, n as nat),
        None => None,
    }
}

pub proof fn lemma_parse_ser_string_seq(vs: Seq<Seq<char>>, rest: Seq<u8>)
    requires
        forall|i: int| 0 <= i < vs.len() ==> wf_text(#[trigger] vs[i]),
    ensures
        parse_string_seq(ser_string_seq(vs) + rest, vs.len()) == Some((vs, rest)),
    decreases vs.len(),
{
    if vs.len() == 0 {
        assert(ser_string_seq(vs) + rest =~= rest);
        assert(vs =~= Seq::<Seq<char>>::empty());
    } else {
        let tail = vs.skip(1);
        assert(ser_string_seq(vs) + rest =~= ser_string(vs[0]) + (ser_string_seq(tail) + rest));
        lemma_parse_ser_string(vs[0], ser_string_seq(tail) + rest);
        lemma_parse_ser_string_seq(tail, rest);
        assert(seq![vs[0]] + tail =~= vs);
    }
}

pub proof fn lemma_parse_ser_vec_string(vs: Seq<Seq<char>>, rest: Seq<u8>)
    requires
        wf_text_seq(vs),
    ensures
        parse_vec_string(ser_vec_string(vs) + rest) == Some((vs, rest)),
{
    assert(ser_vec_string(vs) + rest =~= ser_u64(vs.len() as u64) + (ser_string_seq(vs) + rest));
    lemma_parse_ser_u64(vs.len() as u64, ser_string_seq(vs) + rest);
    lemma_parse_ser_string_seq(vs, rest);
}

proof fn lemma_ser_string_seq_push(vs: Seq<Seq<char>>, v: Seq<char>)
    ensures
        ser_string_seq(vs.push(v)) == ser_string_seq(vs) + ser_string(v),
    decreases vs.len(),
{
    if vs.len() == 0 {
        assert(vs.push(v)[0] == v);
        assert(vs.push(v).skip(1) =~= vs);
        assert(ser_string_seq(vs.push(v)) == ser_string(v) + ser_string_seq(vs));
        assert(ser_string_seq(vs) == Seq::<u8>::empty());
        assert(ser_string(v) + Seq::<u8>::empty() =~= Seq::<u8>::empty() + ser_string(v));
    } else {
        let s = vs.skip(1);
        assert(vs.push(v).skip(1) =~= s.push(v));
        lemma_ser_string_seq_push(s, v);
        assert(vs.push(v)[0] == vs[0]);
        assert(ser_string_seq(vs.push(v)) == ser_string(vs[0]) + ser_string_seq(s.push(v)));
        assert(ser_string(vs[0]) + (ser_string_seq(s) + ser_string(v)) =~= (ser_string(vs[0])
            + ser_string_seq(s)) + ser_string(v));
        assert(ser_string_seq(vs) == ser_string(vs[0]) + ser_string_seq(s));
    }
}

pub fn enc_vec_string(out: &mut Vec<u8>, vs: &Vec<String>)
    ensures
        final(out)@ == old(out)@ + ser_vec_string(string_seq_view(vs@)),
{
    enc_u64(out, vs.len() as u64);
    let n = vs.len();
    let mut i: usize = 0;
    while i < n
        invariant
            0 <= i <= n == vs@.len(),
            out@ == old(out)@ + ser_u64(vs@.len() as u64) + ser_string_seq(
                string_seq_view(vs@).take(i as int),
            ),
        decreases n - i,
    {
        enc_string(out, &vs[i]);
        proof {
            lemma_ser_string_seq_push(string_seq_view(vs@).take(i as int), vs@[i as int]@);
            assert(string_seq_view(vs@).take(i + 1) =~= string_seq_view(vs@).take(i as int).push(
                vs@[i as int]@,
            ));
            assert(out@ =~= old(out)@ + ser_u64(vs@.len() as u64) + ser_string_seq(
                string_seq_view(vs@).take(i + 1),
            ));
        }
        i += 1;
    }
    proof {
        assert(string_seq_view(vs@).take(n as int) =~= string_seq_view(vs@));
        assert(out@ =~= old(out)@ + ser_vec_string(string_seq_view(vs@)));
    }
}

pub fn dec_vec_string(data: &Vec<u8>, pos: usize) -> (r: Option<(Vec<String>, usize)>)
    requires
        pos <= data@.len(),
    ensures
        match r {
            Some((v, next)) => pos <= next <= data@.len() && parse_vec_string(
                data@.skip(pos as int),
            ) == Some((string_seq_view(v@), data@.skip(next as int))),
            None => parse_vec_string(data@.skip(pos as int)) is None,
        },
{
    let (n, start) = match dec_u64(data, pos) {
        Some(x) => x,
        None => {
            return None;
        },
    };
    let mut acc: Vec<String> = Vec::new();
    let mut cur: usize = start;
    let mut i: u64 = 0;
    proof {
        assert(string_seq_view(acc@) =~= Seq::<Seq<char>>::empty());
    }
    while i < n
        invariant
            0 <= i <= n,
            pos <= start <= cur <= data@.len(),
            parse_u64(data@.skip(pos as int)) == Some((n, data@.skip(start as int))),
            parse_string_seq(data@.skip(start as int), n as nat) == with_prefix(
                string_seq_view(acc@),
                parse_string_seq(data@.skip(cur as int), (n - i) as nat),
            ),
        decreases n - i,
    {
        match dec_string(data, cur) {
            Some((v, next)) => {
                proof {
                    let prefix = string_seq_view(acc@);
                    let inner = parse_string_seq(data@.skip(next as int), (n - i - 1) as nat);
                    if inner is Some {
                        let (vs2, rem) = inner->Some_0;
                        assert(prefix + (seq![v@] + vs2) =~= prefix.push(v@) + vs2);
                    }
                    assert(string_seq_view(acc@.push(v)) =~= string_seq_view(acc@).push(v@));
                }
                acc.push(v);
                cur = next;
                i += 1;
            },
            None => {
                return None;
            },
        }
    }
    proof {
        assert(string_seq_view(acc@) + Seq::<Seq<char>>::empty() =~= string_seq_view(acc@));
    }
    Some((acc, cur))
}

pub open spec fn ser_block_info(b: KafkaReplicaBlockInfoView) -> Seq<u8> {
    ser_u64(b.slot) + ser_string(b.blockhash) + ser_rewards(b.rewards) + ser_opt_i64(b.block_time)
        + ser_opt_u64(b.block_height)
}

pub open spec fn parse_block_info(s: Seq<u8>) -> Option<(KafkaReplicaBlockInfoView, Seq<u8>)> {
    match parse_u64(s) {
        Some((slot, s)) => match parse_string(s) {
            Some((blockhash, s)) => match parse_rewards(s) {
                Some((rewards, s)) => match parse_opt_i64(s) {
                    Some((block_time, s)) => match parse_opt_u64(s) {
                        Some((block_height, s)) => Some(
                            (
                                KafkaReplicaBlockInfoView {
                                    slot,
                                    blockhash,
                                    rewards,
                                    block_time,
                                    block_height,
                                },
                                s,
                            ),
                        ),
                        None => None,
                    },
                    None => None,
                },
                None => None,
            },
            None => None,
        },
        None => None,
    }
}

pub proof fn lemma_parse_ser_block_info(b: KafkaReplicaBlockInfoView, rest: Seq<u8>)
    requires
        wf_block_info(b),
    ensures
        parse_block_info(ser_block_info(b) + rest) == Some((b, rest)),
{
    let t4 = ser_opt_u64(b.block_height) + rest;
    let t3 = ser_opt_i64(b.block_time) + t4;
    let t2 = ser_rewards(b.rewards) + t3;
    let t1 = ser_string(b.blockhash) + t2;
    assert(ser_block_info(b) + rest =~= ser_u64(b.slot) + t1);
    lemma_parse_ser_u64(b.slot, t1);
    lemma_parse_ser_string(b.blockhash, t2);
    lemma_parse_ser_rewards(b.rewards, t3);
    lemma_parse_ser_opt_i64(b.block_time, t4);
    lemma_parse_ser_opt_u64(b.block_height, rest);
}

pub fn enc_block_info(out: &mut Vec<u8>, b: &KafkaReplicaBlockInfo)
    ensures
        final(out)@ == old(out)@ + ser_block_info(b@),
{
    enc_u64(out, b.slot);
    enc_string(out, &b.blockhash);
    enc_rewards(out, &b.rewards);
    enc_opt_i64(out, &b.block_time);
    enc_opt_u64(out, &b.block_height);
    proof {
        assert(rewards_view(b.rewards@) =~= b@.rewards);
        assert(out@ =~= old(out)@ + ser_block_info(b@));
    }
}

pub fn dec_block_info(data: &Vec<u8>, pos: usize) -> (r: Option<(KafkaReplicaBlockInfo, usize)>)
    requires
        pos <= data@.len(),
    ensures
        match r {
            Some((v, next)) => pos <= next <= data@.len() && parse_block_info(
                data@.skip(pos as int),
            ) == Some((v@, data@.skip(next as int))),
            None => parse_block_info(data@.skip(pos as int)) is None,
        },
{
    let (slot, pos2) = match dec_u64(data, pos) {
        Some(x) => x,
        None => {
            return None;
        },
    };
    let (blockhash, pos3) = match dec_string(data, pos2) {
        Some(x) => x,
        None => {
            return None;
        },
    };
    let (rewards, pos4) = match dec_rewards(data, pos3) {
        Some(x) => x,
        None => {
            return None;
        },
    };
    let (block_time, pos5) = match dec_opt_i64(data, pos4) {
        Some(x) => x,
        None => {
            return None;
        },
    };
    let (block_height, pos6) = match dec_opt_u64(data, pos5) {
        Some(x) => x,
        None => {
            return None;
        },
    };
    let v = KafkaReplicaBlockInfo { slot, blockhash, rewards, block_time, block_height };
    proof {
        assert(v@.rewards =~= rewards_view(rewards@));
    }
    Some((v, pos6))
}

pub open spec fn ser_block_versions(b: KafkaReplicaBlockInfoVersionsView) -> Seq<u8> {
    match b {
        KafkaReplicaBlockInfoVersionsView::V0_0_1(v) => ser_u8(0) + ser_block_info(v),
    }
}

pub open spec fn parse_block_versions(s: Seq<u8>) -> Option<
    (KafkaReplicaBlockInfoVersionsView, Seq<u8>),
> {
    match parse_u8(s) {
        Some((t, r)) => if t == 0 {
            match parse_block_info(r) {
                Some((v, r2)) => Some((KafkaReplicaBlockInfoVersionsView::V0_0_1(v), r2)),
                None => None,
            }
        } else {
            None
        },
        None => None,
    }
}

pub proof fn lemma_parse_ser_block_versions(b: KafkaReplicaBlockInfoVersionsView, rest: Seq<u8>)
    requires
        match b {
            KafkaReplicaBlockInfoVersionsView::V0_0_1(v) => wf_block_info(v),
        },
    ensures
        parse_block_versions(ser_block_versions(b) + rest) == Some((b, rest)),
{
    match b {
        KafkaReplicaBlockInfoVersionsView::V0_0_1(v) => {
            assert(ser_block_versions(b) + rest =~= ser_u8(0) + (ser_block_info(v) + rest));
            lemma_parse_ser_u8(0, ser_block_info(v) + rest);
            lemma_parse_ser_block_info(v, rest);
        },
    }
}

pub fn enc_block_versions(out: &mut Vec<u8>, b: &KafkaReplicaBlockInfoVersions)
    ensures
        final(out)@ == old(out)@ + ser_block_versions(b@),
{
    match b {
        KafkaReplicaBlockInfoVersions::V0_0_1(v) => {
            enc_u8(out, 0);
            enc_block_info(out, v);
        },
    }
    proof {
        assert(out@ =~= old(out)@ + ser_block_versions(b@));
    }
}

pub fn dec_block_versions(data: &Vec<u8>, pos: usize) -> (r: Option<
    (KafkaReplicaBlockInfoVersions, usize),
>)
    requires
        pos <= data@.len(),
    ensures
        match r {
            Some((v, next)) => pos <= next <= data@.len() && parse_block_versions(
                data@.skip(pos as int),
            ) == Some((v@, data@.skip(next as int))),
            None => parse_block_versions(data@.skip(pos as int)) is None,
        },
{
    match dec_u8(data, pos) {
        Some((t, next)) => {
            if t == 0 {
                match dec_block_info(data, next) {
                    Some((v, next2)) => Some((KafkaReplicaBlockInfoVersions::V0_0_1(v), next2)),
                    None => None,
                }
            } else {
                None
            }
        },
        None => None,
    }
}

pub open spec fn ser_notify_block(b: NotifyBlockMetaDataView) -> Seq<u8> {
    ser_block_versions(b.block_info)
}

pub open spec fn parse_notify_block(s: Seq<u8>) -> Option<(NotifyBlockMetaDataView, Seq<u8>)> {
    match parse_block_versions(s) {
        Some((block_info, s)) => Some((NotifyBlockMetaDataView { block_info }, s)),
        None => None,
    }
}

pub proof fn lemma_parse_ser_notify_block(b: NotifyBlockMetaDataView, rest: Seq<u8>)
    requires
        wf_notify_block(b),
    ensures
        parse_notify_block(ser_notify_block(b) + rest) == Some((b, rest)),
{
    lemma_parse_ser_block_versions(b.block_info, rest);
}

pub fn enc_notify_block(out: &mut Vec<u8>, b: &NotifyBlockMetaData)
    ensures
        final(out)@ == old(out)@ + ser_notify_block(b@),
{
    enc_block_versions(out, &b.block_info);
}

pub fn dec_notify_block(data: &Vec<u8>, pos: usize) -> (r: Option<(NotifyBlockMetaData, usize)>)
    requires
        pos <= data@.len(),
    ensures
        match r {
            Some((v, next)) => pos <= next <= data@.len() && parse_notify_block(
                data@.skip(pos as int),
            ) == Some((v@, data@.skip(next as int))),
            None => parse_notify_block(data@.skip(pos as int)) is None,
        },
{
    match dec_block_versions(data, pos) {
        Some((block_info, next)) => Some((NotifyBlockMetaData { block_info }, next)),
        None => None,
    }
}

// ---------------------------------------------------------------------------
// The event itself: a category tag, then the payload
// ---------------------------------------------------------------------------
pub open spec fn ser_event(e: KafkaEventView) -> Seq<u8> {
    match e {
        KafkaEventView::UpdateAccount(u) => ser_u8(0) + ser_update_account(u),
        KafkaEventView::UpdateSlot(u) => ser_u8(1) + ser_update_slot_status(u),
        KafkaEventView::NotifyTransaction(t) => ser_u8(2) + ser_notify_transaction(t),
        KafkaEventView::NotifyBlock(b) => ser_u8(3) + ser_notify_block(b),
    }
}

pub open spec fn parse_event(s: Seq<u8>) -> Option<(KafkaEventView, Seq<u8>)> {
    match parse_u8(s) {
        Some((t, r)) => if t == 0 {
            match parse_update_account(r) {
                Some((v, r2)) => Some((KafkaEventView::UpdateAccount(v), r2)),
                None => None,
            }
        } else if t == 1 {
            match parse_update_slot_status(r) {
                Some((v, r2)) => Some((KafkaEventView::UpdateSlot(v), r2)),
                None => None,
            }
        } else if t == 2 {
            match parse_notify_transaction(r) {
                Some((v, r2)) => Some((KafkaEventView::NotifyTransaction(v), r2)),
                None => None,
            }
        } else if t == 3 {
            match parse_notify_block(r) {
                Some((v, r2)) => Some((KafkaEventView::NotifyBlock(v), r2)),
                None => None,
            }
        } else {
            None
        },
        None => None,
    }
}

/// Parsing a whole message: the event must consume every byte.
pub open spec fn parse_event_msg(s: Seq<u8>) -> Option<KafkaEventView> {
    match parse_event(s) {
        Some((e, rest)) => if rest.len() == 0 {
            Some(e)
        } else {
            None
        },
        None => None,
    }
}

#[verifier::rlimit(60)]
#[verifier::spinoff_prover]
pub proof fn lemma_parse_ser_event(e: KafkaEventView, rest: Seq<u8>)
    requires
        wf_event(e),
    ensures
        parse_event(ser_event(e) + rest) == Some((e, rest)),
{
    match e {
        KafkaEventView::UpdateAccount(u) => {
            assert(ser_event(e) + rest =~= ser_u8(0) + (ser_update_account(u) + rest));
            lemma_parse_ser_u8(0, ser_update_account(u) + rest);
            lemma_parse_ser_update_account(u, rest);
        },
        KafkaEventView::UpdateSlot(u) => {
            assert(ser_event(e) + rest =~= ser_u8(1) + (ser_update_slot_status(u) + rest));
            lemma_parse_ser_u8(1, ser_update_slot_status(u) + rest);
            lemma_parse_ser_update_slot_status(u, rest);
        },
        KafkaEventView::NotifyTransaction(t) => {
            assert(ser_event(e) + rest =~= ser_u8(2) + (ser_notify_transaction(t) + rest));
            lemma_parse_ser_u8(2, ser_notify_transaction(t) + rest);
            lemma_parse_ser_notify_transaction(t, rest);
        },
        KafkaEventView::NotifyBlock(b) => {
            assert(ser_event(e) + rest =~= ser_u8(3) + (ser_notify_block(b) + rest));
            lemma_parse_ser_u8(3, ser_notify_block(b) + rest);
            lemma_parse_ser_notify_block(b, rest);
        },
    }
}

/// Round trip: deserializing a serialized event yields the event back, with
/// every field intact, for every well-formed event of every category.
pub proof fn lemma_event_round_trip(e: KafkaEventView)
    requires
        wf_event(e),
    ensures
        parse_event_msg(ser_event(e)) == Some(e),
{
    assert(ser_event(e) + Seq::<u8>::empty() =~= ser_event(e));
    lemma_parse_ser_event(e, Seq::empty());
}

/// Serialize an event for transmission.
pub fn serialize_event(e: &KafkaEvent) -> (out: Vec<u8>)
    ensures
        out@ == ser_event(e@),
{
    let mut out: Vec<u8> = Vec::new();
    match e {
        KafkaEvent::UpdateAccount(u) => {
            enc_u8(&mut out, 0);
            enc_update_account(&mut out, u);
        },
        KafkaEvent::UpdateSlot(u) => {
            enc_u8(&mut out, 1);
            enc_update_slot_status(&mut out, u);
        },
        KafkaEvent::NotifyTransaction(t) => {
            enc_u8(&mut out, 2);
            enc_notify_transaction(&mut out, t);
        },
        KafkaEvent::NotifyBlock(b) => {
            enc_u8(&mut out, 3);
            enc_notify_block(&mut out, b);
        },
    }
    proof {
        assert(out@ =~= ser_event(e@));
    }
    out
}

/// Deserialize a whole message back into an event; `None` exactly on input
/// that is not the serialization of an event.
pub fn deserialize_event(data: &Vec<u8>) -> (r: Option<KafkaEvent>)
    ensures
        match r {
            Some(e) => parse_event_msg(data@) == Some(e@),
            None => parse_event_msg(data@) is None,
        },
{
    proof {
        assert(data@.skip(0) =~= data@);
    }
    let (e, next) = match dec_u8(data, 0) {
        Some((t, next)) => {
            if t == 0 {
                match dec_update_account(data, next) {
                    Some((v, next2)) => (KafkaEvent::UpdateAccount(v), next2),
                    None => {
                        return None;
                    },
                }
            } else if t == 1 {
                match dec_update_slot_status(data, next) {
                    Some((v, next2)) => (KafkaEvent::UpdateSlot(v), next2),
                    None => {
                        return None;
                    },
                }
            } else if t == 2 {
                match dec_notify_transaction(data, next) {
                    Some((v, next2)) => (KafkaEvent::NotifyTransaction(v), next2),
                    None => {
                        return None;
                    },
                }
            } else if t == 3 {
                match dec_notify_block(data, next) {
                    Some((v, next2)) => (KafkaEvent::NotifyBlock(v), next2),
                    None => {
                        return None;
                    },
                }
            } else {
                return None;
            }
        },
        None => {
            return None;
        },
    };
    if next == data.len() {
        proof {
            assert(data@.skip(next as int).len() == 0);
        }
        Some(e)
    } else {
        proof {
            assert(data@.skip(next as int).len() != 0);
        }
        None
    }
}

} // verus!
