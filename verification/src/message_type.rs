//! The four event categories the pipeline relays, and the trait by which an
//! event names its own category.

use vstd::prelude::*;

use crate::kafka_structs::{
    KafkaEvent, KafkaEventView, NotifyBlockMetaData, NotifyTransaction, UpdateAccount,
    UpdateSlotStatus,
};

verus! {

/// One broker topic is configured per category; the category also selects the
/// per-category delivery counters.
#[derive(Debug, Clone, Copy, PartialEq, Eq, Structural)]
pub enum MessageType {
    UpdateAccount,
    UpdateSlot,
    NotifyTransaction,
    NotifyBlock,
}

impl MessageType {
    /// The category's display name.
    pub open spec fn spec_name(self) -> Seq<char> {
        match self {
            MessageType::UpdateAccount => "UpdateAccount"@,
            MessageType::UpdateSlot => "UpdateSlot"@,
            MessageType::NotifyTransaction => "NotifyTransaction"@,
            MessageType::NotifyBlock => "NotifyBlock"@,
        }
    }

    pub fn name(&self) -> (r: &'static str)
        ensures
            r@ == self.spec_name(),
    {
        match self {
            MessageType::UpdateAccount => "UpdateAccount",
            MessageType::UpdateSlot => "UpdateSlot",
            MessageType::NotifyTransaction => "NotifyTransaction",
            MessageType::NotifyBlock => "NotifyBlock",
        }
    }
}

/// Every event type reports the category it belongs to.
pub trait GetMessageType {
    /// The category, as a specification-level value.
    spec fn spec_type(&self) -> MessageType;

    fn get_type(&self) -> (t: MessageType)
        ensures
            t == self.spec_type(),
    ;
}

impl GetMessageType for UpdateAccount {
    open spec fn spec_type(&self) -> MessageType {
        MessageType::UpdateAccount
    }

    fn get_type(&self) -> MessageType {
        MessageType::UpdateAccount
    }
}

impl GetMessageType for UpdateSlotStatus {
    open spec fn spec_type(&self) -> MessageType {
        MessageType::UpdateSlot
    }

    fn get_type(&self) -> MessageType {
        MessageType::UpdateSlot
    }
}

impl GetMessageType for NotifyTransaction {
    open spec fn spec_type(&self) -> MessageType {
        MessageType::NotifyTransaction
    }

    fn get_type(&self) -> MessageType {
        MessageType::NotifyTransaction
    }
}

impl GetMessageType for NotifyBlockMetaData {
    open spec fn spec_type(&self) -> MessageType {
        MessageType::NotifyBlock
    }

    fn get_type(&self) -> MessageType {
        MessageType::NotifyBlock
    }
}

impl KafkaEventView {
    /// The category an event belongs to.
    pub open spec fn category(self) -> MessageType {
        match self {
            KafkaEventView::UpdateAccount(_) => MessageType::UpdateAccount,
            KafkaEventView::UpdateSlot(_) => MessageType::UpdateSlot,
            KafkaEventView::NotifyTransaction(_) => MessageType::NotifyTransaction,
            KafkaEventView::NotifyBlock(_) => MessageType::NotifyBlock,
        }
    }
}

impl KafkaEvent {
    pub fn category(&self) -> (t: MessageType)
        ensures
            t == self@.category(),
    {
        match self {
            KafkaEvent::UpdateAccount(_) => MessageType::UpdateAccount,
            KafkaEvent::UpdateSlot(_) => MessageType::UpdateSlot,
            KafkaEvent::NotifyTransaction(_) => MessageType::NotifyTransaction,
            KafkaEvent::NotifyBlock(_) => MessageType::NotifyBlock,
        }
    }
}

} // verus!
