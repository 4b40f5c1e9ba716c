//! The pipeline manager: owns the four per-category ingestion channels and
//! publisher workers, routes enqueued events, turns dequeued events into
//! envelopes ready for the broker, records send outcomes, and coordinates
//! shutdown — close every channel, drain what was already queued, wait for
//! in-flight sends, terminate.

use vstd::prelude::*;

use crate::channel::{
    spec_close, spec_dequeue, spec_enqueue, ChannelView, DequeueResult, EnqueueResult,
    IngestionChannel,
};
use crate::event_codec::ser_event;
use crate::hash::event_key;
use crate::kafka_producer_stats::{spec_snapshot, Stats};
use crate::kafka_structs::{
    KafkaEvent, KafkaEventView, NotifyBlockMetaData, NotifyTransaction, UpdateAccount,
    UpdateSlotStatus,
};
use crate::message_type::MessageType;
use crate::worker::{
    spec_worker_step, EnvelopeView, EventEnvelope, PublisherWorker, WorkerOp, WorkerPhase,
    WorkerView,
};

verus! {

/// The abstract state of the pipeline.
#[verifier::ext_equal]
pub struct PipelineView {
    pub account_channel: ChannelView<UpdateAccount>,
    pub slot_status_channel: ChannelView<UpdateSlotStatus>,
    pub transaction_channel: ChannelView<NotifyTransaction>,
    pub block_metadata_channel: ChannelView<NotifyBlockMetaData>,
    pub account_worker: WorkerView,
    pub slot_status_worker: WorkerView,
    pub transaction_worker: WorkerView,
    pub block_worker: WorkerView,
    pub stopped: bool,
}

impl PipelineView {
    /// Well-formedness: each worker serves its own category and satisfies
    /// the send-accounting invariant, and once the stop signal is set every
    /// channel is closed and no worker still runs.
    pub open spec fn wf(self) -> bool {
        &&& self.account_worker.category == MessageType::UpdateAccount
        &&& self.slot_status_worker.category == MessageType::UpdateSlot
        &&& self.transaction_worker.category == MessageType::NotifyTransaction
        &&& self.block_worker.category == MessageType::NotifyBlock
        &&& self.account_worker.wf()
        &&& self.slot_status_worker.wf()
        &&& self.transaction_worker.wf()
        &&& self.block_worker.wf()
        &&& self.stopped ==> {
            &&& self.account_channel.closed
            &&& self.slot_status_channel.closed
            &&& self.transaction_channel.closed
            &&& self.block_metadata_channel.closed
            &&& self.account_worker.phase != WorkerPhase::Running
            &&& self.slot_status_worker.phase != WorkerPhase::Running
            &&& self.transaction_worker.phase != WorkerPhase::Running
            &&& self.block_worker.phase != WorkerPhase::Running
        }
    }
}

/// Errors the pipeline can raise toward its host. Per-message failures are
/// never raised here — they are counted and observable through the metrics
/// endpoint only — so only the fatal startup condition remains: a
/// configuration that failed validation.
#[derive(Debug, Clone, Copy, PartialEq, Eq, Structural)]
pub enum GeyserPluginKafkaError {
    ConfigurationError,
}

/// The envelope a given event is published under.
pub open spec fn spec_envelope_of(e: KafkaEventView) -> EnvelopeView {
    EnvelopeView { category: e.category(), key: event_key(e), payload: ser_event(e) }
}

/// The pipeline manager: the one component the host shim talks to.
pub struct PipelineManager {
    account_channel: IngestionChannel<UpdateAccount>,
    slot_status_channel: IngestionChannel<UpdateSlotStatus>,
    transaction_channel: IngestionChannel<NotifyTransaction>,
    block_metadata_channel: IngestionChannel<NotifyBlockMetaData>,
    account_worker: PublisherWorker,
    slot_status_worker: PublisherWorker,
    transaction_worker: PublisherWorker,
    block_worker: PublisherWorker,
    stopped: bool,
}

impl View for PipelineManager {
    type V = PipelineView;

    closed spec fn view(&self) -> PipelineView {
        PipelineView {
            account_channel: self.account_channel@,
            slot_status_channel: self.slot_status_channel@,
            transaction_channel: self.transaction_channel@,
            block_metadata_channel: self.block_metadata_channel@,
            account_worker: self.account_worker@,
            slot_status_worker: self.slot_status_worker@,
            transaction_worker: self.transaction_worker@,
            block_worker: self.block_worker@,
            stopped: self.stopped,
        }
    }
}

impl PipelineManager {
    /// A fresh pipeline: four empty open channels of the configured
    /// capacity, four running workers with zeroed counters.
    pub fn new(queue_capacity: usize) -> (p: Self)
        ensures
            p@.wf(),
            !p@.stopped,
            p@.account_channel.contents.len() == 0,
            p@.slot_status_channel.contents.len() == 0,
            p@.transaction_channel.contents.len() == 0,
            p@.block_metadata_channel.contents.len() == 0,
            p@.account_channel.capacity == queue_capacity,
            p@.slot_status_channel.capacity == queue_capacity,
            p@.transaction_channel.capacity == queue_capacity,
            p@.block_metadata_channel.capacity == queue_capacity,
            !p@.account_channel.closed,
            !p@.slot_status_channel.closed,
            !p@.transaction_channel.closed,
            !p@.block_metadata_channel.closed,
            p@.account_worker.phase == WorkerPhase::Running,
            p@.account_worker.sent == 0 && p@.account_worker.send_failed == 0,
            p@.slot_status_worker.sent == 0 && p@.slot_status_worker.send_failed == 0,
            p@.transaction_worker.sent == 0 && p@.transaction_worker.send_failed == 0,
            p@.block_worker.sent == 0 && p@.block_worker.send_failed == 0,
            p@.account_worker.in_flight == 0 && p@.slot_status_worker.in_flight == 0
                && p@.transaction_worker.in_flight == 0 && p@.block_worker.in_flight == 0,
            p@.account_worker.bytes_tx == 0 && p@.slot_status_worker.bytes_tx == 0
                && p@.transaction_worker.bytes_tx == 0 && p@.block_worker.bytes_tx == 0,
            p@.slot_status_worker.phase == WorkerPhase::Running,
            p@.transaction_worker.phase == WorkerPhase::Running,
            p@.block_worker.phase == WorkerPhase::Running,
    {
        PipelineManager {
            account_channel: IngestionChannel::new(queue_capacity),
            slot_status_channel: IngestionChannel::new(queue_capacity),
            transaction_channel: IngestionChannel::new(queue_capacity),
            block_metadata_channel: IngestionChannel::new(queue_capacity),
            account_worker: PublisherWorker::new(MessageType::UpdateAccount),
            slot_status_worker: PublisherWorker::new(MessageType::UpdateSlot),
            transaction_worker: PublisherWorker::new(MessageType::NotifyTransaction),
            block_worker: PublisherWorker::new(MessageType::NotifyBlock),
            stopped: false,
        }
    }

    pub fn is_stopped(&self) -> (b: bool)
        ensures
            b == self@.stopped,
    {
        self.stopped
    }

    pub fn account_worker(&self) -> (w: &PublisherWorker)
        ensures
            w@ == self@.account_worker,
    {
        &self.account_worker
    }

    pub fn slot_status_worker(&self) -> (w: &PublisherWorker)
        ensures
            w@ == self@.slot_status_worker,
    {
        &self.slot_status_worker
    }

    pub fn transaction_worker(&self) -> (w: &PublisherWorker)
        ensures
            w@ == self@.transaction_worker,
    {
        &self.transaction_worker
    }

    pub fn block_worker(&self) -> (w: &PublisherWorker)
        ensures
            w@ == self@.block_worker,
    {
        &self.block_worker
    }

    pub fn queued_update_account(&self) -> (n: usize)
        ensures
            n == self@.account_channel.contents.len(),
    {
        self.account_channel.len()
    }

    pub fn queued_update_slot_status(&self) -> (n: usize)
        ensures
            n == self@.slot_status_channel.contents.len(),
    {
        self.slot_status_channel.len()
    }

    pub fn queued_notify_transaction(&self) -> (n: usize)
        ensures
            n == self@.transaction_channel.contents.len(),
    {
        self.transaction_channel.len()
    }

    pub fn queued_notify_block(&self) -> (n: usize)
        ensures
            n == self@.block_metadata_channel.contents.len(),
    {
        self.block_metadata_channel.len()
    }

    // -----------------------------------------------------------------
    // Enqueue, one entry point per category (the notification callbacks)
    // -----------------------------------------------------------------
    /// Offer an account update to its category's queue.
    pub fn enqueue_update_account(&mut self, u: UpdateAccount) -> (r: EnqueueResult<UpdateAccount>)
        ensures
            (final(self)@.account_channel, r) == spec_enqueue(old(self)@.account_channel, u),
            final(self)@ == (PipelineView {
                account_channel: final(self)@.account_channel,
                ..old(self)@
            }),
            old(self)@.wf() ==> final(self)@.wf(),
    {
        let r = self.account_channel.enqueue(u);
        proof {
            assert(self@ =~= (PipelineView { account_channel: self@.account_channel, ..old(self)@ }));
        }
        r
    }

    /// Offer a slot-status update to its category's queue.
    pub fn enqueue_update_slot_status(&mut self, u: UpdateSlotStatus) -> (r: EnqueueResult<
        UpdateSlotStatus,
    >)
        ensures
            (final(self)@.slot_status_channel, r) == spec_enqueue(old(self)@.slot_status_channel, u),
            final(self)@ == (PipelineView {
                slot_status_channel: final(self)@.slot_status_channel,
                ..old(self)@
            }),
            old(self)@.wf() ==> final(self)@.wf(),
    {
        let r = self.slot_status_channel.enqueue(u);
        proof {
            assert(self@ =~= (PipelineView {
                slot_status_channel: self@.slot_status_channel,
                ..old(self)@
            }));
        }
        r
    }

    /// Offer a transaction notification to its category's queue.
    pub fn enqueue_notify_transaction(&mut self, t: NotifyTransaction) -> (r: EnqueueResult<
        NotifyTransaction,
    >)
        ensures
            (final(self)@.transaction_channel, r) == spec_enqueue(old(self)@.transaction_channel, t),
            final(self)@ == (PipelineView {
                transaction_channel: final(self)@.transaction_channel,
                ..old(self)@
            }),
            old(self)@.wf() ==> final(self)@.wf(),
    {
        let r = self.transaction_channel.enqueue(t);
        proof {
            assert(self@ =~= (PipelineView {
                transaction_channel: self@.transaction_channel,
                ..old(self)@
            }));
        }
        r
    }

    /// Offer a block-metadata event to its category's queue.
    pub fn enqueue_notify_block(&mut self, b: NotifyBlockMetaData) -> (r: EnqueueResult<
        NotifyBlockMetaData,
    >)
        ensures
            (final(self)@.block_metadata_channel, r) == spec_enqueue(
                old(self)@.block_metadata_channel,
                b,
            ),
            final(self)@ == (PipelineView {
                block_metadata_channel: final(self)@.block_metadata_channel,
                ..old(self)@
            }),
            old(self)@.wf() ==> final(self)@.wf(),
    {
        let r = self.block_metadata_channel.enqueue(b);
        proof {
            assert(self@ =~= (PipelineView {
                block_metadata_channel: self@.block_metadata_channel,
                ..old(self)@
            }));
        }
        r
    }

    // -----------------------------------------------------------------
    // Poll, one per category (the worker loops' dequeue-and-dispatch)
    // -----------------------------------------------------------------
    /// Dequeue the oldest queued account update, if any, and dispatch it:
    /// derive its key, serialize it, and hand back the envelope whose send
    /// is now tracked as in flight.
    pub fn poll_update_account(&mut self) -> (r: Option<EventEnvelope>)
        requires
            old(self)@.wf(),
            old(self)@.account_worker.phase != WorkerPhase::Terminated,
            old(self)@.account_worker.in_flight < u64::MAX,
        ensures
            final(self)@.wf(),
            old(self)@.account_channel.contents.len() > 0 ==> {
                let e = KafkaEventView::UpdateAccount(old(self)@.account_channel.contents[0]@);
                &&& r is Some
                &&& r.unwrap()@ == spec_envelope_of(e)
                &&& final(self)@ == (PipelineView {
                    account_channel: spec_dequeue(old(self)@.account_channel).0,
                    account_worker: spec_worker_step(
                        old(self)@.account_worker,
                        WorkerOp::Dispatch(e),
                    ).0,
                    ..old(self)@
                })
            },
            old(self)@.account_channel.contents.len() == 0 ==> r is None && final(self)@ == old(
                self,
            )@,
    {
        match self.account_channel.dequeue() {
            DequeueResult::Item(u) => {
                let e = KafkaEvent::UpdateAccount(u);
                let env = self.account_worker.dispatch(&e);
                proof {
                    assert(self@ =~= (PipelineView {
                        account_channel: spec_dequeue(old(self)@.account_channel).0,
                        account_worker: spec_worker_step(
                            old(self)@.account_worker,
                            WorkerOp::Dispatch(e@),
                        ).0,
                        ..old(self)@
                    }));
                }
                Some(env)
            },
            DequeueResult::Empty => {
                proof {
                    assert(self@ =~= old(self)@);
                }
                None
            },
            DequeueResult::Disconnected => {
                proof {
                    assert(self@ =~= old(self)@);
                }
                None
            },
        }
    }

    /// Dequeue and dispatch the oldest queued slot-status update, if any.
    pub fn poll_update_slot_status(&mut self) -> (r: Option<EventEnvelope>)
        requires
            old(self)@.wf(),
            old(self)@.slot_status_worker.phase != WorkerPhase::Terminated,
            old(self)@.slot_status_worker.in_flight < u64::MAX,
        ensures
            final(self)@.wf(),
            old(self)@.slot_status_channel.contents.len() > 0 ==> {
                let e = KafkaEventView::UpdateSlot(old(self)@.slot_status_channel.contents[0]@);
                &&& r is Some
                &&& r.unwrap()@ == spec_envelope_of(e)
                &&& final(self)@ == (PipelineView {
                    slot_status_channel: spec_dequeue(old(self)@.slot_status_channel).0,
                    slot_status_worker: spec_worker_step(
                        old(self)@.slot_status_worker,
                        WorkerOp::Dispatch(e),
                    ).0,
                    ..old(self)@
                })
            },
            old(self)@.slot_status_channel.contents.len() == 0 ==> r is None && final(self)@
                == old(self)@,
    {
        match self.slot_status_channel.dequeue() {
            DequeueResult::Item(u) => {
                let e = KafkaEvent::UpdateSlot(u);
                let env = self.slot_status_worker.dispatch(&e);
                proof {
                    assert(self@ =~= (PipelineView {
                        slot_status_channel: spec_dequeue(old(self)@.slot_status_channel).0,
                        slot_status_worker: spec_worker_step(
                            old(self)@.slot_status_worker,
                            WorkerOp::Dispatch(e@),
                        ).0,
                        ..old(self)@
                    }));
                }
                Some(env)
            },
            DequeueResult::Empty => {
                proof {
                    assert(self@ =~= old(self)@);
                }
                None
            },
            DequeueResult::Disconnected => {
                proof {
                    assert(self@ =~= old(self)@);
                }
                None
            },
        }
    }

    /// Dequeue and dispatch the oldest queued transaction notification, if
    /// any.
    pub fn poll_notify_transaction(&mut self) -> (r: Option<EventEnvelope>)
        requires
            old(self)@.wf(),
            old(self)@.transaction_worker.phase != WorkerPhase::Terminated,
            old(self)@.transaction_worker.in_flight < u64::MAX,
        ensures
            final(self)@.wf(),
            old(self)@.transaction_channel.contents.len() > 0 ==> {
                let e = KafkaEventView::NotifyTransaction(
                    old(self)@.transaction_channel.contents[0]@,
                );
                &&& r is Some
                &&& r.unwrap()@ == spec_envelope_of(e)
                &&& final(self)@ == (PipelineView {
                    transaction_channel: spec_dequeue(old(self)@.transaction_channel).0,
                    transaction_worker: spec_worker_step(
                        old(self)@.transaction_worker,
                        WorkerOp::Dispatch(e),
                    ).0,
                    ..old(self)@
                })
            },
            old(self)@.transaction_channel.contents.len() == 0 ==> r is None && final(self)@
                == old(self)@,
    {
        match self.transaction_channel.dequeue() {
            DequeueResult::Item(t) => {
                let e = KafkaEvent::NotifyTransaction(t);
                let env = self.transaction_worker.dispatch(&e);
                proof {
                    assert(self@ =~= (PipelineView {
                        transaction_channel: spec_dequeue(old(self)@.transaction_channel).0,
                        transaction_worker: spec_worker_step(
                            old(self)@.transaction_worker,
                            WorkerOp::Dispatch(e@),
                        ).0,
                        ..old(self)@
                    }));
                }
                Some(env)
            },
            DequeueResult::Empty => {
                proof {
                    assert(self@ =~= old(self)@);
                }
                None
            },
            DequeueResult::Disconnected => {
                proof {
                    assert(self@ =~= old(self)@);
                }
                None
            },
        }
    }

    /// Dequeue and dispatch the oldest queued block-metadata event, if any.
    pub fn poll_notify_block(&mut self) -> (r: Option<EventEnvelope>)
        requires
            old(self)@.wf(),
            old(self)@.block_worker.phase != WorkerPhase::Terminated,
            old(self)@.block_worker.in_flight < u64::MAX,
        ensures
            final(self)@.wf(),
            old(self)@.block_metadata_channel.contents.len() > 0 ==> {
                let e = KafkaEventView::NotifyBlock(old(self)@.block_metadata_channel.contents[0]@);
                &&& r is Some
                &&& r.unwrap()@ == spec_envelope_of(e)
                &&& final(self)@ == (PipelineView {
                    block_metadata_channel: spec_dequeue(old(self)@.block_metadata_channel).0,
                    block_worker: spec_worker_step(
                        old(self)@.block_worker,
                        WorkerOp::Dispatch(e),
                    ).0,
                    ..old(self)@
                })
            },
            old(self)@.block_metadata_channel.contents.len() == 0 ==> r is None && final(self)@
                == old(self)@,
    {
        match self.block_metadata_channel.dequeue() {
            DequeueResult::Item(b) => {
                let e = KafkaEvent::NotifyBlock(b);
                let env = self.block_worker.dispatch(&e);
                proof {
                    assert(self@ =~= (PipelineView {
                        block_metadata_channel: spec_dequeue(old(self)@.block_metadata_channel).0,
                        block_worker: spec_worker_step(
                            old(self)@.block_worker,
                            WorkerOp::Dispatch(e@),
                        ).0,
                        ..old(self)@
                    }));
                }
                Some(env)
            },
            DequeueResult::Empty => {
                proof {
                    assert(self@ =~= old(self)@);
                }
                None
            },
            DequeueResult::Disconnected => {
                proof {
                    assert(self@ =~= old(self)@);
                }
                None
            },
        }
    }

    // -----------------------------------------------------------------
    // Draining
    // -----------------------------------------------------------------
    /// Dispatch every queued account update at once: the envelopes of all
    /// events still queued, in arrival order, each now tracked as an
    /// in-flight send. Used while draining during shutdown; nothing queued
    /// is lost.
    pub fn drain_update_account(&mut self) -> (r: Vec<EventEnvelope>)
        requires
            old(self)@.wf(),
            old(self)@.account_worker.phase != WorkerPhase::Terminated,
            old(self)@.account_worker.in_flight + old(self)@.account_channel.contents.len()
                <= u64::MAX,
        ensures
            final(self)@.wf(),
            r@.len() == old(self)@.account_channel.contents.len(),
            forall|i: int|
                0 <= i < r@.len() ==> r@[i]@ == spec_envelope_of(
                    KafkaEventView::UpdateAccount(old(self)@.account_channel.contents[i]@),
                ),
            final(self)@ == (PipelineView {
                account_channel: (ChannelView {
                    contents: Seq::empty(),
                    ..old(self)@.account_channel
                }),
                account_worker: (WorkerView {
                    in_flight: old(self)@.account_worker.in_flight + r@.len(),
                    dispatched: old(self)@.account_worker.dispatched + r@.len(),
                    ..old(self)@.account_worker
                }),
                ..old(self)@
            }),
    {
        let mut r: Vec<EventEnvelope> = Vec::new();
        let ghost orig = old(self)@;
        while self.queued_update_account() > 0
            invariant
                self@.wf(),
                self@.account_worker.phase != WorkerPhase::Terminated,
                r@.len() + self@.account_channel.contents.len()
                    == orig.account_channel.contents.len(),
                self@.account_channel == (ChannelView {
                    contents: orig.account_channel.contents.skip(r@.len() as int),
                    ..orig.account_channel
                }),
                self@.account_worker == (WorkerView {
                    in_flight: orig.account_worker.in_flight + r@.len(),
                    dispatched: orig.account_worker.dispatched + r@.len(),
                    ..orig.account_worker
                }),
                self@ == (PipelineView {
                    account_channel: self@.account_channel,
                    account_worker: self@.account_worker,
                    ..orig
                }),
                orig.account_worker.in_flight + orig.account_channel.contents.len() <= u64::MAX,
                forall|i: int|
                    0 <= i < r@.len() ==> r@[i]@ == spec_envelope_of(
                        KafkaEventView::UpdateAccount(orig.account_channel.contents[i]@),
                    ),
            decreases self@.account_channel.contents.len(),
        {
            let ghost i = r@.len();
            let env = match self.poll_update_account() {
                Some(env) => env,
                None => {
                    proof {
                        assert(false);
                    }
                    unreached()
                },
            };
            proof {
                assert(orig.account_channel.contents.skip(i as int).skip(1)
                    =~= orig.account_channel.contents.skip(i as int + 1));
                assert(orig.account_channel.contents.skip(i as int)[0]
                    == orig.account_channel.contents[i as int]);
            }
            r.push(env);
        }
        proof {
            assert(self@.account_channel.contents =~= Seq::<UpdateAccount>::empty());
            assert(self@ =~= (PipelineView {
                account_channel: (ChannelView {
                    contents: Seq::empty(),
                    ..orig.account_channel
                }),
                account_worker: (WorkerView {
                    in_flight: orig.account_worker.in_flight + r@.len(),
                    dispatched: orig.account_worker.dispatched + r@.len(),
                    ..orig.account_worker
                }),
                ..orig
            }));
        }
        r
    }

    /// Dispatch every queued slot-status update at once, in arrival order.
    pub fn drain_update_slot_status(&mut self) -> (r: Vec<EventEnvelope>)
        requires
            old(self)@.wf(),
            old(self)@.slot_status_worker.phase != WorkerPhase::Terminated,
            old(self)@.slot_status_worker.in_flight
                + old(self)@.slot_status_channel.contents.len() <= u64::MAX,
        ensures
            final(self)@.wf(),
            r@.len() == old(self)@.slot_status_channel.contents.len(),
            forall|i: int|
                0 <= i < r@.len() ==> r@[i]@ == spec_envelope_of(
                    KafkaEventView::UpdateSlot(old(self)@.slot_status_channel.contents[i]@),
                ),
            final(self)@ == (PipelineView {
                slot_status_channel: (ChannelView {
                    contents: Seq::empty(),
                    ..old(self)@.slot_status_channel
                }),
                slot_status_worker: (WorkerView {
                    in_flight: old(self)@.slot_status_worker.in_flight + r@.len(),
                    dispatched: old(self)@.slot_status_worker.dispatched + r@.len(),
                    ..old(self)@.slot_status_worker
                }),
                ..old(self)@
            }),
    {
        let mut r: Vec<EventEnvelope> = Vec::new();
        let ghost orig = old(self)@;
        while self.queued_update_slot_status() > 0
            invariant
                self@.wf(),
                self@.slot_status_worker.phase != WorkerPhase::Terminated,
                r@.len() + self@.slot_status_channel.contents.len()
                    == orig.slot_status_channel.contents.len(),
                self@.slot_status_channel == (ChannelView {
                    contents: orig.slot_status_channel.contents.skip(r@.len() as int),
                    ..orig.slot_status_channel
                }),
                self@.slot_status_worker == (WorkerView {
                    in_flight: orig.slot_status_worker.in_flight + r@.len(),
                    dispatched: orig.slot_status_worker.dispatched + r@.len(),
                    ..orig.slot_status_worker
                }),
                self@ == (PipelineView {
                    slot_status_channel: self@.slot_status_channel,
                    slot_status_worker: self@.slot_status_worker,
                    ..orig
                }),
                orig.slot_status_worker.in_flight + orig.slot_status_channel.contents.len()
                    <= u64::MAX,
                forall|i: int|
                    0 <= i < r@.len() ==> r@[i]@ == spec_envelope_of(
                        KafkaEventView::UpdateSlot(orig.slot_status_channel.contents[i]@),
                    ),
            decreases self@.slot_status_channel.contents.len(),
        {
            let ghost i = r@.len();
            let env = match self.poll_update_slot_status() {
                Some(env) => env,
                None => {
                    proof {
                        assert(false);
                    }
                    unreached()
                },
            };
            proof {
                assert(orig.slot_status_channel.contents.skip(i as int).skip(1)
                    =~= orig.slot_status_channel.contents.skip(i as int + 1));
                assert(orig.slot_status_channel.contents.skip(i as int)[0]
                    == orig.slot_status_channel.contents[i as int]);
            }
            r.push(env);
        }
        proof {
            assert(self@.slot_status_channel.contents =~= Seq::<UpdateSlotStatus>::empty());
            assert(self@ =~= (PipelineView {
                slot_status_channel: (ChannelView {
                    contents: Seq::empty(),
                    ..orig.slot_status_channel
                }),
                slot_status_worker: (WorkerView {
                    in_flight: orig.slot_status_worker.in_flight + r@.len(),
                    dispatched: orig.slot_status_worker.dispatched + r@.len(),
                    ..orig.slot_status_worker
                }),
                ..orig
            }));
        }
        r
    }

    /// Dispatch every queued transaction notification at once, in arrival
    /// order.
    pub fn drain_notify_transaction(&mut self) -> (r: Vec<EventEnvelope>)
        requires
            old(self)@.wf(),
            old(self)@.transaction_worker.phase != WorkerPhase::Terminated,
            old(self)@.transaction_worker.in_flight
                + old(self)@.transaction_channel.contents.len() <= u64::MAX,
        ensures
            final(self)@.wf(),
            r@.len() == old(self)@.transaction_channel.contents.len(),
            forall|i: int|
                0 <= i < r@.len() ==> r@[i]@ == spec_envelope_of(
                    KafkaEventView::NotifyTransaction(old(self)@.transaction_channel.contents[i]@),
                ),
            final(self)@ == (PipelineView {
                transaction_channel: (ChannelView {
                    contents: Seq::empty(),
                    ..old(self)@.transaction_channel
                }),
                transaction_worker: (WorkerView {
                    in_flight: old(self)@.transaction_worker.in_flight + r@.len(),
                    dispatched: old(self)@.transaction_worker.dispatched + r@.len(),
                    ..old(self)@.transaction_worker
                }),
                ..old(self)@
            }),
    {
        let mut r: Vec<EventEnvelope> = Vec::new();
        let ghost orig = old(self)@;
        while self.queued_notify_transaction() > 0
            invariant
                self@.wf(),
                self@.transaction_worker.phase != WorkerPhase::Terminated,
                r@.len() + self@.transaction_channel.contents.len()
                    == orig.transaction_channel.contents.len(),
                self@.transaction_channel == (ChannelView {
                    contents: orig.transaction_channel.contents.skip(r@.len() as int),
                    ..orig.transaction_channel
                }),
                self@.transaction_worker == (WorkerView {
                    in_flight: orig.transaction_worker.in_flight + r@.len(),
                    dispatched: orig.transaction_worker.dispatched + r@.len(),
                    ..orig.transaction_worker
                }),
                self@ == (PipelineView {
                    transaction_channel: self@.transaction_channel,
                    transaction_worker: self@.transaction_worker,
                    ..orig
                }),
                orig.transaction_worker.in_flight + orig.transaction_channel.contents.len()
                    <= u64::MAX,
                forall|i: int|
                    0 <= i < r@.len() ==> r@[i]@ == spec_envelope_of(
                        KafkaEventView::NotifyTransaction(orig.transaction_channel.contents[i]@),
                    ),
            decreases self@.transaction_channel.contents.len(),
        {
            let ghost i = r@.len();
            let env = match self.poll_notify_transaction() {
                Some(env) => env,
                None => {
                    proof {
                        assert(false);
                    }
                    unreached()
                },
            };
            proof {
                assert(orig.transaction_channel.contents.skip(i as int).skip(1)
                    =~= orig.transaction_channel.contents.skip(i as int + 1));
                assert(orig.transaction_channel.contents.skip(i as int)[0]
                    == orig.transaction_channel.contents[i as int]);
            }
            r.push(env);
        }
        proof {
            assert(self@.transaction_channel.contents =~= Seq::<NotifyTransaction>::empty());
            assert(self@ =~= (PipelineView {
                transaction_channel: (ChannelView {
                    contents: Seq::empty(),
                    ..orig.transaction_channel
                }),
                transaction_worker: (WorkerView {
                    in_flight: orig.transaction_worker.in_flight + r@.len(),
                    dispatched: orig.transaction_worker.dispatched + r@.len(),
                    ..orig.transaction_worker
                }),
                ..orig
            }));
        }
        r
    }

    /// Dispatch every queued block-metadata event at once, in arrival order.
    pub fn drain_notify_block(&mut self) -> (r: Vec<EventEnvelope>)
        requires
            old(self)@.wf(),
            old(self)@.block_worker.phase != WorkerPhase::Terminated,
            old(self)@.block_worker.in_flight
                + old(self)@.block_metadata_channel.contents.len() <= u64::MAX,
        ensures
            final(self)@.wf(),
            r@.len() == old(self)@.block_metadata_channel.contents.len(),
            forall|i: int|
                0 <= i < r@.len() ==> r@[i]@ == spec_envelope_of(
                    KafkaEventView::NotifyBlock(old(self)@.block_metadata_channel.contents[i]@),
                ),
            final(self)@ == (PipelineView {
                block_metadata_channel: (ChannelView {
                    contents: Seq::empty(),
                    ..old(self)@.block_metadata_channel
                }),
                block_worker: (WorkerView {
                    in_flight: old(self)@.block_worker.in_flight + r@.len(),
                    dispatched: old(self)@.block_worker.dispatched + r@.len(),
                    ..old(self)@.block_worker
                }),
                ..old(self)@
            }),
    {
        let mut r: Vec<EventEnvelope> = Vec::new();
        let ghost orig = old(self)@;
        while self.queued_notify_block() > 0
            invariant
                self@.wf(),
                self@.block_worker.phase != WorkerPhase::Terminated,
                r@.len() + self@.block_metadata_channel.contents.len()
                    == orig.block_metadata_channel.contents.len(),
                self@.block_metadata_channel == (ChannelView {
                    contents: orig.block_metadata_channel.contents.skip(r@.len() as int),
                    ..orig.block_metadata_channel
                }),
                self@.block_worker == (WorkerView {
                    in_flight: orig.block_worker.in_flight + r@.len(),
                    dispatched: orig.block_worker.dispatched + r@.len(),
                    ..orig.block_worker
                }),
                self@ == (PipelineView {
                    block_metadata_channel: self@.block_metadata_channel,
                    block_worker: self@.block_worker,
                    ..orig
                }),
                orig.block_worker.in_flight + orig.block_metadata_channel.contents.len()
                    <= u64::MAX,
                forall|i: int|
                    0 <= i < r@.len() ==> r@[i]@ == spec_envelope_of(
                        KafkaEventView::NotifyBlock(orig.block_metadata_channel.contents[i]@),
                    ),
            decreases self@.block_metadata_channel.contents.len(),
        {
            let ghost i = r@.len();
            let env = match self.poll_notify_block() {
                Some(env) => env,
                None => {
                    proof {
                        assert(false);
                    }
                    unreached()
                },
            };
            proof {
                assert(orig.block_metadata_channel.contents.skip(i as int).skip(1)
                    =~= orig.block_metadata_channel.contents.skip(i as int + 1));
                assert(orig.block_metadata_channel.contents.skip(i as int)[0]
                    == orig.block_metadata_channel.contents[i as int]);
            }
            r.push(env);
        }
        proof {
            assert(self@.block_metadata_channel.contents =~= Seq::<NotifyBlockMetaData>::empty());
            assert(self@ =~= (PipelineView {
                block_metadata_channel: (ChannelView {
                    contents: Seq::empty(),
                    ..orig.block_metadata_channel
                }),
                block_worker: (WorkerView {
                    in_flight: orig.block_worker.in_flight + r@.len(),
                    dispatched: orig.block_worker.dispatched + r@.len(),
                    ..orig.block_worker
                }),
                ..orig
            }));
        }
        r
    }

    // -----------------------------------------------------------------
    // Send outcomes
    // -----------------------------------------------------------------
    /// Record the outcome of a resolved account-update send.
    pub fn resolve_update_account_send(&mut self, delivered: bool, payload_len: u64)
        requires
            old(self)@.wf(),
            old(self)@.account_worker.in_flight > 0,
            old(self)@.account_worker.sent < u64::MAX,
            old(self)@.account_worker.send_failed < u64::MAX,
            old(self)@.account_worker.bytes_tx + payload_len <= u64::MAX,
        ensures
            final(self)@.wf(),
            final(self)@ == (PipelineView {
                account_worker: spec_worker_step(
                    old(self)@.account_worker,
                    WorkerOp::SendResolved { delivered, payload_len: payload_len as nat },
                ).0,
                ..old(self)@
            }),
    {
        self.account_worker.record_send_outcome(delivered, payload_len);
        proof {
            assert(self@ =~= (PipelineView { account_worker: self@.account_worker, ..old(self)@ }));
        }
    }

    /// Record the outcome of a resolved slot-status send.
    pub fn resolve_update_slot_status_send(&mut self, delivered: bool, payload_len: u64)
        requires
            old(self)@.wf(),
            old(self)@.slot_status_worker.in_flight > 0,
            old(self)@.slot_status_worker.sent < u64::MAX,
            old(self)@.slot_status_worker.send_failed < u64::MAX,
            old(self)@.slot_status_worker.bytes_tx + payload_len <= u64::MAX,
        ensures
            final(self)@.wf(),
            final(self)@ == (PipelineView {
                slot_status_worker: spec_worker_step(
                    old(self)@.slot_status_worker,
                    WorkerOp::SendResolved { delivered, payload_len: payload_len as nat },
                ).0,
                ..old(self)@
            }),
    {
        self.slot_status_worker.record_send_outcome(delivered, payload_len);
        proof {
            assert(self@ =~= (PipelineView {
                slot_status_worker: self@.slot_status_worker,
                ..old(self)@
            }));
        }
    }

    /// Record the outcome of a resolved transaction send.
    pub fn resolve_notify_transaction_send(&mut self, delivered: bool, payload_len: u64)
        requires
            old(self)@.wf(),
            old(self)@.transaction_worker.in_flight > 0,
            old(self)@.transaction_worker.sent < u64::MAX,
            old(self)@.transaction_worker.send_failed < u64::MAX,
            old(self)@.transaction_worker.bytes_tx + payload_len <= u64::MAX,
        ensures
            final(self)@.wf(),
            final(self)@ == (PipelineView {
                transaction_worker: spec_worker_step(
                    old(self)@.transaction_worker,
                    WorkerOp::SendResolved { delivered, payload_len: payload_len as nat },
                ).0,
                ..old(self)@
            }),
    {
        self.transaction_worker.record_send_outcome(delivered, payload_len);
        proof {
            assert(self@ =~= (PipelineView {
                transaction_worker: self@.transaction_worker,
                ..old(self)@
            }));
        }
    }

    /// Record the outcome of a resolved block-metadata send.
    pub fn resolve_notify_block_send(&mut self, delivered: bool, payload_len: u64)
        requires
            old(self)@.wf(),
            old(self)@.block_worker.in_flight > 0,
            old(self)@.block_worker.sent < u64::MAX,
            old(self)@.block_worker.send_failed < u64::MAX,
            old(self)@.block_worker.bytes_tx + payload_len <= u64::MAX,
        ensures
            final(self)@.wf(),
            final(self)@ == (PipelineView {
                block_worker: spec_worker_step(
                    old(self)@.block_worker,
                    WorkerOp::SendResolved { delivered, payload_len: payload_len as nat },
                ).0,
                ..old(self)@
            }),
    {
        self.block_worker.record_send_outcome(delivered, payload_len);
        proof {
            assert(self@ =~= (PipelineView { block_worker: self@.block_worker, ..old(self)@ }));
        }
    }

    // -----------------------------------------------------------------
    // Shutdown
    // -----------------------------------------------------------------
    /// Begin coordinated shutdown: set the stop flag, close every channel so
    /// no further event is accepted, and move every running worker to
    /// `Draining`. Events already queued stay queued, to be drained.
    pub fn begin_shutdown(&mut self)
        requires
            old(self)@.wf(),
        ensures
            final(self)@.wf(),
            final(self)@ == (PipelineView {
                account_channel: spec_close(old(self)@.account_channel),
                slot_status_channel: spec_close(old(self)@.slot_status_channel),
                transaction_channel: spec_close(old(self)@.transaction_channel),
                block_metadata_channel: spec_close(old(self)@.block_metadata_channel),
                account_worker: spec_worker_step(old(self)@.account_worker, WorkerOp::Stop).0,
                slot_status_worker: spec_worker_step(old(self)@.slot_status_worker, WorkerOp::Stop).0,
                transaction_worker: spec_worker_step(
                    old(self)@.transaction_worker,
                    WorkerOp::Stop,
                ).0,
                block_worker: spec_worker_step(old(self)@.block_worker, WorkerOp::Stop).0,
                stopped: true,
            }),
    {
        self.stopped = true;
        self.account_channel.close();
        self.slot_status_channel.close();
        self.transaction_channel.close();
        self.block_metadata_channel.close();
        self.account_worker.observe_stop();
        self.slot_status_worker.observe_stop();
        self.transaction_worker.observe_stop();
        self.block_worker.observe_stop();
        proof {
            assert(self@ =~= (PipelineView {
                account_channel: spec_close(old(self)@.account_channel),
                slot_status_channel: spec_close(old(self)@.slot_status_channel),
                transaction_channel: spec_close(old(self)@.transaction_channel),
                block_metadata_channel: spec_close(old(self)@.block_metadata_channel),
                account_worker: spec_worker_step(old(self)@.account_worker, WorkerOp::Stop).0,
                slot_status_worker: spec_worker_step(
                    old(self)@.slot_status_worker,
                    WorkerOp::Stop,
                ).0,
                transaction_worker: spec_worker_step(
                    old(self)@.transaction_worker,
                    WorkerOp::Stop,
                ).0,
                block_worker: spec_worker_step(old(self)@.block_worker, WorkerOp::Stop).0,
                stopped: true,
            }));
        }
    }

    /// Terminate a worker whose drain is complete: nothing queued for it and
    /// nothing in flight.
    pub fn finish_update_account(&mut self)
        requires
            old(self)@.wf(),
            old(self)@.account_worker.phase == WorkerPhase::Draining,
            old(self)@.account_worker.in_flight == 0,
        ensures
            final(self)@.wf(),
            final(self)@ == (PipelineView {
                account_worker: spec_worker_step(old(self)@.account_worker, WorkerOp::Finish).0,
                ..old(self)@
            }),
            final(self)@.account_worker.phase == WorkerPhase::Terminated,
    {
        self.account_worker.finish();
        proof {
            assert(self@ =~= (PipelineView { account_worker: self@.account_worker, ..old(self)@ }));
        }
    }

    /// Terminate the slot-status worker once its drain is complete.
    pub fn finish_update_slot_status(&mut self)
        requires
            old(self)@.wf(),
            old(self)@.slot_status_worker.phase == WorkerPhase::Draining,
            old(self)@.slot_status_worker.in_flight == 0,
        ensures
            final(self)@.wf(),
            final(self)@ == (PipelineView {
                slot_status_worker: spec_worker_step(
                    old(self)@.slot_status_worker,
                    WorkerOp::Finish,
                ).0,
                ..old(self)@
            }),
            final(self)@.slot_status_worker.phase == WorkerPhase::Terminated,
    {
        self.slot_status_worker.finish();
        proof {
            assert(self@ =~= (PipelineView {
                slot_status_worker: self@.slot_status_worker,
                ..old(self)@
            }));
        }
    }

    /// Terminate the transaction worker once its drain is complete.
    pub fn finish_notify_transaction(&mut self)
        requires
            old(self)@.wf(),
            old(self)@.transaction_worker.phase == WorkerPhase::Draining,
            old(self)@.transaction_worker.in_flight == 0,
        ensures
            final(self)@.wf(),
            final(self)@ == (PipelineView {
                transaction_worker: spec_worker_step(
                    old(self)@.transaction_worker,
                    WorkerOp::Finish,
                ).0,
                ..old(self)@
            }),
            final(self)@.transaction_worker.phase == WorkerPhase::Terminated,
    {
        self.transaction_worker.finish();
        proof {
            assert(self@ =~= (PipelineView {
                transaction_worker: self@.transaction_worker,
                ..old(self)@
            }));
        }
    }

    /// Terminate the block-metadata worker once its drain is complete.
    pub fn finish_notify_block(&mut self)
        requires
            old(self)@.wf(),
            old(self)@.block_worker.phase == WorkerPhase::Draining,
            old(self)@.block_worker.in_flight == 0,
        ensures
            final(self)@.wf(),
            final(self)@ == (PipelineView {
                block_worker: spec_worker_step(old(self)@.block_worker, WorkerOp::Finish).0,
                ..old(self)@
            }),
            final(self)@.block_worker.phase == WorkerPhase::Terminated,
    {
        self.block_worker.finish();
        proof {
            assert(self@ =~= (PipelineView { block_worker: self@.block_worker, ..old(self)@ }));
        }
    }

    // -----------------------------------------------------------------
    // Statistics
    // -----------------------------------------------------------------
    /// Snapshot every delivery counter for the metrics endpoint.
    pub fn stats_snapshot(&self) -> (s: Stats)
        ensures
            s@ == spec_snapshot(
                self@.account_worker,
                self@.slot_status_worker,
                self@.transaction_worker,
                self@.block_worker,
            ),
    {
        let bytes = self.account_worker.bytes_tx().saturating_add(
            self.slot_status_worker.bytes_tx(),
        ).saturating_add(self.transaction_worker.bytes_tx()).saturating_add(
            self.block_worker.bytes_tx(),
        );
        let s = Stats {
            kafka_update_account: self.account_worker.sent(),
            kafka_update_slot: self.slot_status_worker.sent(),
            kafka_notify_transaction: self.transaction_worker.sent(),
            kafka_notify_block: self.block_worker.sent(),
            kafka_error_update_account: self.account_worker.send_failed(),
            kafka_error_update_slot: self.slot_status_worker.send_failed(),
            kafka_error_notify_transaction: self.transaction_worker.send_failed(),
            kafka_error_notify_block: self.block_worker.send_failed(),
            kafka_error_serialize: 0,
            kafka_bytes_tx: bytes,
        };
        proof {
            assert(s@ =~= spec_snapshot(
                self@.account_worker,
                self@.slot_status_worker,
                self@.transaction_worker,
                self@.block_worker,
            ));
        }
        s
    }
}

} // verus!
