//! The publisher worker: the bookkeeping half of the per-category publishing
//! loop. A worker takes events dequeued from its category's ingestion
//! channel, derives the message key, serializes the payload, and hands the
//! resulting envelope off as an independently tracked in-flight send, so a
//! slow send never blocks the next dequeue. When a send resolves, the worker
//! records the outcome in its delivery counters; a failed send is counted
//! and dropped, never re-dispatched.
//!
//! The worker moves through `Running`, then `Draining` once the stop signal
//! is observed, then `Terminated` once every in-flight send has resolved.

use vstd::prelude::*;

use crate::event_codec::{ser_event, serialize_event};
use crate::hash::event_key;
use crate::kafka_structs::{KafkaEvent, KafkaEventView};
use crate::message_type::MessageType;

verus! {

/// The lifecycle phase of a worker.
#[derive(Debug, Clone, Copy, PartialEq, Eq, Structural)]
pub enum WorkerPhase {
    /// Dequeuing and dispatching events.
    Running,
    /// The stop signal was observed: remaining queued events are drained and
    /// in-flight sends awaited, but no new work is started after the drain.
    Draining,
    /// Every in-flight send has resolved; the worker task exits.
    Terminated,
}

/// What a worker hands to the broker for one event: the topic category, the
/// derived partition key, and the serialized payload. Built immediately
/// before transmission and owned by the send from then on.
#[derive(Debug, Clone, PartialEq, Eq)]
pub struct EventEnvelope {
    pub category: MessageType,
    pub key: String,
    pub payload: Vec<u8>,
}

/// The abstract content of an envelope.
#[verifier::ext_equal]
pub struct EnvelopeView {
    pub category: MessageType,
    pub key: Seq<char>,
    pub payload: Seq<u8>,
}

impl View for EventEnvelope {
    type V = EnvelopeView;

    open spec fn view(&self) -> EnvelopeView {
        EnvelopeView { category: self.category, key: self.key@, payload: self.payload@ }
    }
}

/// The abstract state of a worker: its phase, its delivery counters, and the
/// tallies of sends dispatched and resolved so far.
#[verifier::ext_equal]
pub struct WorkerView {
    pub category: MessageType,
    pub phase: WorkerPhase,
    /// Events whose send resolved successfully.
    pub sent: nat,
    /// Events whose send resolved in failure.
    pub send_failed: nat,
    /// Payload bytes of successfully delivered events.
    pub bytes_tx: nat,
    /// Sends dispatched and not yet resolved.
    pub in_flight: nat,
    /// Sends dispatched in total.
    pub dispatched: nat,
    /// Sends resolved in total (completed send attempts).
    pub resolved: nat,
}

impl WorkerView {
    /// The accounting invariant: every dispatched send is either still in
    /// flight or resolved, and every completed send attempt was counted
    /// exactly once, as a success or as a failure.
    pub open spec fn wf(self) -> bool {
        &&& self.resolved <= self.dispatched
        &&& self.in_flight == self.dispatched - self.resolved
        &&& self.sent + self.send_failed == self.resolved
    }
}

/// One step of the worker's state machine.
pub enum WorkerOp {
    /// An event of the worker's category was dequeued and is to be
    /// dispatched.
    Dispatch(KafkaEventView),
    /// An in-flight send resolved, successfully or not, for a payload of the
    /// given size.
    SendResolved { delivered: bool, payload_len: nat },
    /// The stop signal was observed.
    Stop,
    /// Draining is complete and no send is in flight.
    Finish,
}

/// The worker transition function: what each step does to the worker's
/// state, and the envelope it emits if the step dispatches a send.
pub open spec fn spec_worker_step(w: WorkerView, op: WorkerOp) -> (WorkerView, Option<
    EnvelopeView,
>) {
    match op {
        WorkerOp::Dispatch(e) => if w.phase != WorkerPhase::Terminated {
            (
                WorkerView { in_flight: w.in_flight + 1, dispatched: w.dispatched + 1, ..w },
                Some(
                    EnvelopeView {
                        category: w.category,
                        key: event_key(e),
                        payload: ser_event(e),
                    },
                ),
            )
        } else {
            (w, None)
        },
        WorkerOp::SendResolved { delivered, payload_len } => if w.in_flight > 0 {
            if delivered {
                (
                    WorkerView {
                        sent: w.sent + 1,
                        bytes_tx: w.bytes_tx + payload_len,
                        in_flight: (w.in_flight - 1) as nat,
                        resolved: w.resolved + 1,
                        ..w
                    },
                    None,
                )
            } else {
                (
                    WorkerView {
                        send_failed: w.send_failed + 1,
                        in_flight: (w.in_flight - 1) as nat,
                        resolved: w.resolved + 1,
                        ..w
                    },
                    None,
                )
            }
        } else {
            (w, None)
        },
        WorkerOp::Stop => if w.phase == WorkerPhase::Running {
            (WorkerView { phase: WorkerPhase::Draining, ..w }, None)
        } else {
            (w, None)
        },
        WorkerOp::Finish => if w.phase == WorkerPhase::Draining && w.in_flight == 0 {
            (WorkerView { phase: WorkerPhase::Terminated, ..w }, None)
        } else {
            (w, None)
        },
    }
}

/// The publisher worker for one category.
pub struct PublisherWorker {
    category: MessageType,
    phase: WorkerPhase,
    sent: u64,
    send_failed: u64,
    bytes_tx: u64,
    in_flight: u64,
    dispatched: Ghost<nat>,
    resolved: Ghost<nat>,
}

impl View for PublisherWorker {
    type V = WorkerView;

    closed spec fn view(&self) -> WorkerView {
        WorkerView {
            category: self.category,
            phase: self.phase,
            sent: self.sent as nat,
            send_failed: self.send_failed as nat,
            bytes_tx: self.bytes_tx as nat,
            in_flight: self.in_flight as nat,
            dispatched: self.dispatched@,
            resolved: self.resolved@,
        }
    }
}

impl PublisherWorker {
    /// A fresh worker for the category: running, with zeroed counters and
    /// nothing in flight.
    pub fn new(category: MessageType) -> (w: Self)
        ensures
            w@ == (WorkerView {
                category,
                phase: WorkerPhase::Running,
                sent: 0,
                send_failed: 0,
                bytes_tx: 0,
                in_flight: 0,
                dispatched: 0,
                resolved: 0,
            }),
            w@.wf(),
    {
        PublisherWorker {
            category,
            phase: WorkerPhase::Running,
            sent: 0,
            send_failed: 0,
            bytes_tx: 0,
            in_flight: 0,
            dispatched: Ghost(0),
            resolved: Ghost(0),
        }
    }

    pub fn category(&self) -> (c: MessageType)
        ensures
            c == self@.category,
    {
        self.category
    }

    pub fn phase(&self) -> (p: WorkerPhase)
        ensures
            p == self@.phase,
    {
        self.phase
    }

    pub fn sent(&self) -> (n: u64)
        ensures
            n == self@.sent,
    {
        self.sent
    }

    pub fn send_failed(&self) -> (n: u64)
        ensures
            n == self@.send_failed,
    {
        self.send_failed
    }

    pub fn bytes_tx(&self) -> (n: u64)
        ensures
            n == self@.bytes_tx,
    {
        self.bytes_tx
    }

    pub fn in_flight(&self) -> (n: u64)
        ensures
            n == self@.in_flight,
    {
        self.in_flight
    }

    /// Turn a dequeued event into an envelope and track the send as
    /// in-flight. Dispatching needs no send to have resolved first: any
    /// number of sends may still be pending, so one slow send never stalls
    /// the dequeue loop.
    pub fn dispatch(&mut self, e: &KafkaEvent) -> (env: EventEnvelope)
        requires
            old(self)@.wf(),
            old(self)@.phase != WorkerPhase::Terminated,
            e@.category() == old(self)@.category,
            old(self)@.in_flight < u64::MAX,
        ensures
            final(self)@.wf(),
            (final(self)@, Some(env@)) == spec_worker_step(old(self)@, WorkerOp::Dispatch(e@)),
    {
        let key = e.derive_key();
        let payload = serialize_event(e);
        self.in_flight = self.in_flight + 1;
        proof {
            self.dispatched@ = self.dispatched@ + 1;
        }
        let env = EventEnvelope { category: self.category, key, payload };
        proof {
            assert(self@ =~= spec_worker_step(old(self)@, WorkerOp::Dispatch(e@)).0);
            assert(env@ =~= spec_worker_step(old(self)@, WorkerOp::Dispatch(e@)).1.unwrap());
        }
        env
    }

    /// Record the outcome of one resolved send: a success is counted in
    /// `sent` and its payload size in `bytes_tx`; a failure is counted in
    /// `send_failed` and the event is dropped, never re-dispatched (the
    /// transport's own bounded retries have already happened inside the
    /// send).
    pub fn record_send_outcome(&mut self, delivered: bool, payload_len: u64)
        requires
            old(self)@.wf(),
            old(self)@.in_flight > 0,
            old(self)@.sent < u64::MAX,
            old(self)@.send_failed < u64::MAX,
            old(self)@.bytes_tx + payload_len <= u64::MAX,
        ensures
            final(self)@.wf(),
            final(self)@ == spec_worker_step(
                old(self)@,
                WorkerOp::SendResolved { delivered, payload_len: payload_len as nat },
            ).0,
    {
        if delivered {
            self.sent = self.sent + 1;
            self.bytes_tx = self.bytes_tx + payload_len;
        } else {
            self.send_failed = self.send_failed + 1;
        }
        self.in_flight = self.in_flight - 1;
        proof {
            self.resolved@ = self.resolved@ + 1;
            assert(self@ =~= spec_worker_step(
                old(self)@,
                WorkerOp::SendResolved { delivered, payload_len: payload_len as nat },
            ).0);
        }
    }

    /// Observe the stop signal: a running worker enters `Draining`.
    pub fn observe_stop(&mut self)
        requires
            old(self)@.wf(),
        ensures
            final(self)@.wf(),
            final(self)@ == spec_worker_step(old(self)@, WorkerOp::Stop).0,
    {
        if matches!(self.phase, WorkerPhase::Running) {
            self.phase = WorkerPhase::Draining;
        }
        proof {
            assert(self@ =~= spec_worker_step(old(self)@, WorkerOp::Stop).0);
        }
    }

    /// Terminate once draining is done and no send is in flight.
    pub fn finish(&mut self)
        requires
            old(self)@.wf(),
            old(self)@.phase == WorkerPhase::Draining,
            old(self)@.in_flight == 0,
        ensures
            final(self)@.wf(),
            final(self)@ == spec_worker_step(old(self)@, WorkerOp::Finish).0,
            final(self)@.phase == WorkerPhase::Terminated,
    {
        self.phase = WorkerPhase::Terminated;
        proof {
            assert(self@ =~= spec_worker_step(old(self)@, WorkerOp::Finish).0);
        }
    }
}

// ---------------------------------------------------------------------------
// Laws
// ---------------------------------------------------------------------------
/// Delivery counters are monotonic: no worker step ever decreases `sent`,
/// `send_failed`, or `bytes_tx`, under any sequence or interleaving of
/// steps.
pub proof fn lemma_worker_counters_monotonic(w: WorkerView, op: WorkerOp)
    ensures
        ({
            let w2 = spec_worker_step(w, op).0;
            w2.sent >= w.sent && w2.send_failed >= w.send_failed && w2.bytes_tx >= w.bytes_tx
        }),
{
}

/// Every worker step preserves the accounting invariant, so in every
/// reachable worker state `sent + send_failed` equals the number of
/// dispatched events whose send attempt completed.
pub proof fn lemma_send_accounting(w: WorkerView, op: WorkerOp)
    requires
        w.wf(),
    ensures
        spec_worker_step(w, op).0.wf(),
        w.sent + w.send_failed == w.resolved,
{
}

/// No head-of-line blocking: a dispatch needs no pending send to have
/// resolved first. Whatever number of sends is still in flight — including
/// one that hangs forever — the next two dequeued events are both turned
/// into envelopes, with their own keys and payloads, and dispatched.
pub proof fn lemma_no_head_of_line_blocking(w: WorkerView, e1: KafkaEventView, e2: KafkaEventView)
    requires
        w.wf(),
        w.phase == WorkerPhase::Running,
    ensures
        ({
            let (w1, env1) = spec_worker_step(w, WorkerOp::Dispatch(e1));
            let (w2, env2) = spec_worker_step(w1, WorkerOp::Dispatch(e2));
            &&& env1 == Some(
                EnvelopeView { category: w.category, key: event_key(e1), payload: ser_event(e1) },
            )
            &&& env2 == Some(
                EnvelopeView { category: w.category, key: event_key(e2), payload: ser_event(e2) },
            )
            &&& w2.in_flight == w.in_flight + 2
        }),
{
}

} // verus!
