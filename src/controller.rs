//! The pipeline controller: owns the buffer, the assembler, the export gate
//! and the retry queue, and keeps an exact account of every accepted span.
//!
//! The controller does no I/O. The code that runs it hands in the time, the
//! transport's outcomes and random draws, and performs the exports it is
//! handed.
use std::collections::VecDeque;
use vstd::prelude::*;

use crate::batch::{batch_views, BatchAssembler};
use crate::buffer::{min_int, SpanBuffer};
use crate::config::{config_problem, ExportConfig};
use crate::export::{classification, classify, ExportGate, ExportResult, TransportOutcome};
use crate::retry::{backoff_delay, backoff_spec, BatchState, BatchTracker, RetryPolicy};
use crate::sampler::{decision_of, clamp_ratio, Decision, Sampler};
use crate::span::Span;

verus! {

/// The sum of a sequence of counts.
pub open spec fn total(s: Seq<nat>) -> nat
    decreases s.len(),
{
    if s.len() == 0 {
        0
    } else {
        s[0] + total(s.drop_first())
    }
}

pub proof fn lemma_total_concat(a: Seq<nat>, b: Seq<nat>)
    ensures
        total(a + b) == total(a) + total(b),
    decreases a.len(),
{
    if a.len() == 0 {
        assert(a + b =~= b);
    } else {
        assert((a + b).drop_first() =~= a.drop_first() + b);
        lemma_total_concat(a.drop_first(), b);
    }
}

pub proof fn lemma_total_push(a: Seq<nat>, x: nat)
    ensures
        total(a.push(x)) == total(a) + x,
{
    lemma_total_concat(a, seq![x]);
    assert(a.push(x) =~= a + seq![x]);
    assert(seq![x].drop_first() =~= Seq::<nat>::empty());
    assert(total(Seq::<nat>::empty()) == 0);
    assert(total(seq![x]) == x + total(seq![x].drop_first()));
}

pub proof fn lemma_total_remove(a: Seq<nat>, i: int)
    requires
        0 <= i < a.len(),
    ensures
        total(a.remove(i)) + a[i] == total(a),
{
    let l = a.take(i);
    let r = a.skip(i + 1);
    assert(a =~= l + (seq![a[i]] + r));
    assert(a.remove(i) =~= l + r);
    lemma_total_concat(l, seq![a[i]] + r);
    lemma_total_concat(l, r);
    assert((seq![a[i]] + r).drop_first() =~= r);
}

/// The total length of a sequence of batches is the length of their concatenation.
pub proof fn lemma_flatten_total(bs: Seq<Seq<Span>>)
    ensures
        bs.flatten().len() == total(bs.map_values(|b: Seq<Span>| b.len())),
    decreases bs.len(),
{
    if bs.len() > 0 {
        assert(bs.map_values(|b: Seq<Span>| b.len()).drop_first() =~= bs.drop_first().map_values(
            |b: Seq<Span>| b.len(),
        ));
        lemma_flatten_total(bs.drop_first());
    }
}

/// A batch of spans handed to an exporter, with the id its result is reported under.
#[derive(Debug)]
pub struct Batch {
    pub id: u64,
    pub spans: Vec<Span>,
}

/// Counters the pipeline exposes about itself.
#[derive(Clone, Copy, Debug, PartialEq, Eq, Structural)]
pub struct PipelineStats {
    /// Spans taken into the buffer.
    pub accepted: u64,
    /// Spans in batches the collector acknowledged.
    pub exported: u64,
    /// Spans refused because the buffer was full.
    pub dropped_buffer_full: u64,
    /// Spans refused because shutdown had begun.
    pub rejected_after_shutdown: u64,
    /// Spans of batches dropped because no export slot came free in time.
    pub dropped_backpressure: u64,
    /// Spans of batches the collector refused for good.
    pub dropped_fatal: u64,
    /// Spans of batches that ran out of retries.
    pub dropped_retries_exhausted: u64,
    /// Spans of batches pushed out of a full retry queue.
    pub dropped_retry_evicted: u64,
    /// Spans still in the pipeline when the shutdown deadline passed.
    pub dropped_shutdown: u64,
    pub batches_sent: u64,
    pub batches_acked: u64,
    pub batches_abandoned: u64,
}

/// Accepted spans that were dropped afterwards.
pub open spec fn dropped_after_accept(s: PipelineStats) -> int {
    s.dropped_backpressure + s.dropped_fatal + s.dropped_retries_exhausted
        + s.dropped_retry_evicted + s.dropped_shutdown
}

/// `x + 1`, staying at `u64::MAX`.
pub open spec fn sat_inc(x: u64) -> u64 {
    if x == u64::MAX {
        x
    } else {
        (x + 1) as u64
    }
}

/// `a + b`, staying at `u64::MAX`.
pub open spec fn sat_add(a: u64, b: u64) -> u64 {
    min_int(a + b, u64::MAX as int) as u64
}

fn inc(x: u64) -> (r: u64)
    ensures
        r == sat_inc(x),
{
    if x == u64::MAX {
        x
    } else {
        x + 1
    }
}

/// Why a span was not taken.
#[derive(Clone, Copy, Debug, PartialEq, Eq, Structural)]
pub enum SubmitError {
    BufferFull,
    ShuttingDown,
    /// The accepted-span counter is at its largest value.
    CounterLimit,
}

/// What a poll for work hands out.
#[derive(Debug)]
pub enum Handoff {
    /// Export this batch, then report its outcome with `complete`.
    Export(Batch),
    /// Every export slot is taken.
    Saturated,
    /// No batch is ready.
    Idle,
}

/// What became of a batch whose export outcome was reported.
#[derive(Clone, Copy, Debug, PartialEq, Eq, Structural)]
pub enum Completion {
    Acked,
    RetryScheduled { due_at: u64 },
    Abandoned,
    /// The batch was not in flight (its spans were already counted as dropped).
    Unknown,
}

/// Where a shutdown stands.
#[derive(Clone, Copy, Debug, PartialEq, Eq, Structural)]
pub enum ShutdownStatus {
    Running,
    Draining,
    Finished,
}

struct InFlight {
    id: u64,
    span_count: usize,
    tracker: BatchTracker,
}

struct RetryEntry {
    batch: Batch,
    span_count: usize,
    tracker: BatchTracker,
    due_at: u64,
}

spec fn ready_counts(q: Seq<Batch>) -> Seq<nat> {
    q.map_values(|b: Batch| b.spans@.len())
}

spec fn flight_counts(q: Seq<InFlight>) -> Seq<nat> {
    q.map_values(|r: InFlight| r.span_count as nat)
}

spec fn retry_counts(q: Seq<RetryEntry>) -> Seq<nat> {
    q.map_values(|e: RetryEntry| e.span_count as nat)
}

/// Owns every stage of the pipeline and its counters.
pub struct PipelineController {
    sampler: Sampler,
    buffer: SpanBuffer,
    assembler: BatchAssembler,
    gate: ExportGate,
    concurrency: usize,
    policy: RetryPolicy,
    retry_bound: usize,
    retries: VecDeque<RetryEntry>,
    ready: VecDeque<Batch>,
    in_flight: Vec<InFlight>,
    next_id: u64,
    stats: PipelineStats,
    shutting_down: bool,
    grace_ms: u64,
    deadline: u64,
}

impl PipelineController {
    pub closed spec fn stats_spec(&self) -> PipelineStats {
        self.stats
    }

    /// The buffered spans, oldest first.
    pub closed spec fn buffered(&self) -> Seq<Span> {
        self.buffer@
    }

    pub closed spec fn buffer_cap(&self) -> nat {
        self.buffer.cap()
    }

    pub closed spec fn assembler_spec(&self) -> BatchAssembler {
        self.assembler
    }

    /// Batches flushed at shutdown and not yet handed out.
    pub closed spec fn ready_spec(&self) -> Seq<Batch> {
        self.ready@
    }

    pub closed spec fn ratio_spec(&self) -> int {
        self.sampler.ratio_spec()
    }

    pub closed spec fn is_shutting_down(&self) -> bool {
        self.shutting_down
    }

    pub closed spec fn deadline_spec(&self) -> u64 {
        self.deadline
    }

    pub closed spec fn grace_spec(&self) -> u64 {
        self.grace_ms
    }

    pub closed spec fn policy_spec(&self) -> RetryPolicy {
        self.policy
    }

    pub closed spec fn gate_spec(&self) -> ExportGate {
        self.gate
    }

    /// The ids of the batches in flight, in dispatch order.
    pub closed spec fn flight_ids(&self) -> Seq<u64> {
        self.in_flight@.map_values(|r: InFlight| r.id)
    }

    pub closed spec fn flight_span_counts(&self) -> Seq<nat> {
        flight_counts(self.in_flight@)
    }

    pub closed spec fn flight_retries(&self) -> Seq<nat> {
        self.in_flight@.map_values(|r: InFlight| r.tracker.retries_spec())
    }

    /// Batches waiting for a retry.
    pub closed spec fn retry_len(&self) -> nat {
        self.retries@.len()
    }

    pub closed spec fn retry_bound_spec(&self) -> nat {
        self.retry_bound as nat
    }

    /// Accepted spans not yet acknowledged or dropped: buffered, pending in
    /// the assembler, flushed, in flight, or waiting for a retry.
    pub closed spec fn in_pipeline(&self) -> nat {
        self.buffer@.len() + self.assembler.pending_spec().len() + total(ready_counts(self.ready@))
            + total(flight_counts(self.in_flight@)) + total(retry_counts(self.retries@))
    }

    /// Nothing is left in the pipeline.
    pub closed spec fn is_drained(&self) -> bool {
        &&& self.buffer@.len() == 0
        &&& self.assembler.pending_spec().len() == 0
        &&& self.ready@.len() == 0
        &&& self.in_flight@.len() == 0
        &&& self.retries@.len() == 0
    }

    pub closed spec fn inv(&self) -> bool {
        &&& self.buffer.inv()
        &&& self.assembler.inv()
        &&& self.gate.inv()
        &&& self.gate.bound() == self.concurrency
        &&& self.gate.held() == self.in_flight@.len()
        &&& 0 < self.retry_bound
        &&& self.retries@.len() <= self.retry_bound
        &&& self.shutting_down ==> self.buffer@.len() == 0 && self.assembler.pending_spec().len()
            == 0
        &&& forall|i: int|
            0 <= i < self.in_flight@.len() ==> (#[trigger] self.in_flight@[i]).tracker.inv()
                && self.in_flight@[i].tracker.state_spec() == BatchState::Sent
                && self.in_flight@[i].tracker.max_spec() == self.policy.max_retries
        &&& forall|i: int|
            0 <= i < self.retries@.len() ==> (#[trigger] self.retries@[i]).tracker.inv()
                && self.retries@[i].tracker.state_spec() == BatchState::Retrying
                && self.retries@[i].tracker.max_spec() == self.policy.max_retries
        &&& self.stats.accepted == self.in_pipeline() + self.stats.exported + dropped_after_accept(
            self.stats,
        )
    }

    /// Every accepted span is still in the pipeline, acknowledged, or counted
    /// as dropped: none goes missing.
    pub proof fn lemma_every_span_accounted(&self)
        requires
            self.inv(),
        ensures
            self.stats_spec().accepted == self.in_pipeline() + self.stats_spec().exported
                + dropped_after_accept(self.stats_spec()),
    {
    }

    /// Once drained, every accepted span was acknowledged or counted as dropped.
    pub proof fn lemma_drained_accounts_all(&self)
        requires
            self.inv(),
            self.is_drained(),
        ensures
            self.stats_spec().accepted == self.stats_spec().exported + dropped_after_accept(
                self.stats_spec(),
            ),
    {
        assert(ready_counts(self.ready@) =~= Seq::<nat>::empty());
        assert(flight_counts(self.in_flight@) =~= Seq::<nat>::empty());
        assert(retry_counts(self.retries@) =~= Seq::<nat>::empty());
    }

    /// Builds a pipeline from `config`, or names the first problem with it.
    pub fn start(config: &ExportConfig) -> (r: Result<PipelineController, crate::config::ConfigError>)
        ensures
            config_problem(*config) is Some ==> r == Err::<PipelineController, _>(
                config_problem(*config).unwrap(),
            ),
            config_problem(*config) is None ==> r is Ok && {
                let c = r.unwrap();
                &&& c.inv()
                &&& c.is_drained()
                &&& !c.is_shutting_down()
                &&& c.stats_spec().accepted == 0
                &&& c.ratio_spec() == clamp_ratio(config.sampling_ratio as int)
                &&& c.buffer_cap() == config.buffer_capacity
                &&& c.assembler_spec().size_limit() == config.max_batch_size
                &&& c.assembler_spec().delay_limit() == config.max_batch_delay_ms
                &&& c.gate_spec().bound() == config.max_concurrent_exports
                &&& c.retry_bound_spec() == config.retry_queue_bound
                &&& c.policy_spec() == config.retry
                &&& c.grace_spec() == config.shutdown_deadline_ms
            },
    {
        match config.validate() {
            Err(e) => Err(e),
            Ok(()) => {
                let stats = PipelineStats {
                    accepted: 0,
                    exported: 0,
                    dropped_buffer_full: 0,
                    rejected_after_shutdown: 0,
                    dropped_backpressure: 0,
                    dropped_fatal: 0,
                    dropped_retries_exhausted: 0,
                    dropped_retry_evicted: 0,
                    dropped_shutdown: 0,
                    batches_sent: 0,
                    batches_acked: 0,
                    batches_abandoned: 0,
                };
                let c = PipelineController {
                    sampler: Sampler::new(config.sampling_ratio),
                    buffer: SpanBuffer::new(config.buffer_capacity),
                    assembler: BatchAssembler::new(config.max_batch_size, config.max_batch_delay_ms),
                    gate: ExportGate::new(config.max_concurrent_exports),
                    concurrency: config.max_concurrent_exports,
                    policy: config.retry,
                    retry_bound: config.retry_queue_bound,
                    retries: VecDeque::new(),
                    ready: VecDeque::new(),
                    in_flight: Vec::new(),
                    next_id: 0,
                    stats,
                    shutting_down: false,
                    grace_ms: config.shutdown_deadline_ms,
                    deadline: 0,
                };
                proof {
                    assert(ready_counts(c.ready@) =~= Seq::<nat>::empty());
                    assert(flight_counts(c.in_flight@) =~= Seq::<nat>::empty());
                    assert(retry_counts(c.retries@) =~= Seq::<nat>::empty());
                }
                Ok(c)
            },
        }
    }

    /// The sampling decision for a new trace.
    pub fn sample(&self, trace_id: u128) -> (d: Decision)
        ensures
            d == decision_of(trace_id, self.ratio_spec()),
    {
        self.sampler.decide(trace_id)
    }

    pub fn stats(&self) -> (s: PipelineStats)
        ensures
            s == self.stats_spec(),
    {
        self.stats
    }

    /// How long to sleep after a poll at `now` that found no work: until
    /// the pending batch is due, and never longer than `idle_cap`.
    pub fn idle_wait(&self, now: u64, idle_cap: u64) -> (w: u64)
        requires
            self.inv(),
        ensures
            w == self.assembler_spec().wait_spec(now, idle_cap),
    {
        self.assembler.idle_wait(now, idle_cap)
    }

    /// Spans waiting in the buffer.
    pub fn buffer_depth(&self) -> (n: usize)
        ensures
            n == self.buffered().len(),
    {
        self.buffer.len()
    }

    pub fn is_shutting_down_now(&self) -> (b: bool)
        ensures
            b == self.is_shutting_down(),
    {
        self.shutting_down
    }

    /// Takes a finished span. Never blocks: a full buffer, a shutdown under way
    /// or a saturated counter refuse the span, which is counted and dropped.
    pub fn submit(&mut self, span: Span) -> (r: Result<(), SubmitError>)
        requires
            old(self).inv(),
        ensures
            final(self).inv(),
            final(self).is_shutting_down() == old(self).is_shutting_down(),
            final(self).deadline_spec() == old(self).deadline_spec(),
            final(self).buffer_cap() == old(self).buffer_cap(),
            final(self).assembler_spec() == old(self).assembler_spec(),
            old(self).is_shutting_down() ==> {
                &&& r == Err::<(), SubmitError>(SubmitError::ShuttingDown)
                &&& final(self).buffered() == old(self).buffered()
                &&& final(self).stats_spec() == (PipelineStats {
                    rejected_after_shutdown: sat_inc(old(self).stats_spec().rejected_after_shutdown),
                    ..old(self).stats_spec()
                })
            },
            !old(self).is_shutting_down() && old(self).buffered().len() >= old(self).buffer_cap() ==> {
                &&& r == Err::<(), SubmitError>(SubmitError::BufferFull)
                &&& final(self).buffered() == old(self).buffered()
                &&& final(self).stats_spec() == (PipelineStats {
                    dropped_buffer_full: sat_inc(old(self).stats_spec().dropped_buffer_full),
                    ..old(self).stats_spec()
                })
            },
            !old(self).is_shutting_down() && old(self).buffered().len() < old(self).buffer_cap()
                && old(self).stats_spec().accepted == u64::MAX ==> {
                &&& r == Err::<(), SubmitError>(SubmitError::CounterLimit)
                &&& final(self).buffered() == old(self).buffered()
                &&& final(self).stats_spec() == old(self).stats_spec()
            },
            !old(self).is_shutting_down() && old(self).buffered().len() < old(self).buffer_cap()
                && old(self).stats_spec().accepted < u64::MAX ==> {
                &&& r is Ok
                &&& final(self).buffered() == old(self).buffered().push(span)
                &&& final(self).stats_spec() == (PipelineStats {
                    accepted: (old(self).stats_spec().accepted + 1) as u64,
                    ..old(self).stats_spec()
                })
            },
    {
        if self.shutting_down {
            self.stats.rejected_after_shutdown = inc(self.stats.rejected_after_shutdown);
            return Err(SubmitError::ShuttingDown);
        }
        if self.buffer.is_full() {
            self.stats.dropped_buffer_full = inc(self.stats.dropped_buffer_full);
            return Err(SubmitError::BufferFull);
        }
        if self.stats.accepted == u64::MAX {
            return Err(SubmitError::CounterLimit);
        }
        match self.buffer.push(span) {
            Ok(()) => {
                self.stats.accepted = self.stats.accepted + 1;
                Ok(())
            },
            Err(_) => Err(SubmitError::BufferFull),
        }
    }

    /// Everything a poll or a result leaves as it was.
    pub open spec fn same_setup(&self, other: &PipelineController) -> bool {
        &&& other.is_shutting_down() == self.is_shutting_down()
        &&& other.deadline_spec() == self.deadline_spec()
        &&& other.grace_spec() == self.grace_spec()
        &&& other.buffer_cap() == self.buffer_cap()
        &&& other.policy_spec() == self.policy_spec()
        &&& other.retry_bound_spec() == self.retry_bound_spec()
        &&& other.ratio_spec() == self.ratio_spec()
        &&& other.assembler_spec().size_limit() == self.assembler_spec().size_limit()
        &&& other.assembler_spec().delay_limit() == self.assembler_spec().delay_limit()
        &&& other.gate_spec().bound() == self.gate_spec().bound()
    }

    fn fresh_id(&mut self) -> (id: u64)
        ensures
            *final(self) == (PipelineController { next_id: final(self).next_id, ..*old(self) }),
            id == old(self).next_id,
    {
        let id = self.next_id;
        self.next_id = if id == u64::MAX {
            0
        } else {
            id + 1
        };
        id
    }

    /// Hands out the next batch to export: a batch flushed at shutdown first,
    /// else whatever the assembler closes at `now`. Nothing moves while every
    /// export slot is taken.
    pub fn poll_batch(&mut self, now: u64) -> (r: Handoff)
        requires
            old(self).inv(),
        ensures
            final(self).inv(),
            old(self).same_setup(final(self)),
            old(self).gate_spec().held() >= old(self).gate_spec().bound() ==> r is Saturated
                && *final(self) == *old(self),
            old(self).gate_spec().held() < old(self).gate_spec().bound() && old(self).ready_spec().len()
                > 0 ==> {
                &&& r is Export
                &&& r->Export_0 == old(self).ready_spec()[0]
                &&& final(self).ready_spec() == old(self).ready_spec().drop_first()
                &&& final(self).buffered() == old(self).buffered()
                &&& final(self).flight_ids() == old(self).flight_ids().push(r->Export_0.id)
                &&& final(self).flight_retries() == old(self).flight_retries().push(0)
                &&& final(self).stats_spec() == (PipelineStats {
                    batches_sent: sat_inc(old(self).stats_spec().batches_sent),
                    ..old(self).stats_spec()
                })
            },
            old(self).gate_spec().held() < old(self).gate_spec().bound() && old(self).ready_spec().len()
                == 0 ==> {
                let a = old(self).assembler_spec();
                let buf = old(self).buffered();
                &&& final(self).buffered() == buf.skip(a.taken(buf))
                &&& final(self).ready_spec() == old(self).ready_spec()
                &&& a.poll_emits(buf, now) ==> {
                    &&& r is Export
                    &&& r->Export_0.spans@ == a.gathered(buf)
                    &&& final(self).assembler_spec().pending_spec().len() == 0
                    &&& final(self).flight_ids() == old(self).flight_ids().push(r->Export_0.id)
                    &&& final(self).flight_retries() == old(self).flight_retries().push(0)
                    &&& final(self).stats_spec() == (PipelineStats {
                        batches_sent: sat_inc(old(self).stats_spec().batches_sent),
                        ..old(self).stats_spec()
                    })
                }
                &&& !a.poll_emits(buf, now) ==> {
                    &&& r is Idle
                    &&& final(self).assembler_spec().pending_spec() == a.gathered(buf)
                    &&& final(self).flight_ids() == old(self).flight_ids()
                    &&& final(self).stats_spec() == old(self).stats_spec()
                }
            },
    {
        if self.gate.is_saturated() {
            return Handoff::Saturated;
        }
        let batch = if self.ready.len() > 0 {
            let b = self.ready.pop_front().unwrap();
            proof {
                let q = old(self).ready@;
                assert(ready_counts(q).drop_first() =~= ready_counts(q.drop_first()));
            }
            b
        } else {
            let ghost a = self.assembler;
            let polled = self.assembler.poll(&mut self.buffer, now);
            match polled {
                None => {
                    proof {
                        let buf = old(self).buffer@;
                        assert(buf =~= buf.take(a.taken(buf)) + buf.skip(a.taken(buf)));
                    }
                    return Handoff::Idle;
                },
                Some(spans) => {
                    proof {
                        let buf = old(self).buffer@;
                        assert(buf =~= buf.take(a.taken(buf)) + buf.skip(a.taken(buf)));
                    }
                    let id = self.fresh_id();
                    Batch { id, spans }
                },
            }
        };
        let admitted = self.gate.try_acquire();
        proof {
            assert(admitted);
        }
        let mut tracker = BatchTracker::new(self.policy.max_retries);
        tracker.mark_sent();
        let ghost before = self.in_flight@;
        self.in_flight.push(InFlight { id: batch.id, span_count: batch.spans.len(), tracker });
        proof {
            assert(flight_counts(self.in_flight@) =~= flight_counts(before).push(
                batch.spans@.len(),
            ));
            lemma_total_push(flight_counts(before), batch.spans@.len());
            assert(self.in_flight@.map_values(|r: InFlight| r.id) =~= before.map_values(
                |r: InFlight| r.id,
            ).push(batch.id));
            assert(self.in_flight@.map_values(|r: InFlight| r.tracker.retries_spec())
                =~= before.map_values(|r: InFlight| r.tracker.retries_spec()).push(0));
        }
        self.stats.batches_sent = inc(self.stats.batches_sent);
        Handoff::Export(batch)
    }

    pub closed spec fn retry_span_counts(&self) -> Seq<nat> {
        retry_counts(self.retries@)
    }

    /// Reports the transport's `outcome` for a batch handed out earlier.
    /// Success acknowledges it; a fatal failure abandons it; a retryable one
    /// queues it again after a jittered backoff (`jitter_draw` is a random
    /// value), or abandons it once its retries are used up. A full retry queue
    /// abandons its oldest entry to make room.
    pub fn complete(&mut self, batch: Batch, outcome: TransportOutcome, now: u64, jitter_draw: u64) -> (r: Completion)
        requires
            old(self).inv(),
        ensures
            final(self).inv(),
            old(self).same_setup(final(self)),
            final(self).buffered() == old(self).buffered(),
            final(self).ready_spec() == old(self).ready_spec(),
            !old(self).flight_ids().contains(batch.id) ==> r == Completion::Unknown && *final(self)
                == *old(self),
            forall|i: int|
                0 <= i < old(self).flight_ids().len() && #[trigger] old(self).flight_ids()[i] == batch.id
                    && (forall|j: int| 0 <= j < i ==> old(self).flight_ids()[j] != batch.id) ==> {
                    let c = old(self).flight_span_counts()[i];
                    let tries = old(self).flight_retries()[i];
                    let st = old(self).stats_spec();
                    let res = classification(outcome);
                    &&& final(self).flight_ids() == old(self).flight_ids().remove(i)
                    &&& final(self).gate_spec().held() == old(self).gate_spec().held() - 1
                    &&& res is Success ==> r == Completion::Acked && final(self).retry_len()
                        == old(self).retry_len() && final(self).stats_spec() == (PipelineStats {
                        exported: (st.exported + c) as u64,
                        batches_acked: sat_inc(st.batches_acked),
                        ..st
                    })
                    &&& res is FatalFailure ==> r == Completion::Abandoned && final(self).retry_len()
                        == old(self).retry_len() && final(self).stats_spec() == (PipelineStats {
                        dropped_fatal: (st.dropped_fatal + c) as u64,
                        batches_abandoned: sat_inc(st.batches_abandoned),
                        ..st
                    })
                    &&& res is RetryableFailure && tries >= old(self).policy_spec().max_retries
                        ==> r == Completion::Abandoned && final(self).retry_len()
                        == old(self).retry_len() && final(self).stats_spec() == (PipelineStats {
                        dropped_retries_exhausted: (st.dropped_retries_exhausted + c) as u64,
                        batches_abandoned: sat_inc(st.batches_abandoned),
                        ..st
                    })
                    &&& res is RetryableFailure && tries < old(self).policy_spec().max_retries ==> {
                        &&& r == (Completion::RetryScheduled {
                            due_at: sat_add(
                                now,
                                backoff_spec(old(self).policy_spec(), tries, jitter_draw as int) as u64,
                            ),
                        })
                        &&& final(self).retry_span_counts().last() == c
                        &&& old(self).retry_len() < old(self).retry_bound_spec() ==> {
                            &&& final(self).retry_span_counts() == old(self).retry_span_counts().push(c)
                            &&& final(self).stats_spec() == st
                        }
                        &&& old(self).retry_len() >= old(self).retry_bound_spec() ==> {
                            &&& final(self).retry_span_counts()
                                == old(self).retry_span_counts().drop_first().push(c)
                            &&& final(self).stats_spec() == (PipelineStats {
                                dropped_retry_evicted: (st.dropped_retry_evicted
                                    + old(self).retry_span_counts()[0]) as u64,
                                batches_abandoned: sat_inc(st.batches_abandoned),
                                ..st
                            })
                        }
                    }
                },
    {
        let mut i: usize = 0;
        while i < self.in_flight.len() && self.in_flight[i].id != batch.id
            invariant
                i <= self.in_flight@.len(),
                *self == *old(self),
                forall|j: int| 0 <= j < i ==> self.in_flight@[j].id != batch.id,
            decreases self.in_flight@.len() - i,
        {
            i = i + 1;
        }
        if i == self.in_flight.len() {
            proof {
                assert forall|j: int| 0 <= j < old(self).flight_ids().len() implies old(self).flight_ids()[j] != batch.id by {
                    assert(old(self).flight_ids()[j] == old(self).in_flight@[j].id);
                }
            }
            return Completion::Unknown;
        }
        let ghost first = i as int;
        proof {
            assert(old(self).flight_ids()[first] == batch.id);
            assert(old(self).flight_ids().contains(batch.id));
            assert forall|k: int|
                0 <= k < old(self).flight_ids().len() && #[trigger] old(self).flight_ids()[k] == batch.id
                    && (forall|j: int| 0 <= j < k ==> old(self).flight_ids()[j] != batch.id) implies k == first by {
                if k < first {
                    assert(old(self).flight_ids()[k] == old(self).in_flight@[k].id);
                } else if k > first {
                    assert(old(self).flight_ids()[first] == batch.id);
                }
            }
        }
        let ghost before = self.in_flight@;
        let rec = self.in_flight.remove(i);
        proof {
            assert(flight_counts(self.in_flight@) =~= flight_counts(before).remove(first));
            lemma_total_remove(flight_counts(before), first);
            assert(self.in_flight@.map_values(|r: InFlight| r.id) =~= before.map_values(
                |r: InFlight| r.id,
            ).remove(first));
            assert forall|k: int| 0 <= k < self.in_flight@.len() implies (#[trigger] self.in_flight@[k]).tracker.inv()
                && self.in_flight@[k].tracker.state_spec() == BatchState::Sent
                && self.in_flight@[k].tracker.max_spec() == self.policy.max_retries by {
                if k < first {
                    assert(self.in_flight@[k] == before[k]);
                } else {
                    assert(self.in_flight@[k] == before[k + 1]);
                }
            }
            assert(before[first] == rec);
        }
        self.gate.release();
        let c: usize = rec.span_count;
        let mut tracker = rec.tracker;
        let tries: u32 = tracker.retries();
        let result = classify(outcome);
        let abandoned_now = tracker.on_result(result);
        match result {
            ExportResult::Success => {
                self.stats.exported = self.stats.exported + c as u64;
                self.stats.batches_acked = inc(self.stats.batches_acked);
                Completion::Acked
            },
            ExportResult::FatalFailure(_) => {
                self.stats.dropped_fatal = self.stats.dropped_fatal + c as u64;
                self.stats.batches_abandoned = inc(self.stats.batches_abandoned);
                Completion::Abandoned
            },
            ExportResult::RetryableFailure(_) => {
                if abandoned_now {
                    self.stats.dropped_retries_exhausted = self.stats.dropped_retries_exhausted
                        + c as u64;
                    self.stats.batches_abandoned = inc(self.stats.batches_abandoned);
                    Completion::Abandoned
                } else {
                    let delay = backoff_delay(&self.policy, tries, jitter_draw);
                    let due_at = now.saturating_add(delay);
                    if self.retries.len() >= self.retry_bound {
                        let ghost q = self.retries@;
                        let evicted = self.retries.pop_front().unwrap();
                        proof {
                            assert(retry_counts(q).drop_first() =~= retry_counts(
                                self.retries@,
                            ));
                            assert forall|k: int| 0 <= k < self.retries@.len() implies (#[trigger] self.retries@[k]).tracker.inv()
                                && self.retries@[k].tracker.state_spec() == BatchState::Retrying
                                && self.retries@[k].tracker.max_spec() == self.policy.max_retries by {
                                assert(self.retries@[k] == q[k + 1]);
                            }
                        }
                        self.stats.dropped_retry_evicted = self.stats.dropped_retry_evicted
                            + evicted.span_count as u64;
                        self.stats.batches_abandoned = inc(self.stats.batches_abandoned);
                    }
                    let ghost q2 = self.retries@;
                    self.retries.push_back(RetryEntry { batch, span_count: c, tracker, due_at });
                    proof {
                        assert(retry_counts(self.retries@) =~= retry_counts(q2).push(c as nat));
                        lemma_total_push(retry_counts(q2), c as nat);
                        assert forall|k: int| 0 <= k < self.retries@.len() implies (#[trigger] self.retries@[k]).tracker.inv()
                            && self.retries@[k].tracker.state_spec() == BatchState::Retrying
                            && self.retries@[k].tracker.max_spec() == self.policy.max_retries by {
                            if k < q2.len() {
                                assert(self.retries@[k] == q2[k]);
                            }
                        }
                    }
                    Completion::RetryScheduled { due_at }
                }
            },
        }
    }

    /// The retry queue's batches, oldest first.
    pub closed spec fn retry_batches(&self) -> Seq<Batch> {
        self.retries@.map_values(|e: RetryEntry| e.batch)
    }

    /// When each queued retry is due, oldest first.
    pub closed spec fn retry_due(&self) -> Seq<u64> {
        self.retries@.map_values(|e: RetryEntry| e.due_at)
    }

    /// Hands out the oldest queued retry once it is due at `now` and an
    /// export slot is free.
    pub fn poll_retry(&mut self, now: u64) -> (r: Option<Batch>)
        requires
            old(self).inv(),
        ensures
            final(self).inv(),
            old(self).same_setup(final(self)),
            final(self).buffered() == old(self).buffered(),
            final(self).ready_spec() == old(self).ready_spec(),
            final(self).assembler_spec() == old(self).assembler_spec(),
            old(self).gate_spec().held() >= old(self).gate_spec().bound() || old(self).retry_len() == 0
                || old(self).retry_due()[0] > now ==> r is None && *final(self) == *old(self),
            !(old(self).gate_spec().held() >= old(self).gate_spec().bound() || old(self).retry_len()
                == 0 || old(self).retry_due()[0] > now) ==> {
                &&& r == Some(old(self).retry_batches()[0])
                &&& final(self).retry_batches() == old(self).retry_batches().drop_first()
                &&& final(self).flight_ids() == old(self).flight_ids().push(r.unwrap().id)
                &&& final(self).stats_spec() == (PipelineStats {
                    batches_sent: sat_inc(old(self).stats_spec().batches_sent),
                    ..old(self).stats_spec()
                })
            },
    {
        if self.gate.is_saturated() || self.retries.len() == 0 {
            return None;
        }
        if self.retries[0].due_at > now {
            return None;
        }
        let ghost q = self.retries@;
        let entry = self.retries.pop_front().unwrap();
        proof {
            assert(retry_counts(q).drop_first() =~= retry_counts(self.retries@));
            assert(self.retries@.map_values(|e: RetryEntry| e.batch) =~= q.map_values(
                |e: RetryEntry| e.batch,
            ).drop_first());
            assert forall|k: int| 0 <= k < self.retries@.len() implies (#[trigger] self.retries@[k]).tracker.inv()
                && self.retries@[k].tracker.state_spec() == BatchState::Retrying
                && self.retries@[k].tracker.max_spec() == self.policy.max_retries by {
                assert(self.retries@[k] == q[k + 1]);
            }
            assert(entry == q[0]);
        }
        let RetryEntry { batch, span_count, tracker, due_at: _ } = entry;
        let mut tracker = tracker;
        tracker.mark_sent();
        let admitted = self.gate.try_acquire();
        proof {
            assert(admitted);
        }
        let ghost before = self.in_flight@;
        self.in_flight.push(InFlight { id: batch.id, span_count, tracker });
        proof {
            assert(flight_counts(self.in_flight@) =~= flight_counts(before).push(span_count as nat));
            lemma_total_push(flight_counts(before), span_count as nat);
            assert(self.in_flight@.map_values(|r: InFlight| r.id) =~= before.map_values(
                |r: InFlight| r.id,
            ).push(batch.id));
        }
        self.stats.batches_sent = inc(self.stats.batches_sent);
        Some(batch)
    }

    /// Drops the batch that waited too long for an export slot: the first
    /// flushed batch, else the batch the assembler closes at `now`. Returns
    /// how many spans were dropped.
    pub fn shed_batch(&mut self, now: u64) -> (n: usize)
        requires
            old(self).inv(),
        ensures
            final(self).inv(),
            old(self).same_setup(final(self)),
            final(self).flight_ids() == old(self).flight_ids(),
            old(self).ready_spec().len() > 0 ==> {
                &&& n == old(self).ready_spec()[0].spans@.len()
                &&& final(self).ready_spec() == old(self).ready_spec().drop_first()
                &&& final(self).buffered() == old(self).buffered()
            },
            old(self).ready_spec().len() == 0 ==> {
                let a = old(self).assembler_spec();
                let buf = old(self).buffered();
                &&& final(self).buffered() == buf.skip(a.taken(buf))
                &&& a.poll_emits(buf, now) ==> n == a.gathered(buf).len()
                    && final(self).assembler_spec().pending_spec().len() == 0
                &&& !a.poll_emits(buf, now) ==> n == 0 && final(self).assembler_spec().pending_spec()
                    == a.gathered(buf)
            },
            n > 0 ==> final(self).stats_spec() == (PipelineStats {
                dropped_backpressure: (old(self).stats_spec().dropped_backpressure + n) as u64,
                batches_abandoned: sat_inc(old(self).stats_spec().batches_abandoned),
                ..old(self).stats_spec()
            }),
            n == 0 ==> final(self).stats_spec() == old(self).stats_spec(),
    {
        let spans = if self.ready.len() > 0 {
            let b = self.ready.pop_front().unwrap();
            proof {
                let q = old(self).ready@;
                assert(ready_counts(q).drop_first() =~= ready_counts(q.drop_first()));
            }
            b.spans
        } else {
            let ghost a = self.assembler;
            let polled = self.assembler.poll(&mut self.buffer, now);
            proof {
                let buf = old(self).buffer@;
                assert(buf =~= buf.take(a.taken(buf)) + buf.skip(a.taken(buf)));
            }
            match polled {
                None => {
                    return 0;
                },
                Some(spans) => spans,
            }
        };
        let n = spans.len();
        if n > 0 {
            self.stats.dropped_backpressure = self.stats.dropped_backpressure + n as u64;
            self.stats.batches_abandoned = inc(self.stats.batches_abandoned);
        }
        n
    }

    /// The spans of the flushed batches, in order.
    pub closed spec fn ready_spans(&self) -> Seq<Span> {
        self.ready@.map_values(|b: Batch| b.spans@).flatten()
    }

    /// Begins shutdown at `now`: no span is taken from here on, and everything
    /// buffered or pending is flushed into batches at once, whatever their
    /// size or age. The deadline is `now` plus the configured grace period.
    /// Calling it again changes nothing.
    pub fn begin_shutdown(&mut self, now: u64)
        requires
            old(self).inv(),
        ensures
            final(self).inv(),
            final(self).is_shutting_down(),
            old(self).is_shutting_down() ==> *final(self) == *old(self),
            !old(self).is_shutting_down() ==> {
                &&& final(self).deadline_spec() == sat_add(now, old(self).grace_spec())
                &&& final(self).buffered().len() == 0
                &&& final(self).assembler_spec().pending_spec().len() == 0
                &&& final(self).ready_spans() == old(self).ready_spans()
                    + old(self).assembler_spec().pending_spec() + old(self).buffered()
                &&& final(self).stats_spec() == old(self).stats_spec()
                &&& final(self).flight_ids() == old(self).flight_ids()
                &&& final(self).retry_len() == old(self).retry_len()
            },
    {
        if self.shutting_down {
            return;
        }
        let ghost pend = self.assembler.pending_spec();
        let ghost buf = self.buffer@;
        let ghost q0 = self.ready@;
        let mut batches = self.assembler.flush(&mut self.buffer);
        proof {
            lemma_flatten_total(batch_views(batches@));
            assert(batch_views(batches@).map_values(|b: Seq<Span>| b.len()) =~= batches@.map_values(
                |b: Vec<Span>| b@.len(),
            ));
        }
        self.shutting_down = true;
        self.deadline = now.saturating_add(self.grace_ms);
        while batches.len() > 0
            invariant
                self.buffer.inv(),
                self.assembler.inv(),
                self.gate.inv(),
                self.gate.bound() == self.concurrency,
                self.gate.held() == self.in_flight@.len(),
                0 < self.retry_bound,
                self.retries@.len() <= self.retry_bound,
                self.shutting_down,
                self.buffer@.len() == 0,
                self.assembler.pending_spec().len() == 0,
                forall|i: int|
                    0 <= i < self.in_flight@.len() ==> (#[trigger] self.in_flight@[i]).tracker.inv()
                        && self.in_flight@[i].tracker.state_spec() == BatchState::Sent
                        && self.in_flight@[i].tracker.max_spec() == self.policy.max_retries,
                forall|i: int|
                    0 <= i < self.retries@.len() ==> (#[trigger] self.retries@[i]).tracker.inv()
                        && self.retries@[i].tracker.state_spec() == BatchState::Retrying
                        && self.retries@[i].tracker.max_spec() == self.policy.max_retries,
                self.stats == old(self).stats,
                self.in_flight@ == old(self).in_flight@,
                self.retries@ == old(self).retries@,
                self.deadline == sat_add(now, old(self).grace_ms),
                self.grace_ms == old(self).grace_ms,
                self.policy == old(self).policy,
                self.retry_bound == old(self).retry_bound,
                self.concurrency == old(self).concurrency,
                self.sampler == old(self).sampler,
                self.buffer.cap() == old(self).buffer.cap(),
                self.assembler.size_limit() == old(self).assembler.size_limit(),
                self.assembler.delay_limit() == old(self).assembler.delay_limit(),
                self.gate == old(self).gate,
                self.ready@.map_values(|b: Batch| b.spans@).flatten() + batch_views(batches@).flatten()
                    == q0.map_values(|b: Batch| b.spans@).flatten() + (pend + buf),
                total(ready_counts(self.ready@)) + total(batches@.map_values(|b: Vec<Span>| b@.len()))
                    == total(ready_counts(q0)) + pend.len() + buf.len(),
            decreases batches@.len(),
        {
            let ghost bs = batches@;
            let ghost rq = self.ready@;
            let spans = batches.remove(0);
            let id = self.fresh_id();
            self.ready.push_back(Batch { id, spans });
            proof {
                assert(batches@ =~= bs.drop_first());
                assert(batch_views(bs).drop_first() =~= batch_views(batches@));
                assert(batch_views(bs)[0] == spans@);
                assert(bs.map_values(|b: Vec<Span>| b@.len()).drop_first() =~= batches@.map_values(
                    |b: Vec<Span>| b@.len(),
                ));
                assert(ready_counts(self.ready@) =~= ready_counts(rq).push(spans@.len()));
                lemma_total_push(ready_counts(rq), spans@.len());
                assert(self.ready@.map_values(|b: Batch| b.spans@) =~= rq.map_values(
                    |b: Batch| b.spans@,
                ).push(spans@));
                rq.map_values(|b: Batch| b.spans@).lemma_flatten_push(spans@);
            }
        }
        proof {
            assert(batch_views(batches@) =~= Seq::<Seq<Span>>::empty());
            assert(batches@.map_values(|b: Vec<Span>| b@.len()) =~= Seq::<nat>::empty());
            assert(Seq::<Seq<Span>>::empty().flatten() =~= Seq::<Span>::empty());
            assert(self.ready@.map_values(|b: Batch| b.spans@).flatten() + Seq::<Span>::empty()
                =~= self.ready@.map_values(|b: Batch| b.spans@).flatten());
            assert(q0.map_values(|b: Batch| b.spans@).flatten() + (pend + buf) =~= q0.map_values(
                |b: Batch| b.spans@,
            ).flatten() + pend + buf);
        }
    }

    /// Advances a shutdown at `now`. Before the deadline it reports whether
    /// anything is left; once the deadline has passed it abandons whatever is
    /// left, counting its spans as dropped, and reports `Finished`.
    pub fn shutdown_step(&mut self, now: u64) -> (r: ShutdownStatus)
        requires
            old(self).inv(),
        ensures
            final(self).inv(),
            old(self).same_setup(final(self)),
            !old(self).is_shutting_down() ==> r == ShutdownStatus::Running && *final(self)
                == *old(self),
            old(self).is_shutting_down() && now < old(self).deadline_spec() ==> *final(self)
                == *old(self) && (r == ShutdownStatus::Finished <==> old(self).is_drained()) && (r
                == ShutdownStatus::Finished || r == ShutdownStatus::Draining),
            old(self).is_shutting_down() && now >= old(self).deadline_spec() ==> {
                &&& r == ShutdownStatus::Finished
                &&& final(self).is_drained()
                &&& final(self).gate_spec().held() == 0
                &&& final(self).stats_spec() == (PipelineStats {
                    dropped_shutdown: (old(self).stats_spec().dropped_shutdown + old(
                        self,
                    ).in_pipeline()) as u64,
                    ..old(self).stats_spec()
                })
            },
            r == ShutdownStatus::Finished ==> final(self).is_drained(),
    {
        if !self.shutting_down {
            return ShutdownStatus::Running;
        }
        if now < self.deadline {
            if self.ready.len() == 0 && self.in_flight.len() == 0 && self.retries.len() == 0 {
                return ShutdownStatus::Finished;
            }
            return ShutdownStatus::Draining;
        }
        let mut dropped: u64 = 0;
        let mut k: usize = 0;
        while k < self.ready.len()
            invariant
                *self == *old(self),
                k <= self.ready@.len(),
                dropped == total(ready_counts(self.ready@.take(k as int))),
                total(ready_counts(self.ready@)) <= u64::MAX,
            decreases self.ready@.len() - k,
        {
            proof {
                let q = self.ready@;
                assert(ready_counts(q.take(k + 1)) =~= ready_counts(q.take(k as int)).push(q[k as int].spans@.len()));
                lemma_total_push(ready_counts(q.take(k as int)), q[k as int].spans@.len());
                assert(ready_counts(q) =~= ready_counts(q.take(k + 1)) + ready_counts(q.skip(k + 1)));
                lemma_total_concat(ready_counts(q.take(k + 1)), ready_counts(q.skip(k + 1)));
            }
            dropped = dropped + self.ready[k].spans.len() as u64;
            k = k + 1;
        }
        proof {
            assert(self.ready@.take(k as int) =~= self.ready@);
        }
        let ghost after_ready = dropped as int;
        k = 0;
        while k < self.in_flight.len()
            invariant
                *self == *old(self),
                k <= self.in_flight@.len(),
                dropped == after_ready + total(flight_counts(self.in_flight@.take(k as int))),
                after_ready + total(flight_counts(self.in_flight@)) <= u64::MAX,
            decreases self.in_flight@.len() - k,
        {
            proof {
                let q = self.in_flight@;
                assert(flight_counts(q.take(k + 1)) =~= flight_counts(q.take(k as int)).push(q[k as int].span_count as nat));
                lemma_total_push(flight_counts(q.take(k as int)), q[k as int].span_count as nat);
                assert(flight_counts(q) =~= flight_counts(q.take(k + 1)) + flight_counts(q.skip(k + 1)));
                lemma_total_concat(flight_counts(q.take(k + 1)), flight_counts(q.skip(k + 1)));
            }
            dropped = dropped + self.in_flight[k].span_count as u64;
            k = k + 1;
        }
        proof {
            assert(self.in_flight@.take(k as int) =~= self.in_flight@);
        }
        let ghost after_flight = dropped as int;
        k = 0;
        while k < self.retries.len()
            invariant
                *self == *old(self),
                k <= self.retries@.len(),
                dropped == after_flight + total(retry_counts(self.retries@.take(k as int))),
                after_flight + total(retry_counts(self.retries@)) <= u64::MAX,
            decreases self.retries@.len() - k,
        {
            proof {
                let q = self.retries@;
                assert(retry_counts(q.take(k + 1)) =~= retry_counts(q.take(k as int)).push(q[k as int].span_count as nat));
                lemma_total_push(retry_counts(q.take(k as int)), q[k as int].span_count as nat);
                assert(retry_counts(q) =~= retry_counts(q.take(k + 1)) + retry_counts(q.skip(k + 1)));
                lemma_total_concat(retry_counts(q.take(k + 1)), retry_counts(q.skip(k + 1)));
            }
            dropped = dropped + self.retries[k].span_count as u64;
            k = k + 1;
        }
        proof {
            assert(self.retries@.take(k as int) =~= self.retries@);
        }
        self.ready.clear();
        self.in_flight.clear();
        self.retries.clear();
        self.gate = ExportGate::new(self.concurrency);
        self.stats.dropped_shutdown = self.stats.dropped_shutdown + dropped;
        proof {
            assert(ready_counts(self.ready@) =~= Seq::<nat>::empty());
            assert(flight_counts(self.in_flight@) =~= Seq::<nat>::empty());
            assert(retry_counts(self.retries@) =~= Seq::<nat>::empty());
        }
        ShutdownStatus::Finished
    }
}

} // verus!
