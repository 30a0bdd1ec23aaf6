//! Decisions of the background capture worker: the bounded hand-off queue
//! between producers and the worker, the flush-reason precedence, and the
//! processing of one drained batch against a `CaptureRuntime`. Threads,
//! locks and reply channels live with the caller; the queue is generic over
//! the reply handle `W` it keeps for each waiting requester.
use std::collections::VecDeque;

use vstd::prelude::*;

use crate::config::{CaptureConfig, OverflowPolicy};
use crate::error::CaptureError;
use crate::item::CaptureItem;
use crate::metrics::{lemma_wadd_wrap, lemma_wrap_id, wadd, wrap, CaptureMetrics, FlushReason};
use crate::partitions::load_of;
use crate::runtime::{merge_flush_results, quiet_batch, CaptureRuntime, CaptureSink, FlushResult};
use crate::text::{decimal, push_str, push_u64};

verus! {

/// Precedence of a flush reason when several requests meet before the
/// worker wakes: shutdown over seal over manual over budget over interval
/// over bytes over rows.
pub open spec fn reason_rank(r: FlushReason) -> nat {
    match r {
        FlushReason::Rows => 0,
        FlushReason::Bytes => 1,
        FlushReason::Interval => 2,
        FlushReason::Budget => 3,
        FlushReason::Manual => 4,
        FlushReason::Seal => 5,
        FlushReason::Shutdown => 6,
    }
}

/// The pending reason after `next` is requested on top of `current`.
pub open spec fn merged_reason(current: Option<FlushReason>, next: FlushReason) -> FlushReason {
    match current {
        None => next,
        Some(c) => if reason_rank(c) >= reason_rank(next) { c } else { next },
    }
}

/// Combines a pending flush reason with a newly requested one; the one of
/// higher precedence wins.
pub fn merge_flush_reason(current: Option<FlushReason>, next: FlushReason) -> (r: Option<FlushReason>)
    ensures
        r == Some(merged_reason(current, next)),
{
    match current {
        None => Some(next),
        Some(c) => {
            if rank_of(c) >= rank_of(next) {
                Some(c)
            } else {
                Some(next)
            }
        },
    }
}

fn rank_of(r: FlushReason) -> (n: u8)
    ensures
        n == reason_rank(r),
{
    match r {
        FlushReason::Rows => 0,
        FlushReason::Bytes => 1,
        FlushReason::Interval => 2,
        FlushReason::Budget => 3,
        FlushReason::Manual => 4,
        FlushReason::Seal => 5,
        FlushReason::Shutdown => 6,
    }
}

/// The order in which two requests reach the worker does not change the
/// reason it flushes for, and pending requests combine associatively.
pub proof fn lemma_merge_order_irrelevant(a: FlushReason, b: FlushReason, c: FlushReason)
    ensures
        merged_reason(Some(a), b) == merged_reason(Some(b), a),
        merged_reason(Some(merged_reason(Some(a), b)), c) == merged_reason(Some(a), merged_reason(Some(b), c)),
{
}

/// A pending shutdown is never downgraded, and a merged reason ranks at
/// least as high as each of its parts.
pub proof fn lemma_merge_keeps_precedence(current: Option<FlushReason>, next: FlushReason)
    ensures
        reason_rank(merged_reason(current, next)) >= reason_rank(next),
        current matches Some(c) ==> reason_rank(merged_reason(current, next)) >= reason_rank(c),
        current == Some(FlushReason::Shutdown) ==> merged_reason(current, next) == FlushReason::Shutdown,
        next == FlushReason::Shutdown ==> merged_reason(current, next) == FlushReason::Shutdown,
        merged_reason(current, next) == next || current == Some(merged_reason(current, next)),
{
}

/// Milliseconds the idle worker waits before it ticks (segment sinks) or
/// flushes on interval (chunked sinks); never zero.
pub fn worker_interval_ms(config: &CaptureConfig, segment_mode: bool) -> (ms: u64)
    ensures
        segment_mode ==> ms == if config.lifecycle.durability.sync_interval_ms == 0 { 1 } else { config.lifecycle.durability.sync_interval_ms },
        !segment_mode ==> ms == if config.flush_interval_ms == 0 { 1 } else { config.flush_interval_ms },
        ms >= 1,
{
    let ms = if segment_mode {
        config.lifecycle.durability.sync_interval_ms
    } else {
        config.flush_interval_ms
    };
    if ms == 0 { 1 } else { ms }
}

/// What became of a submitted item.
#[derive(Debug)]
pub enum Admission<T> {
    /// Appended to the queue.
    Queued,
    /// The queue was full and the policy drops the newest: this item was discarded.
    DroppedNewest(CaptureItem<T>),
    /// The queue was full and the policy drops the oldest: this queued item was
    /// evicted and the submitted one appended.
    DroppedOldest(CaptureItem<T>),
}

/// Effective queue capacity: the configured one, at least one.
pub open spec fn effective_capacity(queue_capacity: usize) -> nat {
    if queue_capacity == 0 { 1 } else { queue_capacity as nat }
}

/// Message of the error returned when the queue is full under `FailFast`.
pub open spec fn queue_full_message(capacity: nat, catalog_uri: Seq<char>) -> Seq<char> {
    "capture queue full at capacity "@ + decimal(capacity) + " for catalog "@ + catalog_uri
}

/// Message of the error returned once shutdown was requested.
pub open spec fn shutting_down_message() -> Seq<char> {
    "capture runtime is shutting down"@
}

/// Shared state between producers and the background worker.
#[derive(Debug)]
pub struct QueueState<T, W> {
    pub queue: VecDeque<CaptureItem<T>>,
    pub metrics: CaptureMetrics,
    pub flush_reason: Option<FlushReason>,
    pub tick_requested: bool,
    pub seal_requested: bool,
    pub shutdown_requested: bool,
    pub flush_waiters: Vec<W>,
    pub seal_waiters: Vec<W>,
    pub shutdown_waiters: Vec<W>,
}

/// Everything the worker takes out of the shared state in one wake-up.
#[derive(Debug)]
pub struct WorkerBatch<T, W> {
    pub items: VecDeque<CaptureItem<T>>,
    pub flush_reason: Option<FlushReason>,
    pub tick_requested: bool,
    pub seal_requested: bool,
    pub should_shutdown: bool,
    pub flush_waiters: Vec<W>,
    pub seal_waiters: Vec<W>,
    pub shutdown_waiters: Vec<W>,
}

impl<T, W> QueueState<T, W> {
    /// No items, no requests, no waiters.
    pub open spec fn spec_is_fresh(&self) -> bool {
        &&& self.queue@.len() == 0
        &&& self.metrics.spec_is_zero()
        &&& self.flush_reason is None
        &&& !self.tick_requested
        &&& !self.seal_requested
        &&& !self.shutdown_requested
        &&& self.flush_waiters@.len() == 0
        &&& self.seal_waiters@.len() == 0
        &&& self.shutdown_waiters@.len() == 0
    }

    /// Nothing for the worker to do until it is woken or times out.
    pub open spec fn spec_is_idle(&self) -> bool {
        &&& self.queue@.len() == 0
        &&& self.flush_reason is None
        &&& !self.tick_requested
        &&& !self.seal_requested
        &&& !self.shutdown_requested
    }

    pub fn new() -> (s: Self)
        ensures
            s.spec_is_fresh(),
    {
        QueueState {
            queue: VecDeque::new(),
            metrics: CaptureMetrics::zero(),
            flush_reason: None,
            tick_requested: false,
            seal_requested: false,
            shutdown_requested: false,
            flush_waiters: Vec::new(),
            seal_waiters: Vec::new(),
            shutdown_waiters: Vec::new(),
        }
    }

    /// Hands one item to the worker, applying the overflow policy when the
    /// queue holds `max(queue_capacity, 1)` items or more. Refused once a
    /// shutdown was requested, and when the queue is full under `FailFast`.
    pub fn enqueue(&mut self, item: CaptureItem<T>, config: &CaptureConfig) -> (r: Result<Admission<T>, CaptureError>)
        ensures
            final(self).flush_reason == old(self).flush_reason,
            final(self).tick_requested == old(self).tick_requested,
            final(self).seal_requested == old(self).seal_requested,
            final(self).shutdown_requested == old(self).shutdown_requested,
            final(self).flush_waiters@ == old(self).flush_waiters@,
            final(self).seal_waiters@ == old(self).seal_waiters@,
            final(self).shutdown_waiters@ == old(self).shutdown_waiters@,
            old(self).queue@.len() <= effective_capacity(config.queue_capacity)
                ==> final(self).queue@.len() <= effective_capacity(config.queue_capacity),
            old(self).shutdown_requested ==> {
                &&& r matches Err(e) && e.message@ == shutting_down_message()
                &&& final(self).queue@ == old(self).queue@
                &&& final(self).metrics == old(self).metrics
            },
            !old(self).shutdown_requested && old(self).queue@.len() < effective_capacity(config.queue_capacity) ==> {
                &&& r matches Ok(Admission::Queued)
                &&& final(self).queue@ == old(self).queue@.push(item)
                &&& final(self).metrics == (CaptureMetrics { accepted_items: wadd(old(self).metrics.accepted_items, 1), ..old(self).metrics })
            },
            !old(self).shutdown_requested && old(self).queue@.len() >= effective_capacity(config.queue_capacity) ==> match config.overflow_policy {
                OverflowPolicy::DropNewest => {
                    &&& r matches Ok(Admission::DroppedNewest(x)) && x == item
                    &&& final(self).queue@ == old(self).queue@
                    &&& final(self).metrics == (CaptureMetrics { dropped_items: wadd(old(self).metrics.dropped_items, 1), ..old(self).metrics })
                },
                OverflowPolicy::DropOldest => {
                    &&& r matches Ok(Admission::DroppedOldest(x)) && x == old(self).queue@[0]
                    &&& final(self).queue@ == old(self).queue@.drop_first().push(item)
                    &&& final(self).metrics == (CaptureMetrics {
                        accepted_items: wadd(old(self).metrics.accepted_items, 1),
                        dropped_items: wadd(old(self).metrics.dropped_items, 1),
                        ..old(self).metrics
                    })
                },
                OverflowPolicy::FailFast => {
                    &&& r matches Err(e) && e.message@ == queue_full_message(effective_capacity(config.queue_capacity), config.catalog_uri@)
                    &&& final(self).queue@ == old(self).queue@
                    &&& final(self).metrics == old(self).metrics
                },
            },
    {
        if self.shutdown_requested {
            return Err(CaptureError::from_str("capture runtime is shutting down"));
        }
        let capacity: usize = if config.queue_capacity == 0 { 1 } else { config.queue_capacity };
        let mut outcome = Admission::Queued;
        if self.queue.len() >= capacity {
            match config.overflow_policy {
                OverflowPolicy::DropNewest => {
                    self.metrics.dropped_items = self.metrics.dropped_items.wrapping_add(1);
                    return Ok(Admission::DroppedNewest(item));
                },
                OverflowPolicy::DropOldest => {
                    let ghost before = self.queue@;
                    match self.queue.pop_front() {
                        Some(dropped) => {
                            self.metrics.dropped_items = self.metrics.dropped_items.wrapping_add(1);
                            outcome = Admission::DroppedOldest(dropped);
                        },
                        None => {},
                    }
                    proof {
                        assert(self.queue@ == before.drop_first());
                    }
                },
                OverflowPolicy::FailFast => {
                    let mut message = String::new();
                    push_str(&mut message, "capture queue full at capacity ");
                    push_u64(&mut message, capacity as u64);
                    push_str(&mut message, " for catalog ");
                    push_str(&mut message, config.catalog_uri.as_str());
                    proof {
                        assert(message@ =~= queue_full_message(effective_capacity(config.queue_capacity), config.catalog_uri@));
                    }
                    return Err(CaptureError::new(message));
                },
            }
        }
        self.queue.push_back(item);
        self.metrics.accepted_items = self.metrics.accepted_items.wrapping_add(1);
        Ok(outcome)
    }

    /// Registers a flush request (or, with `shutdown`, the final flush) and
    /// its reply handle.
    pub fn request_flush(&mut self, waiter: W, shutdown: bool)
        ensures
            final(self).queue@ == old(self).queue@,
            final(self).metrics == old(self).metrics,
            final(self).tick_requested == old(self).tick_requested,
            final(self).seal_requested == old(self).seal_requested,
            final(self).seal_waiters@ == old(self).seal_waiters@,
            shutdown ==> {
                &&& final(self).shutdown_requested
                &&& final(self).flush_reason == Some(FlushReason::Shutdown)
                &&& final(self).shutdown_waiters@ == old(self).shutdown_waiters@.push(waiter)
                &&& final(self).flush_waiters@ == old(self).flush_waiters@
            },
            !shutdown ==> {
                &&& final(self).shutdown_requested == old(self).shutdown_requested
                &&& final(self).flush_reason == Some(merged_reason(old(self).flush_reason, FlushReason::Manual))
                &&& final(self).flush_waiters@ == old(self).flush_waiters@.push(waiter)
                &&& final(self).shutdown_waiters@ == old(self).shutdown_waiters@
            },
    {
        if shutdown {
            self.shutdown_requested = true;
            self.flush_reason = Some(FlushReason::Shutdown);
            self.shutdown_waiters.push(waiter);
        } else {
            self.flush_reason = merge_flush_reason(self.flush_reason, FlushReason::Manual);
            self.flush_waiters.push(waiter);
        }
    }

    /// Registers a seal request and its reply handle.
    pub fn request_seal(&mut self, waiter: W)
        ensures
            final(self).queue@ == old(self).queue@,
            final(self).metrics == old(self).metrics,
            final(self).flush_reason == old(self).flush_reason,
            final(self).tick_requested == old(self).tick_requested,
            final(self).seal_requested,
            final(self).shutdown_requested == old(self).shutdown_requested,
            final(self).flush_waiters@ == old(self).flush_waiters@,
            final(self).seal_waiters@ == old(self).seal_waiters@.push(waiter),
            final(self).shutdown_waiters@ == old(self).shutdown_waiters@,
    {
        self.seal_requested = true;
        self.seal_waiters.push(waiter);
    }

    /// True when the worker has nothing to do and should wait.
    pub fn is_idle(&self) -> (r: bool)
        ensures
            r == self.spec_is_idle(),
    {
        self.queue.len() == 0 && self.flush_reason.is_none() && !self.tick_requested
            && !self.seal_requested && !self.shutdown_requested
    }

    /// The idle wait timed out: segment sinks get a durability tick, chunked
    /// sinks an interval flush.
    pub fn on_wait_timeout(&mut self, segment_mode: bool)
        ensures
            final(self).queue@ == old(self).queue@,
            final(self).metrics == old(self).metrics,
            final(self).seal_requested == old(self).seal_requested,
            final(self).shutdown_requested == old(self).shutdown_requested,
            final(self).flush_waiters@ == old(self).flush_waiters@,
            final(self).seal_waiters@ == old(self).seal_waiters@,
            final(self).shutdown_waiters@ == old(self).shutdown_waiters@,
            segment_mode ==> final(self).tick_requested && final(self).flush_reason == old(self).flush_reason,
            !segment_mode ==> final(self).tick_requested == old(self).tick_requested
                && final(self).flush_reason == Some(merged_reason(old(self).flush_reason, FlushReason::Interval)),
    {
        if segment_mode {
            self.tick_requested = true;
        } else {
            self.flush_reason = merge_flush_reason(self.flush_reason, FlushReason::Interval);
        }
    }

    /// Drains the queue and every pending request for one worker pass. A
    /// requested shutdown makes the pass a shutdown flush. The shutdown flag
    /// itself stays set.
    pub fn take_batch(&mut self) -> (b: WorkerBatch<T, W>)
        ensures
            b.items@ == old(self).queue@,
            b.flush_reason == if old(self).shutdown_requested { Some(FlushReason::Shutdown) } else { old(self).flush_reason },
            b.tick_requested == old(self).tick_requested,
            b.seal_requested == old(self).seal_requested,
            b.should_shutdown == old(self).shutdown_requested,
            b.flush_waiters@ == old(self).flush_waiters@,
            b.seal_waiters@ == old(self).seal_waiters@,
            b.shutdown_waiters@ == old(self).shutdown_waiters@,
            final(self).queue@.len() == 0,
            final(self).metrics == old(self).metrics,
            final(self).flush_reason is None,
            !final(self).tick_requested,
            !final(self).seal_requested,
            final(self).shutdown_requested == old(self).shutdown_requested,
            final(self).flush_waiters@.len() == 0,
            final(self).seal_waiters@.len() == 0,
            final(self).shutdown_waiters@.len() == 0,
    {
        let mut items = VecDeque::new();
        std::mem::swap(&mut items, &mut self.queue);
        let flush_reason = if self.shutdown_requested {
            Some(FlushReason::Shutdown)
        } else {
            self.flush_reason
        };
        let tick_requested = self.tick_requested;
        let seal_requested = self.seal_requested;
        self.flush_reason = None;
        self.tick_requested = false;
        self.seal_requested = false;
        let mut flush_waiters = Vec::new();
        std::mem::swap(&mut flush_waiters, &mut self.flush_waiters);
        let mut seal_waiters = Vec::new();
        std::mem::swap(&mut seal_waiters, &mut self.seal_waiters);
        let mut shutdown_waiters = Vec::new();
        std::mem::swap(&mut shutdown_waiters, &mut self.shutdown_waiters);
        WorkerBatch {
            items,
            flush_reason,
            tick_requested,
            seal_requested,
            should_shutdown: self.shutdown_requested,
            flush_waiters,
            seal_waiters,
            shutdown_waiters,
        }
    }

    /// The counters as reported to callers, with the queue depth filled in.
    pub fn metrics_snapshot(&self) -> (m: CaptureMetrics)
        ensures
            m == (CaptureMetrics { queued_items: self.queue@.len() as u64, ..self.metrics }),
    {
        let mut m = self.metrics.copy();
        m.queued_items = self.queue.len() as u64;
        m
    }
}

/// Summed estimated bytes of queued items.
pub open spec fn items_bytes<T>(items: Seq<CaptureItem<T>>) -> int
    decreases items.len(),
{
    if items.len() == 0 { 0 } else { items_bytes(items.drop_last()) + items.last().estimated_bytes }
}

proof fn lemma_items_bytes_first<T>(items: Seq<CaptureItem<T>>)
    requires
        items.len() > 0,
    ensures
        items_bytes(items) == items[0].estimated_bytes + items_bytes(items.drop_first()),
    decreases items.len(),
{
    if items.len() > 1 {
        let dl = items.drop_last();
        let df = items.drop_first();
        lemma_items_bytes_first(dl);
        assert(dl.drop_first() == df.drop_last());
        assert(dl[0] == items[0]);
        assert(df.last() == items.last());
        assert(items_bytes(df) == items_bytes(df.drop_last()) + df.last().estimated_bytes);
    } else {
        assert(items.drop_first().len() == 0);
        assert(items.drop_last().len() == 0);
        assert(items_bytes(items.drop_last()) == 0);
        assert(items_bytes(items.drop_first()) == 0);
        assert(items.last() == items[0]);
    }
}

proof fn lemma_items_bytes_nonneg<T>(items: Seq<CaptureItem<T>>)
    ensures
        items_bytes(items) >= 0,
    decreases items.len(),
{
    if items.len() > 0 {
        lemma_items_bytes_nonneg(items.drop_last());
    }
}

/// Runs one drained batch through `runtime`: every item is submitted in
/// order (an item the runtime refuses is counted as dropped and the rest still
/// go through), then a requested tick, then the flush (a shutdown flush of a
/// segment sink seals instead) or, without a flush, a requested seal. The
/// files and counts of all steps are summed; the last error, if any, is
/// returned instead.
pub fn process_batch<T, S: CaptureSink<T>>(
    runtime: &mut CaptureRuntime<T, S>,
    items: VecDeque<CaptureItem<T>>,
    flush_reason: Option<FlushReason>,
    tick_requested: bool,
    seal_requested: bool,
    should_shutdown: bool,
    now_ns: u64,
) -> (r: Result<FlushResult, CaptureError>)
    requires
        old(runtime).wf(),
        old(runtime).partitions.total_rows() + items@.len() <= usize::MAX,
        old(runtime).partitions.total_bytes() + items_bytes(items@) <= usize::MAX,
    ensures
        final(runtime).wf(),
        final(runtime).config == old(runtime).config,
        final(runtime).metrics.queued_items == old(runtime).metrics.queued_items,
        r is Ok ==> {
            &&& final(runtime).metrics.accepted_items == wrap(old(runtime).metrics.accepted_items + items@.len())
            &&& final(runtime).metrics.dropped_items == old(runtime).metrics.dropped_items
        },
        r is Ok && (flush_reason is Some || seal_requested) ==> final(runtime).partitions.entries@.len() == 0,
        exists|accepted: nat, refused: nat| {
            &&& accepted <= items@.len()
            &&& refused <= items@.len()
            &&& accepted + refused >= items@.len()
            &&& #[trigger] wrap(old(runtime).metrics.accepted_items + accepted) == final(runtime).metrics.accepted_items
            &&& #[trigger] wrap(old(runtime).metrics.dropped_items + refused) == final(runtime).metrics.dropped_items
            &&& (r is Ok ==> refused == 0)
        },
        old(runtime).sink.always_accepts() && !tick_requested && (flush_reason is None ==> !seal_requested)
            && (flush_reason is Some ==> !should_shutdown) ==> r is Ok,
        old(runtime).rows_accounted() && r is Ok && !tick_requested && (flush_reason is None ==> !seal_requested)
            && (flush_reason is Some ==> !should_shutdown) ==> final(runtime).rows_accounted(),
        items@.len() == 0 && !tick_requested && (flush_reason is None ==> !seal_requested)
            && (flush_reason is Some ==> !should_shutdown && old(runtime).partitions.entries@.len() == 0)
            ==> (r matches Ok(res) && res.spec_is_empty()),
        quiet_batch(old(runtime).config, load_of(old(runtime).partitions), old(runtime).partitions.entries@.len() as int,
            old(runtime).partitions.total_bytes() as int, items@) && !tick_requested && flush_reason is None && !seal_requested
            ==> (r matches Ok(res) && res.spec_is_empty()),
{
    let ghost n = items@.len();
    let ghost m0 = old(runtime).metrics;
    let ghost rows0 = old(runtime).partitions.total_rows();
    let ghost bytes0 = old(runtime).partitions.total_bytes();
    let ghost all_bytes = items_bytes(items@);
    let ghost mut acc: nat = 0;
    let ghost mut refd: nat = 0;
    proof {
        lemma_wrap_id(m0.accepted_items);
        lemma_wrap_id(m0.dropped_items);
    }
    let ghost quiet = quiet_batch(old(runtime).config, load_of(old(runtime).partitions),
        old(runtime).partitions.entries@.len() as int, old(runtime).partitions.total_bytes() as int, items@);
    let mut items = items;
    let mut aggregated = FlushResult::empty();
    let mut last_error: Option<CaptureError> = None;
    let mut submitted: usize = 0;
    proof {
        lemma_wrap_id(m0.accepted_items);
    }
    while items.len() > 0
        invariant
            runtime.wf(),
            runtime.config == old(runtime).config,
            runtime.metrics.queued_items == m0.queued_items,
            m0 == old(runtime).metrics,
            submitted + items@.len() == n,
            runtime.partitions.total_rows() <= rows0 + submitted,
            rows0 + n <= usize::MAX,
            runtime.partitions.total_bytes() + items_bytes(items@) <= bytes0 + all_bytes,
            bytes0 + all_bytes <= usize::MAX,
            last_error is None ==> runtime.metrics.accepted_items == wrap(m0.accepted_items + submitted)
                && runtime.metrics.dropped_items == m0.dropped_items,
            acc <= submitted,
            refd <= submitted,
            acc + refd >= submitted,
            runtime.metrics.accepted_items == wrap(m0.accepted_items + acc),
            runtime.metrics.dropped_items == wrap(m0.dropped_items + refd),
            last_error is None ==> refd == 0,
            old(runtime).sink.always_accepts() ==> runtime.sink.always_accepts() && last_error is None,
            old(runtime).rows_accounted() && last_error is None ==> runtime.rows_accounted(),
            n == 0 ==> aggregated.spec_is_empty() && last_error is None && runtime.partitions == old(runtime).partitions,
            quiet ==> aggregated.spec_is_empty() && last_error is None && quiet_batch(runtime.config, load_of(runtime.partitions),
                runtime.partitions.entries@.len() as int, runtime.partitions.total_bytes() as int, items@),
        decreases items@.len(),
    {
        let ghost before = items@;
        let item = items.pop_front().unwrap();
        proof {
            lemma_items_bytes_first(before);
            lemma_items_bytes_nonneg(items@);
            assert(items@ == before.drop_first());
        }
        let ghost acc_before = runtime.metrics.accepted_items;
        let ghost drop_before = runtime.metrics.dropped_items;
        match runtime.submit(item) {
            Ok(partial) => {
                proof {
                    lemma_wadd_wrap(m0.accepted_items as int + submitted, 1);
                    lemma_wadd_wrap(m0.accepted_items as int + acc, 1);
                    acc = acc + 1;
                }
                aggregated = merge_flush_results(aggregated, partial);
            },
            Err(e) => {
                runtime.metrics.dropped_items = runtime.metrics.dropped_items.wrapping_add(1);
                proof {
                    lemma_wadd_wrap(m0.dropped_items as int + refd, 1);
                    refd = refd + 1;
                    if runtime.metrics.accepted_items != acc_before {
                        lemma_wadd_wrap(m0.accepted_items as int + acc, 1);
                        acc = acc + 1;
                    }
                }
                last_error = Some(e);
            },
        }
        submitted = submitted + 1;
    }
    if tick_requested {
        match runtime.on_tick(now_ns) {
            Ok(partial) => {
                aggregated = merge_flush_results(aggregated, partial);
            },
            Err(e) => {
                last_error = Some(e);
            },
        }
    }
    match flush_reason {
        Some(reason) => {
            let step = if should_shutdown && runtime.sink.is_segment_mode() {
                runtime.seal_all_for_shutdown()
            } else {
                runtime.flush_all_with_reason(reason)
            };
            match step {
                Ok(partial) => {
                    aggregated = merge_flush_results(aggregated, partial);
                },
                Err(e) => {
                    last_error = Some(e);
                },
            }
        },
        None => {
            if seal_requested {
                match runtime.seal_all() {
                    Ok(partial) => {
                        aggregated = merge_flush_results(aggregated, partial);
                    },
                    Err(e) => {
                        last_error = Some(e);
                    },
                }
            }
        },
    }
    match last_error {
        Some(e) => Err(e),
        None => Ok(aggregated),
    }
}

/// Whether the worker stops after a pass: on a failed pass, or after the
/// shutdown pass.
pub fn worker_should_exit(result: &Result<FlushResult, CaptureError>, should_shutdown: bool) -> (r: bool)
    ensures
        r == (result is Err || should_shutdown),
{
    match result {
        Ok(_) => should_shutdown,
        Err(_) => true,
    }
}

} // verus!
