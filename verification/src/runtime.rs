//! Synchronous capture runtime: buffers rows per partition and hands full
//! partitions to a sink.
use std::path::PathBuf;

use vstd::prelude::*;

use crate::buffer::flush_reason_for;
use crate::config::CaptureConfig;
use crate::error::CaptureError;
use crate::item::CaptureItem;
use crate::metrics::{
    lemma_wadd_wrap, lemma_wrap_add, lemma_wrap_id, wadd, wrap, CaptureMetrics, FlushReason, FlushReasonMetrics,
};
use crate::partitions::{
    count_nonempty, sum_by, lemma_load_after_push, lemma_sum_remove, lemma_wf_count, load_of, load_pushed, bytes_measure,
    rows_measure, PartitionMap, PartitionSlot,
};

verus! {

#[verifier::external_type_specification]
#[verifier::external_body]
pub struct ExPathBuf(std::path::PathBuf);

/// Files completed by a flush or seal, with their row and byte counts.
#[derive(Debug, Clone, PartialEq, Eq)]
pub struct FlushResult {
    pub files: Vec<PathBuf>,
    pub rows: usize,
    pub bytes: u64,
}

impl FlushResult {
    pub open spec fn spec_is_empty(&self) -> bool {
        self.files@.len() == 0 && self.rows == 0 && self.bytes == 0
    }

    /// No files, no rows, no bytes.
    pub fn empty() -> (r: Self)
        ensures
            r.spec_is_empty(),
    {
        FlushResult { files: Vec::new(), rows: 0, bytes: 0 }
    }
}

impl Default for FlushResult {
    fn default() -> (r: Self)
        ensures
            r.spec_is_empty(),
    {
        FlushResult::empty()
    }
}

/// `a + b`, capped at the type's maximum.
pub open spec fn sat_usize(a: int, b: int) -> usize {
    if a + b > usize::MAX { usize::MAX } else { (a + b) as usize }
}

pub open spec fn sat_u64(a: int, b: int) -> u64 {
    if a + b > u64::MAX { u64::MAX } else { (a + b) as u64 }
}

/// Concatenates the files and adds the counts (saturating).
pub fn merge_flush_results(left: FlushResult, right: FlushResult) -> (r: FlushResult)
    ensures
        r.files@ == left.files@ + right.files@,
        r.rows == sat_usize(left.rows as int, right.rows as int),
        r.bytes == sat_u64(left.bytes as int, right.bytes as int),
{
    let mut files = left.files;
    let mut more = right.files;
    files.append(&mut more);
    FlushResult {
        files,
        rows: left.rows.saturating_add(right.rows),
        bytes: left.bytes.saturating_add(right.bytes),
    }
}

/// Destination of flushed partitions. Implemented by catalog writers (and by
/// test doubles). Each sink describes itself by the spec functions below, and
/// its methods keep to them: the runtime relies on nothing else. The spec
/// functions' bodies are placeholders for sinks written outside the verifier;
/// code that is generic over the sink never sees them, and a verified sink
/// gives its own.
pub trait CaptureSink<T> {
    /// The batches handed to the sink so far: partition key and rows, in order.
    open spec fn batches(&self) -> Seq<(Seq<char>, Seq<T>)> {
        Seq::empty()
    }

    /// The files the sink, as it stands, writes for `batch` of `partition_key`;
    /// `None` when it refuses the batch.
    open spec fn write_outcome(&self, partition_key: Seq<char>, batch: Seq<T>) -> Option<Seq<PathBuf>> {
        None
    }

    /// The sink accepts every batch it is handed, now and after any call.
    open spec fn always_accepts(&self) -> bool {
        false
    }

    /// What a durability tick at `now_ns` reports; `None` when it fails.
    open spec fn tick_outcome(&self, now_ns: u64) -> Option<FlushResult> {
        None
    }

    /// What sealing every open part reports (`for_shutdown`: before process
    /// exit); `None` when it fails.
    open spec fn seal_outcome(&self, for_shutdown: bool) -> Option<FlushResult> {
        None
    }

    /// The sink appends to long-lived segment parts.
    open spec fn segment_mode(&self) -> bool {
        false
    }

    /// On-disk size of a completed file.
    open spec fn file_bytes(&self, file: PathBuf) -> u64 {
        0
    }

    /// Writes one partition's rows; returns the files produced.
    fn write_batch(&mut self, partition_key: &str, batch: Vec<T>) -> (r: Result<Vec<PathBuf>, CaptureError>)
        ensures
            final(self).batches() == old(self).batches().push((partition_key@, batch@)),
            match old(self).write_outcome(partition_key@, batch@) {
                Some(files) => r matches Ok(f) && f@ == files,
                None => r is Err,
            },
            old(self).always_accepts() ==> old(self).write_outcome(partition_key@, batch@) is Some
                && final(self).always_accepts(),
    ;

    /// Periodic durability tick; may seal parts and report them.
    fn on_tick(&mut self, now_ns: u64) -> (r: Result<FlushResult, CaptureError>)
        ensures
            final(self).batches() == old(self).batches(),
            match old(self).tick_outcome(now_ns) {
                Some(res) => r == Ok::<FlushResult, CaptureError>(res),
                None => r is Err,
            },
            old(self).always_accepts() ==> final(self).always_accepts(),
    ;

    /// Seals every open part.
    fn seal_all(&mut self) -> (r: Result<FlushResult, CaptureError>)
        ensures
            final(self).batches() == old(self).batches(),
            match old(self).seal_outcome(false) {
                Some(res) => r == Ok::<FlushResult, CaptureError>(res),
                None => r is Err,
            },
            old(self).always_accepts() ==> final(self).always_accepts(),
    ;

    /// Seals every open part before process exit.
    fn seal_all_for_shutdown(&mut self) -> (r: Result<FlushResult, CaptureError>)
        ensures
            final(self).batches() == old(self).batches(),
            match old(self).seal_outcome(true) {
                Some(res) => r == Ok::<FlushResult, CaptureError>(res),
                None => r is Err,
            },
            old(self).always_accepts() ==> final(self).always_accepts(),
    ;

    /// True when the sink appends to long-lived segment parts.
    fn is_segment_mode(&self) -> (r: bool)
        ensures
            r == self.segment_mode(),
    ;

    /// On-disk size of a completed file; sinks that write no files report 0.
    fn completed_file_bytes(&self, file: &PathBuf) -> (r: u64)
        ensures
            r == self.file_bytes(*file),
    ;
}

/// The batch a buffered partition hands the sink: its key and its rows.
pub open spec fn slot_batch<T>(slot: PartitionSlot<T>) -> (Seq<char>, Seq<T>) {
    (slot.key@, slot.buffer.items@)
}

/// The batches of buffered partitions, in order.
pub open spec fn slot_batches<T>(slots: Seq<PartitionSlot<T>>) -> Seq<(Seq<char>, Seq<T>)> {
    slots.map_values(|slot: PartitionSlot<T>| slot_batch(slot))
}

/// Wrapping sum of the sink's sizes of `files`.
pub open spec fn files_bytes<T, S: CaptureSink<T>>(sink: S, files: Seq<PathBuf>) -> u64
    decreases files.len(),
{
    if files.len() == 0 {
        0
    } else {
        wadd(files_bytes::<T, S>(sink, files.drop_last()), sink.file_bytes(files.last()))
    }
}

/// Per-family capture runtime: partition buffers, flush policy and counters.
#[derive(Debug)]
pub struct CaptureRuntime<T, S> {
    pub config: CaptureConfig,
    pub sink: S,
    pub metrics: CaptureMetrics,
    pub partitions: PartitionMap<T>,
}

/// Buffering one row of `bytes` in partition `k` writes nothing, given the
/// load, the number of partitions and the summed pending bytes: the partition
/// is open or there is room for a new one, it stays below the row and byte
/// thresholds, and the summed bytes stay within the budget.
pub open spec fn quiet_push(config: CaptureConfig, l: Map<Seq<char>, (int, int)>, count: int, total: int, k: Seq<char>, bytes: int) -> bool {
    let after = if l.contains_key(k) { (l[k].0 + 1, l[k].1 + bytes) } else { (1, bytes) };
    &&& (l.contains_key(k) || count < config.max_active_partitions)
    &&& after.0 < config.lifecycle.spec_batch_row_threshold(config.flush_rows)
    &&& after.1 < config.max_buffer_bytes
    &&& total + bytes <= config.max_total_buffer_bytes
}

/// Buffering `items` one after another writes nothing.
pub open spec fn quiet_batch<T>(config: CaptureConfig, l: Map<Seq<char>, (int, int)>, count: int, total: int, items: Seq<CaptureItem<T>>) -> bool
    decreases items.len(),
{
    if items.len() == 0 {
        true
    } else {
        let k = items[0].partition_key.spec_stable_key();
        let b = items[0].estimated_bytes as int;
        &&& quiet_push(config, l, count, total, k, b)
        &&& quiet_batch(config, load_pushed(l, k, b), if l.contains_key(k) { count } else { count + 1 }, total + b, items.drop_first())
    }
}

/// A flush of `rows` buffered rows keeps accepted rows equal to flushed plus
/// buffered rows (counted modulo `2^64`).
proof fn lemma_accounted_step(acc: u64, f0: u64, t0: nat, f1: u64, t1: nat, rows: nat)
    requires
        acc == wrap(f0 + t0),
        f1 == wrap(f0 + rows),
        t0 == t1 + rows,
    ensures
        acc == wrap(f1 + t1),
{
    lemma_wrap_add(f0 + rows, t1 as int);
}

/// Flush-reason counters after a submit: `budget` budget flushes, one flush
/// for `item_reason` when there is one, nothing else.
pub open spec fn submit_reason_counts(m0: FlushReasonMetrics, m: FlushReasonMetrics, budget: nat, item_reason: Option<FlushReason>) -> bool {
    &&& m.budget == wrap(m0.budget + budget)
    &&& m.row_threshold == wrap(m0.row_threshold + if item_reason == Some(FlushReason::Rows) { 1int } else { 0int })
    &&& m.byte_threshold == wrap(m0.byte_threshold + if item_reason == Some(FlushReason::Bytes) { 1int } else { 0int })
    &&& m.interval == m0.interval
    &&& m.seal == m0.seal
    &&& m.shutdown == m0.shutdown
    &&& m.manual == m0.manual
}

proof fn lemma_counts_start(m0: FlushReasonMetrics)
    ensures
        submit_reason_counts(m0, m0, 0, None),
{
    lemma_wrap_id(m0.budget);
    lemma_wrap_id(m0.row_threshold);
    lemma_wrap_id(m0.byte_threshold);
}

proof fn lemma_counts_budget(m0: FlushReasonMetrics, m: FlushReasonMetrics, b: nat, ir: Option<FlushReason>)
    requires
        submit_reason_counts(m0, m, b, ir),
    ensures
        submit_reason_counts(m0, m.recorded(FlushReason::Budget), b + 1, ir),
{
    lemma_wadd_wrap(m0.budget + b, 1);
}

proof fn lemma_counts_item(m0: FlushReasonMetrics, m: FlushReasonMetrics, b: nat, reason: FlushReason)
    requires
        submit_reason_counts(m0, m, b, None),
        reason is Rows || reason is Bytes,
    ensures
        submit_reason_counts(m0, m.recorded(reason), b, Some(reason)),
{
    lemma_wrap_id(m0.row_threshold);
    lemma_wrap_id(m0.byte_threshold);
    lemma_wadd_wrap(m0.row_threshold as int, 1);
    lemma_wadd_wrap(m0.byte_threshold as int, 1);
}

/// A key absent before a removal, or the removed one, is absent after it.
proof fn lemma_removed_absent<T>(before: PartitionMap<T>, after: PartitionMap<T>, i: int, x: Seq<char>)
    requires
        before.wf(),
        0 <= i < before.entries@.len(),
        after.entries@ == before.entries@.remove(i),
        !before.has_key(x) || before.entries@[i].key@ == x,
    ensures
        !after.has_key(x),
{
    if after.has_key(x) {
        let j = choose|j: int| 0 <= j < after.entries@.len() && #[trigger] after.entries@[j].key@ == x;
        let j2 = if j < i { j } else { j + 1 };
        assert(after.entries@[j] == before.entries@[j2]);
        if before.entries@[i].key@ == x {
            assert(j2 != i);
            if j2 < i {
                assert(before.entries@[j2].key@ != before.entries@[i].key@);
            } else {
                assert(before.entries@[i].key@ != before.entries@[j2].key@);
            }
        }
    }
}

/// `res` is `flushed` followed by `sealed`: files concatenated, rows and bytes
/// added (saturating).
pub open spec fn is_merged(res: FlushResult, flushed: FlushResult, sealed: FlushResult) -> bool {
    &&& res.files@ == flushed.files@ + sealed.files@
    &&& res.rows == sat_usize(flushed.rows as int, sealed.rows as int)
    &&& res.bytes == sat_u64(flushed.bytes as int, sealed.bytes as int)
}

/// Counters after `n` buffers were flushed (`flushed` in all) and the sink then
/// sealed `sealed`, all under `reason`; a seal that produced no file is not
/// counted.
pub open spec fn sealed_counts(m0: CaptureMetrics, m: CaptureMetrics, n: nat, flushed: FlushResult, sealed: FlushResult, reason: FlushReason) -> bool {
    let step: int = if sealed.files@.len() > 0 { 1 } else { 0 };
    &&& m.flushed_batches == wrap(m0.flushed_batches + n + step)
    &&& m.flushed_rows == wrap(m0.flushed_rows + flushed.rows + if sealed.files@.len() > 0 { sealed.rows as int } else { 0 })
    &&& m.completed_files == wrap(m0.completed_files + flushed.files@.len() + sealed.files@.len())
    &&& m.flush_reasons.count_for(reason) == wrap(m0.flush_reasons.count_for(reason) + n + step)
    &&& other_reasons_unchanged(m0, m, reason)
}

/// A seal of `rows` buffered rows in `n` buffers, the sink standing as `mid`
/// once they are written: the result is the flush result followed by what
/// `mid` reports for the seal, with the counters to match.
pub open spec fn seals_after_flush<T, S: CaptureSink<T>>(
    mid: S,
    for_shutdown: bool,
    rows: nat,
    n: nat,
    m0: CaptureMetrics,
    m: CaptureMetrics,
    res: FlushResult,
    reason: FlushReason,
) -> bool {
    &&& mid.seal_outcome(for_shutdown) is Some
    &&& exists|flushed: FlushResult| {
        &&& #[trigger] is_merged(res, flushed, mid.seal_outcome(for_shutdown)->0)
        &&& flushed.rows == rows
        &&& sealed_counts(m0, m, n, flushed, mid.seal_outcome(for_shutdown)->0, reason)
    }
}

/// The counters after a flush of `n` buffers and a seal recorded under `reason`.
proof fn lemma_sealed_counts(m0: CaptureMetrics, mf: CaptureMetrics, m: CaptureMetrics, n: nat, flushed: FlushResult,
    sealed: FlushResult, reason: FlushReason)
    requires
        mf.flushed_batches == wrap(m0.flushed_batches + n),
        mf.flushed_rows == wrap(m0.flushed_rows + flushed.rows),
        mf.completed_files == wrap(m0.completed_files + flushed.files@.len()),
        mf.flush_reasons.count_for(reason) == wrap(m0.flush_reasons.count_for(reason) + n),
        other_reasons_unchanged(m0, mf, reason),
        sealed.files@.len() == 0 ==> m == mf,
        sealed.files@.len() > 0 ==> {
            &&& m.flushed_batches == wrap(mf.flushed_batches + 1)
            &&& m.flushed_rows == wrap(mf.flushed_rows + sealed.rows)
            &&& m.completed_files == wrap(mf.completed_files + sealed.files@.len())
            &&& m.flush_reasons == mf.flush_reasons.recorded(reason)
        },
    ensures
        sealed_counts(m0, m, n, flushed, sealed, reason),
{
    if sealed.files@.len() > 0 {
        lemma_wrap_add(m0.flushed_batches + n, 1);
        lemma_wrap_add(m0.flushed_rows + flushed.rows, sealed.rows as int);
        lemma_wrap_add(m0.completed_files + flushed.files@.len(), sealed.files@.len() as int);
        lemma_wadd_wrap(m0.flush_reasons.count_for(reason) + n, 1);
        assert forall|rr: FlushReason| rr != reason implies #[trigger] m.flush_reasons.count_for(rr)
            == m0.flush_reasons.count_for(rr) by {
            assert(mf.flush_reasons.count_for(rr) == m0.flush_reasons.count_for(rr));
        }
    }
}

/// A flush of `slots` followed by a seal: the sink, standing as `mid` once the
/// slots' batches are written, reports the seal that `res` ends with.
pub open spec fn seal_step<T, S: CaptureSink<T>>(
    before: S,
    slots: Seq<PartitionSlot<T>>,
    after: S,
    for_shutdown: bool,
    m0: CaptureMetrics,
    m: CaptureMetrics,
    res: FlushResult,
    reason: FlushReason,
) -> bool {
    exists|mid: S| {
        &&& mid.batches() == before.batches() + slot_batches(slots)
        &&& after.batches() == mid.batches()
        &&& #[trigger] seals_after_flush::<T, S>(mid, for_shutdown, sum_by(slots, rows_measure()), slots.len(), m0, m, res, reason)
    }
}

/// With the slots' batches written, the sink refuses the seal.
pub open spec fn seal_refused<T, S: CaptureSink<T>>(before: S, slots: Seq<PartitionSlot<T>>, for_shutdown: bool) -> bool {
    exists|mid: S| {
        &&& mid.batches() == before.batches() + slot_batches(slots)
        &&& #[trigger] mid.seal_outcome(for_shutdown) is None
    }
}

/// Counters other than the flush bookkeeping are left as they were.
pub open spec fn intake_unchanged(a: CaptureMetrics, b: CaptureMetrics) -> bool {
    &&& b.accepted_items == a.accepted_items
    &&& b.dropped_items == a.dropped_items
    &&& b.queued_items == a.queued_items
}

/// Flush-reason counters other than `reason` are left as they were.
pub open spec fn other_reasons_unchanged(a: CaptureMetrics, b: CaptureMetrics, reason: FlushReason) -> bool {
    forall|r: FlushReason| r != reason ==> #[trigger] b.flush_reasons.count_for(r) == a.flush_reasons.count_for(r)
}

impl<T, S: CaptureSink<T>> CaptureRuntime<T, S> {
    /// Buffers are consistent and the summed counters fit a `usize`.
    pub open spec fn wf(&self) -> bool {
        &&& self.partitions.wf()
        &&& self.partitions.total_rows() <= usize::MAX
        &&& self.partitions.total_bytes() <= usize::MAX
    }

    /// Gauges mirror the buffers.
    pub open spec fn gauges_synced(&self) -> bool {
        &&& self.metrics.active_partitions == self.partitions.entries@.len()
        &&& self.metrics.buffered_bytes == self.partitions.total_bytes()
    }

    /// Every accepted row has been flushed or is still buffered (counts modulo
    /// `2^64`).
    pub open spec fn rows_accounted(&self) -> bool {
        self.metrics.accepted_items == wrap(self.metrics.flushed_rows + self.partitions.total_rows())
    }

    /// Pending rows and bytes of `item`'s partition once the item is buffered.
    pub open spec fn pushed_pending(&self, item: CaptureItem<T>) -> (int, int) {
        let l = load_of(self.partitions);
        let k = item.partition_key.spec_stable_key();
        if l.contains_key(k) { (l[k].0 + 1, l[k].1 + item.estimated_bytes) } else { (1, item.estimated_bytes as int) }
    }

    /// The rows of `item`'s partition once the item is buffered.
    pub open spec fn pushed_items(&self, item: CaptureItem<T>) -> Seq<T> {
        let k = item.partition_key.spec_stable_key();
        if self.partitions.has_key(k) {
            self.partitions.entries@[self.partitions.index_of(k)].buffer.items@.push(item.payload)
        } else {
            seq![item.payload]
        }
    }

    /// Why `item`'s partition is written out right after the item is buffered:
    /// the row threshold first, then the byte threshold.
    pub open spec fn item_flush_reason(&self, item: CaptureItem<T>) -> Option<FlushReason> {
        let p = self.pushed_pending(item);
        if p.0 >= self.row_threshold() {
            Some(FlushReason::Rows)
        } else if p.1 >= self.config.max_buffer_bytes {
            Some(FlushReason::Bytes)
        } else {
            None
        }
    }

    /// Buffering `item` first evicts the oldest partition: the item opens a new
    /// partition while `max_active_partitions` are already buffered.
    pub open spec fn evicts_for(&self, item: CaptureItem<T>) -> bool {
        &&& !self.partitions.has_key(item.partition_key.spec_stable_key())
        &&& self.partitions.entries@.len() >= self.config.max_active_partitions
        &&& self.partitions.entries@.len() > 0
    }

    /// Row count at which a partition is flushed.
    pub open spec fn row_threshold(&self) -> usize {
        self.config.lifecycle.spec_batch_row_threshold(self.config.flush_rows)
    }

    /// Buffering `item` writes nothing: its partition is open or there is room
    /// for a new one, the partition stays below the row and byte thresholds,
    /// and the summed pending bytes stay within the budget.
    pub open spec fn buffers_without_flush(&self, item: CaptureItem<T>) -> bool {
        quiet_push(self.config, load_of(self.partitions), self.partitions.entries@.len() as int,
            self.partitions.total_bytes() as int, item.partition_key.spec_stable_key(), item.estimated_bytes as int)
    }

    /// Largest partition count a runtime settles at.
    pub open spec fn partition_cap(&self) -> nat {
        if self.config.max_active_partitions == 0 { 1 } else { self.config.max_active_partitions as nat }
    }

    pub fn new(config: CaptureConfig, sink: S) -> (r: Self)
        ensures
            r.config == config,
            r.sink == sink,
            r.metrics.spec_is_zero(),
            r.partitions.entries@.len() == 0,
            r.wf(),
            r.rows_accounted(),
    {
        let r = CaptureRuntime { config, sink, metrics: CaptureMetrics::zero(), partitions: PartitionMap::new() };
        proof {
            lemma_wrap_id(0);
        }
        r
    }

    /// Summed pending bytes of all partitions.
    pub fn total_pending_bytes(&self) -> (r: usize)
        requires
            self.wf(),
        ensures
            r == self.partitions.total_bytes(),
    {
        self.partitions.total_pending_bytes()
    }

    /// Refreshes the active-partition and buffered-byte gauges.
    pub fn sync_active_partitions(&mut self)
        requires
            old(self).wf(),
        ensures
            final(self).partitions == old(self).partitions,
            final(self).config == old(self).config,
            final(self).sink == old(self).sink,
            final(self).gauges_synced(),
            final(self).metrics == (CaptureMetrics {
                active_partitions: final(self).metrics.active_partitions,
                buffered_bytes: final(self).metrics.buffered_bytes,
                ..old(self).metrics
            }),
    {
        proof {
            lemma_wf_count(&self.partitions);
        }
        let n = self.partitions.nonempty_count();
        let bytes = self.partitions.total_pending_bytes();
        self.metrics.active_partitions = n as u64;
        self.metrics.buffered_bytes = bytes as u64;
    }

    /// Key of the oldest buffered partition (earliest event time, then key).
    pub fn oldest_partition_key(&self) -> (r: Option<String>)
        requires
            self.wf(),
        ensures
            r is None ==> self.partitions.entries@.len() == 0,
            r matches Some(k) ==> exists|i: int| #[trigger] self.partitions.is_oldest_at(i) && self.partitions.entries@[i].key@ == k@,
    {
        match self.partitions.oldest_index() {
            Some(i) => Some(self.partitions.entries[i].key.clone()),
            None => {
                proof {
                    if self.partitions.entries@.len() > 0 {
                        assert(self.partitions.entries@[0].buffer.items@.len() > 0);
                    }
                }
                None
            },
        }
    }

    fn completed_bytes(&self, files: &Vec<PathBuf>) -> (total: u64)
        ensures
            files@.len() == 0 ==> total == 0,
            total == files_bytes::<T, S>(self.sink, files@),
    {
        let mut total: u64 = 0;
        let mut i: usize = 0;
        assert(files@.take(0) =~= Seq::<PathBuf>::empty());
        while i < files.len()
            invariant
                i <= files@.len(),
                i == 0 ==> total == 0,
                total == files_bytes::<T, S>(self.sink, files@.take(i as int)),
            decreases files@.len() - i,
        {
            proof {
                let t = files@.take(i as int + 1);
                assert(t.drop_last() =~= files@.take(i as int));
                assert(t.last() == files@[i as int]);
            }
            total = total.wrapping_add(self.sink.completed_file_bytes(&files[i]));
            i = i + 1;
        }
        assert(files@.take(files@.len() as int) =~= files@);
        total
    }

    /// Writes out the partition `key` (if buffered) and counts the flush under `reason`.
    pub fn flush_partition_with_reason(&mut self, key: &str, reason: FlushReason) -> (r: Result<
        FlushResult,
        CaptureError,
    >)
        requires
            old(self).wf(),
        ensures
            final(self).wf(),
            final(self).config == old(self).config,
            !final(self).partitions.has_key(key@),
            intake_unchanged(old(self).metrics, final(self).metrics),
            !old(self).partitions.has_key(key@) ==> {
                &&& final(self).partitions.entries@ == old(self).partitions.entries@
                &&& r matches Ok(res) && res.spec_is_empty()
                &&& final(self).gauges_synced()
                &&& final(self).metrics == (CaptureMetrics {
                    active_partitions: final(self).metrics.active_partitions,
                    buffered_bytes: final(self).metrics.buffered_bytes,
                    ..old(self).metrics
                })
            },
            old(self).partitions.has_key(key@) ==> {
                let i = old(self).partitions.index_of(key@);
                let buf = old(self).partitions.entries@[i].buffer;
                &&& final(self).partitions.entries@ == old(self).partitions.entries@.remove(i)
                &&& final(self).partitions.total_rows() + buf.pending_rows == old(self).partitions.total_rows()
                &&& final(self).partitions.total_bytes() + buf.pending_bytes == old(self).partitions.total_bytes()
                &&& (r is Err ==> final(self).metrics == old(self).metrics)
                &&& (r matches Ok(res) ==> {
                    &&& res.rows == buf.pending_rows
                    &&& final(self).gauges_synced()
                    &&& final(self).metrics.flushed_batches == wrap(old(self).metrics.flushed_batches + 1)
                    &&& final(self).metrics.flushed_rows == wrap(old(self).metrics.flushed_rows + res.rows)
                    &&& final(self).metrics.completed_files == wrap(old(self).metrics.completed_files + res.files@.len())
                    &&& final(self).metrics.completed_file_bytes == wrap(old(self).metrics.completed_file_bytes + res.bytes)
                    &&& final(self).metrics.flush_reasons == old(self).metrics.flush_reasons.recorded(reason)
                })
            },
            old(self).rows_accounted() && r is Ok ==> final(self).rows_accounted(),
            !old(self).partitions.has_key(key@) ==> final(self).sink == old(self).sink,
            old(self).partitions.has_key(key@) ==> {
                let slot = old(self).partitions.entries@[old(self).partitions.index_of(key@)];
                &&& final(self).sink.batches() == old(self).sink.batches().push(slot_batch(slot))
                &&& match old(self).sink.write_outcome(key@, slot.buffer.items@) {
                    Some(files) => r matches Ok(res) && res.files@ == files
                        && res.bytes == files_bytes::<T, S>(final(self).sink, files),
                    None => r is Err,
                }
            },
            old(self).sink.always_accepts() ==> r is Ok && final(self).sink.always_accepts(),
    {
        let removed = self.partitions.remove(key);
        proof {
            if old(self).partitions.has_key(key@) {
                old(self).partitions.lemma_index_of(key@);
                let i = old(self).partitions.index_of(key@);
                lemma_sum_remove(old(self).partitions.entries@, i, rows_measure());
                lemma_sum_remove(old(self).partitions.entries@, i, bytes_measure());
            }
        }
        let partition = match removed {
            None => {
                self.sync_active_partitions();
                return Ok(FlushResult::empty());
            },
            Some(p) => p,
        };
        if partition.items.len() == 0 {
            proof {
                old(self).partitions.lemma_index_of(key@);
            }
            self.sync_active_partitions();
            return Ok(FlushResult::empty());
        }
        proof {
            old(self).partitions.lemma_index_of(key@);
        }
        let rows = partition.pending_rows;
        let files = match self.sink.write_batch(key, partition.items) {
            Ok(f) => f,
            Err(e) => return Err(e),
        };
        let bytes = self.completed_bytes(&files);
        let nfiles = files.len();
        proof {
            lemma_wadd_wrap(self.metrics.flushed_batches as int, 1);
            lemma_wadd_wrap(self.metrics.flushed_rows as int, rows as u64);
            lemma_wadd_wrap(self.metrics.completed_files as int, nfiles as u64);
            lemma_wadd_wrap(self.metrics.completed_file_bytes as int, bytes);
            lemma_wrap_id(self.metrics.flushed_batches);
            lemma_wrap_id(self.metrics.flushed_rows);
            lemma_wrap_id(self.metrics.completed_files);
            lemma_wrap_id(self.metrics.completed_file_bytes);
        }
        self.metrics.flushed_batches = self.metrics.flushed_batches.wrapping_add(1);
        self.metrics.flushed_rows = self.metrics.flushed_rows.wrapping_add(rows as u64);
        self.metrics.completed_files = self.metrics.completed_files.wrapping_add(nfiles as u64);
        self.metrics.completed_file_bytes = self.metrics.completed_file_bytes.wrapping_add(bytes);
        self.metrics.flush_reasons.record(reason);
        self.sync_active_partitions();
        proof {
            if old(self).rows_accounted() {
                lemma_accounted_step(old(self).metrics.accepted_items, old(self).metrics.flushed_rows,
                    old(self).partitions.total_rows(), self.metrics.flushed_rows, self.partitions.total_rows(), rows as nat);
            }
        }
        Ok(FlushResult { files, rows, bytes })
    }

    /// Writes out the partition `key` as a manual flush.
    pub fn flush_partition(&mut self, key: &str) -> (r: Result<FlushResult, CaptureError>)
        requires
            old(self).wf(),
        ensures
            final(self).wf(),
            final(self).config == old(self).config,
            !final(self).partitions.has_key(key@),
            intake_unchanged(old(self).metrics, final(self).metrics),
            !old(self).partitions.has_key(key@) ==> final(self).partitions.entries@ == old(self).partitions.entries@
                && (r matches Ok(res) && res.spec_is_empty()) && final(self).gauges_synced(),
            !old(self).partitions.has_key(key@) ==> final(self).metrics == (CaptureMetrics {
                active_partitions: final(self).metrics.active_partitions,
                buffered_bytes: final(self).metrics.buffered_bytes,
                ..old(self).metrics
            }),
            old(self).partitions.has_key(key@) ==> {
                let i = old(self).partitions.index_of(key@);
                let buf = old(self).partitions.entries@[i].buffer;
                &&& final(self).partitions.entries@ == old(self).partitions.entries@.remove(i)
                &&& final(self).partitions.total_rows() + buf.pending_rows == old(self).partitions.total_rows()
                &&& (r is Err ==> final(self).metrics == old(self).metrics)
                &&& (r matches Ok(res) ==> {
                    &&& res.rows == buf.pending_rows
                    &&& final(self).gauges_synced()
                    &&& final(self).metrics.flushed_batches == wrap(old(self).metrics.flushed_batches + 1)
                    &&& final(self).metrics.flushed_rows == wrap(old(self).metrics.flushed_rows + res.rows)
                    &&& final(self).metrics.completed_files == wrap(old(self).metrics.completed_files + res.files@.len())
                    &&& final(self).metrics.completed_file_bytes == wrap(old(self).metrics.completed_file_bytes + res.bytes)
                    &&& final(self).metrics.flush_reasons == old(self).metrics.flush_reasons.recorded(FlushReason::Manual)
                })
            },
            old(self).rows_accounted() && r is Ok ==> final(self).rows_accounted(),
            !old(self).partitions.has_key(key@) ==> final(self).sink == old(self).sink,
            old(self).partitions.has_key(key@) ==> {
                let slot = old(self).partitions.entries@[old(self).partitions.index_of(key@)];
                &&& final(self).sink.batches() == old(self).sink.batches().push(slot_batch(slot))
                &&& match old(self).sink.write_outcome(key@, slot.buffer.items@) {
                    Some(files) => r matches Ok(res) && res.files@ == files
                        && res.bytes == files_bytes::<T, S>(final(self).sink, files),
                    None => r is Err,
                }
            },
            old(self).sink.always_accepts() ==> r is Ok && final(self).sink.always_accepts(),
    {
        self.flush_partition_with_reason(key, FlushReason::Manual)
    }

    /// Writes out every buffered partition, counting each flush under `reason`.
    #[verifier::spinoff_prover]
    #[verifier::rlimit(60)]
    pub fn flush_all_with_reason(&mut self, reason: FlushReason) -> (r: Result<FlushResult, CaptureError>)
        requires
            old(self).wf(),
        ensures
            final(self).wf(),
            final(self).config == old(self).config,
            intake_unchanged(old(self).metrics, final(self).metrics),
            final(self).partitions.total_rows() <= old(self).partitions.total_rows(),
            final(self).partitions.total_bytes() <= old(self).partitions.total_bytes(),
            old(self).partitions.entries@.len() == 0 ==> (r matches Ok(res) && res.spec_is_empty()),
            r matches Ok(res) ==> {
                let n = old(self).partitions.entries@.len();
                &&& final(self).partitions.entries@.len() == 0
                &&& res.rows == old(self).partitions.total_rows()
                &&& final(self).gauges_synced()
                &&& final(self).metrics.flushed_batches == wrap(old(self).metrics.flushed_batches + n)
                &&& final(self).metrics.flushed_rows == wrap(old(self).metrics.flushed_rows + res.rows)
                &&& final(self).metrics.completed_files == wrap(old(self).metrics.completed_files + res.files@.len())
                &&& final(self).metrics.flush_reasons.count_for(reason) == wrap(old(self).metrics.flush_reasons.count_for(reason) + n)
                &&& other_reasons_unchanged(old(self).metrics, final(self).metrics, reason)
            },
            old(self).rows_accounted() && r is Ok ==> final(self).rows_accounted(),
            r is Ok ==> final(self).sink.batches() == old(self).sink.batches() + slot_batches(old(self).partitions.entries@),
            old(self).sink.always_accepts() ==> r is Ok && final(self).sink.always_accepts(),
    {
        let mut result = FlushResult::empty();
        let keys = self.partitions.keys();
        if keys.len() == 0 {
            self.sync_active_partitions();
            proof {
                assert(slot_batches(old(self).partitions.entries@) =~= Seq::<(Seq<char>, Seq<T>)>::empty());
                assert(old(self).sink.batches() + Seq::<(Seq<char>, Seq<T>)>::empty() =~= old(self).sink.batches());
            }
            return Ok(result);
        }
        let ghost e0 = old(self).partitions.entries@;
        let ghost old_n = e0.len();
        let ghost old_rows = old(self).partitions.total_rows();
        let ghost m0 = old(self).metrics;
        let ghost b0 = old(self).sink.batches();
        let mut i: usize = 0;
        proof {
            lemma_wrap_id(m0.flushed_batches);
            lemma_wrap_id(m0.flushed_rows);
            lemma_wrap_id(m0.completed_files);
            lemma_wrap_id(m0.flush_reasons.count_for(reason));
            assert(e0.skip(0) =~= e0);
            assert(slot_batches(e0.take(0)) =~= Seq::<(Seq<char>, Seq<T>)>::empty());
            assert(b0 + Seq::<(Seq<char>, Seq<T>)>::empty() =~= b0);
        }
        while i < keys.len()
            invariant
                self.wf(),
                self.config == old(self).config,
                m0 == old(self).metrics,
                intake_unchanged(m0, self.metrics),
                i <= keys@.len(),
                keys@.len() == old_n,
                old_n == e0.len(),
                e0 == old(self).partitions.entries@,
                forall|j: int| 0 <= j < keys@.len() ==> #[trigger] keys@[j]@ == e0[j].key@,
                self.partitions.entries@ == e0.skip(i as int),
                self.partitions.total_rows() + result.rows == old_rows,
                old_rows == old(self).partitions.total_rows(),
                old_rows <= usize::MAX,
                self.partitions.total_bytes() <= old(self).partitions.total_bytes(),
                self.metrics.flushed_batches == wrap(m0.flushed_batches + i),
                self.metrics.flushed_rows == wrap(m0.flushed_rows + result.rows),
                self.metrics.completed_files == wrap(m0.completed_files + result.files@.len()),
                self.metrics.flush_reasons.count_for(reason) == wrap(m0.flush_reasons.count_for(reason) + i),
                other_reasons_unchanged(m0, self.metrics, reason),
                i > 0 ==> self.gauges_synced(),
                old(self).rows_accounted() ==> self.rows_accounted(),
                b0 == old(self).sink.batches(),
                self.sink.batches() == b0 + slot_batches(e0.take(i as int)),
                old(self).sink.always_accepts() ==> self.sink.always_accepts(),
            decreases keys@.len() - i,
        {
            let ghost before = self.partitions;
            let ghost mb = self.metrics;
            proof {
                let k = keys@[i as int]@;
                assert(i < old_n);
                assert(e0.skip(i as int)[0] == e0[i as int]);
                assert(before.entries@[0] == e0[i as int]);
                assert(keys@[i as int]@ == e0[i as int].key@);
                assert(before.entries@[0].key@ == k);
                assert(before.has_key(k));
                before.lemma_index_of(k);
                assert(before.index_of(k) == 0);
            }
            let res = self.flush_partition_with_reason(keys[i].as_str(), reason);
            let partial = match res {
                Ok(p) => p,
                Err(e) => {
                    return Err(e);
                },
            };
            proof {
                assert(self.partitions.entries@ =~= e0.skip(i as int + 1));
                lemma_wrap_add(m0.flushed_batches + i, 1);
                lemma_wrap_add(m0.flushed_rows + result.rows, partial.rows as int);
                lemma_wrap_add(m0.completed_files + result.files@.len(), partial.files@.len() as int);
                lemma_wadd_wrap(m0.flush_reasons.count_for(reason) + i, 1);
                assert forall|rr: FlushReason| rr != reason implies #[trigger] self.metrics.flush_reasons.count_for(rr)
                    == m0.flush_reasons.count_for(rr) by {
                    assert(mb.flush_reasons.count_for(rr) == m0.flush_reasons.count_for(rr));
                }
                assert(slot_batches(e0.take(i as int + 1)) =~= slot_batches(e0.take(i as int)).push(slot_batch(e0[i as int])));
                assert(b0 + slot_batches(e0.take(i as int + 1)) =~= (b0 + slot_batches(e0.take(i as int))).push(slot_batch(e0[i as int])));
            }
            result.rows = result.rows + partial.rows;
            result.bytes = result.bytes.wrapping_add(partial.bytes);
            let mut more = partial.files;
            result.files.append(&mut more);
            i = i + 1;
        }
        proof {
            assert(e0.take(old_n as int) =~= e0);
            assert(self.partitions.entries@.len() == 0);
        }
        self.sync_active_partitions();
        Ok(result)
    }

    /// Writes out every buffered partition as a manual flush.
    pub fn flush_all(&mut self) -> (r: Result<FlushResult, CaptureError>)
        requires
            old(self).wf(),
        ensures
            final(self).wf(),
            final(self).config == old(self).config,
            intake_unchanged(old(self).metrics, final(self).metrics),
            old(self).partitions.entries@.len() == 0 ==> (r matches Ok(res) && res.spec_is_empty()),
            r matches Ok(res) ==> {
                let n = old(self).partitions.entries@.len();
                &&& final(self).partitions.entries@.len() == 0
                &&& res.rows == old(self).partitions.total_rows()
                &&& final(self).gauges_synced()
                &&& final(self).metrics.flushed_batches == wrap(old(self).metrics.flushed_batches + n)
                &&& final(self).metrics.flushed_rows == wrap(old(self).metrics.flushed_rows + res.rows)
                &&& final(self).metrics.completed_files == wrap(old(self).metrics.completed_files + res.files@.len())
                &&& final(self).metrics.flush_reasons.count_for(FlushReason::Manual)
                    == wrap(old(self).metrics.flush_reasons.count_for(FlushReason::Manual) + n)
                &&& other_reasons_unchanged(old(self).metrics, final(self).metrics, FlushReason::Manual)
            },
            old(self).rows_accounted() && r is Ok ==> final(self).rows_accounted(),
            r is Ok ==> final(self).sink.batches() == old(self).sink.batches() + slot_batches(old(self).partitions.entries@),
            old(self).sink.always_accepts() ==> r is Ok && final(self).sink.always_accepts(),
    {
        self.flush_all_with_reason(FlushReason::Manual)
    }
}


/// Slots of `after` are those of `before` with position `i` removed.
pub proof fn lemma_removed_slots<T>(before: PartitionMap<T>, after: PartitionMap<T>, i: int)
    requires
        0 <= i < before.entries@.len(),
        after.entries@ == before.entries@.remove(i),
    ensures
        after.entries@.len() == before.entries@.len() - 1,
        forall|j: int| 0 <= j < after.entries@.len() ==> #[trigger] after.entries@[j] == before.entries@[if j < i { j } else { j + 1 }],
        before.all_positive_bytes() ==> after.all_positive_bytes(),
        forall|rows: usize, bytes: usize| before.all_below(rows, bytes) ==> #[trigger] after.all_below(rows, bytes),
{
    assert forall|j: int| 0 <= j < after.entries@.len() implies #[trigger] after.entries@[j] == before.entries@[if j < i { j } else { j + 1 }] by {
    }
    if before.all_positive_bytes() {
        assert forall|j: int| 0 <= j < after.entries@.len() implies (#[trigger] after.entries@[j]).buffer.pending_bytes > 0 by {
            assert(after.entries@[j] == before.entries@[if j < i { j } else { j + 1 }]);
        }
    }
    assert forall|rows: usize, bytes: usize| before.all_below(rows, bytes) implies #[trigger] after.all_below(rows, bytes) by {
        assert forall|j: int| 0 <= j < after.entries@.len() implies (#[trigger] after.entries@[j]).buffer.pending_rows < rows
            && after.entries@[j].buffer.pending_bytes < bytes by {
            assert(after.entries@[j] == before.entries@[if j < i { j } else { j + 1 }]);
        }
    }
}

impl<T, S: CaptureSink<T>> CaptureRuntime<T, S> {
    /// Writes out the oldest buffered partition as a budget flush.
    pub fn flush_oldest_partition(&mut self) -> (r: Result<FlushResult, CaptureError>)
        requires
            old(self).wf(),
        ensures
            final(self).wf(),
            final(self).config == old(self).config,
            intake_unchanged(old(self).metrics, final(self).metrics),
            final(self).partitions.total_rows() <= old(self).partitions.total_rows(),
            final(self).partitions.total_bytes() <= old(self).partitions.total_bytes(),
            old(self).partitions.entries@.len() == 0 ==> final(self).partitions == old(self).partitions
                && final(self).metrics == old(self).metrics && (r matches Ok(res) && res.spec_is_empty()),
            old(self).partitions.entries@.len() > 0 ==> exists|i: int| {
                &&& #[trigger] old(self).partitions.is_oldest_at(i)
                &&& final(self).partitions.entries@ == old(self).partitions.entries@.remove(i)
                &&& final(self).partitions.total_rows() + old(self).partitions.entries@[i].buffer.pending_rows
                    == old(self).partitions.total_rows()
                &&& final(self).partitions.total_bytes() + old(self).partitions.entries@[i].buffer.pending_bytes
                    == old(self).partitions.total_bytes()
                &&& (r is Err ==> final(self).metrics == old(self).metrics)
                &&& final(self).sink.batches() == old(self).sink.batches().push(slot_batch(old(self).partitions.entries@[i]))
                &&& (r matches Ok(res) ==> {
                    &&& res.rows == old(self).partitions.entries@[i].buffer.pending_rows
                    &&& final(self).gauges_synced()
                    &&& final(self).metrics.flushed_rows == wrap(old(self).metrics.flushed_rows + res.rows)
                    &&& final(self).metrics.accepted_items == old(self).metrics.accepted_items
                    &&& final(self).metrics.flush_reasons == old(self).metrics.flush_reasons.recorded(FlushReason::Budget)
                })
            },
            old(self).rows_accounted() && r is Ok ==> final(self).rows_accounted(),
            old(self).partitions.entries@.len() == 0 ==> final(self).sink == old(self).sink,
            old(self).sink.always_accepts() ==> r is Ok && final(self).sink.always_accepts(),
    {
        match self.oldest_partition_key() {
            None => Ok(FlushResult::empty()),
            Some(key) => {
                proof {
                    let i = choose|i: int| #[trigger] self.partitions.is_oldest_at(i) && self.partitions.entries@[i].key@ == key@;
                    assert(self.partitions.has_key(key@));
                    self.partitions.lemma_index_of(key@);
                    assert(self.partitions.index_of(key@) == i);
                }
                self.flush_partition_with_reason(key.as_str(), FlushReason::Budget)
            },
        }
    }

    /// Buffers one item, then flushes as the thresholds and budgets require:
    /// the oldest partition first when a new partition would exceed
    /// `max_active_partitions`, the item's partition when it reaches the row or
    /// byte threshold, and oldest partitions while the summed pending bytes
    /// exceed `max_total_buffer_bytes`.
    #[verifier::spinoff_prover]
    #[verifier::rlimit(80)]
    pub fn submit(&mut self, item: CaptureItem<T>) -> (r: Result<FlushResult, CaptureError>)
        requires
            old(self).wf(),
            old(self).partitions.total_rows() + 1 <= usize::MAX,
            old(self).partitions.total_bytes() + item.estimated_bytes <= usize::MAX,
        ensures
            final(self).wf(),
            final(self).config == old(self).config,
            final(self).partitions.total_rows() <= old(self).partitions.total_rows() + 1,
            final(self).partitions.total_bytes() <= old(self).partitions.total_bytes() + item.estimated_bytes,
            final(self).metrics.dropped_items == old(self).metrics.dropped_items,
            final(self).metrics.queued_items == old(self).metrics.queued_items,
            old(self).buffers_without_flush(item) ==> {
                let k = item.partition_key.spec_stable_key();
                &&& r matches Ok(res) && res.spec_is_empty()
                &&& load_of(final(self).partitions) == load_pushed(load_of(old(self).partitions), k, item.estimated_bytes as int)
                &&& final(self).partitions.entries@.len() == old(self).partitions.entries@.len()
                    + if old(self).partitions.has_key(k) { 0int } else { 1int }
                &&& final(self).partitions.total_bytes() == old(self).partitions.total_bytes() + item.estimated_bytes
            },
            r matches Ok(res) ==> {
                &&& final(self).partitions.total_rows() + res.rows == old(self).partitions.total_rows() + 1
                &&& final(self).metrics.accepted_items == wadd(old(self).metrics.accepted_items, 1)
                &&& final(self).gauges_synced()
                &&& (old(self).partitions.entries@.len() <= old(self).partition_cap()
                    ==> final(self).partitions.entries@.len() <= final(self).partition_cap())
                &&& (old(self).partitions.all_below(old(self).row_threshold(), old(self).config.max_buffer_bytes)
                    ==> final(self).partitions.all_below(final(self).row_threshold(), final(self).config.max_buffer_bytes))
                &&& (old(self).partitions.all_positive_bytes() && item.estimated_bytes > 0 ==> {
                    &&& final(self).partitions.total_bytes() <= final(self).config.max_total_buffer_bytes
                    &&& final(self).partitions.all_positive_bytes()
                })
                &&& final(self).metrics.flushed_rows == wrap(old(self).metrics.flushed_rows + res.rows)
                &&& exists|b: nat| {
                    let base: nat = if old(self).evicts_for(item) { 1 } else { 0 };
                    &&& #[trigger] submit_reason_counts(old(self).metrics.flush_reasons, final(self).metrics.flush_reasons, b,
                        old(self).item_flush_reason(item))
                    &&& b >= base
                    &&& (old(self).partitions.total_bytes() + item.estimated_bytes <= old(self).config.max_total_buffer_bytes
                        ==> b == base)
                    &&& (!old(self).evicts_for(item) && old(self).item_flush_reason(item) is None
                        && old(self).partitions.total_bytes() + item.estimated_bytes > old(self).config.max_total_buffer_bytes
                        ==> b >= 1)
                    &&& final(self).sink.batches().len() == old(self).sink.batches().len() + b
                        + if old(self).item_flush_reason(item) is Some { 1int } else { 0int }
                    &&& (old(self).item_flush_reason(item) is Some ==> final(self).sink.batches()[old(self).sink.batches().len() + base as int]
                        == (item.partition_key.spec_stable_key(), old(self).pushed_items(item)))
                }
                &&& final(self).sink.batches().subrange(0, old(self).sink.batches().len() as int) == old(self).sink.batches()
                &&& (old(self).evicts_for(item) ==> exists|i: int| #[trigger] old(self).partitions.is_oldest_at(i)
                    && !final(self).partitions.has_key(old(self).partitions.entries@[i].key@)
                    && final(self).sink.batches()[old(self).sink.batches().len() as int] == slot_batch(old(self).partitions.entries@[i]))
                &&& (old(self).item_flush_reason(item) is None
                    && old(self).partitions.total_bytes() + item.estimated_bytes <= old(self).config.max_total_buffer_bytes
                    ==> final(self).partitions.has_key(item.partition_key.spec_stable_key()))
            },
            r is Err ==> final(self).metrics.accepted_items == old(self).metrics.accepted_items
                || final(self).metrics.accepted_items == wadd(old(self).metrics.accepted_items, 1),
            old(self).rows_accounted() && r is Ok ==> final(self).rows_accounted(),
            old(self).sink.always_accepts() ==> r is Ok && final(self).sink.always_accepts(),
    {
        let ghost old_rows = old(self).partitions.total_rows();
        let ghost cap = old(self).partition_cap();
        let ghost under_cap = old(self).partitions.entries@.len() <= cap;
        let ghost below = old(self).partitions.all_below(old(self).row_threshold(), old(self).config.max_buffer_bytes);
        let ghost positive = old(self).partitions.all_positive_bytes() && item.estimated_bytes > 0;
        let ghost m0 = old(self).metrics;
        let ghost quiet = old(self).buffers_without_flush(item);
        let ghost evicts = old(self).evicts_for(item);
        let ghost base: nat = if evicts { 1 } else { 0 };
        let ghost ireason = old(self).item_flush_reason(item);
        let ghost pre_ok = old(self).partitions.total_bytes() + item.estimated_bytes <= old(self).config.max_total_buffer_bytes;
        let ghost old_total = old(self).partitions.total_bytes();
        let ghost mut b: nat = 0;
        let ghost b0 = old(self).sink.batches();
        let ghost bl = b0.len();
        let ghost ik = item.partition_key.spec_stable_key();
        let ghost ipushed = old(self).pushed_items(item);
        let ghost mut ek: Seq<char> = Seq::empty();
        let ghost mut ei: int = 0;
        proof {
            lemma_counts_start(m0.flush_reasons);
            lemma_wrap_id(m0.flushed_rows);
        }
        let row_threshold = self.config.lifecycle.batch_row_threshold(self.config.flush_rows);
        let max_buffer_bytes = self.config.max_buffer_bytes;
        let key = item.partition_key.stable_key();
        let mut result = FlushResult::empty();
        let present = self.partitions.contains_key(key.as_str());
        if !present && self.partitions.len() >= self.config.max_active_partitions {
            let ghost before = self.partitions;
            let flushed = match self.flush_oldest_partition() {
                Ok(f) => f,
                Err(e) => return Err(e),
            };
            proof {
                if before.entries@.len() > 0 {
                    let i = choose|i: int| {
                        &&& #[trigger] before.is_oldest_at(i)
                        &&& self.partitions.entries@ == before.entries@.remove(i)
                        &&& self.partitions.total_rows() + before.entries@[i].buffer.pending_rows == before.total_rows()
                        &&& self.partitions.total_bytes() + before.entries@[i].buffer.pending_bytes == before.total_bytes()
                        &&& flushed.rows == before.entries@[i].buffer.pending_rows
                        &&& self.sink.batches() == b0.push(slot_batch(before.entries@[i]))
                    };
                    lemma_removed_slots(before, self.partitions, i);
                    assert(!self.partitions.has_key(key@)) by {
                        if self.partitions.has_key(key@) {
                            let j = choose|j: int| 0 <= j < self.partitions.entries@.len() && #[trigger] self.partitions.entries@[j].key@ == key@;
                            assert(self.partitions.entries@[j] == before.entries@[if j < i { j } else { j + 1 }]);
                        }
                    }
                    lemma_removed_absent(before, self.partitions, i, before.entries@[i].key@);
                    lemma_counts_budget(m0.flush_reasons, m0.flush_reasons, 0, None);
                    ek = before.entries@[i].key@;
                    ei = i;
                    b = 1;
                }
            }
            result = merge_flush_results(result, flushed);
        }
        assert(b == base);
        assert(submit_reason_counts(m0.flush_reasons, self.metrics.flush_reasons, b, None));
        assert(self.sink.batches().len() == bl + b);
        assert(self.sink.batches().subrange(0, bl as int) == b0);
        assert(evicts ==> self.sink.batches()[bl as int] == slot_batch(old(self).partitions.entries@[ei]));
        assert(old(self).sink.always_accepts() ==> self.sink.always_accepts());
        assert(self.metrics.flushed_rows == wrap(m0.flushed_rows + result.rows));
        assert(evicts ==> old(self).partitions.is_oldest_at(ei) && old(self).partitions.entries@[ei].key@ == ek
            && !self.partitions.has_key(ek));
        assert(self.partitions.has_key(key@) <==> old(self).partitions.has_key(key@));
        assert(self.partitions.has_key(key@) ==> self.partitions == old(self).partitions);
        let ghost after_first = self.partitions;
        proof {
            assert(self.partitions.total_rows() + result.rows == old_rows);
            if under_cap {
                if !present {
                    assert(self.partitions.entries@.len() < cap);
                }
            }
        }
        self.partitions.push_row(key.clone(), item.payload, item.event_ts_ns, item.estimated_bytes);
        proof {
            if after_first.has_key(key@) {
                after_first.lemma_index_of(key@);
            }
            assert(self.partitions.has_key(key@));
            self.partitions.lemma_index_of(key@);
        }
        let reason = match self.partitions.get(key.as_str()) {
            Some(b) => b.should_flush_reason(row_threshold, max_buffer_bytes),
            None => None,
        };
        let ghost pushed_at = self.partitions.index_of(key@);
        let ghost pushed = self.partitions;
        proof {
            lemma_load_after_push(after_first, self.partitions, key@, item.estimated_bytes as int);
            if quiet {
                assert(after_first == old(self).partitions);
            }
            let bb = self.partitions.entries@[pushed_at].buffer;
            assert(load_of(self.partitions)[key@] == (bb.pending_rows as int, bb.pending_bytes as int));
            if after_first.has_key(key@) {
                assert(after_first == old(self).partitions);
            }
            assert(old(self).pushed_pending(item) == (bb.pending_rows as int, bb.pending_bytes as int));
            assert(reason == ireason);
            if after_first.has_key(key@) {
                after_first.lemma_index_of(key@);
                assert(after_first.index_of(key@) == pushed_at);
            } else {
                assert(pushed_at == after_first.entries@.len());
            }
            assert(bb.items@ == ipushed);
            assert(self.partitions.entries@[pushed_at].key@ == ik);
            if evicts {
                assert(ek != key@);
                assert(!load_of(self.partitions).contains_key(ek));
                assert(!self.partitions.has_key(ek));
            }
        }
        proof {
            if quiet {
                let b = self.partitions.entries@[pushed_at].buffer;
                if after_first.has_key(key@) {
                    assert(after_first == old(self).partitions);
                    assert(after_first.index_of(key@) == pushed_at);
                } else {
                    assert(pushed_at == after_first.entries@.len());
                }
                assert(b.pending_rows < row_threshold && b.pending_bytes < max_buffer_bytes);
                assert(reason is None);
            }
        }
        proof {
            // slots other than the pushed one are unchanged
            assert forall|j: int| 0 <= j < self.partitions.entries@.len() && j != pushed_at implies
                (#[trigger] self.partitions.entries@[j]) == after_first.entries@[j] by {
                if after_first.has_key(key@) {
                    assert(after_first.index_of(key@) == pushed_at);
                } else {
                    assert(pushed_at == after_first.entries@.len());
                    assert(self.partitions.entries@.subrange(0, after_first.entries@.len() as int)[j] == self.partitions.entries@[j]);
                }
            }
            if below && reason is None {
                assert forall|j: int| 0 <= j < self.partitions.entries@.len() implies (#[trigger] self.partitions.entries@[j]).buffer.pending_rows < row_threshold
                    && self.partitions.entries@[j].buffer.pending_bytes < max_buffer_bytes by {
                    if j != pushed_at {
                        assert(self.partitions.entries@[j] == after_first.entries@[j]);
                    }
                }
            }
            if positive {
                assert forall|j: int| 0 <= j < self.partitions.entries@.len() implies (#[trigger] self.partitions.entries@[j]).buffer.pending_bytes > 0 by {
                    if j != pushed_at {
                        assert(self.partitions.entries@[j] == after_first.entries@[j]);
                    }
                }
            }
        }
        self.metrics.accepted_items = self.metrics.accepted_items.wrapping_add(1);
        match reason {
            Some(reason) => {
                let ghost before = self.partitions;
                let ghost mb = self.metrics;
                let ghost sb = self.sink.batches();
                let flushed = match self.flush_partition_with_reason(key.as_str(), reason) {
                    Ok(f) => f,
                    Err(e) => return Err(e),
                };
                proof {
                    before.lemma_index_of(key@);
                    assert(before.index_of(key@) == pushed_at);
                    assert(self.sink.batches() == sb.push((ik, ipushed)));
                    assert(self.sink.batches().subrange(0, bl as int) =~= sb.subrange(0, bl as int));
                    lemma_counts_item(m0.flush_reasons, mb.flush_reasons, b, reason);
                    lemma_wrap_add(m0.flushed_rows + result.rows, flushed.rows as int);
                    if evicts {
                        lemma_removed_absent(before, self.partitions, pushed_at, ek);
                    }
                    lemma_removed_slots(before, self.partitions, pushed_at);
                    if below {
                        assert forall|j: int| 0 <= j < self.partitions.entries@.len() implies (#[trigger] self.partitions.entries@[j]).buffer.pending_rows < row_threshold
                            && self.partitions.entries@[j].buffer.pending_bytes < max_buffer_bytes by {
                            let j2 = if j < pushed_at { j } else { j + 1 };
                            assert(self.partitions.entries@[j] == before.entries@[j2]);
                            assert(before.entries@[j2] == after_first.entries@[j2]);
                        }
                    }
                }
                result = merge_flush_results(result, flushed);
            },
            None => {},
        }
        assert(submit_reason_counts(m0.flush_reasons, self.metrics.flush_reasons, b, ireason));
        assert(ireason is Some ==> self.sink.batches()[bl + base as int] == (ik, ipushed));
        let mut done = false;
        while !done
            invariant
                self.wf(),
                self.config == old(self).config,
                self.partitions.total_rows() + result.rows == old_rows + 1,
                old_rows + 1 <= usize::MAX,
                old_rows == old(self).partitions.total_rows(),
                m0 == old(self).metrics,
                self.metrics.accepted_items == wadd(m0.accepted_items, 1),
                self.metrics.dropped_items == m0.dropped_items,
                self.metrics.queued_items == m0.queued_items,
                self.partitions.total_bytes() <= old(self).partitions.total_bytes() + item.estimated_bytes,
                under_cap ==> self.partitions.entries@.len() <= cap,
                cap == old(self).partition_cap(),
                below ==> self.partitions.all_below(row_threshold, max_buffer_bytes),
                positive ==> self.partitions.all_positive_bytes(),
                done && positive ==> self.partitions.total_bytes() <= self.config.max_total_buffer_bytes,
                quiet ==> result.spec_is_empty() && self.partitions.total_bytes() <= self.config.max_total_buffer_bytes
                    && self.partitions == pushed,
                row_threshold == old(self).row_threshold(),
                max_buffer_bytes == old(self).config.max_buffer_bytes,
                old_total == old(self).partitions.total_bytes(),
                self.metrics.flushed_rows == wrap(m0.flushed_rows + result.rows),
                submit_reason_counts(m0.flush_reasons, self.metrics.flush_reasons, b, ireason),
                b >= base,
                pre_ok ==> b == base,
                pre_ok == (old_total + item.estimated_bytes <= self.config.max_total_buffer_bytes),
                evicts ==> old(self).partitions.is_oldest_at(ei) && old(self).partitions.entries@[ei].key@ == ek
                    && !self.partitions.has_key(ek),
                ireason is None && pre_ok ==> self.partitions.has_key(key@),
                !evicts && ireason is None && !pre_ok ==> b >= 1
                    || (!done && self.partitions.total_bytes() == old_total + item.estimated_bytes),
                b0 == old(self).sink.batches(),
                bl == b0.len(),
                base == (if evicts { 1nat } else { 0nat }),
                self.sink.batches().len() == bl + b + if ireason is Some { 1int } else { 0int },
                self.sink.batches().subrange(0, bl as int) == b0,
                evicts ==> self.sink.batches()[bl as int] == slot_batch(old(self).partitions.entries@[ei]),
                ireason is Some ==> self.sink.batches()[bl + base as int] == (ik, ipushed),
                old(self).sink.always_accepts() ==> self.sink.always_accepts(),
            decreases 2 * self.partitions.entries@.len() + if done { 0int } else { 1int },
        {
            let total = self.total_pending_bytes();
            if total <= self.config.max_total_buffer_bytes {
                done = true;
            } else {
                let ghost before = self.partitions;
                let ghost mb = self.metrics;
                let ghost sb = self.sink.batches();
                let flushed = match self.flush_oldest_partition() {
                    Ok(f) => f,
                    Err(e) => return Err(e),
                };
                proof {
                    if before.entries@.len() > 0 {
                        let i = choose|i: int| {
                            &&& #[trigger] before.is_oldest_at(i)
                            &&& self.partitions.entries@ == before.entries@.remove(i)
                            &&& self.partitions.total_rows() + before.entries@[i].buffer.pending_rows == before.total_rows()
                            &&& self.partitions.total_bytes() + before.entries@[i].buffer.pending_bytes == before.total_bytes()
                            &&& flushed.rows == before.entries@[i].buffer.pending_rows
                            &&& self.metrics.flushed_rows == wrap(mb.flushed_rows + flushed.rows)
                            &&& self.metrics.flush_reasons == mb.flush_reasons.recorded(FlushReason::Budget)
                            &&& self.sink.batches() == sb.push(slot_batch(before.entries@[i]))
                        };
                        assert(self.sink.batches().subrange(0, bl as int) =~= sb.subrange(0, bl as int));
                        if evicts {
                            assert(self.sink.batches()[bl as int] == sb[bl as int]);
                        }
                        if ireason is Some {
                            assert(self.sink.batches()[bl + base as int] == sb[bl + base as int]);
                        }
                        lemma_removed_slots(before, self.partitions, i);
                        if evicts {
                            lemma_removed_absent(before, self.partitions, i, ek);
                        }
                        lemma_counts_budget(m0.flush_reasons, mb.flush_reasons, b, ireason);
                        lemma_wrap_add(m0.flushed_rows + result.rows, flushed.rows as int);
                        b = b + 1;
                    } else {
                        assert(before.total_bytes() == 0);
                    }
                }
                result = merge_flush_results(result, flushed);
                let after = self.total_pending_bytes();
                if after >= total {
                    done = true;
                }
            }
        }
        self.sync_active_partitions();
        proof {
            assert(submit_reason_counts(old(self).metrics.flush_reasons, self.metrics.flush_reasons, b,
                old(self).item_flush_reason(item)));
            if evicts {
                assert(old(self).partitions.is_oldest_at(ei));
                assert(!self.partitions.has_key(old(self).partitions.entries@[ei].key@));
            }
            if !evicts && ireason is None && !pre_ok {
                assert(b >= 1);
            }
            if old(self).rows_accounted() {
                lemma_wadd_wrap(m0.flushed_rows + old_rows, 1);
                lemma_accounted_step(self.metrics.accepted_items, m0.flushed_rows, (old_rows + 1) as nat,
                    self.metrics.flushed_rows, self.partitions.total_rows(), result.rows as nat);
            }
        }
        Ok(result)
    }
}

impl<T, S: CaptureSink<T>> CaptureRuntime<T, S> {
    /// Counts a sink-reported seal/flush outcome under `reason` when it produced files.
    fn record_sink_result(&mut self, res: &FlushResult, reason: FlushReason)
        ensures
            final(self).partitions == old(self).partitions,
            final(self).config == old(self).config,
            final(self).sink == old(self).sink,
            intake_unchanged(old(self).metrics, final(self).metrics),
            final(self).metrics.active_partitions == old(self).metrics.active_partitions,
            final(self).metrics.buffered_bytes == old(self).metrics.buffered_bytes,
            res.files@.len() == 0 ==> final(self).metrics == old(self).metrics,
            res.files@.len() > 0 ==> {
                &&& final(self).metrics.flushed_batches == wrap(old(self).metrics.flushed_batches + 1)
                &&& final(self).metrics.flushed_rows == wrap(old(self).metrics.flushed_rows + res.rows)
                &&& final(self).metrics.completed_files == wrap(old(self).metrics.completed_files + res.files@.len())
                &&& final(self).metrics.completed_file_bytes == wrap(old(self).metrics.completed_file_bytes + res.bytes)
                &&& final(self).metrics.flush_reasons == old(self).metrics.flush_reasons.recorded(reason)
            },
    {
        let n = res.files.len();
        if n > 0 {
            proof {
                lemma_wadd_wrap(self.metrics.flushed_batches as int, 1);
                lemma_wadd_wrap(self.metrics.flushed_rows as int, res.rows as u64);
                lemma_wadd_wrap(self.metrics.completed_files as int, n as u64);
                lemma_wadd_wrap(self.metrics.completed_file_bytes as int, res.bytes);
                lemma_wrap_id(self.metrics.flushed_batches);
                lemma_wrap_id(self.metrics.flushed_rows);
                lemma_wrap_id(self.metrics.completed_files);
                lemma_wrap_id(self.metrics.completed_file_bytes);
            }
            self.metrics.flushed_batches = self.metrics.flushed_batches.wrapping_add(1);
            self.metrics.flushed_rows = self.metrics.flushed_rows.wrapping_add(res.rows as u64);
            self.metrics.completed_files = self.metrics.completed_files.wrapping_add(n as u64);
            self.metrics.completed_file_bytes = self.metrics.completed_file_bytes.wrapping_add(res.bytes);
            self.metrics.flush_reasons.record(reason);
        }
    }

    /// Forwards a durability tick to the sink; parts it sealed count as a seal.
    pub fn on_tick(&mut self, now_ns: u64) -> (r: Result<FlushResult, CaptureError>)
        ensures
            final(self).partitions == old(self).partitions,
            final(self).config == old(self).config,
            intake_unchanged(old(self).metrics, final(self).metrics),
            r is Err ==> final(self).metrics == old(self).metrics,
            final(self).sink.batches() == old(self).sink.batches(),
            match old(self).sink.tick_outcome(now_ns) {
                Some(res) => r == Ok::<FlushResult, CaptureError>(res),
                None => r is Err,
            },
            r matches Ok(res) ==> {
                &&& res.files@.len() == 0 ==> final(self).metrics == old(self).metrics
                &&& res.files@.len() > 0 ==> {
                    &&& final(self).metrics.flushed_batches == wrap(old(self).metrics.flushed_batches + 1)
                    &&& final(self).metrics.flushed_rows == wrap(old(self).metrics.flushed_rows + res.rows)
                    &&& final(self).metrics.completed_files == wrap(old(self).metrics.completed_files + res.files@.len())
                    &&& final(self).metrics.completed_file_bytes == wrap(old(self).metrics.completed_file_bytes + res.bytes)
                    &&& final(self).metrics.flush_reasons == old(self).metrics.flush_reasons.recorded(FlushReason::Seal)
                }
            },
    {
        let result = match self.sink.on_tick(now_ns) {
            Ok(res) => res,
            Err(e) => return Err(e),
        };
        self.record_sink_result(&result, FlushReason::Seal);
        Ok(result)
    }

    /// Flushes every partition, then has the sink seal its open parts; the
    /// result holds both.
    #[verifier::spinoff_prover]
    #[verifier::rlimit(60)]
    pub fn seal_all_internal(&mut self, reason: FlushReason, for_shutdown: bool) -> (r: Result<
        FlushResult,
        CaptureError,
    >)
        requires
            old(self).wf(),
        ensures
            final(self).wf(),
            final(self).config == old(self).config,
            intake_unchanged(old(self).metrics, final(self).metrics),
            r matches Ok(res) ==> {
                &&& final(self).partitions.entries@.len() == 0
                &&& res.rows >= old(self).partitions.total_rows()
                &&& final(self).gauges_synced()
                &&& seal_step::<T, S>(old(self).sink, old(self).partitions.entries@, final(self).sink, for_shutdown,
                    old(self).metrics, final(self).metrics, res, reason)
            },
            r is Err && old(self).sink.always_accepts() ==> seal_refused::<T, S>(old(self).sink,
                old(self).partitions.entries@, for_shutdown),
    {
        let flushed = match self.flush_all_with_reason(reason) {
            Ok(f) => f,
            Err(e) => return Err(e),
        };
        let ghost mid = self.sink;
        let sealed = if for_shutdown {
            self.sink.seal_all_for_shutdown()
        } else {
            self.sink.seal_all()
        };
        let sealed = match sealed {
            Ok(s) => s,
            Err(e) => {
                proof {
                    assert(mid.seal_outcome(for_shutdown) is None);
                    assert(seal_refused::<T, S>(old(self).sink, old(self).partitions.entries@, for_shutdown));
                }
                return Err(e);
            },
        };
        let ghost mf = self.metrics;
        self.record_sink_result(&sealed, reason);
        let ghost flushed_g = flushed;
        let ghost sealed_g = sealed;
        let merged = merge_flush_results(flushed, sealed);
        proof {
            lemma_sealed_counts(old(self).metrics, mf, self.metrics, old(self).partitions.entries@.len(), flushed_g,
                sealed_g, reason);
            assert(is_merged(merged, flushed_g, sealed_g));
            assert(mid.seal_outcome(for_shutdown) == Some(sealed_g));
            assert(seals_after_flush::<T, S>(mid, for_shutdown, old(self).partitions.total_rows(),
                old(self).partitions.entries@.len(), old(self).metrics, self.metrics, merged, reason));
            assert(mid.batches() == old(self).sink.batches() + slot_batches(old(self).partitions.entries@));
            assert(self.sink.batches() == mid.batches());
            assert(seal_step::<T, S>(old(self).sink, old(self).partitions.entries@, self.sink, for_shutdown,
                old(self).metrics, self.metrics, merged, reason));
        }
        Ok(merged)
    }

    /// Flushes everything and seals the sink's open parts.
    pub fn seal_all(&mut self) -> (r: Result<FlushResult, CaptureError>)
        requires
            old(self).wf(),
        ensures
            final(self).wf(),
            final(self).config == old(self).config,
            intake_unchanged(old(self).metrics, final(self).metrics),
            r matches Ok(res) ==> final(self).partitions.entries@.len() == 0
                && res.rows >= old(self).partitions.total_rows() && final(self).gauges_synced()
                && seal_step::<T, S>(old(self).sink, old(self).partitions.entries@, final(self).sink, false,
                    old(self).metrics, final(self).metrics, res, FlushReason::Seal),
            r is Err && old(self).sink.always_accepts() ==> seal_refused::<T, S>(old(self).sink,
                old(self).partitions.entries@, false),
    {
        self.seal_all_internal(FlushReason::Seal, false)
    }

    /// Flushes everything and seals the sink's open parts before exit.
    pub fn seal_all_for_shutdown(&mut self) -> (r: Result<FlushResult, CaptureError>)
        requires
            old(self).wf(),
        ensures
            final(self).wf(),
            final(self).config == old(self).config,
            intake_unchanged(old(self).metrics, final(self).metrics),
            r matches Ok(res) ==> final(self).partitions.entries@.len() == 0
                && res.rows >= old(self).partitions.total_rows() && final(self).gauges_synced()
                && seal_step::<T, S>(old(self).sink, old(self).partitions.entries@, final(self).sink, true,
                    old(self).metrics, final(self).metrics, res, FlushReason::Shutdown),
            r is Err && old(self).sink.always_accepts() ==> seal_refused::<T, S>(old(self).sink,
                old(self).partitions.entries@, true),
    {
        self.seal_all_internal(FlushReason::Shutdown, true)
    }
}
} // verus!
