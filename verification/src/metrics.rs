//! Capture counters. Counters use the integer semantics of release builds:
//! an addition past `u64::MAX` wraps.
use vstd::prelude::*;

use crate::text::{push_str, push_u64};

verus! {

/// Why a partition or runtime flushed.
#[derive(Debug, Clone, Copy, PartialEq, Eq)]
pub enum FlushReason {
    Rows,
    Bytes,
    Interval,
    Seal,
    Shutdown,
    Manual,
    Budget,
}

/// `a + b` with wrap-around at `2^64`.
pub open spec fn wadd(a: u64, b: u64) -> u64 {
    vstd::wrapping::u64_specs::wrapping_add(a, b)
}

/// Flush counts per reason.
#[derive(Debug, Clone, Default, PartialEq, Eq)]
pub struct FlushReasonMetrics {
    pub row_threshold: u64,
    pub byte_threshold: u64,
    pub interval: u64,
    pub seal: u64,
    pub shutdown: u64,
    pub manual: u64,
    pub budget: u64,
}

impl FlushReasonMetrics {
    /// All counters zero.
    pub open spec fn spec_is_zero(&self) -> bool {
        self.row_threshold == 0 && self.byte_threshold == 0 && self.interval == 0 && self.seal == 0
            && self.shutdown == 0 && self.manual == 0 && self.budget == 0
    }

    /// The counter that `reason` increments.
    pub open spec fn count_for(&self, reason: FlushReason) -> u64 {
        match reason {
            FlushReason::Rows => self.row_threshold,
            FlushReason::Bytes => self.byte_threshold,
            FlushReason::Interval => self.interval,
            FlushReason::Seal => self.seal,
            FlushReason::Shutdown => self.shutdown,
            FlushReason::Manual => self.manual,
            FlushReason::Budget => self.budget,
        }
    }

    /// `self` with the counter of `reason` incremented.
    pub open spec fn recorded(self, reason: FlushReason) -> Self {
        match reason {
            FlushReason::Rows => Self { row_threshold: wadd(self.row_threshold, 1), ..self },
            FlushReason::Bytes => Self { byte_threshold: wadd(self.byte_threshold, 1), ..self },
            FlushReason::Interval => Self { interval: wadd(self.interval, 1), ..self },
            FlushReason::Seal => Self { seal: wadd(self.seal, 1), ..self },
            FlushReason::Shutdown => Self { shutdown: wadd(self.shutdown, 1), ..self },
            FlushReason::Manual => Self { manual: wadd(self.manual, 1), ..self },
            FlushReason::Budget => Self { budget: wadd(self.budget, 1), ..self },
        }
    }

    pub fn zero() -> (m: Self)
        ensures
            m.spec_is_zero(),
    {
        FlushReasonMetrics {
            row_threshold: 0,
            byte_threshold: 0,
            interval: 0,
            seal: 0,
            shutdown: 0,
            manual: 0,
            budget: 0,
        }
    }

    /// Counts one flush for `reason`; every other counter is unchanged.
    pub fn record(&mut self, reason: FlushReason)
        ensures
            *final(self) == old(self).recorded(reason),
    {
        match reason {
            FlushReason::Rows => self.row_threshold = self.row_threshold.wrapping_add(1),
            FlushReason::Bytes => self.byte_threshold = self.byte_threshold.wrapping_add(1),
            FlushReason::Interval => self.interval = self.interval.wrapping_add(1),
            FlushReason::Seal => self.seal = self.seal.wrapping_add(1),
            FlushReason::Shutdown => self.shutdown = self.shutdown.wrapping_add(1),
            FlushReason::Manual => self.manual = self.manual.wrapping_add(1),
            FlushReason::Budget => self.budget = self.budget.wrapping_add(1),
        }
    }

    pub fn copy(&self) -> (m: Self)
        ensures
            m == *self,
    {
        FlushReasonMetrics { ..*self }
    }
}

/// `a + b` reduced modulo `2^64`.
pub open spec fn sum_mod_2_64(a: u64, b: u64) -> int {
    (a as int + b as int) % 0x1_0000_0000_0000_0000int
}

/// Counter addition is addition modulo `2^64`, so it commutes, associates and has 0 as identity.
pub proof fn lemma_wadd_is_modular(a: u64, b: u64, c: u64)
    ensures
        wadd(a, b) as int == sum_mod_2_64(a, b),
        wadd(a, b) == wadd(b, a),
        wadd(wadd(a, b), c) == wadd(a, wadd(b, c)),
        wadd(0, b) == b,
{
}

/// Counters of one family runtime (or an aggregate of several).
#[derive(Debug, Clone, Default, PartialEq, Eq)]
pub struct CaptureMetrics {
    pub accepted_items: u64,
    pub dropped_items: u64,
    pub flushed_batches: u64,
    pub flushed_rows: u64,
    pub completed_files: u64,
    pub completed_file_bytes: u64,
    /// Partitions with buffered rows not yet flushed to disk.
    pub active_partitions: u64,
    /// Items waiting in the background capture queue (pre-worker).
    pub queued_items: u64,
    /// Summed pending bytes across all partition buffers in this runtime.
    pub buffered_bytes: u64,
    pub flush_reasons: FlushReasonMetrics,
}

impl CaptureMetrics {
    /// All counters zero.
    pub open spec fn spec_is_zero(&self) -> bool {
        &&& self.accepted_items == 0
        &&& self.dropped_items == 0
        &&& self.flushed_batches == 0
        &&& self.flushed_rows == 0
        &&& self.completed_files == 0
        &&& self.completed_file_bytes == 0
        &&& self.active_partitions == 0
        &&& self.queued_items == 0
        &&& self.buffered_bytes == 0
        &&& self.flush_reasons.spec_is_zero()
    }

    /// Field-wise sum of `self` and `other`.
    pub open spec fn merged(self, other: Self) -> Self {
        CaptureMetrics {
            accepted_items: wadd(self.accepted_items, other.accepted_items),
            dropped_items: wadd(self.dropped_items, other.dropped_items),
            flushed_batches: wadd(self.flushed_batches, other.flushed_batches),
            flushed_rows: wadd(self.flushed_rows, other.flushed_rows),
            completed_files: wadd(self.completed_files, other.completed_files),
            completed_file_bytes: wadd(self.completed_file_bytes, other.completed_file_bytes),
            active_partitions: wadd(self.active_partitions, other.active_partitions),
            queued_items: wadd(self.queued_items, other.queued_items),
            buffered_bytes: wadd(self.buffered_bytes, other.buffered_bytes),
            flush_reasons: FlushReasonMetrics {
                row_threshold: wadd(
                    self.flush_reasons.row_threshold,
                    other.flush_reasons.row_threshold,
                ),
                byte_threshold: wadd(
                    self.flush_reasons.byte_threshold,
                    other.flush_reasons.byte_threshold,
                ),
                interval: wadd(self.flush_reasons.interval, other.flush_reasons.interval),
                seal: wadd(self.flush_reasons.seal, other.flush_reasons.seal),
                shutdown: wadd(self.flush_reasons.shutdown, other.flush_reasons.shutdown),
                manual: wadd(self.flush_reasons.manual, other.flush_reasons.manual),
                budget: wadd(self.flush_reasons.budget, other.flush_reasons.budget),
            },
        }
    }

    pub fn zero() -> (m: Self)
        ensures
            m.spec_is_zero(),
    {
        CaptureMetrics {
            accepted_items: 0,
            dropped_items: 0,
            flushed_batches: 0,
            flushed_rows: 0,
            completed_files: 0,
            completed_file_bytes: 0,
            active_partitions: 0,
            queued_items: 0,
            buffered_bytes: 0,
            flush_reasons: FlushReasonMetrics::zero(),
        }
    }

    pub fn copy(&self) -> (m: Self)
        ensures
            m == *self,
    {
        CaptureMetrics { flush_reasons: self.flush_reasons.copy(), ..*self }
    }

    /// `completed_file_bytes / completed_files`, 0 when no file completed.
    pub fn average_file_bytes(&self) -> (r: u64)
        ensures
            self.completed_files == 0 ==> r == 0,
            self.completed_files > 0 ==> r == self.completed_file_bytes / self.completed_files,
    {
        if self.completed_files == 0 {
            0
        } else {
            self.completed_file_bytes / self.completed_files
        }
    }

    /// Adds every counter of `other` into `self`.
    pub fn merge(&mut self, other: &Self)
        ensures
            *final(self) == old(self).merged(*other),
    {
        self.accepted_items = self.accepted_items.wrapping_add(other.accepted_items);
        self.dropped_items = self.dropped_items.wrapping_add(other.dropped_items);
        self.flushed_batches = self.flushed_batches.wrapping_add(other.flushed_batches);
        self.flushed_rows = self.flushed_rows.wrapping_add(other.flushed_rows);
        self.completed_files = self.completed_files.wrapping_add(other.completed_files);
        self.completed_file_bytes = self.completed_file_bytes.wrapping_add(
            other.completed_file_bytes,
        );
        self.active_partitions = self.active_partitions.wrapping_add(other.active_partitions);
        self.queued_items = self.queued_items.wrapping_add(other.queued_items);
        self.buffered_bytes = self.buffered_bytes.wrapping_add(other.buffered_bytes);
        self.flush_reasons.row_threshold = self.flush_reasons.row_threshold.wrapping_add(
            other.flush_reasons.row_threshold,
        );
        self.flush_reasons.byte_threshold = self.flush_reasons.byte_threshold.wrapping_add(
            other.flush_reasons.byte_threshold,
        );
        self.flush_reasons.interval = self.flush_reasons.interval.wrapping_add(
            other.flush_reasons.interval,
        );
        self.flush_reasons.seal = self.flush_reasons.seal.wrapping_add(other.flush_reasons.seal);
        self.flush_reasons.shutdown = self.flush_reasons.shutdown.wrapping_add(
            other.flush_reasons.shutdown,
        );
        self.flush_reasons.manual = self.flush_reasons.manual.wrapping_add(
            other.flush_reasons.manual,
        );
        self.flush_reasons.budget = self.flush_reasons.budget.wrapping_add(
            other.flush_reasons.budget,
        );
    }

    /// One-line human summary of the counters.
    pub fn summary_line(&self) -> (s: String)
        ensures
            s@ == summary_text(*self),
    {
        let mut s = String::new();
        push_str(&mut s, "accepted=");
        push_u64(&mut s, self.accepted_items);
        push_str(&mut s, " dropped=");
        push_u64(&mut s, self.dropped_items);
        push_str(&mut s, " flushed_rows=");
        push_u64(&mut s, self.flushed_rows);
        push_str(&mut s, " completed_files=");
        push_u64(&mut s, self.completed_files);
        push_str(&mut s, " completed_bytes=");
        push_u64(&mut s, self.completed_file_bytes);
        push_str(&mut s, " active_partitions=");
        push_u64(&mut s, self.active_partitions);
        push_str(&mut s, " queued_items=");
        push_u64(&mut s, self.queued_items);
        push_str(&mut s, " buffered_bytes=");
        push_u64(&mut s, self.buffered_bytes);
        push_str(&mut s, " flush_reasons={rows:");
        push_u64(&mut s, self.flush_reasons.row_threshold);
        push_str(&mut s, ", bytes:");
        push_u64(&mut s, self.flush_reasons.byte_threshold);
        push_str(&mut s, ", interval:");
        push_u64(&mut s, self.flush_reasons.interval);
        push_str(&mut s, ", seal:");
        push_u64(&mut s, self.flush_reasons.seal);
        push_str(&mut s, ", shutdown:");
        push_u64(&mut s, self.flush_reasons.shutdown);
        push_str(&mut s, ", manual:");
        push_u64(&mut s, self.flush_reasons.manual);
        push_str(&mut s, ", budget:");
        push_u64(&mut s, self.flush_reasons.budget);
        push_str(&mut s, "}");
        assert(s@ =~= summary_text(*self));
        s
    }
}

use crate::text::decimal;

/// The summary line: `accepted=.. dropped=.. ... flush_reasons={rows:.., ...}`.
pub open spec fn summary_text(m: CaptureMetrics) -> Seq<char> {
    "accepted="@ + decimal(m.accepted_items as nat) + " dropped="@ + decimal(
        m.dropped_items as nat,
    ) + " flushed_rows="@ + decimal(m.flushed_rows as nat) + " completed_files="@ + decimal(
        m.completed_files as nat,
    ) + " completed_bytes="@ + decimal(m.completed_file_bytes as nat) + " active_partitions="@
        + decimal(m.active_partitions as nat) + " queued_items="@ + decimal(
        m.queued_items as nat,
    ) + " buffered_bytes="@ + decimal(m.buffered_bytes as nat) + " flush_reasons={rows:"@
        + decimal(m.flush_reasons.row_threshold as nat) + ", bytes:"@ + decimal(
        m.flush_reasons.byte_threshold as nat,
    ) + ", interval:"@ + decimal(m.flush_reasons.interval as nat) + ", seal:"@ + decimal(
        m.flush_reasons.seal as nat,
    ) + ", shutdown:"@ + decimal(m.flush_reasons.shutdown as nat) + ", manual:"@ + decimal(
        m.flush_reasons.manual as nat,
    ) + ", budget:"@ + decimal(m.flush_reasons.budget as nat) + "}"@
}

} // verus!

verus! {

/// `x` reduced modulo `2^64`.
pub open spec fn wrap(x: int) -> u64 {
    (x % 0x1_0000_0000_0000_0000) as u64
}

/// Wrapping addition onto a reduced value is reduction of the plain sum.
pub proof fn lemma_wadd_wrap(a: int, b: u64)
    requires
        a >= 0,
    ensures
        wadd(wrap(a), b) == wrap(a + b),
{
    let m: int = 0x1_0000_0000_0000_0000;
    let x = a % m;
    vstd::arithmetic::div_mod::lemma_add_mod_noop(a, b as int, m);
    assert((b as int) % m == b as int) by {
        vstd::arithmetic::div_mod::lemma_small_mod(b as nat, m as nat);
    }
    assert(0 <= x < m) by {
        vstd::arithmetic::div_mod::lemma_mod_bound(a, m);
    }
    if x + b < m {
        vstd::arithmetic::div_mod::lemma_small_mod((x + b) as nat, m as nat);
    } else {
        vstd::arithmetic::div_mod::lemma_small_mod((x + b - m) as nat, m as nat);
        vstd::arithmetic::div_mod::lemma_mod_sub_multiples_vanish(x + b, m);
    }
}

/// A `u64` is its own reduction.
pub proof fn lemma_wrap_id(a: u64)
    ensures
        wrap(a as int) == a,
{
    vstd::arithmetic::div_mod::lemma_small_mod(a as nat, 0x1_0000_0000_0000_0000nat);
}

} // verus!

verus! {

/// Reducing an intermediate sum does not change the final reduction.
pub proof fn lemma_wrap_add(a: int, b: int)
    requires
        a >= 0,
        b >= 0,
    ensures
        wrap(wrap(a) + b) == wrap(a + b),
{
    let m: int = 0x1_0000_0000_0000_0000;
    vstd::arithmetic::div_mod::lemma_add_mod_noop(a, b, m);
    vstd::arithmetic::div_mod::lemma_add_mod_noop(a % m, b, m);
    vstd::arithmetic::div_mod::lemma_mod_bound(a, m);
    vstd::arithmetic::div_mod::lemma_small_mod((a % m) as nat, m as nat);
}

/// Merging adds every counter of the two sides, modulo `2^64`: no counter of
/// either side is dropped or overwritten.
pub proof fn lemma_merged_adds_every_counter(a: CaptureMetrics, b: CaptureMetrics)
    ensures
        a.merged(b).accepted_items as int == sum_mod_2_64(a.accepted_items, b.accepted_items),
        a.merged(b).dropped_items as int == sum_mod_2_64(a.dropped_items, b.dropped_items),
        a.merged(b).flushed_batches as int == sum_mod_2_64(a.flushed_batches, b.flushed_batches),
        a.merged(b).flushed_rows as int == sum_mod_2_64(a.flushed_rows, b.flushed_rows),
        a.merged(b).completed_files as int == sum_mod_2_64(a.completed_files, b.completed_files),
        a.merged(b).completed_file_bytes as int == sum_mod_2_64(a.completed_file_bytes, b.completed_file_bytes),
        a.merged(b).active_partitions as int == sum_mod_2_64(a.active_partitions, b.active_partitions),
        a.merged(b).queued_items as int == sum_mod_2_64(a.queued_items, b.queued_items),
        a.merged(b).buffered_bytes as int == sum_mod_2_64(a.buffered_bytes, b.buffered_bytes),
        a.merged(b).flush_reasons.row_threshold as int == sum_mod_2_64(a.flush_reasons.row_threshold, b.flush_reasons.row_threshold),
        a.merged(b).flush_reasons.byte_threshold as int == sum_mod_2_64(a.flush_reasons.byte_threshold, b.flush_reasons.byte_threshold),
        a.merged(b).flush_reasons.interval as int == sum_mod_2_64(a.flush_reasons.interval, b.flush_reasons.interval),
        a.merged(b).flush_reasons.seal as int == sum_mod_2_64(a.flush_reasons.seal, b.flush_reasons.seal),
        a.merged(b).flush_reasons.shutdown as int == sum_mod_2_64(a.flush_reasons.shutdown, b.flush_reasons.shutdown),
        a.merged(b).flush_reasons.manual as int == sum_mod_2_64(a.flush_reasons.manual, b.flush_reasons.manual),
        a.merged(b).flush_reasons.budget as int == sum_mod_2_64(a.flush_reasons.budget, b.flush_reasons.budget),
{
}

/// Merging the metrics of families gives the same aggregate whatever the
/// order: merge commutes and associates, and merging into zero gives the
/// other side unchanged.
pub proof fn lemma_merge_order_free(a: CaptureMetrics, b: CaptureMetrics, c: CaptureMetrics, z: CaptureMetrics)
    requires
        z.spec_is_zero(),
    ensures
        a.merged(b) == b.merged(a),
        a.merged(b).merged(c) == a.merged(b.merged(c)),
        z.merged(b) == b,
{
    assert forall|x: u64, y: u64, w: u64| #![trigger wadd(wadd(x, y), w)] wadd(x, y) == wadd(y, x) && wadd(wadd(x, y), w) == wadd(x, wadd(y, w)) && wadd(0, y) == y by {
        lemma_wadd_is_modular(x, y, w);
    }
    assert forall|x: u64, y: u64| #![trigger wadd(x, y)] wadd(x, y) == wadd(y, x) && wadd(0, y) == y by {
        lemma_wadd_is_modular(x, y, 0);
    }
}

} // verus!
