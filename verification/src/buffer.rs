//! Per-partition row buffer.
use vstd::prelude::*;

use crate::metrics::FlushReason;

verus! {

/// Rows of one partition awaiting a flush, with counters and event-time bounds.
#[derive(Debug)]
pub struct PartitionBuffer<T> {
    pub items: Vec<T>,
    pub pending_rows: usize,
    pub pending_bytes: usize,
    pub min_ts_ns: Option<u64>,
    pub max_ts_ns: Option<u64>,
}

/// `Some(min(cur, ts))`, or `Some(ts)` when there is no bound yet.
pub open spec fn lower_bound(cur: Option<u64>, ts: u64) -> Option<u64> {
    match cur {
        Some(v) => Some(if ts < v { ts } else { v }),
        None => Some(ts),
    }
}

/// `Some(max(cur, ts))`, or `Some(ts)` when there is no bound yet.
pub open spec fn upper_bound(cur: Option<u64>, ts: u64) -> Option<u64> {
    match cur {
        Some(v) => Some(if ts > v { ts } else { v }),
        None => Some(ts),
    }
}

/// Flush decision of a buffer: rows first, then bytes.
pub open spec fn flush_reason_for(
    pending_rows: usize,
    pending_bytes: usize,
    flush_rows: usize,
    max_buffer_bytes: usize,
) -> Option<FlushReason> {
    if pending_rows >= flush_rows {
        Some(FlushReason::Rows)
    } else if pending_bytes >= max_buffer_bytes {
        Some(FlushReason::Bytes)
    } else {
        None
    }
}

impl<T> PartitionBuffer<T> {
    /// An empty buffer.
    pub open spec fn spec_is_empty(&self) -> bool {
        &&& self.items@.len() == 0
        &&& self.pending_rows == 0
        &&& self.pending_bytes == 0
        &&& self.min_ts_ns is None
        &&& self.max_ts_ns is None
    }

    /// Counters agree with the rows held: one pending row per item, and the
    /// time bounds are present exactly when rows are.
    pub open spec fn wf(&self) -> bool {
        &&& self.pending_rows == self.items@.len()
        &&& (self.items@.len() == 0 ==> self.pending_bytes == 0 && self.min_ts_ns is None
            && self.max_ts_ns is None)
        &&& (self.items@.len() > 0 ==> self.min_ts_ns is Some && self.max_ts_ns is Some)
    }

    pub fn new() -> (b: Self)
        ensures
            b.spec_is_empty(),
            b.wf(),
    {
        PartitionBuffer {
            items: Vec::new(),
            pending_rows: 0,
            pending_bytes: 0,
            min_ts_ns: None,
            max_ts_ns: None,
        }
    }

    /// Appends one row and updates the counters and time bounds.
    pub fn push(&mut self, item: T, event_ts_ns: u64, estimated_bytes: usize)
        requires
            old(self).pending_rows < usize::MAX,
            old(self).pending_bytes + estimated_bytes <= usize::MAX,
        ensures
            final(self).items@ == old(self).items@.push(item),
            final(self).pending_rows == old(self).pending_rows + 1,
            final(self).pending_bytes == old(self).pending_bytes + estimated_bytes,
            final(self).min_ts_ns == lower_bound(old(self).min_ts_ns, event_ts_ns),
            final(self).max_ts_ns == upper_bound(old(self).max_ts_ns, event_ts_ns),
            old(self).wf() ==> final(self).wf(),
    {
        self.pending_rows = self.pending_rows + 1;
        self.pending_bytes = self.pending_bytes + estimated_bytes;
        self.min_ts_ns = match self.min_ts_ns {
            Some(v) => Some(if event_ts_ns < v { event_ts_ns } else { v }),
            None => Some(event_ts_ns),
        };
        self.max_ts_ns = match self.max_ts_ns {
            Some(v) => Some(if event_ts_ns > v { event_ts_ns } else { v }),
            None => Some(event_ts_ns),
        };
        self.items.push(item);
    }

    /// `Rows` when `pending_rows >= flush_rows`, else `Bytes` when
    /// `pending_bytes >= max_buffer_bytes`, else nothing.
    pub fn should_flush_reason(&self, flush_rows: usize, max_buffer_bytes: usize) -> (r: Option<
        FlushReason,
    >)
        ensures
            r == flush_reason_for(self.pending_rows, self.pending_bytes, flush_rows, max_buffer_bytes),
    {
        if self.pending_rows >= flush_rows {
            Some(FlushReason::Rows)
        } else if self.pending_bytes >= max_buffer_bytes {
            Some(FlushReason::Bytes)
        } else {
            None
        }
    }

    /// Moves the buffered rows out, leaving an empty buffer behind.
    pub fn take(&mut self) -> (taken: Self)
        ensures
            taken == *old(self),
            final(self).spec_is_empty(),
            final(self).wf(),
    {
        let mut empty = PartitionBuffer::new();
        std::mem::swap(self, &mut empty);
        empty
    }
}

impl<T> Default for PartitionBuffer<T> {
    fn default() -> (b: Self)
        ensures
            b.spec_is_empty(),
    {
        PartitionBuffer::new()
    }
}

} // verus!
