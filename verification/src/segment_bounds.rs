//! Bookkeeping of catalog part files: the timestamp interval a file is named
//! after, the range of timestamps a part holds, custom-data partition keys and
//! when an open part is synced.
use vstd::prelude::*;

use crate::error::CaptureError;
use crate::text::push_str;

verus! {

/// The file interval for a batch spanning `data_start..=data_end` written after
/// a file ending at `last_end`: it starts after that end and never ends before
/// it starts.
pub open spec fn spec_disjoint_file_interval(last_end: Option<u64>, data_start: u64, data_end: u64) -> (u64, u64) {
    let end0 = if data_end >= data_start { data_end } else { data_start };
    match last_end {
        Some(prev_end) => {
            let start = if data_start <= prev_end { if prev_end == u64::MAX { u64::MAX } else { (prev_end + 1) as u64 } } else { data_start };
            (start, if end0 < start { start } else { end0 })
        },
        None => (data_start, end0),
    }
}

pub fn disjoint_file_interval(last_end: Option<u64>, data_start: u64, data_end: u64) -> (r: (u64, u64))
    ensures
        r == spec_disjoint_file_interval(last_end, data_start, data_end),
        r.0 <= r.1,
        last_end matches Some(e) ==> (e < u64::MAX ==> r.0 > e),
        r.0 >= data_start,
        r.1 >= data_end,
{
    let mut start = data_start;
    let mut end = if data_end >= data_start { data_end } else { data_start };
    match last_end {
        Some(prev_end) => {
            if start <= prev_end {
                start = prev_end.saturating_add(1);
            }
            if end < start {
                end = start;
            }
        },
        None => {},
    }
    (start, end)
}

/// Widens the bounds of a part by a batch spanning `lo..=hi`; a lower bound of 0
/// means the part holds nothing yet.
pub fn update_ts_bounds(min_ts_ns: &mut u64, max_ts_ns: &mut u64, lo: u64, hi: u64)
    ensures
        *final(min_ts_ns) == if *old(min_ts_ns) == 0 { lo } else if *old(min_ts_ns) <= lo { *old(min_ts_ns) } else { lo },
        *final(max_ts_ns) == if *old(max_ts_ns) >= hi { *old(max_ts_ns) } else { hi },
{
    if *min_ts_ns == 0 {
        *min_ts_ns = lo;
    } else if lo < *min_ts_ns {
        *min_ts_ns = lo;
    }
    if hi > *max_ts_ns {
        *max_ts_ns = hi;
    }
}

/// Smallest and largest of a non-empty run of timestamps.
pub open spec fn seq_min(s: Seq<u64>) -> u64
    decreases s.len(),
{
    if s.len() <= 1 { s[0] } else { let m = seq_min(s.drop_last()); if s.last() < m { s.last() } else { m } }
}

pub open spec fn seq_max(s: Seq<u64>) -> u64
    decreases s.len(),
{
    if s.len() <= 1 { s[0] } else { let m = seq_max(s.drop_last()); if s.last() > m { s.last() } else { m } }
}

/// Timestamp range of a custom-data batch; an empty batch has none.
pub fn custom_data_ts_range(ts_init: &Vec<u64>) -> (r: Result<(u64, u64), CaptureError>)
    ensures
        ts_init@.len() == 0 <==> r is Err,
        r matches Err(e) ==> e.message@ == "cannot derive timestamp range from empty custom-data batch"@,
        r matches Ok(p) ==> p == (seq_min(ts_init@), seq_max(ts_init@)),
{
    if ts_init.len() == 0 {
        return Err(CaptureError::from_str("cannot derive timestamp range from empty custom-data batch"));
    }
    let mut lo = ts_init[0];
    let mut hi = ts_init[0];
    let mut i: usize = 1;
    while i < ts_init.len()
        invariant
            1 <= i <= ts_init@.len(),
            lo == seq_min(ts_init@.take(i as int)),
            hi == seq_max(ts_init@.take(i as int)),
        decreases ts_init@.len() - i,
    {
        proof {
            let t = ts_init@.take(i as int + 1);
            assert(t.drop_last() =~= ts_init@.take(i as int));
        }
        let ts = ts_init[i];
        if ts < lo {
            lo = ts;
        }
        if ts > hi {
            hi = ts;
        }
        i = i + 1;
    }
    assert(ts_init@.take(ts_init@.len() as int) =~= ts_init@);
    Ok((lo, hi))
}

/// Partition key of custom data: `{type}/{identifier}`, or the type alone.
pub open spec fn spec_custom_partition_key(type_label: Seq<char>, identifier: Option<Seq<char>>) -> Seq<char> {
    match identifier {
        Some(id) => type_label + "/"@ + id,
        None => type_label,
    }
}

pub fn custom_partition_key(type_label: &str, identifier: Option<&str>) -> (r: String)
    ensures
        r@ == spec_custom_partition_key(type_label@, match identifier { Some(s) => Some(s@), None => None }),
{
    let mut key = String::new();
    push_str(&mut key, type_label);
    match identifier {
        Some(id) => {
            push_str(&mut key, "/");
            push_str(&mut key, id);
        },
        None => {},
    }
    key
}

/// An open part is synced once `sync_interval_ns` (when non-zero) has elapsed
/// since its last sync.
pub fn sync_due(sync_interval_ns: u64, now_ns: u64, last_sync_ns: u64) -> (r: bool)
    ensures
        r == (sync_interval_ns > 0 && (if now_ns >= last_sync_ns { now_ns - last_sync_ns } else { 0 }) >= sync_interval_ns),
{
    sync_interval_ns > 0 && now_ns.saturating_sub(last_sync_ns) >= sync_interval_ns
}

} // verus!
