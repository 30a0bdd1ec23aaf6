//! Parquet row-group capacity model for long-lived segment parts.
//!
//! A parquet file holds at most 32 767 row groups (the ordinal is an `i16`).
//! An open part must survive one seal window (one day by default) at the
//! observed book-summary poll load (~830 rows/s), so custom data packs many
//! memory flushes into one row group.
use vstd::prelude::*;

verus! {

/// Parquet hard limit on row groups per file (`i16::MAX`).
pub const PARQUET_MAX_ROW_GROUPS: usize = 32_767;

/// Soft seal-and-reopen threshold for an open part: the hard limit minus a
/// fixed headroom of 2 767 row groups.
pub const ROW_GROUP_ROLL_THRESHOLD: usize = PARQUET_MAX_ROW_GROUPS - 2_767;

/// Observed book-summary load in rows per second.
pub const CLOUD_BOOK_SUMMARY_ROWS_PER_SEC: u64 = 830;

/// Upper end of one book-summary poll in rows.
pub const CLOUD_BOOK_SUMMARY_POLL_ROWS: usize = 1_000;

/// Default wall-clock seal interval in seconds.
pub const DEFAULT_SEAL_INTERVAL_SECS: u64 = 86_400;

/// Parquet rows per row group for custom data.
pub const CUSTOM_ROW_GROUP_ROWS: usize = 50_000;

/// Memory flush threshold for custom data: one poll.
pub const CUSTOM_MEMORY_FLUSH_ROWS: usize = CLOUD_BOOK_SUMMARY_POLL_ROWS;

/// `a * b`, capped at `u64::MAX`.
pub open spec fn sat_mul(a: u64, b: u64) -> u64 {
    if a * b > u64::MAX { u64::MAX } else { (a * b) as u64 }
}

/// `a + b`, capped at `u64::MAX`.
pub open spec fn sat_add(a: u64, b: u64) -> u64 {
    if a + b > u64::MAX { u64::MAX } else { (a + b) as u64 }
}

/// Ceiling of `rows / per_group` with the saturating integer arithmetic used for sizing.
pub open spec fn groups_for(rows: u64, per_group: u64) -> u64
    recommends
        per_group >= 1,
{
    (sat_add(rows, (per_group - 1) as u64) / per_group) as u64
}

/// `a * b` capped at `u64::MAX` (`u64::saturating_mul`).
pub fn saturating_mul_u64(a: u64, b: u64) -> (r: u64)
    ensures
        r == sat_mul(a, b),
{
    if a == 0 {
        assert(a * b == 0) by (nonlinear_arith)
            requires
                a == 0,
        ;
        return 0;
    }
    let q = u64::MAX / a;
    if b > q {
        assert(a * b > u64::MAX) by (nonlinear_arith)
            requires
                a > 0,
                b > q,
                q == u64::MAX / a,
        ;
        u64::MAX
    } else {
        assert(a * b <= u64::MAX) by (nonlinear_arith)
            requires
                a > 0,
                b <= q,
                q == u64::MAX / a,
        ;
        a * b
    }
}

/// Row groups written over `duration_secs` at `rows_per_sec`, when every
/// group fills to `row_group_rows` (0 counts as 1).
pub fn estimated_row_groups(rows_per_sec: u64, row_group_rows: usize, duration_secs: u64) -> (r: u64)
    ensures
        r == groups_for(
            sat_mul(rows_per_sec, duration_secs),
            if row_group_rows == 0 { 1 } else { row_group_rows as u64 },
        ),
        rows_per_sec * duration_secs <= u64::MAX - row_group_rows ==> r * (if row_group_rows == 0 { 1 } else { row_group_rows as int })
            >= rows_per_sec * duration_secs,
{
    let rg: u64 = if row_group_rows == 0 { 1 } else { row_group_rows as u64 };
    let rows = saturating_mul_u64(rows_per_sec, duration_secs);
    let r = rows.saturating_add(rg - 1) / rg;
    proof {
        if rows_per_sec * duration_secs <= u64::MAX - row_group_rows {
            assert(rows == rows_per_sec * duration_secs);
            let t = (rows + rg - 1) as int;
            assert(t / (rg as int) * (rg as int) + t % (rg as int) == t) by {
                vstd::arithmetic::div_mod::lemma_fundamental_div_mod(t, rg as int);
            }
            assert(t % (rg as int) < rg) by {
                vstd::arithmetic::div_mod::lemma_mod_bound(t, rg as int);
            }
            assert(r as int == t / (rg as int));
        }
    }
    r
}

/// Smallest row-group size keeping one seal window at or below
/// `max_day_row_groups` (0 counts as 1) at `rows_per_sec`.
pub fn min_row_group_rows_for_day(rows_per_sec: u64, seal_interval_secs: u64, max_day_row_groups: u64) -> (r: u64)
    ensures
        r == groups_for(
            sat_mul(rows_per_sec, seal_interval_secs),
            if max_day_row_groups == 0 { 1 } else { max_day_row_groups },
        ),
{
    let max_rg: u64 = if max_day_row_groups == 0 { 1 } else { max_day_row_groups };
    let rows = saturating_mul_u64(rows_per_sec, seal_interval_secs);
    rows.saturating_add(max_rg - 1) / max_rg
}

} // verus!
