//! Per-family thresholds for memory-to-sink flushes and parquet row-group sizing.
//!
//! Memory flush and row-group size are separate: book summaries leave memory
//! about once per poll, but a row group must hold many polls so a day-long
//! part stays far below the row-group limit.
use vstd::prelude::*;

use crate::config::CaptureConfig;
use crate::row_group_capacity::{CUSTOM_MEMORY_FLUSH_ROWS, CUSTOM_ROW_GROUP_ROWS};

verus! {

/// Capture family, as far as flush thresholds are concerned.
#[derive(Debug, Clone, Copy, PartialEq, Eq)]
pub enum CaptureFlushFamily {
    BookDeltas,
    Trades,
    Quotes,
    MarkPrices,
    IndexPrices,
    FundingRates,
    InstrumentStatus,
    InstrumentClose,
    OptionGreeks,
    Bars,
    /// Request/subscribe custom data (e.g. book summaries).
    CustomData,
    Instruments,
}

/// Configured thresholds below this are smoke/test settings and are kept as they are.
pub const SMOKE_ROW_CEILING: usize = 200;

/// Production memory flush threshold of a family.
pub open spec fn family_flush_rows(family: CaptureFlushFamily, configured: usize) -> usize {
    match family {
        CaptureFlushFamily::BookDeltas => if configured < 20_000 { 20_000 } else if configured > 50_000 { 50_000 } else { configured },
        CaptureFlushFamily::Trades => 2_000,
        CaptureFlushFamily::Quotes => 500,
        CaptureFlushFamily::MarkPrices => 100,
        CaptureFlushFamily::IndexPrices => 100,
        CaptureFlushFamily::FundingRates => 100,
        CaptureFlushFamily::InstrumentStatus => 100,
        CaptureFlushFamily::InstrumentClose => 100,
        CaptureFlushFamily::OptionGreeks => 2_000,
        CaptureFlushFamily::Bars => 500,
        CaptureFlushFamily::CustomData => CUSTOM_MEMORY_FLUSH_ROWS,
        CaptureFlushFamily::Instruments => 50,
    }
}

/// Effective memory-to-sink row threshold of `family` under `base`.
pub open spec fn spec_family_row_threshold(base: CaptureConfig, family: CaptureFlushFamily) -> usize {
    let configured = base.lifecycle.spec_batch_row_threshold(base.flush_rows);
    if configured < SMOKE_ROW_CEILING { configured } else { family_flush_rows(family, configured) }
}

/// Parquet rows per row group of `family` under `base`.
pub open spec fn spec_family_row_group_rows(base: CaptureConfig, family: CaptureFlushFamily) -> usize {
    let flush = spec_family_row_threshold(base, family);
    if flush < SMOKE_ROW_CEILING {
        flush
    } else if family == CaptureFlushFamily::CustomData {
        CUSTOM_ROW_GROUP_ROWS
    } else {
        flush
    }
}

/// Memory-to-sink row threshold of a family: small (smoke) settings are kept,
/// production settings use the family profile.
pub fn family_row_threshold(base: &CaptureConfig, family: CaptureFlushFamily) -> (r: usize)
    ensures
        r == spec_family_row_threshold(*base, family),
        r >= 1,
{
    let configured = base.lifecycle.batch_row_threshold(base.flush_rows);
    if configured < SMOKE_ROW_CEILING {
        return configured;
    }
    match family {
        CaptureFlushFamily::BookDeltas => {
            if configured < 20_000 {
                20_000
            } else if configured > 50_000 {
                50_000
            } else {
                configured
            }
        },
        CaptureFlushFamily::Trades => 2_000,
        CaptureFlushFamily::Quotes => 500,
        CaptureFlushFamily::MarkPrices
        | CaptureFlushFamily::IndexPrices
        | CaptureFlushFamily::FundingRates
        | CaptureFlushFamily::InstrumentStatus
        | CaptureFlushFamily::InstrumentClose => 100,
        CaptureFlushFamily::OptionGreeks => 2_000,
        CaptureFlushFamily::Bars => 500,
        CaptureFlushFamily::CustomData => CUSTOM_MEMORY_FLUSH_ROWS,
        CaptureFlushFamily::Instruments => 50,
    }
}

/// Parquet max rows per row group of a family (segment mode): custom data
/// packs many flushes per group, other families use their flush threshold.
pub fn family_row_group_rows(base: &CaptureConfig, family: CaptureFlushFamily) -> (r: usize)
    ensures
        r == spec_family_row_group_rows(*base, family),
{
    let flush = family_row_threshold(base, family);
    if flush < SMOKE_ROW_CEILING {
        return flush;
    }
    match family {
        CaptureFlushFamily::CustomData => CUSTOM_ROW_GROUP_ROWS,
        _ => flush,
    }
}

/// `base` with the family's flush threshold, and in segment mode its row-group size.
pub fn capture_config_for_family(base: &CaptureConfig, family: CaptureFlushFamily) -> (c: CaptureConfig)
    ensures
        c.flush_rows == spec_family_row_threshold(*base, family),
        base.lifecycle.spec_is_segment_mode() ==> c == (CaptureConfig {
            flush_rows: c.flush_rows,
            lifecycle: crate::config::LifecycleConfig {
                segment: crate::config::SegmentLifecycleConfig {
                    row_group_rows: spec_family_row_group_rows(*base, family),
                },
                ..base.lifecycle
            },
            ..*base
        }),
        !base.lifecycle.spec_is_segment_mode() ==> c == (CaptureConfig { flush_rows: c.flush_rows, ..*base }),
{
    let flush_rows = family_row_threshold(base, family);
    let row_group_rows = family_row_group_rows(base, family);
    let mut config = base.copy();
    config.flush_rows = flush_rows;
    if config.lifecycle.is_segment_mode() {
        config.lifecycle.segment.row_group_rows = row_group_rows;
    }
    config
}

/// The very sparse families (mark prices, index prices, funding rates,
/// instrument status and close) flush at about 100 rows under every
/// production configuration: their threshold is 100 whatever row threshold
/// was configured, once that is not a smoke setting.
pub proof fn lemma_sparse_families_flush_at_100(base: CaptureConfig, family: CaptureFlushFamily)
    requires
        base.lifecycle.spec_batch_row_threshold(base.flush_rows) >= SMOKE_ROW_CEILING,
        family == CaptureFlushFamily::MarkPrices || family == CaptureFlushFamily::IndexPrices
            || family == CaptureFlushFamily::FundingRates || family == CaptureFlushFamily::InstrumentStatus
            || family == CaptureFlushFamily::InstrumentClose,
    ensures
        spec_family_row_threshold(base, family) == 100,
        spec_family_row_group_rows(base, family) == 100,
{
}

/// Under production configurations only the book-delta threshold follows the
/// configured value (held between 20 000 and 50 000); every other family has
/// a threshold of its own that two configurations share. Smoke settings are
/// kept as configured for every family.
pub proof fn lemma_family_thresholds_follow_profile(a: CaptureConfig, b: CaptureConfig, family: CaptureFlushFamily)
    ensures
        a.lifecycle.spec_batch_row_threshold(a.flush_rows) < SMOKE_ROW_CEILING
            ==> spec_family_row_threshold(a, family) == a.lifecycle.spec_batch_row_threshold(a.flush_rows),
        a.lifecycle.spec_batch_row_threshold(a.flush_rows) >= SMOKE_ROW_CEILING
            && b.lifecycle.spec_batch_row_threshold(b.flush_rows) >= SMOKE_ROW_CEILING
            && family != CaptureFlushFamily::BookDeltas
            ==> spec_family_row_threshold(a, family) == spec_family_row_threshold(b, family),
        a.lifecycle.spec_batch_row_threshold(a.flush_rows) >= SMOKE_ROW_CEILING && family == CaptureFlushFamily::BookDeltas
            ==> 20_000 <= spec_family_row_threshold(a, family) <= 50_000
            && (20_000 <= a.lifecycle.spec_batch_row_threshold(a.flush_rows) <= 50_000
                ==> spec_family_row_threshold(a, family) == a.lifecycle.spec_batch_row_threshold(a.flush_rows)),
{
}

/// The production profile: trades and option greeks flush at 2 000 rows,
/// quotes and bars at 500, instrument definitions at 50 and custom data once
/// per poll; custom data packs `CUSTOM_ROW_GROUP_ROWS` rows per row group while
/// every other family's row group is its flush threshold.
pub proof fn lemma_production_profile(base: CaptureConfig, family: CaptureFlushFamily)
    requires
        base.lifecycle.spec_batch_row_threshold(base.flush_rows) >= SMOKE_ROW_CEILING,
    ensures
        family == CaptureFlushFamily::Trades || family == CaptureFlushFamily::OptionGreeks
            ==> spec_family_row_threshold(base, family) == 2_000,
        family == CaptureFlushFamily::Quotes || family == CaptureFlushFamily::Bars
            ==> spec_family_row_threshold(base, family) == 500,
        family == CaptureFlushFamily::Instruments ==> spec_family_row_threshold(base, family) == 50,
        family == CaptureFlushFamily::CustomData ==> spec_family_row_threshold(base, family) == CUSTOM_MEMORY_FLUSH_ROWS
            && spec_family_row_group_rows(base, family) == CUSTOM_ROW_GROUP_ROWS,
        family != CaptureFlushFamily::CustomData ==> spec_family_row_group_rows(base, family)
            == spec_family_row_threshold(base, family),
{
}

} // verus!
