//! Catalog readback checks of a captured option universe: the options of a check, the
//! counts it reports and the row-count rules it applies.
use vstd::prelude::*;

use crate::error::CaptureError;
use crate::text::{decimal, push_str, push_u64};

verus! {

/// Default option sample size for `all` strike readback checks.
pub const ALL_STRIKES_READBACK_SAMPLE_LIMIT: usize = 6;

/// What a readback check reads and how many rows it expects.
#[derive(Debug, Clone)]
pub struct OptionUniverseReadbackOptions {
    pub perp_instrument_id: String,
    pub option_instrument_ids: Vec<String>,
    pub min_rows: i64,
    pub min_perp_trade_rows: i64,
    pub require_contract_state: bool,
    pub bar_types: Vec<String>,
}

/// Rows read back for one instrument.
#[derive(Debug, Clone, PartialEq, Eq)]
pub struct InstrumentReadbackCounts {
    pub instrument_id: String,
    pub quotes: usize,
    pub mark_prices: usize,
    pub index_prices: usize,
    pub trade_ticks: usize,
    pub option_greeks: usize,
    pub instrument_statuses: usize,
    pub instrument_closes: usize,
}

/// Rows read back for the whole universe.
#[derive(Debug, Clone, PartialEq, Eq)]
pub struct OptionUniverseReadbackReport {
    pub perp: InstrumentReadbackCounts,
    pub funding_rows: usize,
    pub bars: Vec<BarReadbackCount>,
    pub options: Vec<InstrumentReadbackCounts>,
}

/// Rows read back for one bar type.
#[derive(Debug, Clone, PartialEq, Eq)]
pub struct BarReadbackCount {
    pub bar_type: String,
    pub rows: usize,
}

/// Checks the options before any read: a positive row minimum, a non-negative perpetual
/// trade minimum, and at least one option; the first failing rule names the error.
pub fn validate_readback_options(options: &OptionUniverseReadbackOptions) -> (r: Result<(), CaptureError>)
    ensures
        r is Ok <==> (options.min_rows > 0 && options.min_perp_trade_rows >= 0 && options.option_instrument_ids@.len() > 0),
        options.min_rows <= 0 ==> (r matches Err(e) && e.message@ == "min_rows must be positive"@),
        options.min_rows > 0 && options.min_perp_trade_rows < 0 ==> (r matches Err(e)
            && e.message@ == "min_perp_trade_rows must be >= 0"@),
        options.min_rows > 0 && options.min_perp_trade_rows >= 0 && options.option_instrument_ids@.len() == 0
            ==> (r matches Err(e) && e.message@ == "at least one option instrument id is required"@),
{
    if options.min_rows <= 0 {
        return Err(CaptureError::from_str("min_rows must be positive"));
    }
    if options.min_perp_trade_rows < 0 {
        return Err(CaptureError::from_str("min_perp_trade_rows must be >= 0"));
    }
    if options.option_instrument_ids.len() == 0 {
        return Err(CaptureError::from_str("at least one option instrument id is required"));
    }
    Ok(())
}

/// Message for too few rows.
pub open spec fn min_rows_message(label: Seq<char>, min_rows: i64, rows: usize) -> Seq<char> {
    label + " expected at least "@ + decimal(min_rows as nat) + " rows, got "@ + decimal(rows as nat)
}

/// Requires at least `min_rows` (positive) rows.
pub fn check_min_rows(rows: usize, min_rows: i64, label: &str) -> (r: Result<(), CaptureError>)
    requires
        min_rows > 0,
    ensures
        r is Ok <==> rows >= min_rows,
        r matches Err(e) ==> e.message@ == min_rows_message(label@, min_rows, rows),
{
    if (rows as u64) < (min_rows as u64) {
        let mut message = String::new();
        push_str(&mut message, label);
        push_str(&mut message, " expected at least ");
        push_u64(&mut message, min_rows as u64);
        push_str(&mut message, " rows, got ");
        push_u64(&mut message, rows as u64);
        assert(message@ =~= min_rows_message(label@, min_rows, rows));
        return Err(CaptureError::new(message));
    }
    Ok(())
}

/// Message for missing contract-state rows of one kind.
pub open spec fn missing_state_message(kind: Seq<char>, instrument_id: Seq<char>) -> Seq<char> {
    "expected "@ + kind + " rows for "@ + instrument_id
}

/// When contract state is required, both status and close rows must exist (statuses are
/// checked first).
pub fn check_contract_state(statuses: usize, closes: usize, require: bool, instrument_id: &str) -> (r: Result<(), CaptureError>)
    ensures
        r is Ok <==> (!require || (statuses > 0 && closes > 0)),
        require && statuses == 0 ==> (r matches Err(e) && e.message@ == missing_state_message("instrument_status"@, instrument_id@)),
        require && statuses > 0 && closes == 0 ==> (r matches Err(e)
            && e.message@ == missing_state_message("instrument_closes"@, instrument_id@)),
{
    if require {
        if statuses == 0 {
            let mut message = String::new();
            push_str(&mut message, "expected ");
            push_str(&mut message, "instrument_status");
            push_str(&mut message, " rows for ");
            push_str(&mut message, instrument_id);
            assert(message@ =~= missing_state_message("instrument_status"@, instrument_id@));
            return Err(CaptureError::new(message));
        }
        if closes == 0 {
            let mut message = String::new();
            push_str(&mut message, "expected ");
            push_str(&mut message, "instrument_closes");
            push_str(&mut message, " rows for ");
            push_str(&mut message, instrument_id);
            assert(message@ =~= missing_state_message("instrument_closes"@, instrument_id@));
            return Err(CaptureError::new(message));
        }
    }
    Ok(())
}

} // verus!
