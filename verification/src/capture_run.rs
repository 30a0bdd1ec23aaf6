//! Startup capture-run metadata record.
use vstd::prelude::*;

use crate::plan::CapturePlan;

verus! {

/// Schema version of the capture-run record.
pub const CAPTURE_RUN_SCHEMA_VERSION: u32 = 1;

/// A venue configured for the run.
#[derive(Debug, Clone, PartialEq, Eq)]
pub struct CaptureRunVenueRecord {
    pub id: String,
    pub kind: String,
}

/// Entry counts of the capture plan.
#[derive(Debug, Clone, Default, PartialEq, Eq)]
pub struct CaptureRunPlanSummary {
    pub instruments: usize,
    pub quotes: usize,
    pub trades: usize,
    pub bars: usize,
    pub book_deltas: usize,
    pub mark_prices: usize,
    pub index_prices: usize,
    pub funding_rates: usize,
    pub option_greeks: usize,
    pub custom_data: usize,
    pub custom_data_requests: usize,
}

impl CaptureRunPlanSummary {
    /// Counts of each summarised family of `plan`.
    pub fn from_plan(plan: &CapturePlan) -> (s: Self)
        ensures
            s.instruments == plan.instruments@.len(),
            s.quotes == plan.quotes@.len(),
            s.trades == plan.trades@.len(),
            s.bars == plan.bars@.len(),
            s.book_deltas == plan.book_deltas@.len(),
            s.mark_prices == plan.mark_prices@.len(),
            s.index_prices == plan.index_prices@.len(),
            s.funding_rates == plan.funding_rates@.len(),
            s.option_greeks == plan.option_greeks@.len(),
            s.custom_data == plan.custom_data@.len(),
            s.custom_data_requests == plan.custom_data_requests@.len(),
    {
        CaptureRunPlanSummary {
            instruments: plan.instruments.len(),
            quotes: plan.quotes.len(),
            trades: plan.trades.len(),
            bars: plan.bars.len(),
            book_deltas: plan.book_deltas.len(),
            mark_prices: plan.mark_prices.len(),
            index_prices: plan.index_prices.len(),
            funding_rates: plan.funding_rates.len(),
            option_greeks: plan.option_greeks.len(),
            custom_data: plan.custom_data.len(),
            custom_data_requests: plan.custom_data_requests.len(),
        }
    }
}

/// Metadata written once when a capture process starts.
#[derive(Debug, Clone, PartialEq, Eq)]
pub struct CaptureRunRecord {
    pub schema_version: u32,
    pub written_at_unix_ms: u64,
    pub node_name: String,
    pub catalog_uri: String,
    pub layout_compatibility: String,
    pub capture_seconds: u64,
    pub venues: Vec<CaptureRunVenueRecord>,
    pub plan: CaptureRunPlanSummary,
    pub option_universe_count: usize,
    pub hip4_universe_count: usize,
    /// Optional source pin for reproducibility.
    pub nautilus_trader_ref: Option<String>,
    /// Venue features compiled into the binary.
    pub cli_venue_features: Vec<String>,
}

/// Inputs of a [`CaptureRunRecord`].
#[derive(Debug, Clone)]
pub struct CaptureRunInput<'a> {
    pub node_name: String,
    pub catalog_uri: String,
    pub layout_compatibility: String,
    pub capture_seconds: u64,
    pub venues: Vec<CaptureRunVenueRecord>,
    pub plan: &'a CapturePlan,
    pub option_universe_count: usize,
    pub hip4_universe_count: usize,
    pub nautilus_trader_ref: Option<String>,
    pub cli_venue_features: Vec<String>,
}

/// The record for a run started at `written_at_unix_ms`: the inputs as given, the plan
/// summarised, and the current schema version.
pub fn new_capture_run_record(input: CaptureRunInput<'_>, written_at_unix_ms: u64) -> (r: CaptureRunRecord)
    ensures
        r.schema_version == CAPTURE_RUN_SCHEMA_VERSION,
        r.written_at_unix_ms == written_at_unix_ms,
        r.node_name == input.node_name,
        r.catalog_uri == input.catalog_uri,
        r.layout_compatibility == input.layout_compatibility,
        r.capture_seconds == input.capture_seconds,
        r.venues == input.venues,
        r.plan.instruments == input.plan.instruments@.len(),
        r.plan.quotes == input.plan.quotes@.len(),
        r.plan.trades == input.plan.trades@.len(),
        r.plan.bars == input.plan.bars@.len(),
        r.plan.book_deltas == input.plan.book_deltas@.len(),
        r.plan.mark_prices == input.plan.mark_prices@.len(),
        r.plan.index_prices == input.plan.index_prices@.len(),
        r.plan.funding_rates == input.plan.funding_rates@.len(),
        r.plan.option_greeks == input.plan.option_greeks@.len(),
        r.plan.custom_data == input.plan.custom_data@.len(),
        r.plan.custom_data_requests == input.plan.custom_data_requests@.len(),
        r.option_universe_count == input.option_universe_count,
        r.hip4_universe_count == input.hip4_universe_count,
        r.nautilus_trader_ref == input.nautilus_trader_ref,
        r.cli_venue_features == input.cli_venue_features,
{
    let plan = CaptureRunPlanSummary::from_plan(input.plan);
    CaptureRunRecord {
        schema_version: CAPTURE_RUN_SCHEMA_VERSION,
        written_at_unix_ms,
        node_name: input.node_name,
        catalog_uri: input.catalog_uri,
        layout_compatibility: input.layout_compatibility,
        capture_seconds: input.capture_seconds,
        venues: input.venues,
        plan,
        option_universe_count: input.option_universe_count,
        hip4_universe_count: input.hip4_universe_count,
        nautilus_trader_ref: input.nautilus_trader_ref,
        cli_venue_features: input.cli_venue_features,
    }
}

} // verus!
