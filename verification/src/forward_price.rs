//! Forward price log records.
use vstd::prelude::*;

use crate::plan::{id_text, InstrumentId};

verus! {

/// Rendering of a decimal by its `Display` implementation.
pub uninterp spec fn decimal_display(d: rust_decimal::Decimal) -> Seq<char>;

/// `Decimal::to_string` (its `Display` rendering).
#[verifier::external_body]
fn decimal_to_string(d: &rust_decimal::Decimal) -> (s: String)
    ensures
        s@ == decimal_display(*d),
{
    d.to_string()
}

/// One line of the forward price log.
#[derive(Debug, Clone, PartialEq, Eq)]
pub struct ForwardPriceRecord {
    pub instrument_id: String,
    pub forward_price: String,
    pub underlying_index: Option<String>,
    pub ts_event_ns: u64,
    pub ts_init_ns: u64,
    pub source: String,
}

/// The record of a forward price observed for `instrument_id`, tagged with its `source`.
pub fn forward_price_record(
    instrument_id: &InstrumentId,
    forward_price: &rust_decimal::Decimal,
    underlying_index: Option<String>,
    ts_event_ns: u64,
    ts_init_ns: u64,
    source: &str,
) -> (r: ForwardPriceRecord)
    ensures
        r.instrument_id@ == id_text(instrument_id@),
        r.forward_price@ == decimal_display(*forward_price),
        r.underlying_index == underlying_index,
        r.ts_event_ns == ts_event_ns,
        r.ts_init_ns == ts_init_ns,
        r.source@ == source@,
{
    ForwardPriceRecord {
        instrument_id: instrument_id.to_string(),
        forward_price: decimal_to_string(forward_price),
        underlying_index,
        ts_event_ns,
        ts_init_ns,
        source: String::from_str(source),
    }
}

} // verus!
