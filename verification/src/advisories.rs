//! Operator-facing advisories: warnings that do not fail validation.
use vstd::prelude::*;

use crate::config::CaptureConfig;
use crate::plan::CapturePlan;

verus! {

/// Advisory shown when custom data runs under the chunked lifecycle, which is meant for
/// short smoke runs only.
pub const CHUNKED_CUSTOM_DATA_ADVISORY: &'static str = "chunked custom data is for smoke / short validation only — not production capture.\nCustom streams (subscribe or request, e.g. DeribitBookSummary) with output.lifecycle.mode = \"chunked\" write a new catalog parquet on each flush and can explode file counts under 1s polling.\nProduction default is segment (append *.parquet.part + seal). To keep using chunked intentionally for smoke, leave mode = \"chunked\"; otherwise remove the override or set:\n[output.lifecycle]\nmode = \"segment\"\n# seal defaults: enabled, 06:00 UTC daily — see docs/concepts/segment_lifecycle.md";

/// Non-fatal advisories for a configuration and plan: the chunked-lifecycle advisory when
/// the plan needs a custom data writer and the lifecycle is not segment mode.
pub fn capture_advisories(config: &CaptureConfig, plan: &CapturePlan) -> (out: Vec<String>)
    ensures
        out@.len() == (if !config.lifecycle.spec_is_segment_mode()
            && (plan.custom_data@.len() > 0 || plan.custom_data_requests@.len() > 0) { 1int } else { 0int }),
        out@.len() == 1 ==> out@[0]@ == CHUNKED_CUSTOM_DATA_ADVISORY@,
{
    let mut out: Vec<String> = Vec::new();
    if !config.lifecycle.is_segment_mode() && plan.family_runtime_flags().needs_custom_data_writer() {
        out.push(String::from_str(CHUNKED_CUSTOM_DATA_ADVISORY));
    }
    out
}

} // verus!
