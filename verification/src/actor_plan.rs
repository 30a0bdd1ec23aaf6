//! What the capture actor captures when dynamic universes are configured,
//! which request client serves a custom data type, and the metrics snapshot
//! it publishes.
use vstd::prelude::*;

use crate::dynamic_hip4_universe::{DynamicHip4UniverseConfig, DynamicHip4UniverseManager};
use crate::dynamic_option_universe::{DynamicOptionUniverseConfig, DynamicOptionUniverseManager};
use crate::dynamic_plan::{is_plan_difference, is_plan_merge, merge_active_capture_plan};
use crate::metrics::CaptureMetrics;
use crate::custom_data_requests::CustomDataRequestJob;
use crate::metrics_export::{CaptureMetricsSnapshot, CustomDataRequestJobMetrics, FamilyCaptureMetrics};
use crate::plan::{capture_plan_difference, merge_capture_plans, views, CapturePlan, DataType};
use crate::text::str_eq;

verus! {

/// Streams of the materialized plan that no dynamic manager covers: with
/// exactly one manager configured, the initial plan minus that manager's
/// initial active plan; otherwise nothing.
pub fn supplemental_capture_plan(
    initial_materialized_plan: &CapturePlan,
    dynamic_option_universe: &Option<DynamicOptionUniverseConfig>,
    dynamic_hip4_universe: &Option<DynamicHip4UniverseConfig>,
) -> (p: CapturePlan)
    ensures
        (dynamic_option_universe is Some) == (dynamic_hip4_universe is Some) ==> p.spec_is_empty(),
        dynamic_option_universe matches Some(o) ==> dynamic_hip4_universe is None ==> exists|active: CapturePlan|
            is_plan_merge(active, o.static_plan, o.initial_dynamic_plan) && is_plan_difference(p, *initial_materialized_plan, active),
        dynamic_hip4_universe matches Some(h) ==> dynamic_option_universe is None ==> exists|active: CapturePlan|
            is_plan_merge(active, h.static_plan, h.initial_dynamic_plan) && is_plan_difference(p, *initial_materialized_plan, active),
{
    match (dynamic_option_universe, dynamic_hip4_universe) {
        (Some(option), None) => {
            let active = merge_active_capture_plan(&option.static_plan, &option.initial_dynamic_plan);
            let p = capture_plan_difference(initial_materialized_plan, &active);
            assert(is_plan_merge(active, option.static_plan, option.initial_dynamic_plan)
                && is_plan_difference(p, *initial_materialized_plan, active));
            p
        },
        (None, Some(hip4)) => {
            let active = merge_active_capture_plan(&hip4.static_plan, &hip4.initial_dynamic_plan);
            let p = capture_plan_difference(initial_materialized_plan, &active);
            assert(is_plan_merge(active, hip4.static_plan, hip4.initial_dynamic_plan)
                && is_plan_difference(p, *initial_materialized_plan, active));
            p
        },
        _ => CapturePlan::empty(),
    }
}

/// The plan captured now: the materialized plan without managers; with both
/// managers, the option manager's active plan merged with the HIP-4 one; with
/// one manager, its active plan merged with the supplemental plan.
pub fn effective_capture_plan(
    initial_materialized_plan: &CapturePlan,
    supplemental_plan: &CapturePlan,
    dynamic_option_universe: Option<&DynamicOptionUniverseManager>,
    dynamic_hip4_universe: Option<&DynamicHip4UniverseManager>,
) -> (p: CapturePlan)
    ensures
        dynamic_option_universe is None && dynamic_hip4_universe is None ==> {
            &&& views(p.instruments@) == views(initial_materialized_plan.instruments@)
            &&& views(p.quotes@) == views(initial_materialized_plan.quotes@)
            &&& views(p.trades@) == views(initial_materialized_plan.trades@)
            &&& views(p.bars@) == views(initial_materialized_plan.bars@)
            &&& views(p.book_deltas@) == views(initial_materialized_plan.book_deltas@)
            &&& views(p.mark_prices@) == views(initial_materialized_plan.mark_prices@)
            &&& views(p.index_prices@) == views(initial_materialized_plan.index_prices@)
            &&& views(p.funding_rates@) == views(initial_materialized_plan.funding_rates@)
            &&& views(p.instrument_statuses@) == views(initial_materialized_plan.instrument_statuses@)
            &&& views(p.instrument_closes@) == views(initial_materialized_plan.instrument_closes@)
            &&& views(p.option_greeks@) == views(initial_materialized_plan.option_greeks@)
            &&& views(p.forward_prices@) == views(initial_materialized_plan.forward_prices@)
            &&& views(p.custom_data@) == views(initial_materialized_plan.custom_data@)
            &&& views(p.custom_data_requests@) == views(initial_materialized_plan.custom_data_requests@)
        },
        dynamic_option_universe matches Some(o) ==> dynamic_hip4_universe matches Some(h) ==> exists|a: CapturePlan, b: CapturePlan| {
            &&& is_plan_merge(a, o.static_plan, o.current_dynamic_plan)
            &&& is_plan_merge(b, h.static_plan, h.current_dynamic_plan)
            &&& is_plan_merge(p, a, b)
        },
        dynamic_option_universe matches Some(o) ==> dynamic_hip4_universe is None ==> exists|a: CapturePlan|
            is_plan_merge(a, o.static_plan, o.current_dynamic_plan) && is_plan_merge(p, a, *supplemental_plan),
        dynamic_hip4_universe matches Some(h) ==> dynamic_option_universe is None ==> exists|a: CapturePlan|
            is_plan_merge(a, h.static_plan, h.current_dynamic_plan) && is_plan_merge(p, a, *supplemental_plan),
{
    match (dynamic_option_universe, dynamic_hip4_universe) {
        (None, None) => initial_materialized_plan.copy(),
        (Some(option), Some(hip4)) => {
            let a = option.active_capture_plan();
            let b = hip4.active_capture_plan();
            let p = merge_capture_plans(&a, &b);
            assert(is_plan_merge(a, option.static_plan, option.current_dynamic_plan)
                && is_plan_merge(b, hip4.static_plan, hip4.current_dynamic_plan) && is_plan_merge(p, a, b));
            p
        },
        (Some(option), None) => {
            let a = option.active_capture_plan();
            let p = merge_capture_plans(&a, supplemental_plan);
            assert(is_plan_merge(a, option.static_plan, option.current_dynamic_plan)
                && is_plan_merge(p, a, *supplemental_plan));
            p
        },
        (None, Some(hip4)) => {
            let a = hip4.active_capture_plan();
            let p = merge_capture_plans(&a, supplemental_plan);
            assert(is_plan_merge(a, hip4.static_plan, hip4.current_dynamic_plan)
                && is_plan_merge(p, a, *supplemental_plan));
            p
        },
    }
}

/// Data client that serves requests for a custom data type, when one is fixed.
pub open spec fn spec_custom_data_client_id(type_label: Seq<char>) -> Option<Seq<char>> {
    if type_label == "DeribitVolatilityIndex"@ {
        Some("DERIBIT"@)
    } else if type_label == "HyperliquidOpenInterest"@ {
        Some("HYPERLIQUID"@)
    } else {
        None
    }
}

pub fn custom_data_client_id(data_type: &DataType) -> (r: Option<String>)
    ensures
        (match r {
            Some(s) => Some(s@),
            None => None,
        }) == spec_custom_data_client_id(data_type.type_label@),
{
    if str_eq(data_type.type_label.as_str(), "DeribitVolatilityIndex") {
        Some(String::from_str("DERIBIT"))
    } else if str_eq(data_type.type_label.as_str(), "HyperliquidOpenInterest") {
        Some(String::from_str("HYPERLIQUID"))
    } else {
        None
    }
}

/// Capture families with a background runtime, in reporting order.
pub open spec fn family_label_at(i: int) -> Seq<char> {
    if i == 0 { "instruments"@ }
    else if i == 1 { "custom_data"@ }
    else if i == 2 { "mark_prices"@ }
    else if i == 3 { "index_prices"@ }
    else if i == 4 { "funding_rates"@ }
    else if i == 5 { "instrument_statuses"@ }
    else if i == 6 { "instrument_closes"@ }
    else if i == 7 { "option_greeks"@ }
    else if i == 8 { "quotes"@ }
    else if i == 9 { "trades"@ }
    else if i == 10 { "bars"@ }
    else { "book_deltas"@ }
}

fn family_label(i: usize) -> (s: &'static str)
    requires
        i < 12,
    ensures
        s@ == family_label_at(i as int),
{
    if i == 0 { "instruments" }
    else if i == 1 { "custom_data" }
    else if i == 2 { "mark_prices" }
    else if i == 3 { "index_prices" }
    else if i == 4 { "funding_rates" }
    else if i == 5 { "instrument_statuses" }
    else if i == 6 { "instrument_closes" }
    else if i == 7 { "option_greeks" }
    else if i == 8 { "quotes" }
    else if i == 9 { "trades" }
    else if i == 10 { "bars" }
    else { "book_deltas" }
}

/// Reports one family: when it has a runtime, its metrics are added to the
/// aggregate and listed under its name.
pub fn collect_family_metrics(
    family: &str,
    metrics: Option<CaptureMetrics>,
    families: &mut Vec<FamilyCaptureMetrics>,
    aggregated: &mut CaptureMetrics,
)
    ensures
        metrics is None ==> final(families)@ == old(families)@ && *final(aggregated) == *old(aggregated),
        metrics matches Some(m) ==> {
            &&& *final(aggregated) == old(aggregated).merged(m)
            &&& final(families)@.len() == old(families)@.len() + 1
            &&& final(families)@.take(old(families)@.len() as int) == old(families)@
            &&& final(families)@.last().family@ == family@
            &&& final(families)@.last().metrics == m
        },
{
    match metrics {
        Some(m) => {
            aggregated.merge(&m);
            families.push(FamilyCaptureMetrics { family: family.to_string(), metrics: m });
            assert(families@.take(families@.len() - 1) =~= old(families)@);
        },
        None => {},
    }
}

/// Families with a runtime among the first `n` slots, in order.
pub open spec fn reported_families(ms: Seq<Option<CaptureMetrics>>) -> Seq<(Seq<char>, CaptureMetrics)>
    decreases ms.len(),
{
    if ms.len() == 0 {
        Seq::empty()
    } else {
        let rest = reported_families(ms.drop_last());
        match ms.last() {
            Some(m) => rest.push((family_label_at(ms.len() - 1), m)),
            None => rest,
        }
    }
}

/// Sum of the present metrics, starting from zero.
pub open spec fn aggregate_metrics(ms: Seq<Option<CaptureMetrics>>, zero: CaptureMetrics) -> CaptureMetrics
    decreases ms.len(),
{
    if ms.len() == 0 {
        zero
    } else {
        let rest = aggregate_metrics(ms.drop_last(), zero);
        match ms.last() {
            Some(m) => rest.merged(m),
            None => rest,
        }
    }
}

/// Number of present slots.
pub open spec fn present_count(ms: Seq<Option<CaptureMetrics>>) -> nat
    decreases ms.len(),
{
    if ms.len() == 0 {
        0
    } else {
        present_count(ms.drop_last()) + if ms.last() is Some { 1nat } else { 0nat }
    }
}

pub open spec fn family_views(fs: Seq<FamilyCaptureMetrics>) -> Seq<(Seq<char>, CaptureMetrics)> {
    fs.map_values(|f: FamilyCaptureMetrics| (f.family@, f.metrics))
}

/// The counters of a request job as the snapshot reports them.
pub open spec fn reports_job(m: CustomDataRequestJobMetrics, job: CustomDataRequestJob) -> bool {
    &&& m.index == job.index
    &&& m.type_label@ == job.spec.data_type.type_label@
    &&& (match (m.identifier, job.spec.data_type.identifier) {
        (Some(a), Some(b)) => a@ == b@,
        (None, None) => true,
        _ => false,
    })
    &&& m.in_flight == job.in_flight
    &&& m.polls == job.polls
    &&& m.rows == job.rows
    &&& m.skipped_inflight == job.skipped_inflight
    &&& m.timeouts == job.timeouts
}

/// The counters of one request job.
pub fn job_metrics(job: &CustomDataRequestJob) -> (m: CustomDataRequestJobMetrics)
    ensures
        reports_job(m, *job),
{
    let identifier = match &job.spec.data_type.identifier {
        Some(id) => Some(id.clone()),
        None => None,
    };
    CustomDataRequestJobMetrics {
        index: job.index,
        type_label: job.spec.data_type.type_label.clone(),
        identifier,
        in_flight: job.in_flight,
        polls: job.polls,
        rows: job.rows,
        skipped_inflight: job.skipped_inflight,
        timeouts: job.timeouts,
    }
}

/// The published metrics snapshot, from the metrics of each family's runtime
/// (`None` for a family without one) in the order instruments, custom data,
/// mark prices, index prices, funding rates, instrument statuses, instrument
/// closes, option greeks, quotes, trades, bars, book deltas, and one entry per
/// request job, in job order.
pub fn metrics_snapshot_data(
    family_metrics: [Option<CaptureMetrics>; 12],
    request_jobs: &Vec<CustomDataRequestJob>,
    captured_at_unix_ms: u64,
    process_rss_bytes: Option<u64>,
) -> (s: CaptureMetricsSnapshot)
    ensures
        s.captured_at_unix_ms == captured_at_unix_ms,
        s.process_rss_bytes == process_rss_bytes,
        s.enabled_background_workers == present_count(family_metrics@),
        exists|zero: CaptureMetrics| zero.spec_is_zero() && s.aggregated == aggregate_metrics(family_metrics@, zero),
        family_views(s.families@) == reported_families(family_metrics@),
        s.custom_data_requests@.len() == request_jobs@.len(),
        forall|j: int| 0 <= j < request_jobs@.len() ==> #[trigger] reports_job(s.custom_data_requests@[j], request_jobs@[j]),
{
    let mut aggregated = CaptureMetrics::zero();
    let ghost zero = aggregated;
    let mut families: Vec<FamilyCaptureMetrics> = Vec::new();
    let mut count: usize = 0;
    let mut i: usize = 0;
    proof {
        assert(family_metrics@.take(0) =~= Seq::<Option<CaptureMetrics>>::empty());
        assert(family_views(families@) =~= Seq::<(Seq<char>, CaptureMetrics)>::empty());
    }
    while i < 12
        invariant
            i <= 12,
            family_metrics@.len() == 12,
            zero.spec_is_zero(),
            count == present_count(family_metrics@.take(i as int)),
            count <= i,
            aggregated == aggregate_metrics(family_metrics@.take(i as int), zero),
            family_views(families@) == reported_families(family_metrics@.take(i as int)),
        decreases 12 - i,
    {
        proof {
            let t = family_metrics@.take(i as int + 1);
            assert(t.drop_last() =~= family_metrics@.take(i as int));
            assert(t.last() == family_metrics@[i as int]);
        }
        let ghost before = families@;
        let slot = match &family_metrics[i] {
            Some(m) => Some(m.copy()),
            None => None,
        };
        let present = slot.is_some();
        collect_family_metrics(family_label(i), slot, &mut families, &mut aggregated);
        if present {
            count = count + 1;
            proof {
                assert(family_views(families@) =~= family_views(before).push((family_label_at(i as int), family_metrics@[i as int]->0)));
            }
        }
        i = i + 1;
    }
    assert(family_metrics@.take(12) =~= family_metrics@);
    let mut custom_data_requests: Vec<CustomDataRequestJobMetrics> = Vec::new();
    let mut j: usize = 0;
    while j < request_jobs.len()
        invariant
            j <= request_jobs@.len(),
            custom_data_requests@.len() == j,
            forall|q: int| 0 <= q < j ==> #[trigger] reports_job(custom_data_requests@[q], request_jobs@[q]),
        decreases request_jobs@.len() - j,
    {
        custom_data_requests.push(job_metrics(&request_jobs[j]));
        j = j + 1;
    }
    CaptureMetricsSnapshot {
        captured_at_unix_ms,
        enabled_background_workers: count,
        process_rss_bytes,
        aggregated,
        families,
        custom_data_requests,
    }
}

} // verus!
