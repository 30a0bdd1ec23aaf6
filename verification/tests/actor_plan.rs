use catalog_capture_core::actor_plan::{
    collect_family_metrics, custom_data_client_id, effective_capture_plan, metrics_snapshot_data,
    supplemental_capture_plan,
};
use catalog_capture_core::dynamic_hip4_universe::{DynamicHip4UniverseConfig, DynamicHip4UniverseManager};
use catalog_capture_core::dynamic_option_universe::{DynamicOptionUniverseConfig, DynamicOptionUniverseManager};
use catalog_capture_core::custom_data_requests::CustomDataRequestJob;
use catalog_capture_core::metrics::CaptureMetrics;
use catalog_capture_core::plan::{
    merge_capture_plans, CapturePlan, CustomDataRequestCaptureSpec, DataType, InstrumentId, QuoteCaptureSpec,
    RequestOverlapPolicy,
};

fn merged_manager_views() -> CapturePlan {
    let static_plan = CapturePlan::default();
    let option_dynamic = CapturePlan {
        quotes: vec![QuoteCaptureSpec { instrument_id: InstrumentId::from_str("BTC-OPT.DERIBIT").unwrap() }],
        ..CapturePlan::default()
    };
    let hip4_dynamic = CapturePlan {
        quotes: vec![QuoteCaptureSpec { instrument_id: InstrumentId::from_str("BTC-HIP4.HYPERLIQUID").unwrap() }],
        ..CapturePlan::default()
    };
    let initial = merge_capture_plans(&merge_capture_plans(&static_plan, &option_dynamic), &hip4_dynamic);

    let option_manager = DynamicOptionUniverseManager::new(DynamicOptionUniverseConfig {
        refresh_interval_secs: 60,
        strike_change_confirmations: 0,
        purge_removed_instruments: false,
        static_plan: static_plan.clone(),
        initial_dynamic_plan: option_dynamic,
        universes: vec![],
    });
    let hip4_manager = DynamicHip4UniverseManager::new(DynamicHip4UniverseConfig {
        idle_poll_secs: 1800,
        active_poll_secs: 10,
        pre_expiry_window_secs: 900,
        http_timeout_secs: 10,
        purge_removed_instruments: false,
        static_plan: static_plan.clone(),
        initial_dynamic_plan: hip4_dynamic,
        universes: vec![],
    });

    effective_capture_plan(&initial, &CapturePlan::default(), Some(&option_manager), Some(&hip4_manager))
}

#[test]
fn actor_plan_effective_capture_plan_merges_option_and_hip4_manager_views() {
    let merged = merged_manager_views();
    assert_eq!(merged.quotes.len(), 2);
}

#[test]
fn actor_effective_capture_plan_merges_option_and_hip4_manager_views() {
    let merged = merged_manager_views();
    assert_eq!(merged.quotes.len(), 2);
    assert!(merged.quotes.iter().any(|spec| spec.instrument_id == InstrumentId::from_str("BTC-OPT.DERIBIT").unwrap()));
    assert!(merged.quotes.iter().any(|spec| spec.instrument_id == InstrumentId::from_str("BTC-HIP4.HYPERLIQUID").unwrap()));
}

fn hip4_supplemental_plan() -> CapturePlan {
    let static_plan = CapturePlan::default();
    let option_dynamic = CapturePlan {
        quotes: vec![QuoteCaptureSpec { instrument_id: InstrumentId::from_str("BTC-OPT.DERIBIT").unwrap() }],
        ..CapturePlan::default()
    };
    let hip4_only = CapturePlan {
        quotes: vec![QuoteCaptureSpec { instrument_id: InstrumentId::from_str("BTC-HIP4.HYPERLIQUID").unwrap() }],
        ..CapturePlan::default()
    };
    let initial = merge_capture_plans(&merge_capture_plans(&static_plan, &option_dynamic), &hip4_only);
    let option_config = DynamicOptionUniverseConfig {
        refresh_interval_secs: 60,
        strike_change_confirmations: 0,
        purge_removed_instruments: false,
        static_plan: static_plan.clone(),
        initial_dynamic_plan: option_dynamic,
        universes: vec![],
    };

    supplemental_capture_plan(&initial, &Some(option_config), &None)
}

#[test]
fn actor_plan_supplemental_plan_preserves_hip4_when_only_option_refresh_enabled() {
    let supplemental = hip4_supplemental_plan();
    assert_eq!(supplemental.quotes.len(), 1);
    assert_eq!(supplemental.quotes[0].instrument_id, InstrumentId::from_str("BTC-HIP4.HYPERLIQUID").unwrap());
}

#[test]
fn actor_supplemental_plan_preserves_hip4_when_only_option_refresh_enabled() {
    let supplemental = hip4_supplemental_plan();
    assert_eq!(supplemental.quotes.len(), 1);
    assert_eq!(supplemental.quotes[0].instrument_id, InstrumentId::from_str("BTC-HIP4.HYPERLIQUID").unwrap());
}

#[test]
fn supplemental_plan_is_empty_without_or_with_both_managers() {
    let initial = CapturePlan {
        quotes: vec![QuoteCaptureSpec { instrument_id: InstrumentId::from_str("BTC-OPT.DERIBIT").unwrap() }],
        ..CapturePlan::default()
    };
    assert!(supplemental_capture_plan(&initial, &None, &None).is_empty());
}

#[test]
fn effective_capture_plan_without_managers_is_the_materialized_plan() {
    let initial = CapturePlan {
        quotes: vec![QuoteCaptureSpec { instrument_id: InstrumentId::from_str("BTC-OPT.DERIBIT").unwrap() }],
        ..CapturePlan::default()
    };
    let plan = effective_capture_plan(&initial, &CapturePlan::default(), None, None);
    assert_eq!(plan, initial);
}

#[test]
fn custom_data_client_ids_are_fixed_per_type() {
    assert_eq!(
        custom_data_client_id(&DataType::new("DeribitVolatilityIndex", None)).as_deref(),
        Some("DERIBIT")
    );
    assert_eq!(
        custom_data_client_id(&DataType::new("HyperliquidOpenInterest", None)).as_deref(),
        Some("HYPERLIQUID")
    );
    assert_eq!(custom_data_client_id(&DataType::new("RustTestCustomData", None)), None);
}

fn metrics(accepted: u64, files: u64) -> CaptureMetrics {
    let mut m = CaptureMetrics::zero();
    m.accepted_items = accepted;
    m.completed_files = files;
    m
}

#[test]
fn metrics_snapshot_lists_present_families_and_sums_them() {
    let mut slots: [Option<CaptureMetrics>; 12] = Default::default();
    slots[0] = Some(metrics(3, 1));
    slots[8] = Some(metrics(10, 2));
    let snapshot = metrics_snapshot_data(slots, &Vec::new(), 1_700_000_000_000, Some(4096));
    assert_eq!(snapshot.captured_at_unix_ms, 1_700_000_000_000);
    assert_eq!(snapshot.process_rss_bytes, Some(4096));
    assert_eq!(snapshot.enabled_background_workers, 2);
    assert_eq!(snapshot.families.len(), 2);
    assert_eq!(snapshot.families[0].family, "instruments");
    assert_eq!(snapshot.families[1].family, "quotes");
    assert_eq!(snapshot.aggregated.accepted_items, 13);
    assert_eq!(snapshot.aggregated.completed_files, 3);
}

#[test]
fn collect_family_metrics_skips_missing_runtime() {
    let mut families = Vec::new();
    let mut aggregated = CaptureMetrics::zero();
    collect_family_metrics("trades", None, &mut families, &mut aggregated);
    assert!(families.is_empty());
    assert_eq!(aggregated, CaptureMetrics::zero());
    collect_family_metrics("trades", Some(metrics(5, 0)), &mut families, &mut aggregated);
    assert_eq!(families.len(), 1);
    assert_eq!(aggregated.accepted_items, 5);
}

#[test]
fn metrics_snapshot_reports_one_entry_per_request_job() {
    let spec = |type_label: &str, identifier: Option<&str>| CustomDataRequestCaptureSpec {
        data_type: DataType::new(type_label, identifier.map(str::to_string)),
        interval_secs: 5,
        fire_immediately: true,
        overlap_policy: RequestOverlapPolicy::Skip,
        request_timeout_secs: 10,
        client_id: None,
    };
    let mut first = CustomDataRequestJob::new(0, spec("DeribitBookSummary", Some("BTC:option")));
    first.in_flight = true;
    first.polls = 7;
    first.rows = 42;
    first.skipped_inflight = 2;
    first.timeouts = 1;
    let second = CustomDataRequestJob::new(1, spec("DeribitVolatilityIndex", None));
    let slots: [Option<CaptureMetrics>; 12] = Default::default();
    let snapshot = metrics_snapshot_data(slots, &vec![first, second], 5, None);
    assert_eq!(snapshot.custom_data_requests.len(), 2);
    let a = &snapshot.custom_data_requests[0];
    assert_eq!((a.index, a.type_label.as_str(), a.identifier.as_deref()), (0, "DeribitBookSummary", Some("BTC:option")));
    assert!(a.in_flight);
    assert_eq!((a.polls, a.rows, a.skipped_inflight, a.timeouts), (7, 42, 2, 1));
    let b = &snapshot.custom_data_requests[1];
    assert_eq!((b.index, b.type_label.as_str(), b.identifier.as_deref()), (1, "DeribitVolatilityIndex", None));
    assert!(!b.in_flight);
}
