use catalog_capture_core::plan::{
    capture_plan_difference, count_enabled_background_workers, instrument_id_difference, merge_capture_plans,
    plan_instrument_ids, BarCaptureSpec, BarType, CaptureFamilyRuntimeFlags, CapturePlan, CustomDataCaptureSpec,
    CustomDataRequestCaptureSpec, DataType, FundingRateCaptureSpec, IndexPriceCaptureSpec, InstrumentCaptureSpec,
    InstrumentId, InstrumentStatusCaptureSpec, MarkPriceCaptureSpec, QuoteCaptureSpec, RequestOverlapPolicy,
    TradeCaptureSpec,
};

fn eth_perp() -> InstrumentId {
    InstrumentId::from_str("ETHUSDT-PERP.BINANCE").expect("valid instrument id")
}

fn btc_perp() -> InstrumentId {
    InstrumentId::from_str("BTCUSDT-PERP.BINANCE").expect("valid instrument id")
}

#[test]
fn family_runtime_flags_enable_instruments_for_quote_only_plan() {
    let eth = eth_perp();
    let plan = CapturePlan { quotes: vec![QuoteCaptureSpec { instrument_id: eth }], ..CapturePlan::default() };
    let flags = plan.family_runtime_flags();
    assert!(flags.instruments);
    assert!(flags.quotes);
    assert!(!flags.trades);
    assert_eq!(plan.enabled_background_worker_count(), 2);
}

#[test]
fn family_runtime_flags_custom_data_only_has_single_worker() {
    let plan = CapturePlan {
        custom_data: vec![CustomDataCaptureSpec { data_type: DataType::new("DeribitVolatilityIndex", None) }],
        ..CapturePlan::default()
    };
    let flags = plan.family_runtime_flags();
    assert!(!flags.instruments);
    assert!(flags.custom_data);
    assert_eq!(plan.enabled_background_worker_count(), 1);
}

fn book_summary_request() -> CustomDataRequestCaptureSpec {
    CustomDataRequestCaptureSpec {
        data_type: DataType::new("DeribitBookSummary", Some("BTC:option".to_string())),
        interval_secs: 5,
        fire_immediately: true,
        overlap_policy: RequestOverlapPolicy::Skip,
        request_timeout_secs: 15,
        client_id: None,
    }
}

#[test]
fn family_runtime_flags_keep_subscribe_and_request_custom_data_separate() {
    let request_only = CapturePlan { custom_data_requests: vec![book_summary_request()], ..CapturePlan::default() };
    let request_flags = request_only.family_runtime_flags();
    assert!(!request_only.is_empty());
    assert!(!request_flags.custom_data);
    assert!(request_flags.custom_data_requests);
    assert!(request_flags.needs_custom_data_writer());
    assert_eq!(request_only.enabled_background_worker_count(), 1);

    let both = CapturePlan {
        custom_data: vec![CustomDataCaptureSpec { data_type: DataType::new("DeribitVolatilityIndex", None) }],
        custom_data_requests: request_only.custom_data_requests.clone(),
        ..CapturePlan::default()
    };
    let both_flags = both.family_runtime_flags();
    assert!(both_flags.custom_data);
    assert!(both_flags.custom_data_requests);
    assert_eq!(both.enabled_background_worker_count(), 1);
}

#[test]
fn planned_instrument_ids_dedupes_across_families() {
    let eth = eth_perp();
    let plan = CapturePlan {
        instruments: vec![InstrumentCaptureSpec { instrument_id: eth.clone() }],
        quotes: vec![QuoteCaptureSpec { instrument_id: eth.clone() }],
        mark_prices: vec![MarkPriceCaptureSpec { instrument_id: eth.clone() }],
        funding_rates: vec![FundingRateCaptureSpec { instrument_id: eth.clone() }],
        ..CapturePlan::default()
    };
    assert_eq!(plan.planned_instrument_ids(), vec![eth]);
}

#[test]
fn planned_instrument_ids_returns_sorted_unique_ids() {
    let eth = eth_perp();
    let btc = btc_perp();
    let plan = CapturePlan {
        quotes: vec![QuoteCaptureSpec { instrument_id: eth.clone() }],
        trades: vec![TradeCaptureSpec { instrument_id: btc.clone() }],
        instrument_statuses: vec![InstrumentStatusCaptureSpec { instrument_id: eth.clone() }],
        ..CapturePlan::default()
    };
    assert_eq!(plan.planned_instrument_ids(), vec![btc, eth]);
}

#[test]
fn planned_instrument_ids_ignores_bars_and_custom_data() {
    let eth = eth_perp();
    let plan = CapturePlan {
        bars: vec![BarCaptureSpec { bar_type: BarType::new("ETHUSDT-PERP.BINANCE-1-MINUTE-LAST-EXTERNAL") }],
        custom_data: vec![CustomDataCaptureSpec { data_type: DataType::new("SomeCustom", None) }],
        ..CapturePlan::default()
    };
    assert!(plan.planned_instrument_ids().is_empty());

    let plan = CapturePlan {
        quotes: vec![QuoteCaptureSpec { instrument_id: eth.clone() }],
        bars: vec![BarCaptureSpec { bar_type: BarType::new("ETHUSDT-PERP.BINANCE-1-MINUTE-LAST-EXTERNAL") }],
        ..CapturePlan::default()
    };
    assert_eq!(plan.planned_instrument_ids(), vec![eth]);
}

#[test]
fn capture_plan_difference_tracks_added_and_removed_instruments() {
    let btc_perp = InstrumentId::from("BTC-PERPETUAL.DERIBIT");
    let old_option = InstrumentId::from("BTC-20JUN26-62000-C.DERIBIT");
    let new_option = InstrumentId::from("BTC-27JUN26-62000-C.DERIBIT");

    let previous = CapturePlan {
        instruments: vec![
            InstrumentCaptureSpec { instrument_id: btc_perp.clone() },
            InstrumentCaptureSpec { instrument_id: old_option.clone() },
        ],
        quotes: vec![
            QuoteCaptureSpec { instrument_id: btc_perp.clone() },
            QuoteCaptureSpec { instrument_id: old_option.clone() },
        ],
        index_prices: vec![IndexPriceCaptureSpec { instrument_id: btc_perp.clone() }],
        funding_rates: vec![FundingRateCaptureSpec { instrument_id: btc_perp.clone() }],
        ..CapturePlan::default()
    };
    let next = CapturePlan {
        instruments: vec![
            InstrumentCaptureSpec { instrument_id: btc_perp.clone() },
            InstrumentCaptureSpec { instrument_id: new_option.clone() },
        ],
        quotes: vec![
            QuoteCaptureSpec { instrument_id: btc_perp.clone() },
            QuoteCaptureSpec { instrument_id: new_option.clone() },
        ],
        index_prices: vec![IndexPriceCaptureSpec { instrument_id: btc_perp.clone() }],
        funding_rates: vec![FundingRateCaptureSpec { instrument_id: btc_perp.clone() }],
        ..CapturePlan::default()
    };

    let add = capture_plan_difference(&next, &previous);
    let remove = capture_plan_difference(&previous, &next);

    assert_eq!(plan_instrument_ids(&add), vec![new_option.clone()]);
    assert_eq!(plan_instrument_ids(&remove), vec![old_option.clone()]);

    let added = instrument_id_difference(&plan_instrument_ids(&next), &plan_instrument_ids(&previous));
    assert_eq!(added, vec![new_option]);
}

#[test]
fn count_enabled_background_workers_counts_true_flags() {
    assert_eq!(
        count_enabled_background_workers([
            true, true, false, false, false, false, false, false, false, false, false, false,
        ]),
        2
    );
}

#[test]
fn runtime_flags_default_counts_no_workers() {
    assert_eq!(CaptureFamilyRuntimeFlags::default().count_enabled(), 0);
    let all = CaptureFamilyRuntimeFlags {
        instruments: true,
        custom_data: true,
        custom_data_requests: true,
        quotes: true,
        trades: true,
        bars: true,
        book_deltas: true,
        mark_prices: true,
        index_prices: true,
        funding_rates: true,
        instrument_statuses: true,
        instrument_closes: true,
        option_greeks: true,
    };
    assert_eq!(all.count_enabled(), 12);
}

#[test]
fn merge_dedupes_and_keeps_base_order() {
    let a = InstrumentId::from("A.X");
    let b = InstrumentId::from("B.X");
    let base = CapturePlan {
        quotes: vec![QuoteCaptureSpec { instrument_id: b.clone() }],
        ..CapturePlan::default()
    };
    let addition = CapturePlan {
        quotes: vec![QuoteCaptureSpec { instrument_id: a.clone() }, QuoteCaptureSpec { instrument_id: b.clone() }],
        ..CapturePlan::default()
    };
    let merged = merge_capture_plans(&base, &addition);
    assert_eq!(merged.quotes, vec![QuoteCaptureSpec { instrument_id: b }, QuoteCaptureSpec { instrument_id: a }]);
    let again = merge_capture_plans(&merged, &addition);
    assert_eq!(again, merged);
}

#[test]
fn delta_applied_to_previous_gives_next() {
    let p = CapturePlan {
        trades: vec![
            TradeCaptureSpec { instrument_id: InstrumentId::from("A.X") },
            TradeCaptureSpec { instrument_id: InstrumentId::from("B.X") },
        ],
        ..CapturePlan::default()
    };
    let n = CapturePlan {
        trades: vec![
            TradeCaptureSpec { instrument_id: InstrumentId::from("B.X") },
            TradeCaptureSpec { instrument_id: InstrumentId::from("C.X") },
        ],
        ..CapturePlan::default()
    };
    let add = capture_plan_difference(&n, &p);
    let remove = capture_plan_difference(&p, &n);
    let kept = capture_plan_difference(&p, &remove);
    let rebuilt = merge_capture_plans(&kept, &add);
    assert_eq!(rebuilt.trades, n.trades);
}

#[test]
fn instrument_id_parsing_uses_last_dot() {
    let id = InstrumentId::from_str("BTC.USD.DERIBIT").unwrap();
    assert_eq!(id.symbol, "BTC.USD");
    assert_eq!(id.venue, "DERIBIT");
    assert_eq!(id.to_string(), "BTC.USD.DERIBIT");
    assert!(InstrumentId::from_str("NODOT").is_err());
    assert!(InstrumentId::from_str(".X").is_err());
    assert!(InstrumentId::from_str("X.").is_err());
}
