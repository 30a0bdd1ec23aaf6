use catalog_capture_core::option_universe::{
    derive_perp_instrument_id, expand_option_universe, okx_instrument_family, should_apply_strike_change,
    ExpiryPolicy, OptionUniverseFamily, OptionUniverseResolveError, OptionUniverseSpec, OptionUniverseVenueKind,
    Price, ResolvedOptionUniverse, StrikeChangeSmoothingState, StrikePolicy,
};
use catalog_capture_core::option_universe_metadata::{
    compute_refresh_rollover_reason, startup_resolution_record, refresh_resolution_record,
    summarize_option_universe_resolution_records, OptionUniverseResolutionEventKind,
};
use catalog_capture_core::option_universe_resolve::{
    option_instrument_ids_at_selected_expiry, resolve_option_universe,
    select_nearest_expiry_reference_instrument_id, InstrumentInfo, OptionKind,
};
use catalog_capture_core::plan::{
    merge_capture_plans, CapturePlan, FundingRateCaptureSpec, IndexPriceCaptureSpec, InstrumentId,
    OptionGreeksCaptureSpec, QuoteCaptureSpec,
};

fn price(value: i64) -> Price {
    Price { raw: value * 1_000_000_000, text: value.to_string() }
}

fn option(symbol: &str, strike: i64, kind: OptionKind, expiration_ns: u64) -> InstrumentInfo {
    InstrumentInfo {
        instrument_id: InstrumentId::from(format!("{symbol}.DERIBIT").as_str()),
        is_option: true,
        underlying: Some("BTC".to_string()),
        settlement_currency: "BTC".to_string(),
        expiration_ns: Some(expiration_ns),
        strike: Some(price(strike)),
        option_kind: Some(kind),
    }
}

fn make_btc_option_set() -> Vec<InstrumentInfo> {
    vec![
        option("BTC-26JUN26-64000-C", 64000, OptionKind::Call, 1_782_432_000_000_000_000),
        option("BTC-26JUN26-64000-P", 64000, OptionKind::Put, 1_782_432_000_000_000_000),
        option("BTC-26JUN26-65000-C", 65000, OptionKind::Call, 1_782_432_000_000_000_000),
        option("BTC-26JUN26-65000-P", 65000, OptionKind::Put, 1_782_432_000_000_000_000),
        option("BTC-26JUN26-66000-C", 66000, OptionKind::Call, 1_782_432_000_000_000_000),
        option("BTC-26JUN26-66000-P", 66000, OptionKind::Put, 1_782_432_000_000_000_000),
        option("BTC-03JUL26-65000-C", 65000, OptionKind::Call, 1_783_036_800_000_000_000),
        option("BTC-03JUL26-65000-P", 65000, OptionKind::Put, 1_783_036_800_000_000_000),
    ]
}

fn make_spec() -> OptionUniverseSpec {
    OptionUniverseSpec {
        venue_id: "deribit_main".to_string(),
        underlying: "BTC".to_string(),
        settlement_currency: Some("BTC".to_string()),
        include_perp: true,
        families: vec![
            OptionUniverseFamily::Instruments,
            OptionUniverseFamily::Quotes,
            OptionUniverseFamily::OptionGreeks,
            OptionUniverseFamily::FundingRates,
            OptionUniverseFamily::IndexPrices,
        ],
        expiry_policy: ExpiryPolicy::Nearest { days_max: 45 },
        strike_policy: StrikePolicy::AtmRelative { strikes_above: 1, strikes_below: 1 },
    }
}

const NOW: u64 = 1_781_740_800_000_000_000;

fn resolve(reference: i64) -> ResolvedOptionUniverse {
    resolve_option_universe(
        &make_spec(),
        &make_btc_option_set(),
        NOW,
        price(reference),
        Some(InstrumentId::from("BTC-PERPETUAL.DERIBIT")),
        None,
    )
    .expect("universe should resolve")
}

fn raws(prices: &[Price]) -> Vec<i64> {
    prices.iter().map(|p| p.raw / 1_000_000_000).collect()
}

#[test]
fn resolve_option_universe_selects_nearest_expiry_and_atm_window() {
    let resolved = resolve(65100);
    assert_eq!(resolved.selected_expiry_ns, 1_782_432_000_000_000_000);
    assert_eq!(raws(&resolved.selected_strikes), vec![64000, 65000, 66000]);
    assert!(resolved.all_instrument_ids.contains(&InstrumentId::from("BTC-PERPETUAL.DERIBIT")));
    assert_eq!(resolved.option_instrument_ids.len(), 6);
}

#[test]
fn resolve_option_universe_prefers_lower_strike_on_atm_tie() {
    let resolved = resolve(64500);
    assert_eq!(raws(&resolved.selected_strikes), vec![64000, 65000]);
}

#[test]
fn expand_option_universe_limits_perp_only_families_to_perp() {
    let resolved = resolve(65100);
    let expanded = expand_option_universe(&make_spec(), &resolved);
    assert_eq!(expanded.option_greeks.len(), 6);
    assert_eq!(
        expanded.index_prices,
        vec![IndexPriceCaptureSpec { instrument_id: InstrumentId::from("BTC-PERPETUAL.DERIBIT") }]
    );
    assert_eq!(
        expanded.funding_rates,
        vec![FundingRateCaptureSpec { instrument_id: InstrumentId::from("BTC-PERPETUAL.DERIBIT") }]
    );
}

#[test]
fn derive_perp_instrument_id_builds_expected_symbols() {
    let spec = make_spec();
    assert_eq!(
        derive_perp_instrument_id(&spec, OptionUniverseVenueKind::Deribit).expect("deribit"),
        InstrumentId::from("BTC-PERPETUAL.DERIBIT")
    );
    let bybit_spec = OptionUniverseSpec { settlement_currency: Some("USDT".to_string()), ..make_spec() };
    assert_eq!(
        derive_perp_instrument_id(&bybit_spec, OptionUniverseVenueKind::Bybit).expect("bybit"),
        InstrumentId::from("BTCUSDT-LINEAR.BYBIT")
    );
    let okx_spec = OptionUniverseSpec {
        venue_id: "okx_main".to_string(),
        settlement_currency: Some("USD".to_string()),
        ..make_spec()
    };
    assert_eq!(
        derive_perp_instrument_id(&okx_spec, OptionUniverseVenueKind::Okx).expect("okx"),
        InstrumentId::from("BTC-USD-SWAP.OKX")
    );
    assert_eq!(okx_instrument_family(&okx_spec).unwrap(), "BTC-USD");
    let no_settlement = OptionUniverseSpec { settlement_currency: None, ..make_spec() };
    let err = derive_perp_instrument_id(&no_settlement, OptionUniverseVenueKind::Bybit).unwrap_err();
    assert_eq!(
        err.message(),
        "capture.option_universe venue_id=deribit_main requires settlement_currency to derive the hedge instrument"
    );
}

#[test]
fn select_nearest_expiry_reference_instrument_id_picks_nearest_expiry() {
    let reference = select_nearest_expiry_reference_instrument_id(&make_spec(), &make_btc_option_set(), NOW)
        .expect("reference instrument should resolve");
    assert_eq!(reference, InstrumentId::from("BTC-26JUN26-64000-C.DERIBIT"));
    let (expiry, ids) = option_instrument_ids_at_selected_expiry(&make_spec(), &make_btc_option_set(), NOW).unwrap();
    assert_eq!(expiry, 1_782_432_000_000_000_000);
    assert_eq!(ids.len(), 6);
}

#[test]
fn merge_capture_plans_dedupes_expanded_specs() {
    let base = CapturePlan {
        quotes: vec![QuoteCaptureSpec { instrument_id: InstrumentId::from("BTC-PERPETUAL.DERIBIT") }],
        ..CapturePlan::default()
    };
    let addition = CapturePlan {
        quotes: vec![QuoteCaptureSpec { instrument_id: InstrumentId::from("BTC-PERPETUAL.DERIBIT") }],
        option_greeks: vec![OptionGreeksCaptureSpec { instrument_id: InstrumentId::from("BTC-26JUN26-65000-C.DERIBIT") }],
        ..CapturePlan::default()
    };
    let merged = merge_capture_plans(&base, &addition);
    assert_eq!(merged.quotes.len(), 1);
    assert_eq!(merged.option_greeks.len(), 1);
}

#[test]
fn resolve_reports_each_error() {
    let spec = make_spec();
    let err = resolve_option_universe(&spec, &Vec::new(), NOW, price(1), None, None).unwrap_err();
    assert_eq!(
        err.message(),
        "no matching option instruments found for venue_id=deribit_main underlying=BTC"
    );
    let far = OptionUniverseSpec { expiry_policy: ExpiryPolicy::Nearest { days_max: 1 }, ..make_spec() };
    let err = resolve_option_universe(&far, &make_btc_option_set(), NOW, price(1), None, None).unwrap_err();
    assert!(matches!(err, OptionUniverseResolveError::NoMatchingExpiry { .. }));
    let calls_only: Vec<InstrumentInfo> =
        make_btc_option_set().into_iter().filter(|o| o.option_kind == Some(OptionKind::Call)).collect();
    let err = resolve_option_universe(&spec, &calls_only, NOW, price(1), None, None).unwrap_err();
    assert!(matches!(err, OptionUniverseResolveError::NoStrikePairs { .. }));
    let err = resolve_option_universe(&spec, &make_btc_option_set(), NOW, price(65000), None, None).unwrap_err();
    assert_eq!(
        err.message(),
        "include_perp=true requires a resolved perpetual instrument for venue_id=deribit_main underlying=BTC"
    );
    let oi = OptionUniverseSpec { strike_policy: StrikePolicy::OiRanked { top_n: 2 }, ..make_spec() };
    let err = resolve_option_universe(&oi, &make_btc_option_set(), NOW, price(1), None, None).unwrap_err();
    assert!(matches!(err, OptionUniverseResolveError::MissingOpenInterest { .. }));
}

#[test]
fn resolve_oi_ranked_and_all_strikes() {
    let oi = OptionUniverseSpec { strike_policy: StrikePolicy::OiRanked { top_n: 2 }, include_perp: false, ..make_spec() };
    let ranking = vec![65000 * 1_000_000_000, 67000 * 1_000_000_000, 66000 * 1_000_000_000, 64000 * 1_000_000_000];
    let resolved = resolve_option_universe(&oi, &make_btc_option_set(), NOW, price(1), None, Some(&ranking)).unwrap();
    assert_eq!(raws(&resolved.selected_strikes), vec![65000, 66000]);
    assert_eq!(resolved.option_instrument_ids.len(), 4);
    assert!(resolved.perp_instrument_id.is_none());

    let all = OptionUniverseSpec { strike_policy: StrikePolicy::AllStrikes, include_perp: false, ..make_spec() };
    let resolved = resolve_option_universe(&all, &make_btc_option_set(), NOW, price(1), None, None).unwrap();
    assert_eq!(raws(&resolved.selected_strikes), vec![64000, 65000, 66000]);
    let mut sorted = resolved.all_instrument_ids.clone();
    sorted.sort_by(|a, b| (a.symbol.as_str(), a.venue.as_str()).cmp(&(b.symbol.as_str(), b.venue.as_str())));
    assert_eq!(sorted, resolved.all_instrument_ids);
}

#[test]
fn smoothing_requires_consecutive_confirmations() {
    let current = vec![price(65000), price(66000)];
    let candidate = vec![price(64000), price(65000)];
    let mut state = StrikeChangeSmoothingState::default();
    assert!(!should_apply_strike_change(&current, &candidate, false, 2, &mut state));
    assert!(should_apply_strike_change(&current, &candidate, false, 2, &mut state));
}

#[test]
fn smoothing_resets_when_candidate_changes() {
    let current = vec![price(65000)];
    let first_candidate = vec![price(64000)];
    let second_candidate = vec![price(63000)];
    let mut state = StrikeChangeSmoothingState::default();
    assert!(!should_apply_strike_change(&current, &first_candidate, false, 2, &mut state));
    assert!(!should_apply_strike_change(&current, &second_candidate, false, 2, &mut state));
    assert!(should_apply_strike_change(&current, &second_candidate, false, 2, &mut state));
}

#[test]
fn expiry_roll_bypasses_smoothing() {
    let current = vec![price(65000)];
    let candidate = vec![price(64000)];
    let mut state = StrikeChangeSmoothingState::default();
    state.pending_strikes = Some(candidate.clone());
    state.confirmations = 1;
    assert!(should_apply_strike_change(&current, &candidate, true, 3, &mut state));
    assert_eq!(state, StrikeChangeSmoothingState::default());
}

#[test]
fn zero_confirmations_disables_smoothing() {
    let current = vec![price(65000)];
    let candidate = vec![price(64000)];
    let mut state = StrikeChangeSmoothingState::default();
    assert!(should_apply_strike_change(&current, &candidate, false, 0, &mut state));
}

fn sample_resolved() -> ResolvedOptionUniverse {
    ResolvedOptionUniverse {
        resolved_at_ns: 1_781_740_800_000_000_000,
        selected_expiry_ns: 1_782_432_000_000_000_000,
        atm_reference: price(65000),
        atm_reference_source: Some("http_perp_ticker_mark".to_string()),
        selected_strikes: vec![price(64000), price(65000)],
        perp_instrument_id: Some(InstrumentId::from("BTC-PERPETUAL.DERIBIT")),
        option_instrument_ids: vec![
            InstrumentId::from("BTC-26JUN26-65000-C.DERIBIT"),
            InstrumentId::from("BTC-26JUN26-65000-P.DERIBIT"),
        ],
        all_instrument_ids: vec![
            InstrumentId::from("BTC-26JUN26-65000-C.DERIBIT"),
            InstrumentId::from("BTC-26JUN26-65000-P.DERIBIT"),
            InstrumentId::from("BTC-PERPETUAL.DERIBIT"),
        ],
    }
}

#[test]
fn compute_refresh_rollover_reason_prefers_expiry_roll() {
    let resolved = sample_resolved();
    assert_eq!(
        compute_refresh_rollover_reason(Some(resolved.selected_expiry_ns.saturating_sub(1)), &resolved, Some("65000"), true, "atm_relative"),
        Some("expiry_roll".to_string())
    );
    assert_eq!(
        compute_refresh_rollover_reason(Some(resolved.selected_expiry_ns), &resolved, Some("64900"), true, "atm_relative"),
        Some("atm_drift".to_string())
    );
    assert_eq!(
        compute_refresh_rollover_reason(Some(resolved.selected_expiry_ns), &resolved, Some("65000"), true, "atm_relative"),
        Some("strike_window_shift".to_string())
    );
    assert_eq!(
        compute_refresh_rollover_reason(Some(resolved.selected_expiry_ns), &resolved, Some("65000"), true, "oi_ranked"),
        Some("oi_rank_shift".to_string())
    );
    assert_eq!(compute_refresh_rollover_reason(None, &resolved, None, false, "oi_ranked"), None);
}

#[test]
fn summarize_option_universe_resolution_records_aggregates_latest_state() {
    let spec = make_spec();
    let resolved = sample_resolved();
    let startup = startup_resolution_record(&spec, &resolved, vec![], vec![], "t0".to_string(), "e0".to_string());
    let refresh = refresh_resolution_record(
        &spec,
        &resolved,
        vec!["x".to_string()],
        vec![],
        Some("atm_drift".to_string()),
        "t1".to_string(),
        "e1".to_string(),
    );
    let other_spec = OptionUniverseSpec { venue_id: "a_venue".to_string(), ..make_spec() };
    let other = startup_resolution_record(&other_spec, &resolved, vec![], vec![], "t9".to_string(), "e9".to_string());
    let summaries = summarize_option_universe_resolution_records(&vec![startup, other, refresh]);
    assert_eq!(summaries.len(), 2);
    assert_eq!(summaries[0].venue_id, "a_venue");
    assert_eq!(summaries[1].venue_id, "deribit_main");
    assert_eq!(summaries[1].startup_resolved_at_iso8601, "t0");
    assert_eq!(summaries[1].latest_resolved_at_iso8601, "t1");
    assert_eq!(summaries[1].latest_event_kind, OptionUniverseResolutionEventKind::Refresh);
    assert_eq!(summaries[1].refresh_count, 1);
    assert_eq!(summaries[1].latest_rollover_reason.as_deref(), Some("atm_drift"));
    assert_eq!(summaries[1].option_count, 2);
    assert_eq!(summaries[0].refresh_count, 0);
}
