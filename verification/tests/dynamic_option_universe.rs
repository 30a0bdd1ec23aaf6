use catalog_capture_core::dynamic_option_universe::{
    plan_has_index_prices, plan_has_mark_prices, plan_has_quotes, DynamicOptionUniverseConfig,
    DynamicOptionUniverseEntryConfig, DynamicOptionUniverseManager, TimedResolvedOptionUniverse,
};
use catalog_capture_core::dynamic_option_universe_runtime::{
    resolve_runtime_option_universe, CachedPrice, RuntimeOptionCache,
};
use catalog_capture_core::option_universe::{
    expand_option_universe, ExpiryPolicy, OptionUniverseFamily, OptionUniverseSpec, OptionUniverseVenueKind, Price,
    ResolvedOptionUniverse, StrikePolicy,
};
use catalog_capture_core::option_universe_resolve::{resolve_option_universe, InstrumentInfo, OptionKind};
use catalog_capture_core::plan::{
    plan_instrument_ids, CapturePlan, IndexPriceCaptureSpec, InstrumentId, MarkPriceCaptureSpec, QuoteCaptureSpec,
};

const NOW: u64 = 1_781_740_800_000_000_000;
const JUN26: u64 = 1_782_432_000_000_000_000;

fn spec() -> OptionUniverseSpec {
    OptionUniverseSpec {
        venue_id: "deribit_main".to_string(),
        underlying: "BTC".to_string(),
        settlement_currency: Some("BTC".to_string()),
        include_perp: true,
        families: vec![
            OptionUniverseFamily::Instruments,
            OptionUniverseFamily::Quotes,
            OptionUniverseFamily::OptionGreeks,
            OptionUniverseFamily::IndexPrices,
            OptionUniverseFamily::FundingRates,
        ],
        expiry_policy: ExpiryPolicy::Nearest { days_max: 45 },
        strike_policy: StrikePolicy::AtmRelative { strikes_above: 1, strikes_below: 1 },
    }
}

fn price(value: i64) -> Price {
    Price { raw: value * 1_000_000_000, text: value.to_string() }
}

fn option(symbol: &str, strike: i64, kind: OptionKind) -> InstrumentInfo {
    InstrumentInfo {
        instrument_id: InstrumentId::from(format!("{symbol}.DERIBIT").as_str()),
        is_option: true,
        underlying: Some("BTC".to_string()),
        settlement_currency: "BTC".to_string(),
        expiration_ns: Some(JUN26),
        strike: Some(price(strike)),
        option_kind: Some(kind),
    }
}

fn option_set() -> Vec<InstrumentInfo> {
    let mut v = Vec::new();
    for strike in [64000, 65000, 66000, 67000] {
        v.push(option(&format!("BTC-26JUN26-{strike}-C"), strike, OptionKind::Call));
        v.push(option(&format!("BTC-26JUN26-{strike}-P"), strike, OptionKind::Put));
    }
    v
}

fn resolve(spec: &OptionUniverseSpec, reference: i64, by_open_interest: Option<&Vec<i64>>) -> ResolvedOptionUniverse {
    let mut resolved = resolve_option_universe(
        spec,
        &option_set(),
        NOW,
        price(reference),
        Some(InstrumentId::from("BTC-PERPETUAL.DERIBIT")),
        by_open_interest,
    )
    .expect("universe should resolve");
    resolved.atm_reference_source = Some("cache_greeks_underlying_price".to_string());
    resolved
}

fn timed(resolved: ResolvedOptionUniverse) -> TimedResolvedOptionUniverse {
    TimedResolvedOptionUniverse {
        resolved,
        resolved_at_iso8601: "2026-06-18T00:00:00.000000000Z".to_string(),
        selected_expiry_iso8601: "2026-06-26T08:00:00.000000000Z".to_string(),
    }
}

fn manager(spec: &OptionUniverseSpec, initial: ResolvedOptionUniverse, confirmations: u32) -> DynamicOptionUniverseManager {
    let initial_plan = expand_option_universe(spec, &initial);
    DynamicOptionUniverseManager::new(DynamicOptionUniverseConfig {
        refresh_interval_secs: 60,
        strike_change_confirmations: confirmations,
        purge_removed_instruments: true,
        static_plan: CapturePlan::default(),
        initial_dynamic_plan: initial_plan.clone(),
        universes: vec![DynamicOptionUniverseEntryConfig {
            venue: "DERIBIT".to_string(),
            venue_kind: OptionUniverseVenueKind::Deribit,
            spec: spec.clone(),
            initial_plan,
            initial_resolved: timed(initial),
        }],
    })
}

fn ids(texts: &[&str]) -> Vec<InstrumentId> {
    texts.iter().map(|t| InstrumentId::from(*t)).collect()
}

#[test]
fn plan_helpers_detect_reference_families() {
    let perp = InstrumentId::from("BTC-PERPETUAL.DERIBIT");
    let plan = CapturePlan {
        quotes: vec![QuoteCaptureSpec { instrument_id: perp.clone() }],
        mark_prices: vec![MarkPriceCaptureSpec { instrument_id: perp.clone() }],
        index_prices: vec![IndexPriceCaptureSpec { instrument_id: perp.clone() }],
        ..CapturePlan::default()
    };

    assert!(plan_has_quotes(&plan, &perp));
    assert!(plan_has_mark_prices(&plan, &perp));
    assert!(plan_has_index_prices(&plan, &perp));
    assert!(!plan_has_quotes(&CapturePlan::default(), &perp));
    assert_eq!(spec().underlying, "BTC");
}

fn perp_info(symbol: &str, venue: &str, settlement: &str) -> InstrumentInfo {
    InstrumentInfo {
        instrument_id: InstrumentId::from(format!("{symbol}.{venue}").as_str()),
        is_option: false,
        underlying: None,
        settlement_currency: settlement.to_string(),
        expiration_ns: None,
        strike: None,
        option_kind: None,
    }
}

fn deribit_instruments() -> Vec<InstrumentInfo> {
    let mut v = option_set();
    v.push(perp_info("BTC-PERPETUAL", "DERIBIT", "BTC"));
    v
}

fn cached(id: &str, value: i64) -> CachedPrice {
    CachedPrice { instrument_id: InstrumentId::from(id), price: price(value) }
}

fn runtime_cache(instruments: Vec<InstrumentInfo>, greeks: Vec<CachedPrice>) -> RuntimeOptionCache {
    RuntimeOptionCache {
        option_instruments: instruments,
        greeks_underlying_prices: greeks,
        mark_prices: Vec::new(),
        quote_mids: Vec::new(),
        index_prices: Vec::new(),
    }
}

/// Strikes by summed open interest, highest first.
fn rank_by_open_interest(entries: &[(i64, f64)]) -> Vec<i64> {
    let mut by_strike: Vec<(i64, f64)> = Vec::new();
    for (strike, oi) in entries {
        match by_strike.iter_mut().find(|(s, _)| s == strike) {
            Some(entry) => entry.1 += oi,
            None => by_strike.push((*strike, *oi)),
        }
    }
    by_strike.sort_by(|a, b| b.1.partial_cmp(&a.1).unwrap().then(a.0.cmp(&b.0)));
    by_strike.into_iter().map(|(s, _)| s * 1_000_000_000).collect()
}

fn refresh(
    manager: &mut DynamicOptionUniverseManager,
    cache: &RuntimeOptionCache,
    spec: &OptionUniverseSpec,
    venue_kind: OptionUniverseVenueKind,
    now: u64,
    ranking: Option<&Vec<i64>>,
) -> catalog_capture_core::dynamic_option_universe::DynamicOptionUniverseDelta {
    let resolved = resolve_runtime_option_universe(cache, now, spec, venue_kind, ranking)
        .map(timed)
        .map_err(|e| e.message);
    manager.refresh_from_resolutions(vec![resolved])
}

#[test]
fn refresh_from_cache_reports_atm_rotation_change() {
    let spec = spec();
    let mut cache = runtime_cache(deribit_instruments(), Vec::new());

    let missing_reference_error =
        resolve_runtime_option_universe(&cache, NOW, &spec, OptionUniverseVenueKind::Deribit, None).unwrap_err();
    assert!(missing_reference_error.message.contains("failed to determine strike reference"));

    cache.greeks_underlying_prices.push(cached("BTC-26JUN26-64000-C.DERIBIT", 65000));
    let initial_resolved =
        resolve_runtime_option_universe(&cache, NOW, &spec, OptionUniverseVenueKind::Deribit, None).unwrap();
    assert_eq!(initial_resolved.atm_reference_source.as_deref(), Some("cache_greeks_underlying_price"));
    let mut manager = manager(&spec, initial_resolved, 0);

    cache.greeks_underlying_prices.push(cached("BTC-26JUN26-64000-C.DERIBIT", 66000));
    let delta = refresh(&mut manager, &cache, &spec, OptionUniverseVenueKind::Deribit, NOW, None);

    assert_eq!(delta.changes.len(), 1);
    assert_eq!(delta.resolution_records.len(), 1);
    assert_eq!(delta.resolution_records[0].atm_reference_source, "cache_greeks_underlying_price");
    assert_eq!(delta.resolution_records[0].rollover_reason.as_deref(), Some("atm_drift"));
    let change = &delta.changes[0];
    assert_eq!(change.venue_id, "deribit_main");
    assert_eq!(change.underlying, "BTC");
    assert_eq!(change.previous_count, 7);
    assert_eq!(change.next_count, 7);
    assert_eq!(
        change.added_instrument_ids,
        ids(&["BTC-26JUN26-67000-C.DERIBIT", "BTC-26JUN26-67000-P.DERIBIT"])
    );
    assert_eq!(
        change.removed_instrument_ids,
        ids(&["BTC-26JUN26-64000-C.DERIBIT", "BTC-26JUN26-64000-P.DERIBIT"])
    );
    assert_eq!(change.option_instrument_ids.len(), 6);
    assert_eq!(plan_instrument_ids(&delta.add), ids(&["BTC-26JUN26-67000-C.DERIBIT", "BTC-26JUN26-67000-P.DERIBIT"]));
    assert_eq!(plan_instrument_ids(&delta.remove), ids(&["BTC-26JUN26-64000-C.DERIBIT", "BTC-26JUN26-64000-P.DERIBIT"]));
}

fn oi_spec() -> OptionUniverseSpec {
    let mut oi_spec = spec();
    oi_spec.strike_policy = StrikePolicy::OiRanked { top_n: 2 };
    oi_spec.families = vec![OptionUniverseFamily::Instruments, OptionUniverseFamily::OptionGreeks];
    oi_spec
}

#[test]
fn refresh_from_cache_oi_ranked_selects_top_strikes_from_greeks() {
    let oi_spec = oi_spec();
    let greeks_by_strike = [
        (64000, 100.0),
        (64000, 50.0),
        (65000, 300.0),
        (65000, 200.0),
        (66000, 250.0),
        (66000, 150.0),
        (67000, 10.0),
        (67000, 10.0),
    ];
    let mut greeks = Vec::new();
    for (strike, _) in greeks_by_strike {
        greeks.push(cached(&format!("BTC-26JUN26-{strike}-C.DERIBIT"), 65000));
    }
    let cache = runtime_cache(deribit_instruments(), greeks);
    let ranking = rank_by_open_interest(&greeks_by_strike);

    let resolved =
        resolve_runtime_option_universe(&cache, NOW, &oi_spec, OptionUniverseVenueKind::Deribit, Some(&ranking)).unwrap();

    assert_eq!(resolved.selected_strikes, vec![price(65000), price(66000)]);
    assert_eq!(resolved.option_instrument_ids.len(), 4);
}

#[test]
fn refresh_from_cache_oi_ranked_smoothing_defers_strike_shift() {
    let oi_spec = oi_spec();
    let cache = runtime_cache(deribit_instruments(), vec![cached("BTC-26JUN26-64000-C.DERIBIT", 65000)]);
    let first_rank = rank_by_open_interest(&[
        (64000, 100.0),
        (64000, 50.0),
        (65000, 300.0),
        (65000, 200.0),
        (66000, 250.0),
        (66000, 150.0),
    ]);
    let initial_resolved =
        resolve_runtime_option_universe(&cache, NOW, &oi_spec, OptionUniverseVenueKind::Deribit, Some(&first_rank))
            .unwrap();
    assert_eq!(initial_resolved.selected_strikes, vec![price(65000), price(66000)]);
    let mut manager = manager(&oi_spec, initial_resolved, 2);

    let second_rank = rank_by_open_interest(&[
        (64000, 500.0),
        (64000, 400.0),
        (65000, 300.0),
        (65000, 200.0),
        (66000, 50.0),
        (66000, 25.0),
    ]);
    let first = refresh(&mut manager, &cache, &oi_spec, OptionUniverseVenueKind::Deribit, NOW, Some(&second_rank));
    assert!(first.is_empty());

    let second = refresh(&mut manager, &cache, &oi_spec, OptionUniverseVenueKind::Deribit, NOW, Some(&second_rank));
    assert_eq!(second.changes.len(), 1);
    assert_eq!(second.resolution_records[0].rollover_reason.as_deref(), Some("oi_rank_shift"));
    assert_eq!(
        second.changes[0].option_instrument_ids,
        ids(&[
            "BTC-26JUN26-64000-C.DERIBIT",
            "BTC-26JUN26-64000-P.DERIBIT",
            "BTC-26JUN26-65000-C.DERIBIT",
            "BTC-26JUN26-65000-P.DERIBIT",
        ])
    );
}

#[test]
fn refresh_from_cache_discovers_new_expiry_instruments_added_later() {
    let later_now: u64 = 1_782_500_000_000_000_000;
    let jul03: u64 = 1_783_036_800_000_000_000;
    let spec = spec();
    let mut cache = runtime_cache(deribit_instruments(), Vec::new());
    cache.quote_mids.push(CachedPrice {
        instrument_id: InstrumentId::from("BTC-PERPETUAL.DERIBIT"),
        price: Price { raw: 65_000 * 1_000_000_000, text: "65000.0".to_string() },
    });

    let initial_resolved =
        resolve_runtime_option_universe(&cache, NOW, &spec, OptionUniverseVenueKind::Deribit, None).unwrap();
    assert_eq!(initial_resolved.atm_reference_source.as_deref(), Some("cache_quote_mid"));
    let mut manager = manager(&spec, initial_resolved, 0);

    for strike in [64000, 65000, 66000] {
        for (suffix, kind) in [("C", OptionKind::Call), ("P", OptionKind::Put)] {
            let mut x = option(&format!("BTC-03JUL26-{strike}-{suffix}"), strike, kind);
            x.expiration_ns = Some(jul03);
            cache.option_instruments.push(x);
        }
    }

    let delta = refresh(&mut manager, &cache, &spec, OptionUniverseVenueKind::Deribit, later_now, None);

    assert_eq!(delta.changes.len(), 1);
    assert_eq!(
        delta.changes[0].added_instrument_ids,
        ids(&[
            "BTC-03JUL26-64000-C.DERIBIT",
            "BTC-03JUL26-64000-P.DERIBIT",
            "BTC-03JUL26-65000-C.DERIBIT",
            "BTC-03JUL26-65000-P.DERIBIT",
            "BTC-03JUL26-66000-C.DERIBIT",
            "BTC-03JUL26-66000-P.DERIBIT",
        ])
    );
    assert_eq!(
        delta.changes[0].removed_instrument_ids,
        ids(&[
            "BTC-26JUN26-64000-C.DERIBIT",
            "BTC-26JUN26-64000-P.DERIBIT",
            "BTC-26JUN26-65000-C.DERIBIT",
            "BTC-26JUN26-65000-P.DERIBIT",
            "BTC-26JUN26-66000-C.DERIBIT",
            "BTC-26JUN26-66000-P.DERIBIT",
        ])
    );
}

fn bybit_spec() -> OptionUniverseSpec {
    OptionUniverseSpec {
        venue_id: "bybit_main".to_string(),
        underlying: "BTC".to_string(),
        settlement_currency: Some("USDT".to_string()),
        include_perp: true,
        families: vec![
            OptionUniverseFamily::Instruments,
            OptionUniverseFamily::Quotes,
            OptionUniverseFamily::OptionGreeks,
            OptionUniverseFamily::IndexPrices,
            OptionUniverseFamily::FundingRates,
        ],
        expiry_policy: ExpiryPolicy::Nearest { days_max: 45 },
        strike_policy: StrikePolicy::AtmRelative { strikes_above: 1, strikes_below: 1 },
    }
}

#[test]
fn refresh_from_cache_supports_bybit_runtime_resolve() {
    let spec = bybit_spec();
    let mut instruments = Vec::new();
    for strike in [64000, 65000, 66000, 67000] {
        for (suffix, kind) in [("C", OptionKind::Call), ("P", OptionKind::Put)] {
            let mut x = option(&format!("BTC-26JUN26-{strike}-{suffix}"), strike, kind);
            x.instrument_id = InstrumentId::from(format!("BTC-26JUN26-{strike}-{suffix}.BYBIT").as_str());
            x.settlement_currency = "USDT".to_string();
            instruments.push(x);
        }
    }
    instruments.push(perp_info("BTCUSDT-LINEAR", "BYBIT", "USDT"));
    let mut cache = runtime_cache(instruments, vec![cached("BTC-26JUN26-64000-C.BYBIT", 65000)]);

    let initial_resolved =
        resolve_runtime_option_universe(&cache, NOW, &spec, OptionUniverseVenueKind::Bybit, None).unwrap();
    let initial_plan = expand_option_universe(&spec, &initial_resolved);
    let mut manager = DynamicOptionUniverseManager::new(DynamicOptionUniverseConfig {
        refresh_interval_secs: 60,
        strike_change_confirmations: 0,
        purge_removed_instruments: true,
        static_plan: CapturePlan::default(),
        initial_dynamic_plan: initial_plan.clone(),
        universes: vec![DynamicOptionUniverseEntryConfig {
            venue: "BYBIT".to_string(),
            venue_kind: OptionUniverseVenueKind::Bybit,
            spec: spec.clone(),
            initial_plan,
            initial_resolved: timed(initial_resolved),
        }],
    });

    cache.greeks_underlying_prices.push(cached("BTC-26JUN26-64000-C.BYBIT", 66000));
    let delta = refresh(&mut manager, &cache, &spec, OptionUniverseVenueKind::Bybit, NOW, None);

    assert_eq!(delta.changes.len(), 1);
    assert_eq!(delta.resolution_records[0].rollover_reason.as_deref(), Some("atm_drift"));
    assert_eq!(delta.changes[0].venue_id, "bybit_main");
    assert_eq!(
        delta.changes[0].added_instrument_ids,
        ids(&["BTC-26JUN26-67000-C.BYBIT", "BTC-26JUN26-67000-P.BYBIT"])
    );
    assert_eq!(
        delta.changes[0].removed_instrument_ids,
        ids(&["BTC-26JUN26-64000-C.BYBIT", "BTC-26JUN26-64000-P.BYBIT"])
    );
}

#[test]
fn runtime_resolution_reports_missing_settlement_and_cache_fallbacks() {
    let mut unsettled = bybit_spec();
    unsettled.settlement_currency = None;
    let mut options = Vec::new();
    for x in option_set() {
        let mut y = x.clone();
        y.instrument_id = InstrumentId::from(format!("{}.BYBIT", y.instrument_id.symbol).as_str());
        options.push(y);
    }
    let cache = runtime_cache(options, vec![cached("BTC-26JUN26-64000-C.BYBIT", 65000)]);
    let err = resolve_runtime_option_universe(&cache, NOW, &unsettled, OptionUniverseVenueKind::Bybit, None).unwrap_err();
    assert_eq!(
        err.message,
        "capture.option_universe venue_id=bybit_main requires settlement_currency to derive the hedge instrument"
    );

    let mut cache = runtime_cache(deribit_instruments(), Vec::new());
    cache.index_prices.push(cached("BTC-PERPETUAL.DERIBIT", 66000));
    cache.mark_prices.push(cached("BTC-PERPETUAL.DERIBIT", 64000));
    cache.mark_prices.push(cached("OTHER-PERPETUAL.DERIBIT", 1));
    let resolved = resolve_runtime_option_universe(&cache, NOW, &spec(), OptionUniverseVenueKind::Deribit, None).unwrap();
    assert_eq!(resolved.atm_reference_source.as_deref(), Some("cache_mark"));
    assert_eq!(resolved.atm_reference, price(64000));

    let err = resolve_runtime_option_universe(&cache, JUN26 + 1, &spec(), OptionUniverseVenueKind::Deribit, None)
        .unwrap_err();
    assert_eq!(err.message, "failed to determine strike reference for venue_id=deribit_main underlying=BTC");
}

#[test]
fn failed_resolution_keeps_the_universe_plan() {
    let spec = spec();
    let mut manager = manager(&spec, resolve(&spec, 65000, None), 0);
    let before = manager.active_capture_plan();
    let delta = manager.refresh_from_resolutions(vec![Err("no strike reference".to_string())]);
    assert!(delta.is_empty());
    assert!(delta.changes.is_empty());
    assert_eq!(manager.active_capture_plan(), before);
}
