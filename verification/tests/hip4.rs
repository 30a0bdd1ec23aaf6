use catalog_capture_core::hip4::{
    build_resolved_hip4_universe, compute_hip4_refresh_rollover_reason, expand_hip4_universe, hip4_perp_instrument_id,
    instrument_ids_from_outcomes, next_rotation_delay_secs, refresh_resolution_record, startup_resolution_record,
    validate_hip4_refresh_resolution_record, validate_hip4_refresh_rollover_reason, Hip4UniverseFamily,
    Hip4UniverseResolutionEventKind, Hip4UniverseSpec, ResolvedHip4Market, ONE_BILLION,
};

#[test]
fn uses_idle_poll_when_far_from_expiry() {
    let delay = next_rotation_delay_secs(0, Some(7_200 * ONE_BILLION), 1800, 10, 900);
    assert_eq!(delay, 1800);
}

#[test]
fn caps_idle_poll_to_fast_window_start() {
    let delay = next_rotation_delay_secs(1_000 * ONE_BILLION, Some(1_500 * ONE_BILLION), 1800, 10, 300);
    assert_eq!(delay, 200);
}

#[test]
fn uses_active_poll_near_and_after_expiry() {
    let near = next_rotation_delay_secs(1_250 * ONE_BILLION, Some(1_500 * ONE_BILLION), 1800, 10, 300);
    let post = next_rotation_delay_secs(1_620 * ONE_BILLION, Some(1_500 * ONE_BILLION), 1800, 10, 300);
    assert_eq!(near, 10);
    assert_eq!(post, 10);
}

#[test]
fn uses_active_poll_when_expiry_unknown() {
    let delay = next_rotation_delay_secs(0, None, 1800, 10, 900);
    assert_eq!(delay, 10);
}

#[test]
fn rotation_delay_is_at_least_one_second() {
    assert_eq!(next_rotation_delay_secs(0, None, 0, 0, 0), 1);
    assert_eq!(next_rotation_delay_secs(0, Some(0), 0, 0, 0), 1);
    assert_eq!(next_rotation_delay_secs(999_999_999, Some(1_000_000_000), 1800, 10, 0), 1);
}

#[test]
fn validate_hip4_refresh_rollover_reason_accepts_known_values() {
    for reason in ["question_roll", "expiry_roll"] {
        validate_hip4_refresh_rollover_reason(reason).expect(reason);
    }
}

#[test]
fn validate_hip4_refresh_rollover_reason_rejects_unknown_values() {
    let err = validate_hip4_refresh_rollover_reason("atm_drift").expect_err("unknown reason");
    assert!(err.message().contains("rollover_reason unexpected"));
    assert_eq!(
        err.message(),
        "HIP-4 refresh rollover_reason unexpected: got \"atm_drift\", expected one of [\"question_roll\", \"expiry_roll\"]"
    );
}

#[test]
fn instrument_ids_expand_yes_no_pairs() {
    assert_eq!(
        instrument_ids_from_outcomes(&[326]),
        vec!["326-YES-OUTCOME.HYPERLIQUID".to_string(), "326-NO-OUTCOME.HYPERLIQUID".to_string()]
    );
}

#[test]
fn perp_instrument_id_of_underlying() {
    assert_eq!(hip4_perp_instrument_id("BTC"), "BTC-USD-PERP.HYPERLIQUID");
}

fn sample_spec(include_perp_mark: bool, families: Vec<Hip4UniverseFamily>) -> Hip4UniverseSpec {
    Hip4UniverseSpec {
        venue_id: "hl_main".to_string(),
        underlying: "BTC".to_string(),
        period: "1d".to_string(),
        market_class: "priceBinary".to_string(),
        include_fallback: false,
        include_perp_mark,
        families,
    }
}

fn sample_market(question_id: u32, expiration_ns: u64) -> ResolvedHip4Market {
    ResolvedHip4Market {
        question_id,
        question_name: Some("Recurring".to_string()),
        market_class: Some("priceBinary".to_string()),
        underlying: Some("BTC".to_string()),
        period: Some("1d".to_string()),
        outcome_ids: vec![326],
        instrument_ids: instrument_ids_from_outcomes(&[326]),
        expiration_ns,
        start_price: None,
        price_thresholds: Vec::new(),
        description: "class:priceBinary|underlying:BTC".to_string(),
    }
}

#[test]
fn resolved_universe_puts_perp_first_and_expands_families() {
    let spec = sample_spec(
        true,
        vec![Hip4UniverseFamily::Instruments, Hip4UniverseFamily::Quotes, Hip4UniverseFamily::MarkPrices],
    );
    let resolved = build_resolved_hip4_universe(&spec, sample_market(55, 10), 7);
    assert_eq!(resolved.resolved_at_ns, 7);
    assert_eq!(resolved.outcome_instrument_ids.len(), 2);
    assert_eq!(resolved.all_instrument_ids.len(), 3);
    assert_eq!(resolved.all_instrument_ids[0].to_string(), "BTC-USD-PERP.HYPERLIQUID");

    let plan = expand_hip4_universe(&spec, &resolved);
    assert_eq!(plan.instruments.len(), 3);
    assert_eq!(plan.quotes.len(), 2);
    assert_eq!(plan.mark_prices.len(), 1);
    assert!(plan.trades.is_empty());
}

#[test]
fn hip4_rollover_reason_prefers_question_roll() {
    let spec = sample_spec(false, vec![Hip4UniverseFamily::Quotes]);
    let resolved = build_resolved_hip4_universe(&spec, sample_market(56, 20), 7);
    assert_eq!(compute_hip4_refresh_rollover_reason(Some(55), Some(10), &resolved, true).as_deref(), Some("question_roll"));
    assert_eq!(compute_hip4_refresh_rollover_reason(Some(56), Some(10), &resolved, true).as_deref(), Some("expiry_roll"));
    assert_eq!(compute_hip4_refresh_rollover_reason(Some(56), Some(20), &resolved, true), None);
    assert_eq!(compute_hip4_refresh_rollover_reason(Some(55), Some(10), &resolved, false), None);
}

#[test]
fn refresh_record_validation_requires_refresh_and_changes() {
    let spec = sample_spec(false, vec![Hip4UniverseFamily::Quotes]);
    let resolved = build_resolved_hip4_universe(&spec, sample_market(56, 20), 7);
    let startup = startup_resolution_record(&spec, &resolved, vec![], vec![], "t0".to_string(), "t1".to_string());
    assert_eq!(startup.event_kind, Hip4UniverseResolutionEventKind::Startup);
    assert_eq!(
        validate_hip4_refresh_resolution_record(&startup).unwrap_err().message(),
        "HIP-4 refresh validation expected refresh event"
    );

    let empty = refresh_resolution_record(&spec, &resolved, vec![], vec![], None, "t0".to_string(), "t1".to_string());
    assert_eq!(
        validate_hip4_refresh_resolution_record(&empty).unwrap_err().message(),
        "HIP-4 refresh metadata for hl_main:BTC should include added or removed instruments"
    );

    let bad_reason = refresh_resolution_record(
        &spec,
        &resolved,
        vec!["x".to_string()],
        vec![],
        Some("atm_drift".to_string()),
        "t0".to_string(),
        "t1".to_string(),
    );
    assert!(validate_hip4_refresh_resolution_record(&bad_reason).unwrap_err().message().contains("rollover_reason unexpected"));

    let good = refresh_resolution_record(
        &spec,
        &resolved,
        vec!["x".to_string()],
        vec![],
        Some("question_roll".to_string()),
        "t0".to_string(),
        "t1".to_string(),
    );
    validate_hip4_refresh_resolution_record(&good).expect("valid refresh record");
    assert_eq!(good.outcome_instrument_ids, instrument_ids_from_outcomes(&[326]));
    assert_eq!(good.question_id, 56);
}
