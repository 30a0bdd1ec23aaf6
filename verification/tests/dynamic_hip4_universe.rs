use catalog_capture_core::dynamic_hip4_universe::{
    DynamicHip4UniverseConfig, DynamicHip4UniverseEntryConfig, DynamicHip4UniverseManager, TimedHip4Market,
};
use catalog_capture_core::hip4::{
    build_resolved_hip4_universe, compute_hip4_refresh_rollover_reason, expand_hip4_universe, refresh_resolution_record,
    validate_hip4_refresh_resolution_record, Hip4UniverseFamily, Hip4UniverseResolutionEventKind, Hip4UniverseSpec,
    ResolvedHip4Market,
};
use catalog_capture_core::plan::{capture_plan_difference, id_strings, plan_instrument_ids, CapturePlan, InstrumentId};

fn spec() -> Hip4UniverseSpec {
    Hip4UniverseSpec {
        venue_id: "hyperliquid_main".to_string(),
        underlying: "BTC".to_string(),
        period: "1d".to_string(),
        market_class: "priceBinary".to_string(),
        include_fallback: false,
        include_perp_mark: true,
        families: vec![Hip4UniverseFamily::Instruments, Hip4UniverseFamily::Quotes, Hip4UniverseFamily::MarkPrices],
    }
}

fn market(question_id: u32, outcome_id: u32, expiration_ns: u64) -> ResolvedHip4Market {
    ResolvedHip4Market {
        question_id,
        question_name: Some("Recurring".to_string()),
        market_class: Some("priceBinary".to_string()),
        underlying: Some("BTC".to_string()),
        period: Some("1d".to_string()),
        outcome_ids: vec![outcome_id],
        instrument_ids: vec![
            format!("{outcome_id}-YES-OUTCOME.HYPERLIQUID"),
            format!("{outcome_id}-NO-OUTCOME.HYPERLIQUID"),
        ],
        expiration_ns,
        start_price: None,
        price_thresholds: Vec::new(),
        description: "class:priceBinary|underlying:BTC|expiry:20260621-0600|period:1d".to_string(),
    }
}

fn ids(texts: &[&str]) -> Vec<InstrumentId> {
    let mut v: Vec<InstrumentId> = texts.iter().map(|t| InstrumentId::from(*t)).collect();
    v.sort_by_key(|id| id.to_string());
    v
}

fn sorted(mut v: Vec<InstrumentId>) -> Vec<InstrumentId> {
    v.sort_by_key(|id| id.to_string());
    v
}

#[test]
fn plan_delta_tracks_question_roll_instruments() {
    let spec = spec();
    let before = build_resolved_hip4_universe(&spec, market(55, 326, 1_781_416_800_000_000_000), 1_781_410_000_000_000_000);
    let after = build_resolved_hip4_universe(&spec, market(56, 330, 1_781_503_200_000_000_000), 1_781_417_000_000_000_000);
    let previous_plan = expand_hip4_universe(&spec, &before);
    let next_plan = expand_hip4_universe(&spec, &after);

    let add = capture_plan_difference(&next_plan, &previous_plan);
    let remove = capture_plan_difference(&previous_plan, &next_plan);
    let added = plan_instrument_ids(&add);
    let removed = plan_instrument_ids(&remove);

    assert_eq!(sorted(added.clone()), ids(&["330-YES-OUTCOME.HYPERLIQUID", "330-NO-OUTCOME.HYPERLIQUID"]));
    assert_eq!(sorted(removed.clone()), ids(&["326-YES-OUTCOME.HYPERLIQUID", "326-NO-OUTCOME.HYPERLIQUID"]));

    let rollover = compute_hip4_refresh_rollover_reason(Some(55), Some(before.market.expiration_ns), &after, true);
    assert_eq!(rollover.as_deref(), Some("question_roll"));

    let record = refresh_resolution_record(
        &spec,
        &after,
        id_strings(&added),
        id_strings(&removed),
        rollover,
        "2026-06-14T06:03:20.000000000Z".to_string(),
        "2026-06-15T06:00:00.000000000Z".to_string(),
    );
    assert_eq!(record.event_kind, Hip4UniverseResolutionEventKind::Refresh);
    assert_eq!(record.rollover_reason.as_deref(), Some("question_roll"));
    validate_hip4_refresh_resolution_record(&record).expect("refresh record should validate");
}

fn manager_with(spec: &Hip4UniverseSpec, resolved_market: ResolvedHip4Market) -> DynamicHip4UniverseManager {
    let resolved = build_resolved_hip4_universe(spec, resolved_market, 1_781_410_000_000_000_000);
    DynamicHip4UniverseManager::new(DynamicHip4UniverseConfig {
        idle_poll_secs: 1800,
        active_poll_secs: 10,
        pre_expiry_window_secs: 900,
        http_timeout_secs: 10,
        purge_removed_instruments: false,
        static_plan: CapturePlan::default(),
        initial_dynamic_plan: expand_hip4_universe(spec, &resolved),
        universes: vec![DynamicHip4UniverseEntryConfig {
            environment: "mainnet".to_string(),
            spec: spec.clone(),
            initial_plan: expand_hip4_universe(spec, &resolved),
            initial_resolved: resolved,
        }],
    })
}

#[test]
fn next_rotation_check_delay_matches_stale_quote_failure_and_idle_paths() {
    let spec = spec();
    let mut manager = manager_with(&spec, market(55, 326, 1_781_416_800_000_000_000));

    manager.last_refresh_failed = true;
    assert_eq!(
        manager.next_rotation_check_delay_secs(0),
        10,
        "failed refresh should schedule with expiration_ns=None -> active poll"
    );
    manager.last_refresh_failed = false;
    assert_eq!(manager.next_rotation_check_delay_secs(0), 1800, "successful refresh far from expiry should use idle poll");
}

#[test]
fn refresh_rolls_to_next_question_and_reports_delta() {
    let spec = spec();
    let mut manager = manager_with(&spec, market(55, 326, 1_781_416_800_000_000_000));
    let delta = manager
        .refresh_from_markets(
            vec![Ok(TimedHip4Market {
                market: market(56, 330, 1_781_503_200_000_000_000),
                resolved_at_iso8601: "2026-06-14T06:03:20.000000000Z".to_string(),
                expiration_iso8601: "2026-06-15T06:00:00.000000000Z".to_string(),
            })],
            1_781_417_000_000_000_000,
        )
        .expect("refresh succeeds");
    assert!(!delta.is_empty());
    assert_eq!(delta.changes.len(), 1);
    let change = &delta.changes[0];
    assert_eq!(change.question_id, 56);
    assert_eq!(change.previous_count, 3);
    assert_eq!(change.next_count, 3);
    assert_eq!(sorted(change.added_instrument_ids.clone()), ids(&["330-YES-OUTCOME.HYPERLIQUID", "330-NO-OUTCOME.HYPERLIQUID"]));
    assert_eq!(sorted(change.removed_instrument_ids.clone()), ids(&["326-YES-OUTCOME.HYPERLIQUID", "326-NO-OUTCOME.HYPERLIQUID"]));
    assert_eq!(delta.resolution_records.len(), 1);
    assert_eq!(delta.resolution_records[0].rollover_reason.as_deref(), Some("question_roll"));
    assert_eq!(delta.add.quotes.len(), 2);
    assert_eq!(delta.remove.quotes.len(), 2);
    assert!(!manager.last_refresh_failed);
    assert_eq!(manager.universes[0].last_question_id, 56);
}

#[test]
fn failed_refresh_keeps_plan_and_schedules_active_poll() {
    let spec = spec();
    let mut manager = manager_with(&spec, market(55, 326, 1_781_416_800_000_000_000));
    let delta = manager
        .refresh_from_markets(vec![Err("outcomeMeta unavailable".to_string())], 1_781_417_000_000_000_000)
        .expect("refresh succeeds");
    assert!(delta.is_empty());
    assert!(delta.changes.is_empty());
    assert!(manager.last_refresh_failed);
    assert_eq!(manager.next_rotation_check_delay_secs(0), 10);
    assert_eq!(manager.universes[0].last_question_id, 55);
}

#[test]
fn unchanged_market_emits_no_change() {
    let spec = spec();
    let mut manager = manager_with(&spec, market(55, 326, 1_781_416_800_000_000_000));
    let delta = manager
        .refresh_from_markets(
            vec![Ok(TimedHip4Market {
                market: market(55, 326, 1_781_416_800_000_000_000),
                resolved_at_iso8601: "2026-06-14T04:13:20.000000000Z".to_string(),
                expiration_iso8601: "2026-06-14T06:00:00.000000000Z".to_string(),
            })],
            1_781_411_000_000_000_000,
        )
        .expect("refresh succeeds");
    assert!(delta.is_empty());
    assert!(delta.changes.is_empty());
    assert!(delta.resolution_records.is_empty());
}
