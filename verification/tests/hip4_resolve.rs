use catalog_capture_core::hip4_resolve::{
    expiry_slicing_would_panic, parse_expiry_to_ns, payload_parse_is_safe, resolve_hip4_market, OutcomeMetaOutcome, OutcomeMetaPayload, OutcomeMetaQuestion,
    ResolveHip4MarketOptions,
};

fn question(id: u64, description: &str, named: Vec<u64>, fallback: u64) -> OutcomeMetaQuestion {
    OutcomeMetaQuestion {
        question: Some(id),
        name: Some("Recurring".to_string()),
        description: Some(description.to_string()),
        named_outcomes: Some(named.into_iter().map(Some).collect()),
        fallback_outcome: Some(fallback),
    }
}

fn options(now_ns: u64, include_fallback: bool) -> ResolveHip4MarketOptions<'static> {
    ResolveHip4MarketOptions {
        underlying: "BTC",
        period: "1d",
        market_class: "priceBinary",
        include_fallback,
        now_ns,
    }
}

fn payload() -> OutcomeMetaPayload {
    OutcomeMetaPayload {
        questions: Some(vec![
            question(55, "class:priceBinary|underlying:BTC|expiry:20260614-0600|period:1d", vec![326], 325),
            question(56, "class:priceBinary|underlying:BTC|expiry:20260615-0600|period:1d", vec![330], 329),
        ]),
        outcomes: None,
    }
}

#[test]
fn parse_expiry_wall_clock_utc() {
    let ns = parse_expiry_to_ns("20260614-0600").expect("expiry should parse");
    assert_eq!(ns, 1_781_416_800_000_000_000);
}

#[test]
fn parse_expiry_accepts_epoch_units_and_rejects_garbage() {
    assert_eq!(parse_expiry_to_ns("1781416800"), Some(1_781_416_800_000_000_000));
    assert_eq!(parse_expiry_to_ns("1781416800000"), Some(1_781_416_800_000_000_000));
    assert_eq!(parse_expiry_to_ns(" 1781416800000000000 "), Some(1_781_416_800_000_000_000));
    assert_eq!(parse_expiry_to_ns("99999999999999999999"), None);
    assert_eq!(parse_expiry_to_ns("12345"), None);
    assert_eq!(parse_expiry_to_ns(""), None);
    assert_eq!(parse_expiry_to_ns("20260230-0600"), None);
    assert_eq!(parse_expiry_to_ns("20260614-2400"), None);
    assert_eq!(parse_expiry_to_ns("2026061406000"), Some(2_026_061_406_000_000_000));
    assert_eq!(parse_expiry_to_ns("20260614x0600"), None);
}

#[test]
fn resolve_selects_nearest_future_question() {
    let payload = payload();
    let before = resolve_hip4_market(&payload, &options(parse_expiry_to_ns("20260614-0559").unwrap_or(0), false))
        .expect("market should resolve");
    let after = resolve_hip4_market(
        &payload,
        &options(parse_expiry_to_ns("20260614-0600").unwrap_or(0) + 5_000_000_000, false),
    )
    .expect("market should resolve");
    assert_eq!(before.question_id, 55);
    assert_eq!(after.question_id, 56);
}

#[test]
fn resolved_market_carries_description_fields_and_outcomes() {
    let market = resolve_hip4_market(&payload(), &options(0, true)).expect("market should resolve");
    assert_eq!(market.question_id, 55);
    assert_eq!(market.outcome_ids, vec![326, 325]);
    assert_eq!(market.instrument_ids.len(), 4);
    assert_eq!(market.underlying.as_deref(), Some("BTC"));
    assert_eq!(market.period.as_deref(), Some("1d"));
    assert_eq!(market.market_class.as_deref(), Some("priceBinary"));
    assert_eq!(market.expiration_ns, 1_781_416_800_000_000_000);
    assert_eq!(market.start_price, None);
}

#[test]
fn past_markets_fall_back_to_latest_expiry() {
    let market = resolve_hip4_market(&payload(), &options(u64::MAX, false)).expect("market should resolve");
    assert_eq!(market.question_id, 56);
}

#[test]
fn no_matching_market_is_an_error() {
    let opts = ResolveHip4MarketOptions { underlying: "ETH", period: "1d", market_class: "priceBinary", include_fallback: false, now_ns: 0 };
    let err = resolve_hip4_market(&payload(), &opts).expect_err("no ETH market");
    assert_eq!(
        err.message(),
        "no HIP-4 market found for underlying=\"ETH\", period=\"1d\", market_class=\"priceBinary\""
    );
}

#[test]
fn outcome_entries_are_candidates_and_thresholds_are_read() {
    let payload = OutcomeMetaPayload {
        questions: None,
        outcomes: Some(vec![OutcomeMetaOutcome {
            outcome: Some(900),
            name: None,
            description: Some(
                "class:priceBinary|underlying:BTC|period:1d|targetPrice:65000.5|priceThresholds:60000, x ,70000".to_string(),
            ),
        }]),
    };
    let market = resolve_hip4_market(&payload, &options(0, false)).expect("outcome market resolves");
    assert_eq!(market.question_id, 900);
    assert_eq!(market.outcome_ids, vec![900]);
    assert_eq!(market.expiration_ns, 0);
    assert_eq!(market.start_price.map(|d| d.to_string()), Some("65000.5".to_string()));
    assert_eq!(market.price_thresholds.len(), 2);
}

#[test]
fn start_price_follows_key_precedence_and_thresholds_keep_order() {
    let payload = OutcomeMetaPayload {
        questions: None,
        outcomes: Some(vec![OutcomeMetaOutcome {
            outcome: Some(901),
            name: None,
            description: Some(
                "class:priceBinary|underlying:BTC|period:1d|strike:1|startPrice:2.5|targetPrice:abc|priceThresholds:70000,60000".to_string(),
            ),
        }]),
    };
    let market = resolve_hip4_market(&payload, &options(0, false)).expect("outcome market resolves");
    assert_eq!(market.start_price.map(|d| d.to_string()), Some("2.5".to_string()));
    let thresholds: Vec<String> = market.price_thresholds.iter().map(|d| d.to_string()).collect();
    assert_eq!(thresholds, vec!["70000".to_string(), "60000".to_string()]);
}

#[test]
fn expiry_slicing_inside_a_character_is_detected() {
    assert!(expiry_slicing_would_panic("202\u{e9}614-0600"));
    assert!(expiry_slicing_would_panic(" 202\u{e9}614-0600 "));
    assert!(!expiry_slicing_would_panic("20260614-0600"));
    assert!(!expiry_slicing_would_panic("2026\u{e9}14-0600"));
    assert!(!expiry_slicing_would_panic("1781416800"));
    assert!(!expiry_slicing_would_panic(""));
    assert!(!expiry_slicing_would_panic("202\u{e9}614x0600"));
}

#[test]
fn payload_parse_safety_looks_only_at_matching_entries() {
    assert!(payload_parse_is_safe(&payload(), &options(0, false)));
    let unsafe_matching = OutcomeMetaPayload {
        questions: Some(vec![question(
            57,
            "class:priceBinary|underlying:BTC|expiry:202\u{e9}614-0600|period:1d",
            vec![331],
            330,
        )]),
        outcomes: None,
    };
    assert!(!payload_parse_is_safe(&unsafe_matching, &options(0, false)));
    let other_underlying = OutcomeMetaPayload {
        questions: Some(vec![question(
            58,
            "class:priceBinary|underlying:ETH|expiry:202\u{e9}614-0600|period:1d",
            vec![332],
            331,
        )]),
        outcomes: Some(vec![OutcomeMetaOutcome {
            outcome: Some(902),
            name: None,
            description: Some("class:priceBinary|underlying:BTC|period:1d|expiry:202\u{e9}614-0600".to_string()),
        }]),
    };
    assert!(!payload_parse_is_safe(&other_underlying, &options(0, false)));
    let only_other = OutcomeMetaPayload { questions: other_underlying.questions.clone(), outcomes: None };
    assert!(payload_parse_is_safe(&only_other, &options(0, false)));
}
