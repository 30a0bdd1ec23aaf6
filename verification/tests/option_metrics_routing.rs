use catalog_capture_core::option_metrics_routing::{
    apply_change_routing, option_id_parts, snapshot_due, snapshot_interval_ns, UniverseRouting,
};

fn strings(values: &[&str]) -> Vec<String> {
    values.iter().map(|v| v.to_string()).collect()
}

#[test]
fn parse_option_id_supports_deribit_bybit_and_okx() {
    let parse = |id: &str| {
        option_id_parts(id).map(|p| (p.expiry, p.strike_text.parse::<f64>().unwrap(), p.option_type))
    };
    assert_eq!(parse("BTC-20JUN26-62500-C.DERIBIT"), Some(("20JUN26".to_string(), 62500.0, 'C')));
    assert_eq!(parse("BTC-20JUN26-62500-P-USDT-OPTION.BYBIT"), Some(("20JUN26".to_string(), 62500.0, 'P')));
    assert_eq!(parse("BTC-USD-260620-62500-C.OKX"), Some(("260620".to_string(), 62500.0, 'C')));
}

#[test]
fn option_id_parts_rejects_identifiers_without_option_type() {
    assert_eq!(option_id_parts("BTC-PERPETUAL.DERIBIT"), None);
    assert_eq!(option_id_parts("C-P.VENUE"), None);
    assert_eq!(option_id_parts(""), None);
    let parts = option_id_parts("ETH-27DEC25-4000-P").unwrap();
    assert_eq!(parts.expiry, "27DEC25");
    assert_eq!(parts.strike_text, "4000");
    assert_eq!(parts.option_type, 'P');
}

#[test]
fn routing_tracks_universes_per_instrument() {
    let mut routing = UniverseRouting::new();
    assert_eq!(routing.universes_for("BTC-PERPETUAL.DERIBIT"), None);
    routing.route("BTC-PERPETUAL.DERIBIT", 0);
    routing.route("BTC-PERPETUAL.DERIBIT", 1);
    routing.route("BTC-20JUN26-62500-C.DERIBIT", 1);
    assert_eq!(routing.universes_for("BTC-PERPETUAL.DERIBIT"), Some(vec![0, 1]));
    assert_eq!(routing.universes_for("BTC-20JUN26-62500-C.DERIBIT"), Some(vec![1]));
    routing.unroute("BTC-PERPETUAL.DERIBIT", 0);
    assert_eq!(routing.universes_for("BTC-PERPETUAL.DERIBIT"), Some(vec![1]));
    routing.unroute("BTC-PERPETUAL.DERIBIT", 1);
    assert_eq!(routing.universes_for("BTC-PERPETUAL.DERIBIT"), None);
    routing.unroute("UNKNOWN", 3);
    assert_eq!(routing.universes_for("BTC-20JUN26-62500-C.DERIBIT"), Some(vec![1]));
}

#[test]
fn universe_change_reroutes_removed_perp_and_new_options() {
    let mut routing = UniverseRouting::new();
    routing.route("BTC-PERPETUAL.DERIBIT", 0);
    routing.route_all(&strings(&["BTC-20JUN26-62000-C.DERIBIT", "BTC-20JUN26-62000-P.DERIBIT"]), 0);
    routing.route("BTC-20JUN26-62000-C.DERIBIT", 2);

    let perp = apply_change_routing(
        &mut routing,
        0,
        &strings(&["BTC-20JUN26-62000-C.DERIBIT", "BTC-20JUN26-62000-P.DERIBIT"]),
        "BTC-PERPETUAL.DERIBIT",
        Some("BTC_USDC-PERPETUAL.DERIBIT"),
        &strings(&["BTC-27JUN26-63000-C.DERIBIT"]),
    );
    assert_eq!(perp, "BTC_USDC-PERPETUAL.DERIBIT");
    assert_eq!(routing.universes_for("BTC-PERPETUAL.DERIBIT"), None);
    assert_eq!(routing.universes_for("BTC_USDC-PERPETUAL.DERIBIT"), Some(vec![0]));
    assert_eq!(routing.universes_for("BTC-20JUN26-62000-C.DERIBIT"), Some(vec![2]));
    assert_eq!(routing.universes_for("BTC-20JUN26-62000-P.DERIBIT"), None);
    assert_eq!(routing.universes_for("BTC-27JUN26-63000-C.DERIBIT"), Some(vec![0]));

    let same = apply_change_routing(&mut routing, 0, &Vec::new(), "BTC_USDC-PERPETUAL.DERIBIT", None, &Vec::new());
    assert_eq!(same, "BTC_USDC-PERPETUAL.DERIBIT");
    assert_eq!(routing.universes_for("BTC_USDC-PERPETUAL.DERIBIT"), Some(vec![0]));
}

#[test]
fn snapshot_cadence_is_at_least_one_second() {
    assert_eq!(snapshot_interval_ns(0), 1_000_000_000);
    assert_eq!(snapshot_interval_ns(5), 5_000_000_000);
    assert!(snapshot_due(None, 0, 1_000_000_000));
    assert!(!snapshot_due(Some(1_000_000_001), 1_000_000_003, 1_000_000_000));
    assert!(snapshot_due(Some(1_000_000_001), 2_000_000_004, 1_000_000_000));
    assert!(!snapshot_due(Some(5), 3, 1));
}
