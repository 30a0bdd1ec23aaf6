use catalog_capture_core::capture_run::{
    new_capture_run_record, CaptureRunInput, CaptureRunPlanSummary, CaptureRunVenueRecord, CAPTURE_RUN_SCHEMA_VERSION,
};
use catalog_capture_core::plan::{CapturePlan, InstrumentId, QuoteCaptureSpec};

#[test]
fn capture_run_record_keeps_inputs_and_summarises_plan() {
    let plan = CapturePlan {
        quotes: vec![QuoteCaptureSpec { instrument_id: InstrumentId::from("A.X") }],
        ..CapturePlan::default()
    };
    let record = new_capture_run_record(
        CaptureRunInput {
            node_name: "NODE-1".to_string(),
            catalog_uri: "file:///tmp/catalog".to_string(),
            layout_compatibility: "rust_canonical_only".to_string(),
            capture_seconds: 30,
            venues: vec![CaptureRunVenueRecord { id: "deribit_main".to_string(), kind: "deribit".to_string() }],
            plan: &plan,
            option_universe_count: 1,
            hip4_universe_count: 0,
            nautilus_trader_ref: Some("abc123".to_string()),
            cli_venue_features: vec!["venue-deribit".to_string()],
        },
        1_700_000_000_000,
    );
    assert_eq!(record.schema_version, CAPTURE_RUN_SCHEMA_VERSION);
    assert_eq!(record.written_at_unix_ms, 1_700_000_000_000);
    assert_eq!(record.node_name, "NODE-1");
    assert_eq!(record.venues[0].kind, "deribit");
    assert_eq!(record.nautilus_trader_ref.as_deref(), Some("abc123"));
    assert_eq!(record.plan, CaptureRunPlanSummary { quotes: 1, ..CaptureRunPlanSummary::default() });
}
