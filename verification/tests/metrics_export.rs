use catalog_capture_core::metrics::CaptureMetrics;
use catalog_capture_core::metrics_export::{
    render_prometheus, CaptureMetricsSnapshot, CustomDataRequestJobMetrics, FamilyCaptureMetrics,
};

#[test]
fn prometheus_includes_key_soak_gauges() {
    let snapshot = CaptureMetricsSnapshot {
        captured_at_unix_ms: 1_700_000_000_000,
        enabled_background_workers: 2,
        process_rss_bytes: Some(128 * 1024 * 1024),
        aggregated: CaptureMetrics {
            dropped_items: 3,
            active_partitions: 4,
            queued_items: 5,
            buffered_bytes: 6,
            ..CaptureMetrics::default()
        },
        families: vec![FamilyCaptureMetrics {
            family: "quotes".to_string(),
            metrics: CaptureMetrics { accepted_items: 10, ..CaptureMetrics::default() },
        }],
        custom_data_requests: Vec::new(),
    };

    let body = render_prometheus(&snapshot);
    assert!(body.contains("catalog_capture_dropped_items_total 3"));
    assert!(body.contains("catalog_capture_active_partitions 4"));
    assert!(body.contains("catalog_capture_queued_items 5"));
    assert!(body.contains(r#"catalog_capture_accepted_items_total{family="quotes"} 10"#));
    assert!(body.contains("catalog_capture_process_rss_bytes"));
}

#[test]
fn prometheus_includes_custom_data_request_counters() {
    let snapshot = CaptureMetricsSnapshot {
        custom_data_requests: vec![CustomDataRequestJobMetrics {
            index: 0,
            type_label: "DeribitBookSummary".to_string(),
            identifier: Some("BTC:option".to_string()),
            in_flight: true,
            polls: 7,
            rows: 100,
            skipped_inflight: 2,
            timeouts: 1,
        }],
        ..CaptureMetricsSnapshot::default()
    };
    let body = render_prometheus(&snapshot);
    assert!(body.contains("catalog_capture_custom_data_request_polls_total 7"));
    assert!(body.contains("catalog_capture_custom_data_request_rows_total 100"));
    assert!(body.contains("catalog_capture_custom_data_request_skipped_inflight_total 2"));
    assert!(body.contains("catalog_capture_custom_data_request_timeouts_total 1"));
    assert!(body.contains(
        r#"catalog_capture_custom_data_request_polls_total{index="0",type_name="DeribitBookSummary",id="BTC:option"} 7"#
    ));
    assert!(body.contains(
        r#"catalog_capture_custom_data_request_in_flight{index="0",type_name="DeribitBookSummary",id="BTC:option"} 1"#
    ));
}

#[test]
fn prometheus_info_line_and_flush_reason_labels() {
    let mut metrics = CaptureMetrics::default();
    metrics.flush_reasons.seal = 4;
    let snapshot = CaptureMetricsSnapshot {
        captured_at_unix_ms: 42,
        families: vec![FamilyCaptureMetrics { family: "a\"b\\c".to_string(), metrics }],
        ..CaptureMetricsSnapshot::default()
    };
    let body = render_prometheus(&snapshot);
    assert!(body.contains("catalog_capture_info {captured_at_unix_ms=\"42\"}\" 1\n"));
    assert!(body.contains("catalog_capture_flush_reasons_total{reason=\"rows\"} 0\n"));
    assert!(body.contains("catalog_capture_flush_reasons_total{family=\"a\\\"b\\\\c\",reason=\"seal\"} 4\n"));
    assert!(!body.contains("catalog_capture_process_rss_bytes 0"));
    assert!(!body.contains("catalog_capture_custom_data_request_polls_total 0"));
}
