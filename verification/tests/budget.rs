use catalog_capture_core::budget::{
    estimate_peak_buffered_bytes, family_partition_counts, format_budget_warning, format_buffer_estimate,
    validate_capture_config,
};
use catalog_capture_core::plan::{CapturePlan, InstrumentId, QuoteCaptureSpec, TradeCaptureSpec};
use catalog_capture_core::CaptureConfig;

#[test]
fn estimate_caps_per_family_total() {
    let plan = CapturePlan {
        quotes: vec![
            QuoteCaptureSpec { instrument_id: InstrumentId::from("A.BINANCE") },
            QuoteCaptureSpec { instrument_id: InstrumentId::from("B.BINANCE") },
        ],
        trades: vec![TradeCaptureSpec { instrument_id: InstrumentId::from("A.BINANCE") }],
        ..CapturePlan::default()
    };
    let config = CaptureConfig {
        max_buffer_bytes: 32 * 1024 * 1024,
        max_total_buffer_bytes: 48 * 1024 * 1024,
        max_active_partitions: 64,
        ..CaptureConfig::default()
    };
    let estimate = estimate_peak_buffered_bytes(&plan, &config);
    assert_eq!(estimate.enabled_family_runtimes, 3);
    assert_eq!(estimate.total_peak_buffered_bytes, (48 + 48 + 32) * 1024 * 1024);
}

#[test]
fn family_partition_counts_ignore_empty_families() {
    let plan = CapturePlan {
        quotes: vec![QuoteCaptureSpec { instrument_id: InstrumentId::from_str("ETHUSDT-PERP.BINANCE").unwrap() }],
        ..CapturePlan::default()
    };
    let counts = family_partition_counts(&plan);
    assert_eq!(counts, vec![("instruments", 1), ("quotes", 1)]);
}

#[test]
fn estimate_text_lists_families_in_mib() {
    let plan = CapturePlan {
        quotes: vec![QuoteCaptureSpec { instrument_id: InstrumentId::from("A.BINANCE") }],
        ..CapturePlan::default()
    };
    let config = CaptureConfig {
        max_buffer_bytes: 3 * 1024 * 1024,
        max_total_buffer_bytes: 2 * 1024 * 1024,
        ..CaptureConfig::default()
    };
    let estimate = estimate_peak_buffered_bytes(&plan, &config);
    assert_eq!(
        format_buffer_estimate(&estimate),
        "capture buffer estimate: 4 MiB peak across 2 family runtime(s) (max_buffer_bytes per partition, max_total_buffer_bytes per family)\n  - instruments: 1 partition(s), capped_peak=2 MiB (naive=3 MiB)\n  - quotes: 1 partition(s), capped_peak=2 MiB (naive=3 MiB)"
    );
    assert_eq!(
        format_budget_warning(&estimate, 1024 * 1024),
        "WARNING: estimated peak capture buffers (4194304 bytes, ~4 MiB) exceed runtime.resource_budget_bytes (1048576 bytes, ~1 MiB). Reduce capture breadth, lower output.max_buffer_bytes / output.max_active_partitions, or raise runtime.resource_budget_bytes."
    );
}

#[test]
fn validate_capture_config_names_first_zero_limit() {
    assert!(validate_capture_config(&CaptureConfig::default()).is_ok());
    let e = validate_capture_config(&CaptureConfig { max_buffer_bytes: 0, max_total_buffer_bytes: 0, ..CaptureConfig::default() })
        .unwrap_err();
    assert_eq!(e.message(), "output.max_buffer_bytes must be greater than zero");
    let e = validate_capture_config(&CaptureConfig { max_total_buffer_bytes: 0, ..CaptureConfig::default() }).unwrap_err();
    assert_eq!(e.message(), "output.max_total_buffer_bytes must be greater than zero");
    let e = validate_capture_config(&CaptureConfig { max_active_partitions: 0, ..CaptureConfig::default() }).unwrap_err();
    assert_eq!(e.message(), "output.max_active_partitions must be greater than zero");
}
