use catalog_capture_core::advisories::{capture_advisories, CHUNKED_CUSTOM_DATA_ADVISORY};
use catalog_capture_core::plan::{CapturePlan, CustomDataRequestCaptureSpec, DataType, RequestOverlapPolicy};
use catalog_capture_core::{CaptureConfig, LifecycleConfig, LifecycleMode};

fn sample_book_summary_request() -> CustomDataRequestCaptureSpec {
    CustomDataRequestCaptureSpec {
        data_type: DataType::new("DeribitBookSummary", None),
        interval_secs: 1,
        fire_immediately: true,
        overlap_policy: RequestOverlapPolicy::Skip,
        request_timeout_secs: 5,
        client_id: None,
    }
}

fn config_with(mode: LifecycleMode) -> CaptureConfig {
    CaptureConfig { lifecycle: LifecycleConfig { mode, ..LifecycleConfig::default() }, ..CaptureConfig::default() }
}

#[test]
fn no_advisory_when_segment_and_custom() {
    let plan = CapturePlan { custom_data_requests: vec![sample_book_summary_request()], ..CapturePlan::default() };
    assert!(capture_advisories(&config_with(LifecycleMode::Segment), &plan).is_empty());
}

#[test]
fn advisory_when_chunked_and_custom_request() {
    let plan = CapturePlan { custom_data_requests: vec![sample_book_summary_request()], ..CapturePlan::default() };
    let advisories = capture_advisories(&config_with(LifecycleMode::Chunked), &plan);
    assert_eq!(advisories.len(), 1);
    assert!(advisories[0].contains("smoke"));
    assert!(advisories[0].contains("segment"));
    assert_eq!(advisories[0], CHUNKED_CUSTOM_DATA_ADVISORY);
}

#[test]
fn no_advisory_on_production_defaults_with_custom() {
    let plan = CapturePlan { custom_data_requests: vec![sample_book_summary_request()], ..CapturePlan::default() };
    assert!(capture_advisories(&CaptureConfig::default(), &plan).is_empty());
}

#[test]
fn no_advisory_when_chunked_but_no_custom() {
    assert!(capture_advisories(&config_with(LifecycleMode::Chunked), &CapturePlan::default()).is_empty());
}
