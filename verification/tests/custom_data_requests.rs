use catalog_capture_core::custom_data_requests::{parse_request_timer_index, CustomDataRequestJob};
use catalog_capture_core::plan::{CustomDataRequestCaptureSpec, DataType, RequestOverlapPolicy};

fn sample_job() -> CustomDataRequestJob {
    CustomDataRequestJob::new(
        0,
        CustomDataRequestCaptureSpec {
            data_type: DataType::new("DeribitBookSummary", Some("BTC:option".to_string())),
            interval_secs: 5,
            fire_immediately: true,
            overlap_policy: RequestOverlapPolicy::Skip,
            request_timeout_secs: 10,
            client_id: Some("DERIBIT".to_string()),
        },
    )
}

#[test]
fn skip_overlap_blocks_second_fire_until_complete_or_timeout() {
    let mut job = sample_job();
    assert!(job.prepare_fire(1_000));
    assert!(!job.prepare_fire(2_000));
    assert_eq!(job.skipped_inflight, 1);
    job.complete_response(10);
    assert!(job.prepare_fire(3_000));
}

#[test]
fn timeout_clears_inflight() {
    let mut job = sample_job();
    assert!(job.prepare_fire(0));
    assert!(job.prepare_fire(10_000_000_000));
    assert_eq!(job.timeouts, 1);
}

#[test]
fn timer_name_roundtrip() {
    let job = sample_job();
    assert_eq!(job.timer_name(), "CUSTOM_DATA_REQUEST:0");
    assert_eq!(parse_request_timer_index(&job.timer_name()), Some(0));
    assert_eq!(parse_request_timer_index("OPTION_UNIVERSE_REFRESH"), None);
    assert_eq!(parse_request_timer_index("CUSTOM_DATA_REQUEST:+12"), Some(12));
    assert_eq!(parse_request_timer_index("CUSTOM_DATA_REQUEST:"), None);
    assert_eq!(parse_request_timer_index("CUSTOM_DATA_REQUEST:1x"), None);
    assert_eq!(parse_request_timer_index("CUSTOM_DATA_REQUEST:99999999999999999999999"), None);
}

#[test]
fn job_intervals_and_client_defaults() {
    let mut job = sample_job();
    assert_eq!(job.interval_ns(), 5_000_000_000);
    assert_eq!(job.request_timeout_ns(), 10_000_000_000);
    job.spec.request_timeout_secs = 0;
    assert_eq!(job.request_timeout_ns(), 15_000_000_000);
    job.spec.client_id = None;
    assert_eq!(job.client_id_str(), "DERIBIT");
    job.complete_response(u64::MAX);
    job.complete_response(5);
    assert_eq!(job.rows, u64::MAX);
    assert!(job.matches_data_type(&DataType::new("DeribitBookSummary", Some("BTC:option".to_string()))));
    assert!(!job.matches_data_type(&DataType::new("DeribitBookSummary", None)));
}
