use catalog_capture_core::segment_bounds::{
    custom_data_ts_range, custom_partition_key, disjoint_file_interval, sync_due, update_ts_bounds,
};

#[test]
fn disjoint_file_interval_advances_past_previous_end() {
    assert_eq!(disjoint_file_interval(None, 100, 100), (100, 100));
    // Same-ts snapshot split across flushes must not touch previous end.
    assert_eq!(disjoint_file_interval(Some(100), 100, 100), (101, 101));
    // Contiguous multi-poll batch that would touch (prev_end == next_start).
    assert_eq!(disjoint_file_interval(Some(200), 200, 300), (201, 300));
    // Already strictly after previous end — leave data range intact.
    assert_eq!(disjoint_file_interval(Some(100), 150, 180), (150, 180));
}

#[test]
fn disjoint_file_interval_never_ends_before_it_starts() {
    assert_eq!(disjoint_file_interval(None, 50, 40), (50, 50));
    assert_eq!(disjoint_file_interval(Some(u64::MAX), 10, 20), (u64::MAX, u64::MAX));
}

#[test]
fn ts_bounds_start_from_first_batch_and_widen() {
    let (mut lo, mut hi) = (0u64, 0u64);
    update_ts_bounds(&mut lo, &mut hi, 50, 60);
    assert_eq!((lo, hi), (50, 60));
    update_ts_bounds(&mut lo, &mut hi, 40, 55);
    assert_eq!((lo, hi), (40, 60));
    update_ts_bounds(&mut lo, &mut hi, 45, 70);
    assert_eq!((lo, hi), (40, 70));
}

#[test]
fn custom_data_ts_range_takes_min_and_max() {
    assert_eq!(custom_data_ts_range(&vec![30, 10, 20]).unwrap(), (10, 30));
    assert_eq!(
        custom_data_ts_range(&vec![]).unwrap_err().message(),
        "cannot derive timestamp range from empty custom-data batch"
    );
}

#[test]
fn custom_partition_key_joins_type_and_identifier() {
    assert_eq!(custom_partition_key("HyperliquidOpenInterest", Some("BTC")), "HyperliquidOpenInterest/BTC");
    assert_eq!(custom_partition_key("DeribitVolatilityIndex", None), "DeribitVolatilityIndex");
}

#[test]
fn sync_is_due_after_interval() {
    assert!(!sync_due(0, 10_000, 0));
    assert!(!sync_due(1_000, 1_500, 1_000));
    assert!(sync_due(1_000, 2_000, 1_000));
    assert!(!sync_due(1_000, 500, 1_000));
}
