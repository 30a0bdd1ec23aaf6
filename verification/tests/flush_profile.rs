use catalog_capture_core::{
    capture_config_for_family, family_row_group_rows, family_row_threshold, CaptureConfig, CaptureFlushFamily,
    LifecycleConfig, LifecycleMode, SegmentLifecycleConfig,
};

fn segment_base(row_group_rows: usize) -> CaptureConfig {
    CaptureConfig {
        flush_rows: 1_000,
        lifecycle: LifecycleConfig {
            mode: LifecycleMode::Segment,
            segment: SegmentLifecycleConfig { row_group_rows },
            ..LifecycleConfig::default()
        },
        ..CaptureConfig::default()
    }
}

#[test]
fn book_deltas_use_20k_when_global_mid_range() {
    let base = segment_base(2_000);
    assert_eq!(family_row_threshold(&base, CaptureFlushFamily::BookDeltas), 20_000);
}

#[test]
fn book_deltas_respect_higher_operator_cap() {
    let base = segment_base(40_000);
    assert_eq!(family_row_threshold(&base, CaptureFlushFamily::BookDeltas), 40_000);
}

#[test]
fn custom_data_is_one_book_summary_poll_not_20k() {
    let base = segment_base(20_000);
    assert_eq!(family_row_threshold(&base, CaptureFlushFamily::CustomData), 1_000);
}

#[test]
fn custom_row_group_packs_many_polls_not_one() {
    let base = segment_base(20_000);
    assert_eq!(family_row_group_rows(&base, CaptureFlushFamily::CustomData), 50_000);
    assert!(
        family_row_group_rows(&base, CaptureFlushFamily::CustomData)
            > family_row_threshold(&base, CaptureFlushFamily::CustomData)
    );
}

#[test]
fn sparse_marks_do_not_inherit_20k() {
    let base = segment_base(20_000);
    assert_eq!(family_row_threshold(&base, CaptureFlushFamily::MarkPrices), 100);
}

#[test]
fn smoke_configs_are_not_inflated() {
    let base = segment_base(50);
    assert_eq!(family_row_threshold(&base, CaptureFlushFamily::BookDeltas), 50);
    assert_eq!(family_row_threshold(&base, CaptureFlushFamily::CustomData), 50);
    assert_eq!(family_row_group_rows(&base, CaptureFlushFamily::CustomData), 50);
}

#[test]
fn capture_config_for_family_decouples_custom_flush_and_row_group() {
    let base = segment_base(2_000);
    let cfg = capture_config_for_family(&base, CaptureFlushFamily::CustomData);
    assert_eq!(cfg.flush_rows, 1_000);
    assert_eq!(cfg.lifecycle.segment.row_group_rows, 50_000);
}
