use catalog_capture_core::{
    estimated_row_groups, min_row_group_rows_for_day, CLOUD_BOOK_SUMMARY_POLL_ROWS, CLOUD_BOOK_SUMMARY_ROWS_PER_SEC,
    CUSTOM_MEMORY_FLUSH_ROWS, CUSTOM_ROW_GROUP_ROWS, DEFAULT_SEAL_INTERVAL_SECS, PARQUET_MAX_ROW_GROUPS,
    ROW_GROUP_ROLL_THRESHOLD,
};

#[test]
fn hard_limit_is_parquet_i16_max_matching_cloud_error() {
    assert_eq!(PARQUET_MAX_ROW_GROUPS, 32_767);
    assert_eq!(PARQUET_MAX_ROW_GROUPS, i16::MAX as usize);
    assert_eq!(PARQUET_MAX_ROW_GROUPS + 1, 32_768);
}

#[test]
fn soft_roll_is_hard_limit_minus_fixed_headroom() {
    assert_eq!(ROW_GROUP_ROLL_THRESHOLD, 30_000);
    assert_eq!(PARQUET_MAX_ROW_GROUPS - ROW_GROUP_ROLL_THRESHOLD, 2_767);
    assert!(PARQUET_MAX_ROW_GROUPS - ROW_GROUP_ROLL_THRESHOLD > 100);
}

#[test]
fn small_custom_row_group_still_blows_day_without_capacity_roll() {
    let day_rgs = estimated_row_groups(
        CLOUD_BOOK_SUMMARY_ROWS_PER_SEC,
        CUSTOM_MEMORY_FLUSH_ROWS,
        DEFAULT_SEAL_INTERVAL_SECS,
    );
    assert!(day_rgs > PARQUET_MAX_ROW_GROUPS as u64, "day_rgs={day_rgs}");
}

#[test]
fn custom_row_group_rows_meets_cloud_day_budget_with_slack() {
    let max_day_rgs = (ROW_GROUP_ROLL_THRESHOLD as u64) / 10;
    let min_rg = min_row_group_rows_for_day(CLOUD_BOOK_SUMMARY_ROWS_PER_SEC, DEFAULT_SEAL_INTERVAL_SECS, max_day_rgs);
    assert!(CUSTOM_ROW_GROUP_ROWS as u64 >= min_rg);

    let day_rgs = estimated_row_groups(CLOUD_BOOK_SUMMARY_ROWS_PER_SEC, CUSTOM_ROW_GROUP_ROWS, DEFAULT_SEAL_INTERVAL_SECS);
    assert!((1_400..=1_500).contains(&day_rgs), "unexpected day_rgs={day_rgs}");
    assert!(day_rgs * 10 < ROW_GROUP_ROLL_THRESHOLD as u64);
    assert!(day_rgs < PARQUET_MAX_ROW_GROUPS as u64);
}

#[test]
fn custom_profile_survives_rate_spikes_before_soft_roll() {
    let day_5x = estimated_row_groups(CLOUD_BOOK_SUMMARY_ROWS_PER_SEC * 5, CUSTOM_ROW_GROUP_ROWS, DEFAULT_SEAL_INTERVAL_SECS);
    assert!(day_5x < ROW_GROUP_ROLL_THRESHOLD as u64);
    let day_20x = estimated_row_groups(CLOUD_BOOK_SUMMARY_ROWS_PER_SEC * 20, CUSTOM_ROW_GROUP_ROWS, DEFAULT_SEAL_INTERVAL_SECS);
    assert!(day_20x > ROW_GROUP_ROLL_THRESHOLD as u64 / 2);
}

#[test]
fn soft_roll_headroom_covers_max_production_flush_as_tiny_rgs() {
    let max_flush_rows = 50_000_u64;
    let headroom = (PARQUET_MAX_ROW_GROUPS - ROW_GROUP_ROLL_THRESHOLD) as u64;
    assert!(headroom >= CLOUD_BOOK_SUMMARY_POLL_ROWS as u64);
    let l2_rgs_per_flush = (max_flush_rows + 20_000 - 1) / 20_000;
    assert!(headroom >= l2_rgs_per_flush);
}

#[test]
fn memory_flush_stays_one_poll_row_group_packs_many() {
    assert_eq!(CUSTOM_MEMORY_FLUSH_ROWS, 1_000);
    assert!(CUSTOM_ROW_GROUP_ROWS > CUSTOM_MEMORY_FLUSH_ROWS);
    assert_eq!(CUSTOM_ROW_GROUP_ROWS / CUSTOM_MEMORY_FLUSH_ROWS, 50);
}

#[test]
fn estimated_row_groups_rounds_up_exactly() {
    assert_eq!(estimated_row_groups(830, 50_000, 86_400), 1_435);
    assert_eq!(estimated_row_groups(10, 10, 10), 10);
    assert_eq!(estimated_row_groups(0, 10, 10), 0);
}
