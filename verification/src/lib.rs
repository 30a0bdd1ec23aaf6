//! Verified core of a market-data capture pipeline: partition buffering and
//! flush policy, per-family flush profiles, capture plans, universe rollover
//! bookkeeping, request-poll scheduling and metrics rendering.

pub mod actor_plan;
pub mod advisories;
pub mod background;
pub mod atm_reference;
pub mod budget;
pub mod buffer;
pub mod capture_run;
pub mod catalog_layout;
pub mod config;
pub mod custom_data_requests;
pub mod dynamic_hip4_universe;
pub mod dynamic_option_universe;
pub mod dynamic_option_universe_runtime;
pub mod dynamic_plan;
pub mod error;
pub mod fields;
pub mod hip4;
pub mod hip4_resolve;
pub mod flush_profile;
pub mod forward_price;
pub mod item;
pub mod metrics;
pub mod metrics_export;
pub mod option_metrics_routing;
pub mod option_universe;
pub mod option_universe_metadata;
pub mod option_universe_resolve;
pub mod partitions;
pub mod plan;
pub mod plugin_adapter;
pub mod readback;
pub mod row_group_capacity;
pub mod runtime;
pub mod seal;
pub mod segment_bounds;
pub mod segment_settings;
pub mod text;
pub mod utc_time;

pub use config::{
    CaptureConfig, CompressionKind, DurabilityConfig, LayoutCompatibility, LifecycleConfig,
    LifecycleMode, OverflowPolicy, SealConfigFile, SegmentLifecycleConfig,
};
pub use error::CaptureError;
pub use buffer::PartitionBuffer;
pub use item::{CaptureItem, PartitionKey};
pub use metrics::{CaptureMetrics, FlushReason, FlushReasonMetrics};
pub use partitions::{PartitionMap, PartitionSlot};
pub use runtime::{merge_flush_results, CaptureRuntime, CaptureSink, FlushResult};
pub use flush_profile::{capture_config_for_family, family_row_group_rows, family_row_threshold, CaptureFlushFamily};
pub use row_group_capacity::{estimated_row_groups, min_row_group_rows_for_day, CLOUD_BOOK_SUMMARY_POLL_ROWS, CLOUD_BOOK_SUMMARY_ROWS_PER_SEC, CUSTOM_MEMORY_FLUSH_ROWS, CUSTOM_ROW_GROUP_ROWS, DEFAULT_SEAL_INTERVAL_SECS, PARQUET_MAX_ROW_GROUPS, ROW_GROUP_ROLL_THRESHOLD};
pub use catalog_layout::{assert_known_custom_type_dirs, capture_run_path, catalog_root_from_uri, custom_data_dir, forward_price_log_path, hip4_universe_resolution_log_path, market_data_dir, option_universe_resolution_log_path, path_is_under_custom_type, path_is_under_market_family, KNOWN_CUSTOM_TYPE_NAMES};
