use catalog_capture_core::segment_settings::segment_settings;
use catalog_capture_core::{CaptureConfig, CompressionKind, LifecycleMode};

#[test]
fn default_config_builds_segment_settings() {
    let config = CaptureConfig::default();
    let settings = segment_settings(&config).expect("default config is a file:// segment config");
    assert_eq!(settings.local_root, "/tmp/catalog-capture");
    assert_eq!(settings.row_group_rows, 5_000);
    assert_eq!(settings.sync_interval_ns, 1_000_000_000);
    assert!(settings.seal.is_none());
    assert_eq!(settings.compression, config.compression);
}

#[test]
fn segment_settings_refuse_chunked_mode_and_remote_catalogs() {
    let mut config = CaptureConfig::default();
    config.lifecycle.mode = LifecycleMode::Chunked;
    assert_eq!(
        segment_settings(&config).unwrap_err().message,
        "segment sink requires output.lifecycle.mode = segment"
    );

    let mut config = CaptureConfig::default();
    config.catalog_uri = "s3://bucket/catalog".to_string();
    assert_eq!(
        segment_settings(&config).unwrap_err().message,
        "segment lifecycle requires a file:// catalog_uri"
    );
}

#[test]
fn segment_settings_resolve_the_seal_and_saturate_the_sync_interval() {
    let mut config = CaptureConfig::default();
    config.compression = CompressionKind::Zstd;
    config.lifecycle.segment.row_group_rows = 0;
    config.lifecycle.durability.sync_interval_ms = u64::MAX;
    config.lifecycle.seal.enabled = true;
    config.lifecycle.seal.schedule = "00:30".to_string();
    config.lifecycle.seal.timezone = "UTC".to_string();
    config.lifecycle.seal.interval_secs = 0;
    let settings = segment_settings(&config).unwrap();
    assert_eq!(settings.row_group_rows, 1);
    assert_eq!(settings.sync_interval_ns, u64::MAX);
    assert_eq!(settings.compression, CompressionKind::Zstd);
    let seal = settings.seal.expect("seal enabled");
    assert_eq!(seal.schedule_ns, 30 * 60 * 1_000_000_000);
    assert_eq!(seal.interval_ns, 1_000_000_000);

    config.lifecycle.seal.schedule = "25:00".to_string();
    assert_eq!(
        segment_settings(&config).unwrap_err().message,
        "invalid seal schedule 25:00; expected HH:MM or HH:MM:SS"
    );
}
