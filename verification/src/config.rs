//! Capture output configuration.
use vstd::prelude::*;

verus! {

/// Parquet compression codec.
#[derive(Debug, Clone, Copy, PartialEq, Eq)]
pub enum CompressionKind {
    Snappy,
    Zstd,
}

/// What a full background queue does with a new item.
#[derive(Debug, Clone, Copy, PartialEq, Eq)]
pub enum OverflowPolicy {
    DropNewest,
    DropOldest,
    FailFast,
}

/// Catalog directory layout; only the canonical layout exists.
#[derive(Debug, Clone, Copy, PartialEq, Eq)]
pub enum LayoutCompatibility {
    RustCanonicalOnly,
}

/// How buffered rows reach the catalog.
#[derive(Debug, Clone, Copy, PartialEq, Eq)]
pub enum LifecycleMode {
    /// A new catalog file per flush (short smoke runs).
    Chunked,
    /// Append to an open part file and seal it on a schedule (default).
    Segment,
}

/// Segment-mode sizing.
#[derive(Debug, Clone, PartialEq, Eq)]
pub struct SegmentLifecycleConfig {
    pub row_group_rows: usize,
}

/// Segment-mode durability (fsync cadence).
#[derive(Debug, Clone, PartialEq, Eq)]
pub struct DurabilityConfig {
    pub sync_interval_ms: u64,
}

/// Wall-clock seal schedule as written in the configuration file.
#[derive(Debug, Clone, PartialEq, Eq)]
pub struct SealConfigFile {
    pub enabled: bool,
    pub schedule: String,
    pub timezone: String,
    pub interval_secs: u64,
}

/// Output lifecycle settings.
#[derive(Debug, Clone, PartialEq, Eq)]
pub struct LifecycleConfig {
    pub mode: LifecycleMode,
    pub segment: SegmentLifecycleConfig,
    pub durability: DurabilityConfig,
    pub seal: SealConfigFile,
}

/// Capture output configuration of one family runtime.
#[derive(Debug, Clone, PartialEq, Eq)]
pub struct CaptureConfig {
    pub enabled: bool,
    pub catalog_uri: String,
    pub lifecycle: LifecycleConfig,
    pub queue_capacity: usize,
    pub flush_rows: usize,
    pub flush_interval_ms: u64,
    pub max_buffer_bytes: usize,
    /// Summed pending bytes cap across all partitions in one family runtime.
    pub max_total_buffer_bytes: usize,
    /// Maximum concurrently open partition buffers in one family runtime.
    pub max_active_partitions: usize,
    pub compression: CompressionKind,
    pub overflow_policy: OverflowPolicy,
    pub layout_compatibility: LayoutCompatibility,
}

/// Default row-group size of an open segment part.
pub const DEFAULT_ROW_GROUP_ROWS: usize = 5_000;
/// Default fsync interval of an open segment part.
pub const DEFAULT_SYNC_INTERVAL_MS: u64 = 1_000;
/// Default seal interval (one day).
pub const DEFAULT_SEAL_INTERVAL_SECS: u64 = 86_400;
/// Default summed pending bytes cap of one family runtime (512 MiB).
pub const DEFAULT_MAX_TOTAL_BUFFER_BYTES: usize = 536_870_912;
/// Default number of concurrently buffered partitions of one family runtime.
pub const DEFAULT_MAX_ACTIVE_PARTITIONS: usize = 128;

pub fn default_row_group_rows() -> (r: usize)
    ensures
        r == DEFAULT_ROW_GROUP_ROWS,
{
    DEFAULT_ROW_GROUP_ROWS
}

pub fn default_sync_interval_ms() -> (r: u64)
    ensures
        r == DEFAULT_SYNC_INTERVAL_MS,
{
    DEFAULT_SYNC_INTERVAL_MS
}

pub fn default_seal_interval_secs() -> (r: u64)
    ensures
        r == DEFAULT_SEAL_INTERVAL_SECS,
{
    DEFAULT_SEAL_INTERVAL_SECS
}

pub fn default_max_total_buffer_bytes() -> (r: usize)
    ensures
        r == DEFAULT_MAX_TOTAL_BUFFER_BYTES,
{
    DEFAULT_MAX_TOTAL_BUFFER_BYTES
}

pub fn default_max_active_partitions() -> (r: usize)
    ensures
        r == DEFAULT_MAX_ACTIVE_PARTITIONS,
{
    DEFAULT_MAX_ACTIVE_PARTITIONS
}

/// Default seal time of day.
pub fn default_seal_schedule() -> (s: String)
    ensures
        s@ == "06:00"@,
{
    String::from_str("06:00")
}

/// Default seal time zone.
pub fn default_seal_timezone() -> (s: String)
    ensures
        s@ == "UTC"@,
{
    String::from_str("UTC")
}

impl Default for SegmentLifecycleConfig {
    fn default() -> (c: Self)
        ensures
            c.row_group_rows == DEFAULT_ROW_GROUP_ROWS,
    {
        SegmentLifecycleConfig { row_group_rows: default_row_group_rows() }
    }
}

impl Default for DurabilityConfig {
    fn default() -> (c: Self)
        ensures
            c.sync_interval_ms == DEFAULT_SYNC_INTERVAL_MS,
    {
        DurabilityConfig { sync_interval_ms: default_sync_interval_ms() }
    }
}

impl Default for SealConfigFile {
    fn default() -> (c: Self)
        ensures
            !c.enabled,
            c.schedule@ == "06:00"@,
            c.timezone@ == "UTC"@,
            c.interval_secs == DEFAULT_SEAL_INTERVAL_SECS,
    {
        SealConfigFile {
            enabled: false,
            schedule: default_seal_schedule(),
            timezone: default_seal_timezone(),
            interval_secs: default_seal_interval_secs(),
        }
    }
}

impl Default for LifecycleConfig {
    fn default() -> (c: Self)
        ensures
            c.mode == LifecycleMode::Segment,
            c.segment.row_group_rows == DEFAULT_ROW_GROUP_ROWS,
            c.durability.sync_interval_ms == DEFAULT_SYNC_INTERVAL_MS,
            !c.seal.enabled,
            c.seal.schedule@ == "06:00"@,
            c.seal.timezone@ == "UTC"@,
            c.seal.interval_secs == DEFAULT_SEAL_INTERVAL_SECS,
    {
        LifecycleConfig {
            mode: LifecycleMode::Segment,
            segment: SegmentLifecycleConfig::default(),
            durability: DurabilityConfig::default(),
            seal: SealConfigFile::default(),
        }
    }
}

impl LifecycleConfig {
    /// True when rows are appended to open segment parts.
    pub open spec fn spec_is_segment_mode(&self) -> bool {
        self.mode == LifecycleMode::Segment
    }

    /// Row count at which a partition buffer is written out.
    pub open spec fn spec_batch_row_threshold(&self, fallback_flush_rows: usize) -> usize {
        if self.spec_is_segment_mode() {
            if self.segment.row_group_rows == 0 { 1 } else { self.segment.row_group_rows }
        } else {
            if fallback_flush_rows == 0 { 1 } else { fallback_flush_rows }
        }
    }

    #[verifier::when_used_as_spec(spec_is_segment_mode)]
    pub fn is_segment_mode(&self) -> (r: bool)
        ensures
            r == self.spec_is_segment_mode(),
    {
        match self.mode {
            LifecycleMode::Segment => true,
            LifecycleMode::Chunked => false,
        }
    }

    /// In segment mode the segment row-group size, else `fallback_flush_rows`; never 0.
    pub fn batch_row_threshold(&self, fallback_flush_rows: usize) -> (r: usize)
        ensures
            r == self.spec_batch_row_threshold(fallback_flush_rows),
            r >= 1,
    {
        if self.is_segment_mode() {
            if self.segment.row_group_rows == 0 { 1 } else { self.segment.row_group_rows }
        } else {
            if fallback_flush_rows == 0 { 1 } else { fallback_flush_rows }
        }
    }
}

impl Default for CaptureConfig {
    fn default() -> (c: Self)
        ensures
            c.enabled,
            c.catalog_uri@ == "file:///tmp/catalog-capture"@,
            c.lifecycle.mode == LifecycleMode::Segment,
            c.lifecycle.segment.row_group_rows == DEFAULT_ROW_GROUP_ROWS,
            c.lifecycle.durability.sync_interval_ms == DEFAULT_SYNC_INTERVAL_MS,
            !c.lifecycle.seal.enabled,
            c.queue_capacity == 10_000,
            c.flush_rows == 5_000,
            c.flush_interval_ms == 1_000,
            c.max_buffer_bytes == 33_554_432,
            c.max_total_buffer_bytes == DEFAULT_MAX_TOTAL_BUFFER_BYTES,
            c.max_active_partitions == DEFAULT_MAX_ACTIVE_PARTITIONS,
            c.compression == CompressionKind::Snappy,
            c.overflow_policy == OverflowPolicy::DropNewest,
            c.layout_compatibility == LayoutCompatibility::RustCanonicalOnly,
    {
        CaptureConfig {
            enabled: true,
            catalog_uri: String::from_str("file:///tmp/catalog-capture"),
            lifecycle: LifecycleConfig::default(),
            queue_capacity: 10_000,
            flush_rows: 5_000,
            flush_interval_ms: 1_000,
            max_buffer_bytes: 33_554_432,
            max_total_buffer_bytes: default_max_total_buffer_bytes(),
            max_active_partitions: default_max_active_partitions(),
            compression: CompressionKind::Snappy,
            overflow_policy: OverflowPolicy::DropNewest,
            layout_compatibility: LayoutCompatibility::RustCanonicalOnly,
        }
    }
}

} // verus!

verus! {

impl SealConfigFile {
    pub fn copy(&self) -> (c: Self)
        ensures
            c == *self,
    {
        SealConfigFile {
            enabled: self.enabled,
            schedule: self.schedule.clone(),
            timezone: self.timezone.clone(),
            interval_secs: self.interval_secs,
        }
    }
}

impl LifecycleConfig {
    pub fn copy(&self) -> (c: Self)
        ensures
            c == *self,
    {
        LifecycleConfig {
            mode: self.mode,
            segment: SegmentLifecycleConfig { row_group_rows: self.segment.row_group_rows },
            durability: DurabilityConfig { sync_interval_ms: self.durability.sync_interval_ms },
            seal: self.seal.copy(),
        }
    }
}

impl CaptureConfig {
    /// A field-for-field copy.
    pub fn copy(&self) -> (c: Self)
        ensures
            c == *self,
    {
        CaptureConfig {
            enabled: self.enabled,
            catalog_uri: self.catalog_uri.clone(),
            lifecycle: self.lifecycle.copy(),
            queue_capacity: self.queue_capacity,
            flush_rows: self.flush_rows,
            flush_interval_ms: self.flush_interval_ms,
            max_buffer_bytes: self.max_buffer_bytes,
            max_total_buffer_bytes: self.max_total_buffer_bytes,
            max_active_partitions: self.max_active_partitions,
            compression: self.compression,
            overflow_policy: self.overflow_policy,
            layout_compatibility: self.layout_compatibility,
        }
    }
}

} // verus!
