use std::path::PathBuf;

use catalog_capture_core::{
    CaptureConfig, CaptureError, CaptureItem, CaptureRuntime, CaptureSink, FlushResult,
    LifecycleConfig, LifecycleMode, PartitionKey,
};

#[derive(Default)]
struct TestSink;

impl CaptureSink<u64> for TestSink {
    fn write_batch(
        &mut self,
        _partition_key: &str,
        _batch: Vec<u64>,
    ) -> Result<Vec<PathBuf>, CaptureError> {
        Ok(Vec::new())
    }

    fn on_tick(&mut self, _now_ns: u64) -> Result<FlushResult, CaptureError> {
        Ok(FlushResult::default())
    }

    fn seal_all(&mut self) -> Result<FlushResult, CaptureError> {
        Ok(FlushResult::default())
    }

    fn seal_all_for_shutdown(&mut self) -> Result<FlushResult, CaptureError> {
        self.seal_all()
    }

    fn is_segment_mode(&self) -> bool {
        false
    }

    fn completed_file_bytes(&self, _file: &PathBuf) -> u64 {
        0
    }
}

fn item(identifier: &str, ts: u64, bytes: usize, payload: u64) -> CaptureItem<u64> {
    CaptureItem {
        partition_key: PartitionKey::market_data("quotes", identifier),
        event_ts_ns: ts,
        init_ts_ns: Some(ts),
        estimated_bytes: bytes,
        payload,
    }
}

#[test]
fn active_partitions_counts_only_buffered_partitions() {
    let mut runtime = CaptureRuntime::new(
        CaptureConfig {
            flush_rows: 10,
            ..CaptureConfig::default()
        },
        TestSink,
    );

    runtime.submit(item("A", 1, 8, 1)).expect("submit A");
    runtime.submit(item("B", 2, 8, 2)).expect("submit B");
    assert_eq!(runtime.metrics.active_partitions, 2);

    let key_a = PartitionKey::market_data("quotes", "A").stable_key();
    runtime.flush_partition(&key_a).expect("flush A");
    assert_eq!(runtime.metrics.active_partitions, 1);

    runtime.flush_all().expect("flush all");
    assert_eq!(runtime.metrics.active_partitions, 0);
}

#[test]
fn max_active_partitions_flushes_oldest_before_opening_new_partition() {
    let mut runtime = CaptureRuntime::new(
        CaptureConfig {
            flush_rows: 10,
            max_active_partitions: 1,
            max_total_buffer_bytes: 1024 * 1024,
            ..CaptureConfig::default()
        },
        TestSink,
    );

    runtime.submit(item("A", 100, 8, 1)).expect("submit A");
    runtime.submit(item("B", 200, 8, 2)).expect("submit B");

    assert_eq!(runtime.metrics.flush_reasons.budget, 1);
    assert_eq!(runtime.metrics.active_partitions, 1);
    assert!(runtime
        .partitions
        .contains_key(&PartitionKey::market_data("quotes", "B").stable_key()));
}

#[test]
fn max_total_buffer_bytes_flushes_oldest_until_under_cap() {
    let mut runtime = CaptureRuntime::new(
        CaptureConfig {
            flush_rows: 10_000,
            max_buffer_bytes: 200,
            max_total_buffer_bytes: 150,
            max_active_partitions: 16,
            ..CaptureConfig::default()
        },
        TestSink,
    );

    runtime.submit(item("A", 100, 100, 1)).expect("submit A");
    runtime.submit(item("B", 200, 100, 2)).expect("submit B");

    assert!(runtime.metrics.flush_reasons.budget >= 1);
    assert!(runtime.total_pending_bytes() <= 150);
}

#[derive(Default)]
struct SealTrackingSink {
    flush_rows: usize,
    seal_rows: usize,
}

impl CaptureSink<u64> for SealTrackingSink {
    fn write_batch(
        &mut self,
        _partition_key: &str,
        batch: Vec<u64>,
    ) -> Result<Vec<PathBuf>, CaptureError> {
        self.flush_rows += batch.len();
        Ok(vec![PathBuf::from(format!(
            "flush-{}.parquet",
            self.flush_rows
        ))])
    }

    fn seal_all(&mut self) -> Result<FlushResult, CaptureError> {
        self.seal_rows = 3;
        Ok(FlushResult {
            files: vec![PathBuf::from("sealed.parquet")],
            rows: self.seal_rows,
            bytes: 30,
        })
    }

    fn is_segment_mode(&self) -> bool {
        true
    }

    fn on_tick(&mut self, _now_ns: u64) -> Result<FlushResult, CaptureError> {
        Ok(FlushResult::default())
    }

    fn seal_all_for_shutdown(&mut self) -> Result<FlushResult, CaptureError> {
        self.seal_all()
    }

    fn completed_file_bytes(&self, _file: &PathBuf) -> u64 {
        0
    }
}

#[test]
fn seal_all_internal_merges_flush_and_seal_results() {
    let mut runtime = CaptureRuntime::new(
        CaptureConfig {
            flush_rows: 10_000,
            ..CaptureConfig::default()
        },
        SealTrackingSink::default(),
    );

    runtime.submit(item("A", 1, 8, 1)).expect("submit");

    let result = runtime.seal_all().expect("seal");
    assert_eq!(result.rows, 4, "rows should include flush (1) and seal (3)");
    assert_eq!(
        result.files.len(),
        2,
        "files should include flush and seal outputs"
    );
    assert_eq!(result.bytes, 30, "bytes should include sealed file payload");
}

#[test]
fn row_threshold_flush_hands_rows_to_sink_and_keeps_nothing_buffered() {
    let mut runtime = CaptureRuntime::new(
        CaptureConfig {
            flush_rows: 2,
            lifecycle: LifecycleConfig {
                mode: LifecycleMode::Chunked,
                ..LifecycleConfig::default()
            },
            ..CaptureConfig::default()
        },
        SealTrackingSink::default(),
    );
    let first = runtime.submit(item("A", 5, 8, 1)).expect("first");
    assert_eq!(first.rows, 0);
    let second = runtime.submit(item("A", 6, 8, 2)).expect("second");
    assert_eq!(second.rows, 2);
    assert_eq!(runtime.metrics.flush_reasons.row_threshold, 1);
    assert_eq!(runtime.metrics.flushed_rows, 2);
    assert_eq!(runtime.metrics.accepted_items, 2);
    assert_eq!(runtime.partitions.len(), 0);
    assert_eq!(runtime.metrics.buffered_bytes, 0);
}

struct RefusingSink;

impl CaptureSink<u64> for RefusingSink {
    fn write_batch(&mut self, _partition_key: &str, _batch: Vec<u64>) -> Result<Vec<PathBuf>, CaptureError> {
        Err(CaptureError::from_str("refused"))
    }

    fn on_tick(&mut self, _now_ns: u64) -> Result<FlushResult, CaptureError> {
        Ok(FlushResult::default())
    }

    fn seal_all(&mut self) -> Result<FlushResult, CaptureError> {
        Ok(FlushResult::default())
    }

    fn seal_all_for_shutdown(&mut self) -> Result<FlushResult, CaptureError> {
        self.seal_all()
    }

    fn is_segment_mode(&self) -> bool {
        false
    }

    fn completed_file_bytes(&self, _file: &PathBuf) -> u64 {
        0
    }
}

#[test]
fn runtime_owes_success_where_the_sink_is_not_asked() {
    let mut config = CaptureConfig { flush_rows: 10, max_active_partitions: 4, ..CaptureConfig::default() };
    config.lifecycle.mode = LifecycleMode::Chunked;
    let mut runtime = CaptureRuntime::new(config, RefusingSink);
    let empty = runtime.flush_all().expect("nothing buffered, nothing written");
    assert!(empty.files.is_empty() && empty.rows == 0);
    let buffered = runtime.submit(item("A", 1, 8, 1)).expect("below every threshold");
    assert_eq!(buffered.rows, 0);
    assert_eq!(runtime.metrics.accepted_items, 1);
    assert!(runtime.flush_all().is_err());
    assert!(runtime.on_tick(5).expect("default tick").files.is_empty());
    assert!(!runtime.sink.is_segment_mode());
}

#[test]
fn accepted_rows_are_flushed_or_buffered() {
    let mut config = CaptureConfig { flush_rows: 2, max_active_partitions: 2, ..CaptureConfig::default() };
    config.lifecycle.mode = LifecycleMode::Chunked;
    let mut runtime = CaptureRuntime::new(config, TestSink);
    for (i, id) in ["A", "B", "A", "C", "B", "A"].iter().enumerate() {
        runtime.submit(item(id, i as u64 + 1, 8, i as u64)).expect("submit");
        let buffered: usize = runtime.partitions.entries.iter().map(|e| e.buffer.pending_rows).sum();
        assert_eq!(runtime.metrics.accepted_items, runtime.metrics.flushed_rows + buffered as u64);
    }
    let key = runtime.partitions.entries[0].key.clone();
    let batches = runtime.metrics.flushed_batches;
    let manual = runtime.metrics.flush_reasons.manual;
    runtime.flush_partition(&key).expect("flush one");
    assert_eq!(runtime.metrics.flushed_batches, batches + 1);
    assert_eq!(runtime.metrics.flush_reasons.manual, manual + 1);
    runtime.flush_all().expect("flush all");
    assert_eq!(runtime.metrics.accepted_items, runtime.metrics.flushed_rows);
    assert!(runtime.partitions.entries.is_empty());
}
