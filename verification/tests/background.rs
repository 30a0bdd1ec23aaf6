use std::path::PathBuf;

use catalog_capture_core::background::{
    merge_flush_reason, process_batch, worker_interval_ms, worker_should_exit, Admission, QueueState,
};
use catalog_capture_core::config::{CaptureConfig, LifecycleMode, OverflowPolicy};
use catalog_capture_core::error::CaptureError;
use catalog_capture_core::item::{CaptureItem, PartitionKey};
use catalog_capture_core::metrics::FlushReason;
use catalog_capture_core::runtime::{CaptureRuntime, CaptureSink, FlushResult};

#[derive(Clone, Default)]
struct TestSink {
    batches: Vec<Vec<u64>>,
    fail_on_payload: Option<u64>,
}

impl CaptureSink<u64> for TestSink {
    fn write_batch(&mut self, _partition_key: &str, batch: Vec<u64>) -> Result<Vec<PathBuf>, CaptureError> {
        if let Some(payload) = self.fail_on_payload {
            if batch.contains(&payload) {
                return Err(CaptureError::new(format!("simulated write failure for payload {payload}")));
            }
        }
        self.batches.push(batch);
        Ok(Vec::new())
    }

    fn on_tick(&mut self, _now_ns: u64) -> Result<FlushResult, CaptureError> {
        Ok(FlushResult::default())
    }

    fn seal_all(&mut self) -> Result<FlushResult, CaptureError> {
        Ok(FlushResult::default())
    }

    fn seal_all_for_shutdown(&mut self) -> Result<FlushResult, CaptureError> {
        self.seal_all()
    }

    fn is_segment_mode(&self) -> bool {
        false
    }

    fn completed_file_bytes(&self, _file: &PathBuf) -> u64 {
        0
    }
}

fn item(payload: u64) -> CaptureItem<u64> {
    CaptureItem {
        partition_key: PartitionKey::market_data("quotes", "TEST"),
        event_ts_ns: payload,
        init_ts_ns: Some(payload),
        estimated_bytes: 8,
        payload,
    }
}

/// One worker pass over the shared state, as the background worker runs it.
fn run_pass(state: &mut QueueState<u64, u32>, runtime: &mut CaptureRuntime<u64, TestSink>) -> Result<FlushResult, CaptureError> {
    let batch = state.take_batch();
    process_batch(
        runtime,
        batch.items,
        batch.flush_reason,
        batch.tick_requested,
        batch.seal_requested,
        batch.should_shutdown,
        0,
    )
}

#[test]
fn drop_oldest_evicts_queued_item_when_full() {
    let config = CaptureConfig {
        flush_rows: 2,
        queue_capacity: 2,
        flush_interval_ms: 1_000,
        overflow_policy: OverflowPolicy::DropOldest,
        ..CaptureConfig::default()
    };
    let mut state: QueueState<u64, u32> = QueueState::new();
    assert!(matches!(state.enqueue(item(1), &config), Ok(Admission::Queued)));
    assert!(matches!(state.enqueue(item(2), &config), Ok(Admission::Queued)));
    match state.enqueue(item(3), &config) {
        Ok(Admission::DroppedOldest(dropped)) => assert_eq!(dropped.payload, 1),
        _ => panic!("queue full under drop-oldest should evict the oldest item"),
    }
    assert_eq!(state.metrics.dropped_items, 1);
    assert_eq!(state.metrics.accepted_items, 3);

    let mut runtime = CaptureRuntime::new(config.clone(), TestSink::default());
    state.request_flush(7, true);
    run_pass(&mut state, &mut runtime).expect("shutdown pass succeeds");
    let written: Vec<u64> = runtime.sink.batches.iter().flatten().copied().collect();
    assert!(written.iter().any(|item| *item == 3), "latest item should be retained after drop_oldest policy");
    assert!(!written.contains(&1));
}

#[test]
fn process_batch_continues_after_item_failure_under_chunked_lifecycle() {
    let mut config = CaptureConfig { flush_rows: 1, queue_capacity: 10, flush_interval_ms: 1_000, ..CaptureConfig::default() };
    config.lifecycle.mode = LifecycleMode::Chunked;
    let sink = TestSink { fail_on_payload: Some(2), ..TestSink::default() };
    let mut runtime = CaptureRuntime::new(config.clone(), sink);
    let mut state: QueueState<u64, u32> = QueueState::new();
    for payload in [1_u64, 2, 3] {
        state.enqueue(item(payload), &config).expect("submit should succeed");
    }
    state.request_flush(1, true);
    let result = run_pass(&mut state, &mut runtime);
    assert!(result.is_err(), "shutdown should report worker failure");
    assert!(worker_should_exit(&result, true));
    let flattened: Vec<u64> = runtime.sink.batches.iter().flatten().copied().collect();
    assert!(flattened.contains(&1));
    assert!(flattened.contains(&3));
    assert!(!flattened.contains(&2));
    assert_eq!(runtime.metrics.dropped_items, 1);
}

#[test]
fn drop_newest_discards_submitted_item() {
    let config = CaptureConfig { queue_capacity: 1, overflow_policy: OverflowPolicy::DropNewest, ..CaptureConfig::default() };
    let mut state: QueueState<u64, u32> = QueueState::new();
    state.enqueue(item(1), &config).unwrap();
    match state.enqueue(item(2), &config) {
        Ok(Admission::DroppedNewest(rejected)) => assert_eq!(rejected.payload, 2),
        _ => panic!("queue full under drop-newest should discard the new item"),
    }
    assert_eq!(state.queue.len(), 1);
    assert_eq!(state.metrics_snapshot().queued_items, 1);
    assert_eq!(state.metrics.dropped_items, 1);
}

#[test]
fn fail_fast_reports_capacity_and_catalog() {
    let config = CaptureConfig {
        queue_capacity: 0,
        overflow_policy: OverflowPolicy::FailFast,
        catalog_uri: "file:///tmp/cat".to_string(),
        ..CaptureConfig::default()
    };
    let mut state: QueueState<u64, u32> = QueueState::new();
    state.enqueue(item(1), &config).unwrap();
    let err = state.enqueue(item(2), &config).expect_err("full queue fails fast");
    assert_eq!(err.message(), "capture queue full at capacity 1 for catalog file:///tmp/cat");
}

#[test]
fn submissions_are_refused_after_shutdown_request() {
    let config = CaptureConfig::default();
    let mut state: QueueState<u64, u32> = QueueState::new();
    state.request_flush(0, true);
    let err = state.enqueue(item(1), &config).expect_err("refused while shutting down");
    assert_eq!(err.message(), "capture runtime is shutting down");
}

#[test]
fn timed_flush_drains_tail_batch() {
    let config = CaptureConfig { flush_rows: 10, queue_capacity: 10, flush_interval_ms: 20, ..CaptureConfig::default() };
    let mut runtime = CaptureRuntime::new(config.clone(), TestSink::default());
    let mut state: QueueState<u64, u32> = QueueState::new();
    state.enqueue(item(42), &config).unwrap();
    let first = state.take_batch();
    process_batch(&mut runtime, first.items, first.flush_reason, first.tick_requested, first.seal_requested, first.should_shutdown, 0)
        .unwrap();
    assert!(runtime.sink.batches.is_empty());
    assert!(state.is_idle());
    state.on_wait_timeout(false);
    assert_eq!(state.flush_reason, Some(FlushReason::Interval));
    run_pass(&mut state, &mut runtime).unwrap();
    assert_eq!(runtime.sink.batches, vec![vec![42]]);
}

#[test]
fn segment_sink_idle_timeout_requests_tick() {
    let mut state: QueueState<u64, u32> = QueueState::new();
    state.on_wait_timeout(true);
    assert!(state.tick_requested);
    assert_eq!(state.flush_reason, None);
    let mut config = CaptureConfig::default();
    config.lifecycle.mode = LifecycleMode::Segment;
    config.lifecycle.durability.sync_interval_ms = 0;
    assert_eq!(worker_interval_ms(&config, true), 1);
    config.flush_interval_ms = 250;
    assert_eq!(worker_interval_ms(&config, false), 250);
}

#[test]
fn flush_reason_precedence() {
    assert_eq!(merge_flush_reason(None, FlushReason::Interval), Some(FlushReason::Interval));
    assert_eq!(merge_flush_reason(Some(FlushReason::Interval), FlushReason::Manual), Some(FlushReason::Manual));
    assert_eq!(merge_flush_reason(Some(FlushReason::Manual), FlushReason::Interval), Some(FlushReason::Manual));
    assert_eq!(merge_flush_reason(Some(FlushReason::Shutdown), FlushReason::Seal), Some(FlushReason::Shutdown));
    assert_eq!(merge_flush_reason(Some(FlushReason::Rows), FlushReason::Bytes), Some(FlushReason::Bytes));
    assert_eq!(merge_flush_reason(Some(FlushReason::Budget), FlushReason::Interval), Some(FlushReason::Budget));
}

#[test]
fn take_batch_resets_requests_and_hands_over_waiters() {
    let mut state: QueueState<u64, u32> = QueueState::new();
    state.enqueue(item(5), &CaptureConfig::default()).unwrap();
    state.request_flush(1, false);
    state.request_seal(2);
    let batch = state.take_batch();
    assert_eq!(batch.items.len(), 1);
    assert_eq!(batch.flush_reason, Some(FlushReason::Manual));
    assert!(batch.seal_requested);
    assert!(!batch.should_shutdown);
    assert_eq!(batch.flush_waiters, vec![1]);
    assert_eq!(batch.seal_waiters, vec![2]);
    assert!(state.is_idle());
    assert!(state.flush_waiters.is_empty());
}

#[test]
fn batch_below_thresholds_never_reaches_the_sink() {
    let config = CaptureConfig { flush_rows: 10, ..CaptureConfig::default() };
    let mut config = config;
    config.lifecycle.mode = LifecycleMode::Chunked;
    let sink = TestSink { fail_on_payload: Some(1), ..TestSink::default() };
    let mut runtime = CaptureRuntime::new(config, sink);
    let items: std::collections::VecDeque<CaptureItem<u64>> = [1_u64, 2, 3].into_iter().map(item).collect();
    let result = process_batch(&mut runtime, items, None, false, false, false, 0).expect("nothing is written");
    assert!(result.files.is_empty());
    assert_eq!(result.rows, 0);
    assert_eq!(runtime.metrics.accepted_items, 3);
    assert!(runtime.sink.batches.is_empty());
    let flushed = process_batch(&mut runtime, std::collections::VecDeque::new(), None, false, false, false, 0).unwrap();
    assert_eq!(flushed.rows, 0);
}
