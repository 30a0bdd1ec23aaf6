# catalog_capture_core

The verified core of a market-data capture pipeline that buffers live data
per partition and writes it to a Parquet catalog.

- `src/` is the library, checked by Verus: capture configuration and flush
  profiles, partition buffers and the flush/seal policy of a family runtime,
  the background queue's admission and batching, capture plans and their
  deltas, option and HIP-4 universe resolution and rollover, seal schedules,
  request-poll scheduling, catalog layout and metrics rendering. Calls into
  `chrono`, `chrono-tz` and `rust_decimal` go through small trusted wrappers
  whose contracts are written next to them.
- `tests/` exercises the library on concrete values.
- `app/` is the unverified shell around it: clocks, files and JSON, worker
  threads, and the floating-point option metrics.
