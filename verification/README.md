# forgeerp

Event-sourced ERP logic with machine-checked contracts.

- `src/` — the library, verified with Verus: the domain aggregates
  (inventory, parties, products, invoicing, sales, purchasing, accounting,
  auth), the event store and its optimistic concurrency, the command
  dispatcher, the projections and their tenant-isolated read models, the job
  queue and executor, the sales/receivables saga, replay, and the decisions
  behind the Postgres and Redis adapters.
- `app/` — ordinary Rust around the library: logging setup, JSON and
  envelope encoding, the SQL of the Postgres event store, the Redis
  transports, projection cursors persisted across restarts, and the
  background loops (projection workers, the job executor, the anomaly
  runner, replays), each driven by the library's decisions.
- `tests/` — the test suite, run against the compiled library.

Laws of the library are stated as public proof functions next to the code
they speak of (for example `law_append_then_load` in `src/event_store.rs`,
`law_redelivery_is_ignored` in `src/projections/mod.rs`,
`law_failure_retries_then_dead_letters` in `src/jobs/types.rs`).
