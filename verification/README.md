# quantum-sentry

A market-data pipeline whose rules are stated as contracts and proved with Verus.

- `src/num`: floating-point numbers as bit patterns, with exact, rounded arithmetic.
- `src/text`, `src/json`, `src/symbols`, `src/rank`, `src/vars`, `src/backoff`: shared parts.
- `src/common`: the events and configurations that the services share.
- `src/ingestor`: exchange streams, normalised messages, clock offsets, the symbol universe.
- `src/persister`: market messages to database rows, and when rows are written.
- `src/feature_engine`: ring buffers and feature snapshots per symbol.
- `src/executor`: trade decisions on snapshots, model outputs, order ids.
- `src/logger`: batches of log events and their rows.
- `src/sim_broker`: the futures wallet, the spot wallet, strategies and the paper broker.
- `src/replay`: deterministic replay, exports, golden packs and their verification.
- `app`: the services around the library (NATS, ClickHouse, websockets, files, models).
- `tests`: scenarios on concrete values.

The functions that reach outside the library carry a doc comment that says what their contract
takes for granted of the outside function.
