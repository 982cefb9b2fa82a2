# naina

The core services of the NAINA OS agent runtime, written in Verus with their
behaviour stated as contracts and proved.

## Layout

- `src/` — the verified library.
  - `event_bus` — events, topic subscriptions and in-order dispatch that stops at
    the first failing handler.
  - `kernel` — the process supervisor: lifecycle, registration, stopping and
    restart budgets.
  - `runtime` — execution contexts, each backed by a supervised process.
  - `logging` — levels, records, the level filter and delivery to sinks.
  - `memory` — entries, the keyword and vector index statistics kept in step
    with them, the path index, and Markdown title and tag reading.
  - `orchestrator` — the CARF planner and the task run: the decisions taken from
    request to response, step by step with retries and budgets.
  - `model` — model lifecycle states, VRAM budget decisions, and the mock and
    backend-less Qwen providers.
  - `text`, `keyed`, `clock` — text helpers, lists of pairs read as maps, and
    the wall clock.
- `app/` — ordinary Rust around the library: directory scanning and file
  reading, floating-point ranking for search, the model provider interface and
  the loops that carry out what the task run and the model ledger decide.
- `tests/` — tests run against the compiled library.
