# spice_framework

A framework for testing LLM agents: test cases send a message to an agent, the
agent's run (its turns and tool calls) is checked by assertions, and results are
gathered into per-test and per-suite reports.

Layout:

- `src/` is the verified library. It holds the data model (agent output, tool
  calls, test cases, reports), the queries over agent runs (`agent`,
  `multi_turn`), the runner's decisions (`runner`: which tests run, how a test
  is retried or run to consensus, how each attempt is judged), the suite report
  and what the console shows of it (`report`, `console`), and proved laws about
  them (`laws`). Text helpers (`text`) carry their own proofs.
- `app/` drives the library: the async agent trait, the concurrent test loop
  under tokio, JSON files written through serde, and console printing.
- `tests/` runs the library on concrete values.
