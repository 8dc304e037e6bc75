# ocluster

Routing, health tracking and configuration logic for a cluster of Ollama
inference nodes, written in Verus: every function of the library carries a
contract that Verus proves, except six small trusted wrappers around outside
crates (SHA-256 from `sha2`, URL parsing from `url`, JSON member reads from
`serde_json`, the clock from `chrono` and random ids from `uuid`), whose
contracts are taken as given and say only what those crates document.

## Layout

- `src/` — the verified library.
  - `state`, `circuit_breaker`, `retry`, `model_mode` — node states, the
    per-node circuit breaker, error classification and the model modes.
  - `routing`, `order` — candidate filtering, scoring (in thousandths of a
    point), ranking and selection, with the laws that selection keeps.
  - `fingerprint` — inventory fingerprints (SHA-256 over the sorted inventory).
  - `config`, `store` — configuration, validation, overrides, stored records.
  - `runtime`, `health`, `discovery` — the controller's in-memory cluster
    state and how requests, failures and discovered models change it.
  - `proxy` — admission, the choice of node for each attempt and the retry
    rule of the inference proxy.
  - `api`, `protocol`, `error` — what the management API answers.
  - `cli`, `tui`, `mock` — the command line's decisions, the terminal
    dashboard's state machine and a scripted stand-in for an Ollama node.
- `tests/` — tests of the library on concrete values.
- `app/` — the `ocluster` program: HTTP servers and client, SQLite storage,
  the terminal user interface and command-line parsing, all calling the
  library for their decisions.
