# Estamora

The logic of a conformance runner for Soroban contracts, verified with Verus.

A *profile* states what a contract must do: its methods, who must authorize them,
the events they publish, the invariants they keep and the ways they may fail. A
*vector* is one scenario against a profile. The runner measures a contract against
a profile's vectors and reports a verdict.

## Layout

- `src/` — the library, every function verified:
  - `profile_model`, `expr`, `references`, `spec_version`, `bundle`: profile
    documents, their cross-reference validation, the format version and the
    assembly of a bundle;
  - `vector_model`, `integer`, `vector_validate`, `corpus`: vector documents, exact
    integers, checking a vector against its profile, and ordering a corpus;
  - `taxonomy`, `report_model`, `identifier`, `sanitise`, `markdown`, `junit`,
    `digest`: failure classes, the report model and its renderings;
  - `wasm`, `interface`, `fixture`: reading a compiled contract's spec section,
    the interface it publishes, and the fixture set;
  - `network`, `ledger`: naming a deployed contract, the steps that read it, and the
    ledger point a run is pinned to;
  - `token`, `fixture_token`: the fixture tokens as state machines, with their laws.
- `tests/` — tests of the library.
- `app/` — the parts that touch the world: reading files, YAML and JSON,
  decoding XDR, RPC, and the Soroban test host.
