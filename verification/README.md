# pipewireao_rtc

A headless development runner for Calculon graphs on PipeWireAO, with its logic
verified by Verus: it admits a relaxed SPA-JSON development session (sources,
`fgn-native` graphs, discard sinks, exact links and execution groups), orders it,
and drives one session lifecycle through a serialized dispatcher of typed effects.

Layout:

- `src/` — the verified library.
  - `spa_json.rs`, `decode.rs`, `model.rs`: the relaxed SPA-JSON reader and the
    typed session model decoded from it.
  - `validate.rs`, `session.rs`, `links.rs`, `topology.rs`, `groups.rs`,
    `development.rs`: admission of a session (objects, ports, links, producers and
    consumers, acyclicity, reachability, execution groups) and the orders derived
    from it (topological start order, downstream-first link admission).
  - `lifecycle.rs`, `dispatcher.rs`, `runner.rs`: the lifecycle vocabulary, the
    dispatcher state machine and the runner that hands effects to an executor.
  - `run_control.rs`, `port_contract.rs`, `live_checks.rs`: the run-control Props
    contract, the live port-format contract and the decisions the live adapter
    takes on what it observes.
  - `laws.rs`: properties that span calls, stated and proved as proof functions.
- `tests/` — executable tests of the library.
- `app/` — the command-line program and the PipeWire adapter that performs the
  blocking graph work.
