# project_e

The decision logic of Project E, a cognitive layer that lets an agent find
gaps in its own capabilities and forge modules to fill them, written in
Verus: each function carries a contract, and the laws of the library (what
the lifecycle allows, when the circuit breaker opens and recovers, what
deliberation plans in each operating mode, what a registry or catalog
lookup returns after a write, how configuration layers combine, ...) are
proof functions checked by Verus.

Layout:

- `src/` — the verified library. `types`, `text` and `config` are shared;
  the other modules follow the agent's parts (`event_bus`, `knowledge`,
  `analysis`, `deliberation`, `policy`, `metacognition`, `supervisor`,
  `forge`, `forge_runner`, `registry`, `skills`, `llm_health`,
  `llm_bridge`, `cycle_runner`, `config_layers`, `module_adapter`).
- `tests/` — tests of the library, run against the compiled crate.
- `app/` — the runtime around it: TOML and JSON forms, the event bus, the
  cargo-driven gates, floating-point scoring, and the async tasks that run
  the cycle against the host agent's services.

Ratios (confidences, thresholds, efficiencies) are fractions between 0 and
1 in the files and events, and thousandths in the library.
