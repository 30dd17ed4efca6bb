# krabmaga

Fields and resources of an agent-based simulation engine, verified with Verus.

- `src/engine/fields/` — dense grids over row-major storage: a grid of single
  values, bag grids (one with de-duplicating placement, one rebuilt each step),
  a grid of shared counters, the row-major index computation, and the integer
  enumeration of a neighbourhood window with coordinate wrapping.
- `src/engine/resources/` — the simulation descriptor (steps, pause state,
  seeds, title) and per-thread buffers for deferred spawning.
- `src/engine/systems/` — the per-step update of the descriptor.
- `src/engine/simulation.rs` — the decision of a run: one more step, finish, or
  hand over to the unbounded runner.
- `app/` — the Bevy plumbing: the `Simulation` builder, the systems Bevy
  schedules, component and resource wrappers, and the floating-point flockers
  grid, which calls the verified neighbourhood enumeration.
- `tests/` — tests of the library on concrete values.
