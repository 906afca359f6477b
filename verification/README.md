# openoutcry

A leak-free, point-in-time trading-agent environment, verified with Verus.

- `src/scenario_gen.rs`: scenario families over seed intervals, disjoint train/test
  splits, and the seeded jumps of the harder tiers.
- `src/vec_env.rs`: a batch of independent environments, stepped in parallel, with
  finished lanes reset in the same step.
- `src/bindings.rs`: the JSON boundary of a language binding.
- `src/scoring.rs`: the submission under which a rollout is scored.
- `src/engine.rs`, `src/wire.rs`: what is taken on trust of the simulation engine and of
  `serde_json`.
- `src/binary64.rs`, `src/splitmix.rs`, `src/text.rs`: floats by their bits, the seeded
  generator, and message text.

Floating-point arithmetic, the Python classes and serialized forms are in `app/`.
