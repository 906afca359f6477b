//! A leak-free, point-in-time trading-agent environment: seeded scenario families,
//! batches of independent environments stepped together, and the wire-format
//! boundary that a binding exposes.
pub mod binary64;
pub mod bindings;
pub mod engine;
pub mod scenario_gen;
pub mod scoring;
pub mod splitmix;
pub mod text;
pub mod vec_env;
pub mod wire;
