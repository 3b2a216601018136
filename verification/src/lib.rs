//! A rule-based grid-rewriting engine: a bounded grid of pipe cells grows
//! from a single seed by repeatedly matching local neighborhoods against a
//! small rule set and rewriting matched cells into new pipe kinds with
//! specific orientations.
//!
//! The crate keeps a consistent directional-connectivity model (each cell's
//! effective connections are always derived from its stored kind and
//! orientation), supports wildcard pattern matching, resolves overlapping
//! matches deterministically or through an injected Random Source, and
//! cycles the simulation: grow, saturate, reset. Rendering, windowing and
//! input polling are the host's business; the core exposes pure
//! grid-state-transition functions and consumes only a grid snapshot, a
//! rule set, random draws, and a trigger.

pub mod direction;
pub mod engine;
pub mod error;
pub mod grid;
pub mod kind;
pub mod local;
pub mod rules;
pub mod scheduler;
