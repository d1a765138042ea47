//! A small real-time audio signal graph on fixed-point mono samples.
//!
//! A tree of nodes (tone generators, gains and a sink) is pulled once per
//! audio period to fill a caller-owned buffer.  Samples are `i32` values in
//! which `FULL_SCALE` stands for an amplitude of 1.0.
//!
//! - `sample`: saturating mixing and gain scaling of single samples;
//! - `osc`: the tone generator and its exact phase accumulator;
//! - `graph`: nodes, wiring and the per-period processing of the tree;
//! - `laws`: properties of the graph proved over its models.
pub mod sample;
pub mod osc;
pub mod graph;
pub mod laws;
