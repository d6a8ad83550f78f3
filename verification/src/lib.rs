//! A 2-D Eulerian fluid grid: fixed-size density and velocity fields over a
//! flattened cell buffer, per-frame force injection, and an iterative
//! relaxation (diffusion) solver that ping-pongs between two working slots.
//!
//! Field values are fixed-point integers (`fixed::SCALE` stands for 1.0), so
//! every kernel is plain integer arithmetic and carries a proved contract.
//! The crate exposes:
//! - [`grid::Grid`]: immutable grid dimensions and flat-index arithmetic;
//! - [`density::DensityField`]: three-slot density store (two ping-pong
//!   working slots plus the per-frame seed snapshot) with injection and
//!   relaxation;
//! - [`velocity::VelocityField`]: two-slot velocity store with uniform force
//!   injection and the same relaxation discipline;
//! - [`sim::FluidSimulator`]: the per-frame ordering of injection,
//!   relaxation, and read-only visualization;
//! - [`view`]: viewport-to-grid mapping and density shading for renderers;
//! - [`report::FrameReporter`]: once-per-distinct-message frame error
//!   reporting;
//! - [`laws`]: proved properties of the solver (damping, locality,
//!   fixed points, determinism).

pub mod density;
pub mod field;
pub mod fixed;
pub mod grid;
pub mod laws;
pub mod report;
pub mod sim;
pub mod velocity;
pub mod view;
