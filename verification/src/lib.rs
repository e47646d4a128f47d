//! A 2-D particle-field simulation core: a smoothed density field sampled on a
//! fixed grid of cells, and an all-pairs inverse-square repulsion solver.
//!
//! All quantities are fixed-point integers: positions are whole world units,
//! while densities and colour channels carry `params::SCALE` units per 1.0.
//! The surrounding driver (rendering, integration, input) converts to and from
//! its own representation and calls the two per-tick operations,
//! `density::recompute_density` and `repulsion::compute_repulsion`.

pub mod params;
pub mod vec2;
pub mod kernel;
pub mod grid;
pub mod density;
pub mod repulsion;
pub mod particles;
