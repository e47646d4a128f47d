use vstd::prelude::*;

verus! {

/// Fixed-point scale: densities and colour channels carry this many units per 1.0.
pub const SCALE: i64 = 1_000_000;

/// Influence radius of the density pass, in world units: a particle farther
/// than this from a cell centre contributes nothing to that cell.
pub const INFLUENCE_RADIUS: i64 = 75;

/// Strength constant of the pairwise repulsion force.
pub const REPULSION_K: i64 = 10_000_000;

/// Normalisation volume of the smoothing kernel: the integral of the cubed
/// falloff over the reference disk, carried as one fixed constant rather than
/// recomputed from the radius.
pub const KERNEL_VOLUME: i64 = 78_539_816;

/// pi is approximated by the ratio `PI_NUM / PI_DEN`, accurate to within
/// 3e-7 relative error, which is finer than the fixed-point resolution.
pub const PI_NUM: i64 = 355;
pub const PI_DEN: i64 = 113;

/// Combined kernel normalisation factors: the kernel multiplies the cubed
/// falloff by `4 * SCALE * PI_DEN` and divides by
/// `radius^2 * PI_NUM * KERNEL_VOLUME`. Both products are written out so that
/// contracts and proofs work with one literal each.
pub const KERNEL_NUM_FACTOR: i64 = 452_000_000;
pub const KERNEL_DEN_FACTOR: i64 = 27_881_634_680;

/// Largest influence radius the kernel accepts; keeps its intermediate
/// products inside 128-bit arithmetic and its value inside `KERNEL_VALUE_BOUND`.
pub const MAX_RADIUS: i64 = 5_000;

/// Largest coordinate magnitude of any position handed to the core.
pub const MAX_COORD: i64 = 1_000_000;

/// Largest squared distance between two in-bounds positions.
pub const MAX_DIST_SQ: i64 = 8_000_000_000_000;

/// Largest number of particles a single pass accepts; keeps the accumulated
/// densities and forces inside `i64`.
pub const MAX_PARTICLES: usize = 100_000;

/// Largest repulsion constant `compute_repulsion` accepts.
pub const MAX_K: i64 = 10_000_000_000_000;

/// Largest density magnitude the colour mapping accepts; keeps the mapping's
/// arithmetic inside `i64`. Any density a pass can produce stays far below it.
pub const DENSITY_LIMIT: i64 = 4_000_000_000_000_000_000;

/// Upper bound on any single kernel value (scaled by `SCALE`), for any radius
/// up to `MAX_RADIUS` and any distance.
pub const KERNEL_VALUE_BOUND: i64 = 20_000_000_000_000;

} // verus!
