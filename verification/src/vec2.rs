use vstd::prelude::*;
use crate::params::{MAX_COORD, MAX_DIST_SQ};

verus! {

/// A 2-D vector with fixed-point integer components, used both for positions
/// (whole world units) and for accumulated forces.
#[derive(Clone, Copy, PartialEq, Eq, Structural, Debug)]
pub struct Vec2 {
    pub x: i64,
    pub y: i64,
}

/// A position the core accepts: both components within `MAX_COORD`.
pub open spec fn in_bounds(v: Vec2) -> bool {
    -MAX_COORD <= v.x <= MAX_COORD && -MAX_COORD <= v.y <= MAX_COORD
}

/// Squared Euclidean distance between two points, exact over the integers.
pub open spec fn dist_sq_spec(a: Vec2, b: Vec2) -> int {
    (a.x - b.x) * (a.x - b.x) + (a.y - b.y) * (a.y - b.y)
}

pub proof fn lemma_dist_sq_nonneg(a: Vec2, b: Vec2)
    ensures
        dist_sq_spec(a, b) >= 0,
{
    assert((a.x - b.x) * (a.x - b.x) >= 0 && (a.y - b.y) * (a.y - b.y) >= 0)
        by (nonlinear_arith);
}

/// Squared distance is symmetric in its two endpoints.
pub proof fn lemma_dist_sq_symmetric(a: Vec2, b: Vec2)
    ensures
        dist_sq_spec(a, b) == dist_sq_spec(b, a),
{
    assert((a.x - b.x) * (a.x - b.x) == (b.x - a.x) * (b.x - a.x) && (a.y - b.y) * (a.y - b.y)
        == (b.y - a.y) * (b.y - a.y)) by (nonlinear_arith);
}

/// Squared distance between two in-bounds points, exactly `dist_sq_spec`.
pub fn dist_sq(a: Vec2, b: Vec2) -> (d: i64)
    requires
        in_bounds(a),
        in_bounds(b),
    ensures
        d == dist_sq_spec(a, b),
        0 <= d <= MAX_DIST_SQ,
{
    let dx: i64 = a.x - b.x;
    let dy: i64 = a.y - b.y;
    assert(0 <= dx * dx <= 4_000_000_000_000 && 0 <= dy * dy <= 4_000_000_000_000)
        by (nonlinear_arith)
        requires
            -2_000_000 <= dx <= 2_000_000,
            -2_000_000 <= dy <= 2_000_000,
    ;
    dx * dx + dy * dy
}

} // verus!
