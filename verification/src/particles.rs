use vstd::prelude::*;
use vstd::arithmetic::div_mod::lemma_div_nonincreasing;
use crate::repulsion::{isqrt, sqrt_floor};
use crate::vec2::{in_bounds, Vec2};

verus! {

/// The horizontal coordinate of the `i`-th particle of the starting lattice:
/// particles fill rows of `sqrt_floor(n)` columns, spaced `spacing` apart and
/// centred as a block on the vertical axis.
pub open spec fn lattice_x(i: int, n: int, spacing: int) -> int {
    let per_row = sqrt_floor(n as nat) as int;
    (i % per_row) * spacing - (per_row * spacing) / 2
}

/// The vertical coordinate of the `i`-th particle of the starting lattice:
/// rows stack upwards, and the block of `(n - 1) / sqrt_floor(n) + 1` rows is
/// centred on the horizontal axis.
pub open spec fn lattice_y(i: int, n: int, spacing: int) -> int {
    let per_row = sqrt_floor(n as nat) as int;
    let per_col = (n - 1) / per_row + 1;
    (i / per_row) * spacing - (per_col * spacing) / 2
}

/// Lays out the starting lattice of particles: a near-square block of rows
/// around the origin, each particle one `spacing` (twice the particle radius
/// plus the gap) from its neighbours. Every position lies within the
/// coordinate bounds the passes accept.
pub fn setup_particles(particle_radius: i64, n_particles: usize, particle_spacing: i64) -> (
    particles: Vec<Vec2>)
    requires
        1 <= n_particles <= 3_000,
        0 <= particle_radius <= 100,
        0 <= particle_spacing <= 100,
    ensures
        particles@.len() == n_particles,
        forall|i: int|
            0 <= i < n_particles ==> (#[trigger] particles@[i]).x == lattice_x(
                i,
                n_particles as int,
                2 * particle_radius + particle_spacing,
            ) && particles@[i].y == lattice_y(
                i,
                n_particles as int,
                2 * particle_radius + particle_spacing,
            ),
        forall|i: int| 0 <= i < n_particles ==> in_bounds(#[trigger] particles@[i]),
{
    let per_row: u64 = isqrt(n_particles as u64);
    proof {
        assert(per_row >= 1 && per_row <= 54) by (nonlinear_arith)
            requires
                per_row * per_row <= n_particles,
                n_particles < (per_row + 1) * (per_row + 1),
                1 <= n_particles <= 3_000,
        ;
        lemma_div_nonincreasing(n_particles - 1, per_row as int);
    }
    let per_col: u64 = ((n_particles as u64) - 1) / per_row + 1;
    let spacing: i64 = 2 * particle_radius + particle_spacing;
    proof {
        assert(per_row * (spacing as u64) <= 16_200 && per_col * (spacing as u64) <= 900_000)
            by (nonlinear_arith)
            requires
                1 <= per_row <= 54,
                1 <= per_col <= 3_000,
                0 <= spacing <= 300,
        ;
    }
    let half_w: i64 = ((per_row * (spacing as u64)) / 2) as i64;
    let half_h: i64 = ((per_col * (spacing as u64)) / 2) as i64;
    let n: usize = n_particles;
    let mut particles: Vec<Vec2> = Vec::new();
    let mut i: usize = 0;
    while i < n
        invariant
            i <= n,
            1 <= n <= 3_000,
            n == n_particles,
            0 <= spacing <= 300,
            spacing == 2 * particle_radius + particle_spacing,
            per_row == sqrt_floor(n as nat),
            1 <= per_row <= 54,
            1 <= per_col <= 3_000,
            per_col == (n - 1) / (per_row as int) + 1,
            half_w == (per_row * spacing) / 2,
            half_h == (per_col * spacing) / 2,
            0 <= half_w <= 8_100,
            0 <= half_h <= 450_000,
            particles@.len() == i,
            forall|t: int|
                0 <= t < i ==> (#[trigger] particles@[t]).x == lattice_x(
                    t,
                    n as int,
                    spacing as int,
                ) && particles@[t].y == lattice_y(t, n as int, spacing as int),
            forall|t: int| 0 <= t < i ==> in_bounds(#[trigger] particles@[t]),
        decreases n - i,
    {
        let col: u64 = (i as u64) % per_row;
        let row: u64 = (i as u64) / per_row;
        proof {
            lemma_div_nonincreasing(i as int, per_row as int);
            assert(col * spacing <= 16_200 && row * spacing <= 900_000) by (nonlinear_arith)
                requires
                    0 <= col < per_row <= 54,
                    0 <= row <= 3_000,
                    0 <= spacing <= 300,
            ;
        }
        let px: i64 = (col as i64) * spacing - half_w;
        let py: i64 = (row as i64) * spacing - half_h;
        particles.push(Vec2 { x: px, y: py });
        i = i + 1;
    }
    particles
}

} // verus!
