use vstd::prelude::*;
use crate::grid::Cell;
use crate::kernel::{
    kernel_spec, lemma_kernel_nonneg, lemma_kernel_support, lemma_kernel_upper, smoothing_kernel,
};
use crate::params::{INFLUENCE_RADIUS, KERNEL_VALUE_BOUND, MAX_PARTICLES, MAX_RADIUS};
use crate::vec2::{dist_sq, dist_sq_spec, in_bounds, lemma_dist_sq_nonneg, Vec2};

verus! {

/// The density a set of particles induces at a sample point: the sum of the
/// kernel contributions of every particle. Particles at or past the influence
/// radius contribute exactly zero, so no explicit cutoff appears here, and
/// grid-major and particle-major traversals both realise this same sum.
pub open spec fn density_sum(center: Vec2, particles: Seq<Vec2>, radius: int) -> int
    decreases particles.len(),
{
    if particles.len() == 0 {
        0
    } else {
        density_sum(center, particles.drop_last(), radius) + kernel_spec(
            radius,
            dist_sq_spec(center, particles.last()),
        )
    }
}

/// A density is a sum of non-negative kernel values: it is never negative and
/// never exceeds one kernel bound per particle.
pub proof fn lemma_density_sum_bounds(center: Vec2, particles: Seq<Vec2>, radius: int)
    requires
        1 <= radius <= MAX_RADIUS,
    ensures
        0 <= density_sum(center, particles, radius),
        density_sum(center, particles, radius) <= particles.len() * KERNEL_VALUE_BOUND,
    decreases particles.len(),
{
    if particles.len() > 0 {
        lemma_density_sum_bounds(center, particles.drop_last(), radius);
        lemma_dist_sq_nonneg(center, particles.last());
        lemma_kernel_nonneg(radius, dist_sq_spec(center, particles.last()));
        lemma_kernel_upper(radius, dist_sq_spec(center, particles.last()));
    }
}

/// Appending one particle adds exactly that particle's kernel contribution.
pub proof fn lemma_density_sum_step(center: Vec2, particles: Seq<Vec2>, radius: int, j: int)
    requires
        0 <= j < particles.len(),
    ensures
        density_sum(center, particles.subrange(0, j + 1), radius) == density_sum(
            center,
            particles.subrange(0, j),
            radius,
        ) + kernel_spec(radius, dist_sq_spec(center, particles[j])),
{
    assert(particles.subrange(0, j + 1).drop_last() =~= particles.subrange(0, j));
    assert(particles.subrange(0, j + 1).last() == particles[j]);
}

/// Additivity: the density of a combined set of particles is the sum of the
/// densities of its two parts, each computed independently.
pub proof fn lemma_density_sum_additive(
    center: Vec2,
    first: Seq<Vec2>,
    second: Seq<Vec2>,
    radius: int,
)
    ensures
        density_sum(center, first + second, radius) == density_sum(center, first, radius)
            + density_sum(center, second, radius),
    decreases second.len(),
{
    if second.len() == 0 {
        assert(first + second =~= first);
    } else {
        lemma_density_sum_additive(center, first, second.drop_last(), radius);
        assert((first + second).drop_last() =~= first + second.drop_last());
        assert((first + second).last() == second.last());
    }
}

/// Order independence: any one particle can be split off the sum, wherever
/// it stands in the snapshot — its contribution does not depend on the order
/// in which particles are visited.
pub proof fn lemma_density_sum_any_order(
    center: Vec2,
    particles: Seq<Vec2>,
    radius: int,
    j: int,
)
    requires
        0 <= j < particles.len(),
    ensures
        density_sum(center, particles, radius) == density_sum(center, particles.remove(j), radius)
            + kernel_spec(radius, dist_sq_spec(center, particles[j])),
    decreases particles.len(),
{
    if j == particles.len() - 1 {
        assert(particles.remove(j) =~= particles.drop_last());
    } else {
        lemma_density_sum_any_order(center, particles.drop_last(), radius, j);
        assert(particles.remove(j).drop_last() =~= particles.drop_last().remove(j));
        assert(particles.remove(j).last() == particles.last());
        assert(particles.drop_last()[j] == particles[j]);
    }
}

/// Recomputation is idempotent: the densities a pass leaves depend only on
/// the cell centres, the particle snapshot and the radius — never on the
/// densities that stood before the pass — so two passes over the same inputs
/// leave identical values.
pub proof fn lemma_recompute_idempotent(
    first: Seq<Cell>,
    second: Seq<Cell>,
    particles: Seq<Vec2>,
    radius: int,
)
    requires
        first.len() == second.len(),
        forall|i: int| 0 <= i < first.len() ==> first[i].center == (#[trigger] second[i]).center,
        forall|i: int|
            0 <= i < first.len() ==> (#[trigger] first[i]).density == density_sum(
                first[i].center,
                particles,
                radius,
            ),
        forall|i: int|
            0 <= i < second.len() ==> (#[trigger] second[i]).density == density_sum(
                second[i].center,
                particles,
                radius,
            ),
    ensures
        forall|i: int| 0 <= i < first.len() ==> (#[trigger] first[i]).density == second[i].density,
{
}

/// The density the particles induce at one sample point, exactly
/// `density_sum`, with the squared-distance prefilter of the reference layout:
/// a particle is only evaluated when its squared distance is within the
/// squared radius, and skipped particles contribute zero by construction.
pub fn density_at(center: Vec2, particles: &Vec<Vec2>, radius: i64) -> (density: i64)
    requires
        1 <= radius <= MAX_RADIUS,
        in_bounds(center),
        particles@.len() <= MAX_PARTICLES,
        forall|i: int| 0 <= i < particles@.len() ==> in_bounds(#[trigger] particles@[i]),
    ensures
        density == density_sum(center, particles@, radius as int),
        0 <= density <= particles@.len() * KERNEL_VALUE_BOUND,
{
    proof {
        assert(radius * radius <= 25_000_000) by (nonlinear_arith)
            requires
                1 <= radius <= 5_000,
        ;
    }
    let rr: i64 = radius * radius;
    let n: usize = particles.len();
    let mut acc: i64 = 0;
    let mut i: usize = 0;
    while i < n
        invariant
            i <= n,
            n == particles@.len(),
            n <= MAX_PARTICLES,
            1 <= radius <= MAX_RADIUS,
            rr == radius * radius,
            in_bounds(center),
            forall|k: int| 0 <= k < n ==> in_bounds(#[trigger] particles@[k]),
            acc == density_sum(center, particles@.subrange(0, i as int), radius as int),
            0 <= acc <= i * KERNEL_VALUE_BOUND,
        decreases n - i,
    {
        let p: Vec2 = particles[i];
        let dsq: i64 = dist_sq(center, p);
        if dsq <= rr {
            let influence: i64 = smoothing_kernel(radius, dsq);
            acc = acc + influence;
        } else {
            proof {
                lemma_kernel_support(radius as int, dsq as int);
            }
        }
        proof {
            lemma_density_sum_step(center, particles@, radius as int, i as int);
        }
        i = i + 1;
    }
    proof {
        assert(particles@.subrange(0, n as int) =~= particles@);
    }
    acc
}

/// The grid-major per-tick density pass: every cell's density is replaced by
/// the sum of the kernel contributions of the given particles, regardless of
/// whatever density the cell held before. Centres and pressures are kept.
pub fn recompute_density(cells: &mut Vec<Cell>, particles: &Vec<Vec2>, radius: i64)
    requires
        1 <= radius <= MAX_RADIUS,
        particles@.len() <= MAX_PARTICLES,
        forall|i: int| 0 <= i < particles@.len() ==> in_bounds(#[trigger] particles@[i]),
        forall|i: int| 0 <= i < old(cells)@.len() ==> in_bounds(#[trigger] old(cells)@[i].center),
    ensures
        final(cells)@.len() == old(cells)@.len(),
        forall|i: int|
            0 <= i < old(cells)@.len() ==> (#[trigger] final(cells)@[i]).center == old(
                cells,
            )@[i].center && final(cells)@[i].pressure == old(cells)@[i].pressure,
        forall|i: int|
            0 <= i < old(cells)@.len() ==> (#[trigger] final(cells)@[i]).density == density_sum(
                old(cells)@[i].center,
                particles@,
                radius as int,
            ),
        forall|i: int|
            0 <= i < old(cells)@.len() ==> 0 <= (#[trigger] final(cells)@[i]).density
                <= particles@.len() * KERNEL_VALUE_BOUND,
{
    let n_cells: usize = cells.len();
    let mut ci: usize = 0;
    while ci < n_cells
        invariant
            ci <= n_cells,
            n_cells == old(cells)@.len(),
            cells@.len() == n_cells,
            1 <= radius <= MAX_RADIUS,
            particles@.len() <= MAX_PARTICLES,
            forall|i: int| 0 <= i < particles@.len() ==> in_bounds(#[trigger] particles@[i]),
            forall|i: int| 0 <= i < n_cells ==> in_bounds(#[trigger] old(cells)@[i].center),
            forall|i: int|
                0 <= i < n_cells ==> (#[trigger] cells@[i]).center == old(cells)@[i].center
                    && cells@[i].pressure == old(cells)@[i].pressure,
            forall|i: int|
                0 <= i < ci ==> (#[trigger] cells@[i]).density == density_sum(
                    old(cells)@[i].center,
                    particles@,
                    radius as int,
                ) && 0 <= cells@[i].density <= particles@.len() * KERNEL_VALUE_BOUND,
        decreases n_cells - ci,
    {
        let center: Vec2 = cells[ci].center;
        let density: i64 = density_at(center, particles, radius);
        let mut cell: Cell = cells[ci];
        cell.density = density;
        cells[ci] = cell;
        ci = ci + 1;
    }
}

impl crate::grid::Grid {
    /// The grid-major density pass applied to this grid's own cells.
    pub fn recompute_density(&mut self, particles: &Vec<Vec2>, radius: i64)
        requires
            1 <= radius <= MAX_RADIUS,
            particles@.len() <= MAX_PARTICLES,
            forall|i: int| 0 <= i < particles@.len() ==> in_bounds(#[trigger] particles@[i]),
            forall|i: int|
                0 <= i < old(self).cells@.len() ==> in_bounds(
                    #[trigger] old(self).cells@[i].center,
                ),
        ensures
            final(self).cells@.len() == old(self).cells@.len(),
            forall|i: int|
                0 <= i < old(self).cells@.len() ==> (#[trigger] final(self).cells@[i]).center
                    == old(self).cells@[i].center && final(self).cells@[i].pressure == old(
                    self,
                ).cells@[i].pressure,
            forall|i: int|
                0 <= i < old(self).cells@.len() ==> (#[trigger] final(self).cells@[i]).density
                    == density_sum(old(self).cells@[i].center, particles@, radius as int),
    {
        recompute_density(&mut self.cells, particles, radius)
    }
}

impl Cell {
    /// Replaces this cell's density with the summed kernel contributions of
    /// the given particles at the fixed influence radius; centre and pressure
    /// are kept.
    pub fn update(&mut self, particles: &Vec<Vec2>)
        requires
            in_bounds(old(self).center),
            particles@.len() <= MAX_PARTICLES,
            forall|i: int| 0 <= i < particles@.len() ==> in_bounds(#[trigger] particles@[i]),
        ensures
            final(self).density == density_sum(
                old(self).center,
                particles@,
                INFLUENCE_RADIUS as int,
            ),
            final(self).center == old(self).center,
            final(self).pressure == old(self).pressure,
    {
        self.density = density_at(self.center, particles, INFLUENCE_RADIUS);
    }
}

/// The particle-major per-tick density pass of the reference layout: for each
/// particle in turn, every cell within the fixed influence radius accumulates
/// that particle's kernel contribution on top of its current density. With all
/// densities reset to zero beforehand, it leaves exactly the densities of
/// `recompute_density` at the fixed radius.
pub fn calculate_density(cells: &mut Vec<Cell>, particles: &Vec<Vec2>)
    requires
        particles@.len() <= MAX_PARTICLES,
        forall|i: int| 0 <= i < particles@.len() ==> in_bounds(#[trigger] particles@[i]),
        forall|i: int| 0 <= i < old(cells)@.len() ==> in_bounds(#[trigger] old(cells)@[i].center),
        forall|i: int|
            0 <= i < old(cells)@.len() ==> 0 <= (#[trigger] old(cells)@[i]).density
                <= 2_000_000_000_000_000_000,
    ensures
        final(cells)@.len() == old(cells)@.len(),
        forall|i: int|
            0 <= i < old(cells)@.len() ==> (#[trigger] final(cells)@[i]).center == old(
                cells,
            )@[i].center && final(cells)@[i].pressure == old(cells)@[i].pressure,
        forall|i: int|
            0 <= i < old(cells)@.len() ==> (#[trigger] final(cells)@[i]).density == old(
                cells,
            )@[i].density + density_sum(old(cells)@[i].center, particles@, INFLUENCE_RADIUS as int),
{
    let n_cells: usize = cells.len();
    let n_p: usize = particles.len();
    let mut pj: usize = 0;
    while pj < n_p
        invariant
            pj <= n_p,
            n_p == particles@.len(),
            n_p <= MAX_PARTICLES,
            n_cells == old(cells)@.len(),
            cells@.len() == n_cells,
            forall|i: int| 0 <= i < n_p ==> in_bounds(#[trigger] particles@[i]),
            forall|i: int| 0 <= i < n_cells ==> in_bounds(#[trigger] old(cells)@[i].center),
            forall|i: int|
                0 <= i < n_cells ==> 0 <= (#[trigger] old(cells)@[i]).density
                    <= 2_000_000_000_000_000_000,
            forall|i: int|
                0 <= i < n_cells ==> (#[trigger] cells@[i]).center == old(cells)@[i].center
                    && cells@[i].pressure == old(cells)@[i].pressure,
            forall|i: int|
                0 <= i < n_cells ==> (#[trigger] cells@[i]).density == old(cells)@[i].density
                    + density_sum(
                    old(cells)@[i].center,
                    particles@.subrange(0, pj as int),
                    INFLUENCE_RADIUS as int,
                ),
        decreases n_p - pj,
    {
        let p: Vec2 = particles[pj];
        let mut ci: usize = 0;
        while ci < n_cells
            invariant
                ci <= n_cells,
                pj < n_p,
                n_p == particles@.len(),
                n_p <= MAX_PARTICLES,
                n_cells == old(cells)@.len(),
                cells@.len() == n_cells,
                p == particles@[pj as int],
                forall|i: int| 0 <= i < n_p ==> in_bounds(#[trigger] particles@[i]),
                forall|i: int| 0 <= i < n_cells ==> in_bounds(#[trigger] old(cells)@[i].center),
                forall|i: int|
                    0 <= i < n_cells ==> 0 <= (#[trigger] old(cells)@[i]).density
                        <= 2_000_000_000_000_000_000,
                forall|i: int|
                    0 <= i < n_cells ==> (#[trigger] cells@[i]).center == old(cells)@[i].center
                        && cells@[i].pressure == old(cells)@[i].pressure,
                forall|i: int|
                    0 <= i < ci ==> (#[trigger] cells@[i]).density == old(cells)@[i].density
                        + density_sum(
                        old(cells)@[i].center,
                        particles@.subrange(0, pj + 1),
                        INFLUENCE_RADIUS as int,
                    ),
                forall|i: int|
                    ci <= i < n_cells ==> (#[trigger] cells@[i]).density == old(cells)@[i].density
                        + density_sum(
                        old(cells)@[i].center,
                        particles@.subrange(0, pj as int),
                        INFLUENCE_RADIUS as int,
                    ),
            decreases n_cells - ci,
        {
            let center: Vec2 = cells[ci].center;
            let dsq: i64 = dist_sq(center, p);
            proof {
                lemma_density_sum_step(center, particles@, INFLUENCE_RADIUS as int, pj as int);
                lemma_density_sum_bounds(
                    center,
                    particles@.subrange(0, pj as int),
                    INFLUENCE_RADIUS as int,
                );
                lemma_density_sum_bounds(
                    center,
                    particles@.subrange(0, pj + 1),
                    INFLUENCE_RADIUS as int,
                );
                assert(particles@.subrange(0, pj as int).len() * KERNEL_VALUE_BOUND <= n_p
                    * KERNEL_VALUE_BOUND);
            }
            if dsq <= INFLUENCE_RADIUS * INFLUENCE_RADIUS {
                let influence: i64 = smoothing_kernel(INFLUENCE_RADIUS, dsq);
                let mut cell: Cell = cells[ci];
                cell.density = cell.density + influence;
                cells[ci] = cell;
            } else {
                proof {
                    lemma_kernel_support(INFLUENCE_RADIUS as int, dsq as int);
                }
            }
            ci = ci + 1;
        }
        pj = pj + 1;
    }
    proof {
        assert(particles@.subrange(0, n_p as int) =~= particles@);
    }
}

} // verus!
