use vstd::prelude::*;
use vstd::arithmetic::div_mod::{
    lemma_div_by_multiple, lemma_div_denominator, lemma_div_is_ordered, lemma_div_pos_is_pos,
};
use crate::params::{
    KERNEL_DEN_FACTOR, KERNEL_NUM_FACTOR, KERNEL_VALUE_BOUND, KERNEL_VOLUME, MAX_RADIUS, PI_DEN,
    PI_NUM, SCALE,
};

verus! {

/// Consistency of the folded normalisation factors with the named parameters:
/// the numerator factor is `4 * SCALE * PI_DEN` and the denominator factor is
/// `PI_NUM * KERNEL_VOLUME`.
pub proof fn lemma_kernel_factors()
    ensures
        KERNEL_NUM_FACTOR == 4 * SCALE * PI_DEN,
        KERNEL_DEN_FACTOR == PI_NUM * KERNEL_VOLUME,
{
    assert(KERNEL_NUM_FACTOR == 4 * SCALE * PI_DEN) by (nonlinear_arith)
        requires
            KERNEL_NUM_FACTOR == 452_000_000,
            SCALE == 1_000_000,
            PI_DEN == 113,
    ;
    assert(KERNEL_DEN_FACTOR == PI_NUM * KERNEL_VOLUME) by (nonlinear_arith)
        requires
            KERNEL_DEN_FACTOR == 27_881_634_680,
            PI_NUM == 355,
            KERNEL_VOLUME == 78_539_816,
    ;
}

/// The smoothing kernel, scaled by `SCALE`: the influence of a particle at
/// squared distance `dist_sq` from a sample point, for an influence radius
/// `radius`. Zero at and beyond the radius; inside it, the cubed falloff
/// `(radius^2 - dist_sq)^3` divided by the fixed normalisation volume and
/// multiplied by `4 / (pi * radius^2)`, with pi taken as `PI_NUM / PI_DEN`.
pub open spec fn kernel_spec(radius: int, dist_sq: int) -> int {
    let sq = radius * radius - dist_sq;
    if sq <= 0 {
        0
    } else {
        (sq * sq * sq * KERNEL_NUM_FACTOR) / (radius * radius * KERNEL_DEN_FACTOR)
    }
}

/// The kernel is zero at every squared distance at or past the squared radius.
pub proof fn lemma_kernel_support(radius: int, dist_sq: int)
    requires
        dist_sq >= radius * radius,
    ensures
        kernel_spec(radius, dist_sq) == 0,
{
}

/// The kernel is never negative.
pub proof fn lemma_kernel_nonneg(radius: int, dist_sq: int)
    requires
        radius >= 1,
    ensures
        kernel_spec(radius, dist_sq) >= 0,
{
    let sq: int = radius * radius - dist_sq;
    if sq > 0 {
        let num: int = sq * sq * sq * KERNEL_NUM_FACTOR;
        let den: int = radius * radius * KERNEL_DEN_FACTOR;
        assert(num >= 0 && den > 0) by (nonlinear_arith)
            requires
                sq > 0,
                radius >= 1,
                num == sq * sq * sq * 452_000_000,
                den == radius * radius * 27_881_634_680,
        ;
        lemma_div_pos_is_pos(num, den);
    }
}

/// No kernel value exceeds `KERNEL_VALUE_BOUND`, for any admitted radius.
pub proof fn lemma_kernel_upper(radius: int, dist_sq: int)
    requires
        1 <= radius <= MAX_RADIUS,
        dist_sq >= 0,
    ensures
        kernel_spec(radius, dist_sq) <= KERNEL_VALUE_BOUND,
{
    let rr: int = radius * radius;
    let sq: int = rr - dist_sq;
    if sq > 0 {
        let num: int = sq * sq * sq * KERNEL_NUM_FACTOR;
        let peak: int = rr * rr * KERNEL_NUM_FACTOR;
        let den: int = rr * KERNEL_DEN_FACTOR;
        assert(0 < rr <= 25_000_000 && num <= peak * rr && 0 < den && 0 <= peak
            <= 282_500_000_000_000_000_000_000) by (nonlinear_arith)
            requires
                1 <= radius <= 5_000,
                0 < sq <= rr,
                rr == radius * radius,
                num == sq * sq * sq * 452_000_000,
                peak == rr * rr * 452_000_000,
                den == rr * 27_881_634_680,
        ;
        assert(kernel_spec(radius, dist_sq) == num / den);
        lemma_div_is_ordered(num, peak * rr, den);
        assert(den == rr * (KERNEL_DEN_FACTOR as int));
        lemma_div_denominator(peak * rr, rr, KERNEL_DEN_FACTOR as int);
        lemma_div_by_multiple(peak, rr);
        assert((peak * rr) / den == peak / (KERNEL_DEN_FACTOR as int));
        lemma_div_is_ordered(
            peak,
            557_632_693_600_000_000_000_000,
            KERNEL_DEN_FACTOR as int,
        );
        lemma_div_by_multiple(KERNEL_VALUE_BOUND as int, KERNEL_DEN_FACTOR as int);
        assert(20_000_000_000_000int * 27_881_634_680int == 557_632_693_600_000_000_000_000int);
    }
}

/// At distance zero the kernel takes a closed-form peak that depends on the
/// radius alone: the fourth power of the radius times the numerator factor,
/// divided by the denominator factor. Together with monotonicity this is the
/// kernel's maximum.
pub proof fn lemma_kernel_peak(radius: int)
    requires
        1 <= radius <= MAX_RADIUS,
    ensures
        kernel_spec(radius, 0) == (radius * radius * radius * radius * KERNEL_NUM_FACTOR) / (
        KERNEL_DEN_FACTOR as int),
{
    let rr: int = radius * radius;
    let peak: int = radius * radius * radius * radius * KERNEL_NUM_FACTOR;
    assert(rr >= 1 && peak >= 0 && rr * rr * rr * KERNEL_NUM_FACTOR == peak * rr)
        by (nonlinear_arith)
        requires
            radius >= 1,
            rr == radius * radius,
            peak == radius * radius * radius * radius * KERNEL_NUM_FACTOR,
    ;
    lemma_div_denominator(peak * rr, rr, KERNEL_DEN_FACTOR as int);
    lemma_div_by_multiple(peak, rr);
    assert(rr * (KERNEL_DEN_FACTOR as int) == radius * radius * KERNEL_DEN_FACTOR);
}

/// Inside the support, the kernel does not increase with distance.
pub proof fn lemma_kernel_monotonic(radius: int, dist_sq_near: int, dist_sq_far: int)
    requires
        radius >= 1,
        0 <= dist_sq_near <= dist_sq_far,
    ensures
        kernel_spec(radius, dist_sq_near) >= kernel_spec(radius, dist_sq_far),
{
    let rr: int = radius * radius;
    let sq_near: int = rr - dist_sq_near;
    let sq_far: int = rr - dist_sq_far;
    if sq_far <= 0 {
        lemma_kernel_nonneg(radius, dist_sq_near);
    } else {
        let num_near: int = sq_near * sq_near * sq_near * KERNEL_NUM_FACTOR;
        let num_far: int = sq_far * sq_far * sq_far * KERNEL_NUM_FACTOR;
        let den: int = rr * KERNEL_DEN_FACTOR;
        assert(num_far <= num_near && den > 0) by (nonlinear_arith)
            requires
                0 < sq_far <= sq_near,
                radius >= 1,
                rr == radius * radius,
                num_near == sq_near * sq_near * sq_near * 452_000_000,
                num_far == sq_far * sq_far * sq_far * 452_000_000,
                den == rr * 27_881_634_680,
        ;
        lemma_div_is_ordered(num_far, num_near, den);
    }
}

/// The smoothing kernel, exactly `kernel_spec`, computed in 128-bit arithmetic.
pub fn smoothing_kernel(radius: i64, dist_sq: i64) -> (value: i64)
    requires
        1 <= radius <= MAX_RADIUS,
        0 <= dist_sq,
    ensures
        value == kernel_spec(radius as int, dist_sq as int),
        0 <= value <= KERNEL_VALUE_BOUND,
{
    proof {
        assert(radius * radius <= 25_000_000) by (nonlinear_arith)
            requires
                1 <= radius <= 5_000,
        ;
        lemma_kernel_nonneg(radius as int, dist_sq as int);
        lemma_kernel_upper(radius as int, dist_sq as int);
    }
    let rr: i64 = radius * radius;
    if dist_sq >= rr {
        return 0;
    }
    let sq: i64 = rr - dist_sq;
    let squ: u128 = sq as u128;
    let rru: u128 = rr as u128;
    let numf: u128 = 452_000_000;
    let denf: u128 = 27_881_634_680;
    proof {
        assert(squ * squ <= 625_000_000_000_000 && squ * squ * squ
            <= 15_625_000_000_000_000_000_000 && squ * squ * squ * numf
            <= 7_062_500_000_000_000_000_000_000_000_000 && 0 < rru * denf
            <= 700_000_000_000_000_000) by (nonlinear_arith)
            requires
                0 < squ <= 25_000_000,
                0 < rru <= 25_000_000,
                numf == 452_000_000,
                denf == 27_881_634_680,
        ;
    }
    let num: u128 = squ * squ * squ * numf;
    let den: u128 = rru * denf;
    let q: u128 = num / den;
    proof {
        assert(num == sq * sq * sq * KERNEL_NUM_FACTOR);
        assert(den == radius * radius * KERNEL_DEN_FACTOR);
        assert(q == kernel_spec(radius as int, dist_sq as int));
    }
    q as i64
}

} // verus!
