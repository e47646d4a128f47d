use vstd::prelude::*;
use vstd::arithmetic::div_mod::{
    lemma_div_by_multiple, lemma_div_denominator, lemma_div_is_ordered,
    lemma_div_is_ordered_by_denominator, lemma_div_of0, lemma_div_pos_is_pos,
    lemma_fundamental_div_mod, lemma_mod_bound, lemma_multiply_divide_lt,
};
use crate::grid::abs_val;
use crate::params::{MAX_K, MAX_PARTICLES};
use crate::vec2::{dist_sq, dist_sq_spec, in_bounds, lemma_dist_sq_nonneg, lemma_dist_sq_symmetric, Vec2};

verus! {

/// Division truncating towards zero, as Rust's `/` computes it on signed
/// integers; ghost `/` alone rounds towards minus infinity instead.
pub open spec fn trunc_div(a: int, b: int) -> int
    recommends
        b > 0,
{
    if a >= 0 {
        a / b
    } else {
        -((-a) / b)
    }
}

/// The integer square root: the largest integer whose square is at most `n`.
pub open spec fn sqrt_floor(n: nat) -> nat
    decreases n,
{
    if n == 0 {
        0
    } else {
        let s = sqrt_floor((n - 1) as nat);
        if (s + 1) * (s + 1) <= n {
            s + 1
        } else {
            s
        }
    }
}

/// `sqrt_floor(n)` squares to at most `n`, and the next integer squares past it.
pub proof fn lemma_sqrt_floor_bounds(n: nat)
    ensures
        sqrt_floor(n) * sqrt_floor(n) <= n,
        n < (sqrt_floor(n) + 1) * (sqrt_floor(n) + 1),
    decreases n,
{
    if n == 0 {
        assert(sqrt_floor(0) == 0);
        assert(sqrt_floor(n) * sqrt_floor(n) == 0 && (sqrt_floor(n) + 1) * (sqrt_floor(n) + 1)
            == 1) by (nonlinear_arith)
            requires
                sqrt_floor(n) == 0,
        ;
    } else {
        lemma_sqrt_floor_bounds((n - 1) as nat);
        let s = sqrt_floor((n - 1) as nat);
        assert(sqrt_floor(n) == if (s + 1) * (s + 1) <= n {
            s + 1
        } else {
            s
        });
        assert(s * s <= n - 1 && n - 1 < (s + 1) * (s + 1));
        if (s + 1) * (s + 1) <= n {
            assert(sqrt_floor(n) == s + 1);
            assert((s + 2) * (s + 2) >= (s + 1) * (s + 1) + 1) by (nonlinear_arith);
            assert(n < (s + 2) * (s + 2));
        } else {
            assert(sqrt_floor(n) == s);
        }
    }
}

/// Any integer square-root witness is the `sqrt_floor`.
pub proof fn lemma_sqrt_floor_unique(n: nat, r: nat)
    requires
        r * r <= n,
        n < (r + 1) * (r + 1),
    ensures
        r == sqrt_floor(n),
{
    let s = sqrt_floor(n);
    lemma_sqrt_floor_bounds(n);
    if r < s {
        assert((r + 1) * (r + 1) <= s * s) by (nonlinear_arith)
            requires
                r + 1 <= s,
        ;
        assert(false);
    }
    if r > s {
        assert((s + 1) * (s + 1) <= r * r) by (nonlinear_arith)
            requires
                s + 1 <= r,
        ;
        assert(false);
    }
}

/// The integer square root, by bisection; wide enough for squared distances
/// scaled to squared thousandths of a world unit.
pub fn isqrt(n: u64) -> (r: u64)
    requires
        n <= 8_000_000_000_000_000_000,
    ensures
        r == sqrt_floor(n as nat),
        r * r <= n < (r + 1) * (r + 1),
        r <= 3_000_000_000,
{
    let mut lo: u64 = 0;
    let mut hi: u64 = 3_000_000_000;
    while lo + 1 < hi
        invariant
            lo < hi <= 3_000_000_000,
            lo * lo <= n,
            n < hi * hi,
        decreases hi - lo,
    {
        let mid: u64 = lo + (hi - lo) / 2;
        proof {
            assert(mid * mid <= 9_000_000_000_000_000_000) by (nonlinear_arith)
                requires
                    mid <= 3_000_000_000,
            ;
        }
        if mid * mid <= n {
            lo = mid;
        } else {
            hi = mid;
        }
    }
    proof {
        lemma_sqrt_floor_unique(n as nat, lo as nat);
    }
    lo
}

/// Negating the dividend negates a truncating quotient.
pub proof fn lemma_trunc_div_neg(a: int, b: int)
    requires
        b >= 1,
    ensures
        trunc_div(-a, b) == -trunc_div(a, b),
{
    if a == 0 {
        lemma_div_of0(b);
    }
}

/// A truncating quotient `delta * k * 10^9 / dm^3`, with `dm` a distance in
/// thousandths and `|delta| <= dm / 1000`, stays within `[-k, k]`.
pub proof fn lemma_trunc_div_bound(delta: int, dm: int, k: int)
    requires
        -dm <= 1_000 * delta <= dm,
        dm >= 1_000,
        k >= 0,
    ensures
        -k <= trunc_div(delta * k * 1_000_000_000, dm * dm * dm) <= k,
{
    let num = delta * k * 1_000_000_000;
    let ddd = dm * dm * dm;
    assert(ddd >= 1 && dm * 1_000_000 * k <= ddd * k && ddd * k == k * ddd) by (nonlinear_arith)
        requires
            dm >= 1_000,
            k >= 0,
            ddd == dm * dm * dm,
    ;
    if num >= 0 {
        assert(num <= dm * 1_000_000 * k) by (nonlinear_arith)
            requires
                1_000 * delta <= dm,
                k >= 0,
                num == delta * k * 1_000_000_000,
                num >= 0,
        ;
        lemma_div_pos_is_pos(num, ddd);
        lemma_div_is_ordered(num, k * ddd, ddd);
        lemma_div_by_multiple(k, ddd);
    } else {
        assert(0 <= -num && -num <= dm * 1_000_000 * k) by (nonlinear_arith)
            requires
                -dm <= 1_000 * delta,
                k >= 0,
                num == delta * k * 1_000_000_000,
                num < 0,
        ;
        lemma_div_pos_is_pos(-num, ddd);
        lemma_div_is_ordered(-num, k * ddd, ddd);
        lemma_div_by_multiple(k, ddd);
    }
}

/// The distance between two points, in thousandths of a world unit: the
/// integer square root of the squared distance scaled to squared thousandths.
/// Sub-unit precision keeps the inverse-square law accurate for separations
/// whose Euclidean distance is not a whole number.
pub open spec fn milli_distance(a: Vec2, b: Vec2) -> int {
    sqrt_floor((dist_sq_spec(a, b) * 1_000_000) as nat) as int
}

/// The horizontal component of the repulsion force particle `b` exerts on
/// particle `a`: the separation scaled by `k` and divided by the cubed
/// distance (the unit direction times `k / distance^2`), carried in
/// thousandths and truncating towards zero. A coincident pair exerts no
/// force at all.
pub open spec fn pair_force_x(a: Vec2, b: Vec2, k: int) -> int {
    if dist_sq_spec(a, b) == 0 {
        0
    } else {
        let dm = milli_distance(a, b);
        trunc_div((a.x - b.x) * k * 1_000_000_000, dm * dm * dm)
    }
}

/// The vertical component of the repulsion force particle `b` exerts on `a`.
pub open spec fn pair_force_y(a: Vec2, b: Vec2, k: int) -> int {
    if dist_sq_spec(a, b) == 0 {
        0
    } else {
        let dm = milli_distance(a, b);
        trunc_div((a.y - b.y) * k * 1_000_000_000, dm * dm * dm)
    }
}

/// A coincident pair contributes no force: the undefined direction is
/// deliberately skipped rather than propagated.
pub proof fn lemma_coincident_pair_zero(a: Vec2, b: Vec2, k: int)
    requires
        dist_sq_spec(a, b) == 0,
    ensures
        pair_force_x(a, b, k) == 0,
        pair_force_y(a, b, k) == 0,
{
}

/// Each separation component, in thousandths, is bounded by the
/// milli-distance itself, which is at least one whole unit.
proof fn lemma_delta_within_distance(a: Vec2, b: Vec2)
    requires
        dist_sq_spec(a, b) > 0,
    ensures
        1_000 <= milli_distance(a, b),
        -milli_distance(a, b) <= 1_000 * (a.x - b.x) <= milli_distance(a, b),
        -milli_distance(a, b) <= 1_000 * (a.y - b.y) <= milli_distance(a, b),
{
    let dsq = dist_sq_spec(a, b);
    let scaled = dsq * 1_000_000;
    let dm = milli_distance(a, b);
    lemma_sqrt_floor_bounds(scaled as nat);
    assert(dm >= 1_000 && -dm <= 1_000 * (a.x - b.x) <= dm && -dm <= 1_000 * (a.y - b.y) <= dm)
        by (nonlinear_arith)
        requires
            dsq == (a.x - b.x) * (a.x - b.x) + (a.y - b.y) * (a.y - b.y),
            dsq > 0,
            scaled == dsq * 1_000_000,
            dm >= 0,
            dm * dm <= scaled < (dm + 1) * (dm + 1),
    ;
}

/// No pair contributes more than `k` to either force component.
pub proof fn lemma_pair_force_bound(a: Vec2, b: Vec2, k: int)
    requires
        k >= 0,
    ensures
        -k <= pair_force_x(a, b, k) <= k,
        -k <= pair_force_y(a, b, k) <= k,
{
    let dsq = dist_sq_spec(a, b);
    lemma_dist_sq_nonneg(a, b);
    if dsq != 0 {
        lemma_delta_within_distance(a, b);
        lemma_trunc_div_bound(a.x - b.x, milli_distance(a, b), k);
        lemma_trunc_div_bound(a.y - b.y, milli_distance(a, b), k);
    }
}

/// One truncating force component `delta * k * 10^9 / dm^3`, with `dm` the
/// distance in thousandths, computed on magnitudes in 128-bit arithmetic
/// with the sign applied afterwards, as Rust's signed division would round.
fn force_component(delta: i64, dm: u64, k: i64) -> (f: i64)
    requires
        1_000 <= dm <= 3_000_000_000,
        -(dm as int) <= 1_000 * delta <= dm as int,
        0 <= k <= MAX_K,
    ensures
        f == trunc_div(delta * k * 1_000_000_000, (dm as int) * (dm as int) * (dm as int)),
        -k <= f <= k,
{
    proof {
        lemma_trunc_div_bound(delta as int, dm as int, k as int);
        assert((dm as u128) * (dm as u128) <= 9_000_000_000_000_000_000 && (dm as u128) * (
        dm as u128) * (dm as u128) == (dm as int) * (dm as int) * (dm as int) && 0 < (dm as u128)
            * (dm as u128) * (dm as u128)
            <= 27_000_000_000_000_000_000_000_000_000) by (nonlinear_arith)
            requires
                1 <= dm <= 3_000_000_000,
        ;
    }
    let ddd: u128 = (dm as u128) * (dm as u128) * (dm as u128);
    let mag: u64 = if delta < 0 {
        (-delta) as u64
    } else {
        delta as u64
    };
    proof {
        assert((mag as u128) * (k as u128) <= 30_000_000_000_000_000_000 && (mag as u128) * (
        k as u128) * 1_000_000_000 == mag * k * 1_000_000_000 && (mag as u128) * (k as u128)
            * 1_000_000_000 <= 30_000_000_000_000_000_000_000_000_000) by (nonlinear_arith)
            requires
                mag <= 3_000_000,
                0 <= k <= 10_000_000_000_000,
        ;
    }
    let num: u128 = (mag as u128) * (k as u128) * 1_000_000_000;
    let q: u128 = num / ddd;
    if delta < 0 {
        proof {
            assert((-(delta as int)) * k * 1_000_000_000 == -(delta * k * 1_000_000_000))
                by (nonlinear_arith);
            assert(q == -trunc_div(
                delta * k * 1_000_000_000,
                (dm as int) * (dm as int) * (dm as int),
            ));
        }
        -(q as i64)
    } else {
        proof {
            assert(q == trunc_div(
                delta * k * 1_000_000_000,
                (dm as int) * (dm as int) * (dm as int),
            ));
        }
        q as i64
    }
}

/// Mutual repulsion is equal and opposite: the force `b` exerts on `a` is the
/// exact negation, component by component, of the force `a` exerts on `b`.
pub proof fn lemma_pair_force_antisymmetric(a: Vec2, b: Vec2, k: int)
    ensures
        pair_force_x(a, b, k) == -pair_force_x(b, a, k),
        pair_force_y(a, b, k) == -pair_force_y(b, a, k),
{
    lemma_dist_sq_symmetric(a, b);
    lemma_dist_sq_nonneg(a, b);
    let dsq = dist_sq_spec(a, b);
    if dsq != 0 {
        lemma_delta_within_distance(a, b);
        let dm = milli_distance(a, b);
        let ddd = dm * dm * dm;
        assert(milli_distance(b, a) == dm);
        assert(ddd >= 1) by (nonlinear_arith)
            requires
                dm >= 1,
                ddd == dm * dm * dm,
        ;
        assert((b.x - a.x) * k * 1_000_000_000 == -((a.x - b.x) * k * 1_000_000_000) && (b.y
            - a.y) * k * 1_000_000_000 == -((a.y - b.y) * k * 1_000_000_000))
            by (nonlinear_arith);
        lemma_trunc_div_neg((a.x - b.x) * k * 1_000_000_000, ddd);
        lemma_trunc_div_neg((a.y - b.y) * k * 1_000_000_000, ddd);
    }
}

/// Doubling a non-negative numerator while the cubed denominator grows from
/// `dm^3` to `dm2^3` — `dm2` being `2*dm` or `2*dm + 1` — yields at most a
/// quarter of the original quotient, and misses a quarter by at most a
/// 1-in-500 fraction of it plus five units.
proof fn lemma_quarter_tolerance_core(num: int, dm: int, dm2: int)
    requires
        num >= 0,
        dm >= 1_000,
        2 * dm <= dm2 <= 2 * dm + 1,
    ensures
        0 <= num / (dm * dm * dm) - 4 * ((2 * num) / (dm2 * dm2 * dm2)),
        num / (dm * dm * dm) - 4 * ((2 * num) / (dm2 * dm2 * dm2)) <= (num / (dm * dm * dm))
            / 500 + 5,
{
    let d3 = dm * dm * dm;
    let e3 = dm2 * dm2 * dm2;
    let ep = (2 * dm + 1) * (2 * dm + 1) * (2 * dm + 1);
    let f1 = num / d3;
    let q = (2 * num) / e3;
    assert(1 <= d3 && 8 * d3 <= e3 && e3 <= ep && ep == 8 * d3 + 12 * (dm * dm) + 6 * dm + 1)
        by (nonlinear_arith)
        requires
            dm >= 1_000,
            2 * dm <= dm2 <= 2 * dm + 1,
            d3 == dm * dm * dm,
            e3 == dm2 * dm2 * dm2,
            ep == (2 * dm + 1) * (2 * dm + 1) * (2 * dm + 1),
    ;
    lemma_div_pos_is_pos(num, d3);
    lemma_div_pos_is_pos(2 * num, e3);
    lemma_div_pos_is_pos(f1, 500);
    lemma_div_is_ordered_by_denominator(2 * num, 8 * d3, e3);
    lemma_div_denominator(2 * num, 2, 4 * d3);
    assert(2 * num == num * 2);
    lemma_div_by_multiple(num, 2);
    lemma_div_denominator(num, d3, 4);
    assert(2 * (4 * d3) == 8 * d3 && d3 * 4 == 4 * d3);
    assert((2 * num) / (8 * d3) == f1 / 4);
    lemma_fundamental_div_mod(f1, 4);
    lemma_mod_bound(f1, 4);
    assert(0 <= f1 - 4 * q);
    let qp = (2 * num) / ep;
    lemma_div_is_ordered_by_denominator(2 * num, e3, ep);
    lemma_fundamental_div_mod(2 * num, ep);
    lemma_mod_bound(2 * num, ep);
    assert(8 * num < ep * (4 * qp + 4)) by (nonlinear_arith)
        requires
            2 * num == ep * qp + (2 * num) % ep,
            0 <= (2 * num) % ep < ep,
    ;
    lemma_multiply_divide_lt(8 * num, ep, 4 * qp + 4);
    let g = f1 - f1 / 500 - 2;
    if g >= 0 {
        let s = f1 / 500;
        lemma_fundamental_div_mod(num, d3);
        lemma_mod_bound(num, d3);
        lemma_fundamental_div_mod(f1, 500);
        lemma_mod_bound(f1, 500);
        assert(num >= d3 * f1);
        assert(500 * s >= f1 - 499);
        assert(500 * (13 * (dm * dm) * f1) <= 8 * d3 * f1) by (nonlinear_arith)
            requires
                dm >= 1_000,
                d3 == dm * dm * dm,
                f1 >= 0,
        ;
        assert(8 * d3 * f1 <= 8 * d3 * (500 * s + 499)) by (nonlinear_arith)
            requires
                f1 <= 500 * s + 499,
                d3 >= 1,
        ;
        assert(8 * d3 * (500 * s + 499) <= 500 * (8 * d3 * s + 16 * d3)) by (nonlinear_arith)
            requires
                d3 >= 0,
        ;
        assert(13 * (dm * dm) * f1 <= 8 * d3 * s + 16 * d3);
        assert(ep * g <= 8 * d3 * g + 13 * (dm * dm) * g) by (nonlinear_arith)
            requires
                ep == 8 * d3 + 12 * (dm * dm) + 6 * dm + 1,
                dm >= 1_000,
                g >= 0,
        ;
        assert(13 * (dm * dm) * g <= 13 * (dm * dm) * f1) by (nonlinear_arith)
            requires
                0 <= g <= f1,
                dm >= 0,
        ;
        assert(8 * d3 * g + 8 * d3 * s + 16 * d3 == 8 * d3 * (g + s + 2)) by (nonlinear_arith);
        assert(g + s + 2 == f1);
        assert(8 * d3 * f1 <= 8 * num) by (nonlinear_arith)
            requires
                num >= d3 * f1,
        ;
        assert(ep * g <= 8 * num);
        lemma_div_is_ordered(ep * g, 8 * num, ep);
        assert(ep * g == g * ep) by (nonlinear_arith);
        lemma_div_by_multiple(g, ep);
        assert(4 * qp >= g - 3);
        assert(f1 - 4 * q <= f1 / 500 + 5);
    } else {
        assert(f1 - 4 * q <= f1 / 500 + 5);
    }
}

/// The same quarter-with-tolerance relation for a numerator of either sign,
/// phrased over the truncating quotients of the force model.
proof fn lemma_decay_component(num: int, dm: int, dm2: int)
    requires
        dm >= 1_000,
        2 * dm <= dm2 <= 2 * dm + 1,
    ensures
        abs_val(4 * trunc_div(2 * num, dm2 * dm2 * dm2)) <= abs_val(trunc_div(num, dm * dm * dm)),
        abs_val(trunc_div(num, dm * dm * dm) - 4 * trunc_div(2 * num, dm2 * dm2 * dm2)) <= abs_val(
            trunc_div(num, dm * dm * dm),
        ) / 500 + 5,
{
    let d3 = dm * dm * dm;
    let e3 = dm2 * dm2 * dm2;
    assert(d3 >= 1 && e3 >= 1) by (nonlinear_arith)
        requires
            dm >= 1,
            dm2 >= 2,
            d3 == dm * dm * dm,
            e3 == dm2 * dm2 * dm2,
    ;
    if num >= 0 {
        lemma_quarter_tolerance_core(num, dm, dm2);
        lemma_div_pos_is_pos(num, d3);
        lemma_div_pos_is_pos(2 * num, e3);
        lemma_div_pos_is_pos(num / d3, 500);
    } else {
        lemma_quarter_tolerance_core(-num, dm, dm2);
        lemma_div_pos_is_pos(-num, d3);
        lemma_div_pos_is_pos(2 * (-num), e3);
        lemma_div_pos_is_pos((-num) / d3, 500);
        assert(2 * (-num) == -(2 * num));
    }
}

/// Inverse-square decay: doubling a pair's separation leaves, in each
/// component, at most a quarter of the force, and misses an exact quarter by
/// no more than a 1-in-500 fraction of that component plus five fixed-point
/// units — for every pair, at every distance.
pub proof fn lemma_repulsion_decay(a: Vec2, b: Vec2, far: Vec2, k: int)
    requires
        dist_sq_spec(a, b) > 0,
        far.x - a.x == 2 * (b.x - a.x),
        far.y - a.y == 2 * (b.y - a.y),
    ensures
        abs_val(4 * pair_force_x(a, far, k)) <= abs_val(pair_force_x(a, b, k)),
        abs_val(4 * pair_force_y(a, far, k)) <= abs_val(pair_force_y(a, b, k)),
        abs_val(pair_force_x(a, b, k) - 4 * pair_force_x(a, far, k)) <= abs_val(
            pair_force_x(a, b, k),
        ) / 500 + 5,
        abs_val(pair_force_y(a, b, k) - 4 * pair_force_y(a, far, k)) <= abs_val(
            pair_force_y(a, b, k),
        ) / 500 + 5,
{
    let dsq = dist_sq_spec(a, b);
    let scaled = dsq * 1_000_000;
    let dm = milli_distance(a, b);
    lemma_delta_within_distance(a, b);
    lemma_sqrt_floor_bounds(scaled as nat);
    assert(dist_sq_spec(a, far) == 4 * dsq) by (nonlinear_arith)
        requires
            a.x - far.x == 2 * (a.x - b.x),
            a.y - far.y == 2 * (a.y - b.y),
            dsq == (a.x - b.x) * (a.x - b.x) + (a.y - b.y) * (a.y - b.y),
            dist_sq_spec(a, far) == (a.x - far.x) * (a.x - far.x) + (a.y - far.y) * (a.y - far.y),
    ;
    let dm2 = milli_distance(a, far);
    assert(dist_sq_spec(a, far) * 1_000_000 == 4 * scaled);
    lemma_sqrt_floor_bounds((4 * scaled) as nat);
    assert(2 * dm <= dm2 <= 2 * dm + 1) by (nonlinear_arith)
        requires
            dm >= 0,
            dm2 >= 0,
            dm * dm <= scaled < (dm + 1) * (dm + 1),
            dm2 * dm2 <= 4 * scaled < (dm2 + 1) * (dm2 + 1),
    ;
    let nx = (a.x - b.x) * k * 1_000_000_000;
    let ny = (a.y - b.y) * k * 1_000_000_000;
    assert((a.x - far.x) * k * 1_000_000_000 == 2 * nx && (a.y - far.y) * k * 1_000_000_000 == 2
        * ny) by (nonlinear_arith)
        requires
            a.x - far.x == 2 * (a.x - b.x),
            a.y - far.y == 2 * (a.y - b.y),
            nx == (a.x - b.x) * k * 1_000_000_000,
            ny == (a.y - b.y) * k * 1_000_000_000,
    ;
    lemma_decay_component(nx, dm, dm2);
    lemma_decay_component(ny, dm, dm2);
}

/// The horizontal component of the total repulsion force on particle `i`:
/// the sum of its pair forces against the first `n` particles, with no
/// self-term.
pub open spec fn force_sum_x(particles: Seq<Vec2>, i: int, k: int, n: int) -> int
    decreases n,
{
    if n <= 0 {
        0
    } else {
        force_sum_x(particles, i, k, n - 1) + if n - 1 == i {
            0
        } else {
            pair_force_x(particles[i], particles[n - 1], k)
        }
    }
}

/// The vertical component of the total repulsion force on particle `i`.
pub open spec fn force_sum_y(particles: Seq<Vec2>, i: int, k: int, n: int) -> int
    decreases n,
{
    if n <= 0 {
        0
    } else {
        force_sum_y(particles, i, k, n - 1) + if n - 1 == i {
            0
        } else {
            pair_force_y(particles[i], particles[n - 1], k)
        }
    }
}

/// Total forces stay finite: each component is bounded by `k` per particle.
pub proof fn lemma_force_sum_bound(particles: Seq<Vec2>, i: int, k: int, n: int)
    requires
        k >= 0,
        n >= 0,
    ensures
        -(n * k) <= force_sum_x(particles, i, k, n) <= n * k,
        -(n * k) <= force_sum_y(particles, i, k, n) <= n * k,
    decreases n,
{
    if n > 0 {
        lemma_force_sum_bound(particles, i, k, n - 1);
        lemma_pair_force_bound(particles[i], particles[n - 1], k);
        assert(n * k == (n - 1) * k + k) by (nonlinear_arith);
    }
}

/// For two particles the solver's forces are exact opposites: equal
/// magnitude, opposite direction, component by component.
pub proof fn lemma_repulsion_symmetry(a: Vec2, b: Vec2, k: int)
    ensures
        force_sum_x(seq![a, b], 0, k, 2) == pair_force_x(a, b, k),
        force_sum_y(seq![a, b], 0, k, 2) == pair_force_y(a, b, k),
        force_sum_x(seq![a, b], 1, k, 2) == -force_sum_x(seq![a, b], 0, k, 2),
        force_sum_y(seq![a, b], 1, k, 2) == -force_sum_y(seq![a, b], 0, k, 2),
{
    let s = seq![a, b];
    assert(s[0] == a && s[1] == b);
    assert(force_sum_x(s, 0, k, 0) == 0 && force_sum_y(s, 0, k, 0) == 0);
    assert(force_sum_x(s, 0, k, 1) == 0 && force_sum_y(s, 0, k, 1) == 0);
    assert(force_sum_x(s, 0, k, 2) == pair_force_x(a, b, k) && force_sum_y(s, 0, k, 2)
        == pair_force_y(a, b, k));
    assert(force_sum_x(s, 1, k, 0) == 0 && force_sum_y(s, 1, k, 0) == 0);
    assert(force_sum_x(s, 1, k, 1) == pair_force_x(b, a, k) && force_sum_y(s, 1, k, 1)
        == pair_force_y(b, a, k));
    assert(force_sum_x(s, 1, k, 2) == pair_force_x(b, a, k) && force_sum_y(s, 1, k, 2)
        == pair_force_y(b, a, k));
    lemma_pair_force_antisymmetric(a, b, k);
}

/// The all-pairs repulsion pass: one force vector per particle, each exactly
/// the summed pair forces of `force_sum_x` / `force_sum_y` over every other
/// particle, replacing whatever forces held before. Defined for every input,
/// coincident particles included: such pairs are skipped, so every returned
/// component is bounded by `k` per particle rather than poisoned.
pub fn compute_repulsion(particles: &Vec<Vec2>, k: i64) -> (forces: Vec<Vec2>)
    requires
        0 <= k <= MAX_K,
        particles@.len() <= MAX_PARTICLES,
        forall|i: int| 0 <= i < particles@.len() ==> in_bounds(#[trigger] particles@[i]),
    ensures
        forces@.len() == particles@.len(),
        forall|i: int|
            0 <= i < particles@.len() ==> (#[trigger] forces@[i]).x == force_sum_x(
                particles@,
                i,
                k as int,
                particles@.len() as int,
            ) && forces@[i].y == force_sum_y(particles@, i, k as int, particles@.len() as int),
        forall|i: int|
            0 <= i < particles@.len() ==> -(particles@.len() * k) <= (#[trigger] forces@[i]).x
                <= particles@.len() * k && -(particles@.len() * k) <= forces@[i].y
                <= particles@.len() * k,
{
    let n: usize = particles.len();
    let mut forces: Vec<Vec2> = Vec::new();
    let mut i: usize = 0;
    while i < n
        invariant
            i <= n,
            n == particles@.len(),
            n <= MAX_PARTICLES,
            0 <= k <= MAX_K,
            forall|t: int| 0 <= t < n ==> in_bounds(#[trigger] particles@[t]),
            forces@.len() == i,
            forall|t: int|
                0 <= t < i ==> (#[trigger] forces@[t]).x == force_sum_x(
                    particles@,
                    t,
                    k as int,
                    n as int,
                ) && forces@[t].y == force_sum_y(particles@, t, k as int, n as int),
            forall|t: int|
                0 <= t < i ==> -((n as int) * k) <= (#[trigger] forces@[t]).x <= (n as int) * k
                    && -((n as int) * k) <= forces@[t].y <= (n as int) * k,
        decreases n - i,
    {
        let here: Vec2 = particles[i];
        let mut fx: i64 = 0;
        let mut fy: i64 = 0;
        let mut j: usize = 0;
        while j < n
            invariant
                j <= n,
                i < n,
                n == particles@.len(),
                n <= MAX_PARTICLES,
                0 <= k <= MAX_K,
                here == particles@[i as int],
                forall|t: int| 0 <= t < n ==> in_bounds(#[trigger] particles@[t]),
                fx == force_sum_x(particles@, i as int, k as int, j as int),
                fy == force_sum_y(particles@, i as int, k as int, j as int),
                -((j as int) * k) <= fx <= (j as int) * k,
                -((j as int) * k) <= fy <= (j as int) * k,
            decreases n - j,
        {
            proof {
                assert(((j as int) + 1) * k == (j as int) * k + k) by (nonlinear_arith);
                assert(((j as int) + 1) * k <= (n as int) * k && (n as int) * k
                    <= 1_000_000_000_000_000_000) by (nonlinear_arith)
                    requires
                        j + 1 <= n <= 100_000,
                        0 <= k <= 10_000_000_000_000,
                ;
            }
            if j != i {
                let there: Vec2 = particles[j];
                let dsq: i64 = dist_sq(here, there);
                proof {
                    lemma_pair_force_bound(here, there, k as int);
                }
                if dsq != 0 {
                    proof {
                        lemma_delta_within_distance(here, there);
                        assert((dsq * 1_000_000) as u64 == dsq * 1_000_000);
                    }
                    let scaled: u64 = (dsq as u64) * 1_000_000;
                    let dm: u64 = isqrt(scaled);
                    let fx_pair: i64 = force_component(here.x - there.x, dm, k);
                    let fy_pair: i64 = force_component(here.y - there.y, dm, k);
                    proof {
                        assert(fx_pair == pair_force_x(here, there, k as int));
                        assert(fy_pair == pair_force_y(here, there, k as int));
                    }
                    fx = fx + fx_pair;
                    fy = fy + fy_pair;
                }
            }
            j = j + 1;
        }
        forces.push(Vec2 { x: fx, y: fy });
        i = i + 1;
    }
    proof {
        assert(forall|t: int|
            0 <= t < n ==> -((n as int) * k) <= (#[trigger] forces@[t]).x <= (n as int) * k && -((
            n as int) * k) <= forces@[t].y <= (n as int) * k);
    }
    forces
}

} // verus!
