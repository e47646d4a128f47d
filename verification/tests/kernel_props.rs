use particle_field::kernel::smoothing_kernel;
use particle_field::params::{
    INFLUENCE_RADIUS, KERNEL_DEN_FACTOR, KERNEL_NUM_FACTOR, KERNEL_VOLUME, SCALE,
};

/// The float reference formula, for cross-checking the fixed-point kernel.
fn kernel_reference(radius: f64, dist_sq: f64) -> f64 {
    let sq = radius * radius - dist_sq;
    if sq <= 0.0 {
        return 0.0;
    }
    let normalized = sq.powi(3) / (KERNEL_VOLUME as f64);
    normalized * 4.0 / (std::f64::consts::PI * radius * radius)
}

#[test]
fn kernel_support_outside_radius() {
    let rr = INFLUENCE_RADIUS * INFLUENCE_RADIUS;
    assert_eq!(smoothing_kernel(INFLUENCE_RADIUS, rr), 0);
    assert_eq!(smoothing_kernel(INFLUENCE_RADIUS, rr + 1), 0);
    assert_eq!(smoothing_kernel(INFLUENCE_RADIUS, 40_000), 0);
    assert_eq!(smoothing_kernel(INFLUENCE_RADIUS, 8_000_000_000_000), 0);
    assert!(smoothing_kernel(INFLUENCE_RADIUS, 5_000) > 0);
}

#[test]
fn kernel_monotonic_decay() {
    let mut previous = smoothing_kernel(INFLUENCE_RADIUS, 0);
    let samples: [i64; 7] = [1, 100, 500, 1000, 2500, 5000, 5624];
    for dist_sq in samples {
        let value = smoothing_kernel(INFLUENCE_RADIUS, dist_sq);
        assert!(value <= previous);
        assert!(value >= 0);
        previous = value;
    }
    assert!(smoothing_kernel(INFLUENCE_RADIUS, 100) > smoothing_kernel(INFLUENCE_RADIUS, 5000));
}

#[test]
fn kernel_peak_value() {
    let peak = smoothing_kernel(INFLUENCE_RADIUS, 0);
    // Computed independently: radius^6 scaled by the two normalisation factors.
    let rr = (INFLUENCE_RADIUS * INFLUENCE_RADIUS) as u128;
    let expected = rr * rr * rr * (KERNEL_NUM_FACTOR as u128)
        / (rr * (KERNEL_DEN_FACTOR as u128));
    assert_eq!(peak as u128, expected);
    // And against the float reference formula, within the pi approximation.
    let reference = kernel_reference(INFLUENCE_RADIUS as f64, 0.0);
    let got = peak as f64 / SCALE as f64;
    assert!(((got - reference) / reference).abs() < 1e-4);
}

#[test]
fn kernel_matches_reference_inside_support() {
    let samples: [i64; 5] = [0, 200, 1000, 3000, 5500];
    for dist_sq in samples {
        let got = smoothing_kernel(INFLUENCE_RADIUS, dist_sq) as f64 / SCALE as f64;
        let reference = kernel_reference(INFLUENCE_RADIUS as f64, dist_sq as f64);
        assert!((got - reference).abs() < 1e-4 * (1.0 + reference));
    }
}

#[test]
fn kernel_other_radii() {
    // The normalisation volume is a fixed constant, not recomputed from the
    // radius, so a wider kernel has a higher peak: radius^4 growth.
    let peak_75 = smoothing_kernel(75, 0);
    let peak_150 = smoothing_kernel(150, 0);
    assert!(peak_150 > peak_75);
    let rr = (150 * 150) as u128;
    let expected = rr * rr * rr * (KERNEL_NUM_FACTOR as u128)
        / (rr * (KERNEL_DEN_FACTOR as u128));
    assert_eq!(peak_150 as u128, expected);
    assert_eq!(smoothing_kernel(150, 150 * 150), 0);
    assert!(smoothing_kernel(1, 0) >= 0);
}
