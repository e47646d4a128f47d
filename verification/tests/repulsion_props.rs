use particle_field::params::REPULSION_K;
use particle_field::repulsion::{compute_repulsion, isqrt};
use particle_field::particles::setup_particles;
use particle_field::vec2::Vec2;

#[test]
fn isqrt_values() {
    assert_eq!(isqrt(0), 0);
    assert_eq!(isqrt(1), 1);
    assert_eq!(isqrt(3), 1);
    assert_eq!(isqrt(4), 2);
    assert_eq!(isqrt(195), 13);
    assert_eq!(isqrt(196), 14);
    assert_eq!(isqrt(200), 14);
    assert_eq!(isqrt(4_000_000_000_000), 2_000_000);
    assert_eq!(isqrt(8_000_000_000_000), 2_828_427);
    assert_eq!(isqrt(8_000_000_000_000_000_000), 2_828_427_124);
}

#[test]
fn scenario_pair_at_distance_ten() {
    // Two particles ten units apart with the reference constant: each feels a
    // force of magnitude k / 10^2, along the line joining them.
    let particles: Vec<Vec2> = vec![Vec2 { x: 0, y: 0 }, Vec2 { x: 10, y: 0 }];
    let forces = compute_repulsion(&particles, REPULSION_K);
    assert_eq!(forces.len(), 2);
    assert_eq!(forces[0], Vec2 { x: -100_000, y: 0 });
    assert_eq!(forces[1], Vec2 { x: 100_000, y: 0 });
}

#[test]
fn repulsion_symmetry_equal_and_opposite() {
    let particles: Vec<Vec2> = vec![Vec2 { x: 3, y: 7 }, Vec2 { x: -11, y: 2 }];
    let forces = compute_repulsion(&particles, REPULSION_K);
    assert_eq!(forces[0].x, -forces[1].x);
    assert_eq!(forces[0].y, -forces[1].y);
    assert!(forces[0].x != 0 || forces[0].y != 0);
}

#[test]
fn repulsion_decay_inverse_square() {
    // Doubling the separation cuts the magnitude by exactly four.
    let near: Vec<Vec2> = vec![Vec2 { x: 0, y: 0 }, Vec2 { x: 10, y: 0 }];
    let far: Vec<Vec2> = vec![Vec2 { x: 0, y: 0 }, Vec2 { x: 20, y: 0 }];
    let near_forces = compute_repulsion(&near, REPULSION_K);
    let far_forces = compute_repulsion(&far, REPULSION_K);
    assert_eq!(near_forces[0].x, -100_000);
    assert_eq!(far_forces[0].x, -25_000);
    assert_eq!(near_forces[0].x, 4 * far_forces[0].x);
}

#[test]
fn repulsion_decay_non_integer_distance() {
    // Separation (2, 3): distance sqrt(13), not a whole number of units.
    // Doubling the separation still quarters each force component, within
    // the model's stated tolerance of 1/500 plus five fixed-point units.
    let near: Vec<Vec2> = vec![Vec2 { x: 0, y: 0 }, Vec2 { x: 2, y: 3 }];
    let far: Vec<Vec2> = vec![Vec2 { x: 0, y: 0 }, Vec2 { x: 4, y: 6 }];
    let near_forces = compute_repulsion(&near, REPULSION_K);
    let far_forces = compute_repulsion(&far, REPULSION_K);
    // Expected exactly from the model: delta * k * 10^9 / dm^3, with the
    // distance dm carried in thousandths of a unit.
    let dm = isqrt(13 * 1_000_000) as i128;
    let dm2 = isqrt(52 * 1_000_000) as i128;
    let k = REPULSION_K as i128;
    assert_eq!(near_forces[0].x as i128, -((2 * k * 1_000_000_000) / (dm * dm * dm)));
    assert_eq!(near_forces[0].y as i128, -((3 * k * 1_000_000_000) / (dm * dm * dm)));
    assert_eq!(far_forces[0].x as i128, -((4 * k * 1_000_000_000) / (dm2 * dm2 * dm2)));
    assert_eq!(far_forces[0].y as i128, -((6 * k * 1_000_000_000) / (dm2 * dm2 * dm2)));
    for (f1, f2) in near_forces.iter().zip(far_forces.iter()) {
        assert!((4 * f2.x).abs() <= f1.x.abs());
        assert!((4 * f2.y).abs() <= f1.y.abs());
        assert!((f1.x - 4 * f2.x).abs() <= f1.x.abs() / 500 + 5);
        assert!((f1.y - 4 * f2.y).abs() <= f1.y.abs() / 500 + 5);
    }
    // And the near force tracks the real-valued inverse-square law closely.
    let true_y = 3.0 * (REPULSION_K as f64) / 13.0_f64.sqrt().powi(3);
    let got_y = -(near_forces[0].y as f64);
    assert!(((got_y - true_y) / true_y).abs() < 1e-3);
}

#[test]
fn coincident_particles_are_safe() {
    // Two particles sharing a position: their pair is skipped, every force
    // stays well-defined and bounded.
    let particles: Vec<Vec2> = vec![
        Vec2 { x: 5, y: 5 },
        Vec2 { x: 5, y: 5 },
        Vec2 { x: 100, y: 5 },
    ];
    let forces = compute_repulsion(&particles, REPULSION_K);
    assert_eq!(forces.len(), 3);
    // The coincident pair only feels the third particle: 95 * k / 95^3.
    let single: i64 = 95 * REPULSION_K / (95 * 95 * 95);
    assert_eq!(forces[0], Vec2 { x: -single, y: 0 });
    assert_eq!(forces[1], Vec2 { x: -single, y: 0 });
    assert_eq!(forces[2], Vec2 { x: 2 * single, y: 0 });
    for f in &forces {
        assert!(f.x.abs() <= 3 * REPULSION_K && f.y.abs() <= 3 * REPULSION_K);
    }
}

#[test]
fn repulsion_all_coincident() {
    let particles: Vec<Vec2> = vec![Vec2 { x: -7, y: 9 }; 4];
    let forces = compute_repulsion(&particles, REPULSION_K);
    for f in &forces {
        assert_eq!(*f, Vec2 { x: 0, y: 0 });
    }
}

#[test]
fn repulsion_on_diagonal_pair() {
    // Separation (3, 4): distance 5, so each component is delta * k / 125.
    let particles: Vec<Vec2> = vec![Vec2 { x: 0, y: 0 }, Vec2 { x: 3, y: 4 }];
    let forces = compute_repulsion(&particles, REPULSION_K);
    assert_eq!(forces[0], Vec2 { x: -3 * REPULSION_K / 125, y: -4 * REPULSION_K / 125 });
    assert_eq!(forces[1], Vec2 { x: 3 * REPULSION_K / 125, y: 4 * REPULSION_K / 125 });
}

#[test]
fn particle_lattice_layout() {
    // Four particles, radius 4, gap 50: spacing 58, a 2 x 2 block around the
    // origin as the reference start-up lays it out.
    let particles = setup_particles(4, 4, 50);
    assert_eq!(particles.len(), 4);
    assert_eq!(particles[0], Vec2 { x: -58, y: -58 });
    assert_eq!(particles[1], Vec2 { x: 0, y: -58 });
    assert_eq!(particles[2], Vec2 { x: -58, y: 0 });
    assert_eq!(particles[3], Vec2 { x: 0, y: 0 });
}

#[test]
fn particle_lattice_uneven_count() {
    // Ten particles: rows of three, four rows, the last one partly filled.
    let particles = setup_particles(4, 10, 4);
    assert_eq!(particles.len(), 10);
    let spacing: i64 = 12;
    let half_w: i64 = (3 * spacing) / 2;
    let half_h: i64 = (4 * spacing) / 2;
    for (i, p) in particles.iter().enumerate() {
        let col = (i % 3) as i64;
        let row = (i / 3) as i64;
        assert_eq!(*p, Vec2 { x: col * spacing - half_w, y: row * spacing - half_h });
    }
}
