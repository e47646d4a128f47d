use particle_field::density::{calculate_density, density_at, recompute_density};
use particle_field::grid::{recompute_colours, setup_cells, update_cell_colour, Cell, Colour};
use particle_field::kernel::smoothing_kernel;
use particle_field::params::{INFLUENCE_RADIUS, SCALE};
use particle_field::vec2::Vec2;

fn cell_at(x: i64, y: i64) -> Cell {
    Cell::new(Vec2 { x, y })
}

fn dist_sq(a: Vec2, b: Vec2) -> i64 {
    (a.x - b.x) * (a.x - b.x) + (a.y - b.y) * (a.y - b.y)
}

#[test]
fn density_is_sum_of_independent_contributions() {
    let centers: [Vec2; 3] = [
        Vec2 { x: 0, y: 0 },
        Vec2 { x: 30, y: -40 },
        Vec2 { x: 500, y: 500 },
    ];
    let particles: Vec<Vec2> = vec![
        Vec2 { x: 5, y: 5 },
        Vec2 { x: -20, y: 10 },
        Vec2 { x: 60, y: 0 },
        Vec2 { x: 460, y: 480 },
    ];
    let mut cells: Vec<Cell> = centers.iter().map(|c| Cell::new(*c)).collect();
    recompute_density(&mut cells, &particles, INFLUENCE_RADIUS);
    for (cell, center) in cells.iter().zip(centers.iter()) {
        let mut expected: i64 = 0;
        for p in &particles {
            expected += smoothing_kernel(INFLUENCE_RADIUS, dist_sq(*center, *p));
        }
        assert_eq!(cell.density, expected);
        assert!(cell.density >= 0);
    }
}

#[test]
fn density_reset_idempotence() {
    let mut cells: Vec<Cell> = vec![cell_at(0, 0), cell_at(20, 0), cell_at(0, 20)];
    let particles: Vec<Vec2> = vec![Vec2 { x: 3, y: 4 }, Vec2 { x: -10, y: 12 }];
    recompute_density(&mut cells, &particles, INFLUENCE_RADIUS);
    let first: Vec<i64> = cells.iter().map(|c| c.density).collect();
    recompute_density(&mut cells, &particles, INFLUENCE_RADIUS);
    let second: Vec<i64> = cells.iter().map(|c| c.density).collect();
    assert_eq!(first, second);
    assert!(first.iter().any(|d| *d > 0));
}

#[test]
fn traversal_equivalence_grid_major_vs_particle_major() {
    let centers: [(i64, i64); 4] = [(-10, -10), (-10, 10), (10, -10), (10, 10)];
    let particles: Vec<Vec2> = vec![
        Vec2 { x: 0, y: 0 },
        Vec2 { x: 7, y: -3 },
        Vec2 { x: -50, y: 44 },
        Vec2 { x: 90, y: 0 },
    ];
    let mut grid_major: Vec<Cell> = centers.iter().map(|(x, y)| cell_at(*x, *y)).collect();
    recompute_density(&mut grid_major, &particles, INFLUENCE_RADIUS);

    let mut particle_major: Vec<Cell> = centers.iter().map(|(x, y)| cell_at(*x, *y)).collect();
    for cell in particle_major.iter_mut() {
        cell.update_density(123_456); // stale value from a previous tick
        cell.reset_density(); // the reset contract before accumulation
    }
    calculate_density(&mut particle_major, &particles);

    for (a, b) in grid_major.iter().zip(particle_major.iter()) {
        assert_eq!(a.density, b.density);
    }
}

#[test]
fn calculate_density_accumulates_without_reset() {
    let mut cells: Vec<Cell> = vec![cell_at(0, 0)];
    let particles: Vec<Vec2> = vec![Vec2 { x: 1, y: 2 }];
    calculate_density(&mut cells, &particles);
    let once = cells[0].density;
    calculate_density(&mut cells, &particles);
    assert_eq!(cells[0].density, 2 * once);
    assert!(once > 0);
}

#[test]
fn cell_update_replaces_density() {
    let mut cell = cell_at(0, 0);
    cell.update_density(999);
    let particles: Vec<Vec2> = vec![Vec2 { x: 10, y: 0 }, Vec2 { x: 0, y: 10 }];
    cell.update(&particles);
    let expected = smoothing_kernel(INFLUENCE_RADIUS, 100) * 2;
    assert_eq!(cell.density, expected);
    assert_eq!(cell.pressure, 0);
}

#[test]
fn cell_density_helpers() {
    let mut cell = cell_at(4, -4);
    assert_eq!(cell.density, 0);
    cell.update_density(50);
    cell.update_density(25);
    assert_eq!(cell.density, 75);
    cell.reset_density();
    assert_eq!(cell.density, 0);
    assert_eq!(cell.center, Vec2 { x: 4, y: -4 });
}

#[test]
fn density_at_matches_recompute() {
    let particles: Vec<Vec2> = vec![Vec2 { x: 12, y: 12 }, Vec2 { x: -40, y: 0 }];
    let center = Vec2 { x: 0, y: 0 };
    let direct = density_at(center, &particles, INFLUENCE_RADIUS);
    let mut cells: Vec<Cell> = vec![Cell::new(center)];
    recompute_density(&mut cells, &particles, INFLUENCE_RADIUS);
    assert_eq!(direct, cells[0].density);
}

#[test]
fn colour_mapping_values() {
    let mut fill = Colour { red: 0, green: 0, blue: 0 };
    update_cell_colour(0, &mut fill);
    assert_eq!(fill, Colour { red: 0, green: 0, blue: SCALE });
    update_cell_colour(SCALE, &mut fill);
    assert_eq!(fill, Colour { red: SCALE, green: 0, blue: 0 });
    update_cell_colour(SCALE / 2, &mut fill);
    assert_eq!(fill, Colour { red: SCALE / 2, green: SCALE, blue: SCALE / 2 });
    // Out-of-range densities pass through uncapped.
    update_cell_colour(2 * SCALE, &mut fill);
    assert_eq!(fill, Colour { red: 2 * SCALE, green: -2 * SCALE, blue: -SCALE });
}

#[test]
fn recompute_colours_recolours_every_cell() {
    let mut cells: Vec<Cell> = vec![cell_at(0, 0), cell_at(20, 0), cell_at(0, 20)];
    cells[0].update_density(250_000);
    cells[1].update_density(1_000_000);
    // Stale fills of the wrong length are replaced outright.
    let mut fills: Vec<Colour> = vec![Colour { red: 7, green: 7, blue: 7 }];
    recompute_colours(&cells, &mut fills);
    assert_eq!(fills.len(), 3);
    for (cell, fill) in cells.iter().zip(fills.iter()) {
        let mut expected = Colour { red: 0, green: 0, blue: 0 };
        update_cell_colour(cell.density, &mut expected);
        assert_eq!(*fill, expected);
    }
    assert_eq!(fills[1], Colour { red: SCALE, green: 0, blue: 0 });
}

#[test]
fn cell_colour_method_matches_free_function() {
    let mut cell = cell_at(0, 0);
    cell.update_density(250_000);
    let mut from_method = Colour { red: 0, green: 0, blue: 0 };
    cell.update_cell_colour(&mut from_method);
    let mut from_function = Colour { red: 0, green: 0, blue: 0 };
    update_cell_colour(250_000, &mut from_function);
    assert_eq!(from_method, from_function);
}

#[test]
fn scenario_four_cells_one_particle_at_origin() {
    // A square of four cells around the origin, one particle at the centre:
    // all four receive the same, near-maximal density.
    let mut cells: Vec<Cell> = vec![
        cell_at(-10, -10),
        cell_at(-10, 10),
        cell_at(10, -10),
        cell_at(10, 10),
    ];
    let particles: Vec<Vec2> = vec![Vec2 { x: 0, y: 0 }];
    recompute_density(&mut cells, &particles, INFLUENCE_RADIUS);
    let expected = smoothing_kernel(INFLUENCE_RADIUS, 200);
    let peak = smoothing_kernel(INFLUENCE_RADIUS, 0);
    for cell in &cells {
        assert_eq!(cell.density, expected);
        assert!(cell.density > (8 * peak) / 10);
    }
    // A particle far outside the influence radius contributes nothing.
    let far: Vec<Vec2> = vec![Vec2 { x: 200, y: 0 }];
    recompute_density(&mut cells, &far, INFLUENCE_RADIUS);
    for cell in &cells {
        assert_eq!(cell.density, 0);
    }
}

#[test]
fn grid_layout_matches_reference_window() {
    // The reference window, 1320 x 780 with 20-unit cells: 66 columns and
    // one row more than the 39 that fit the height.
    let grid = setup_cells(20, 1320, 780);
    assert_eq!(grid.cells.len(), 66 * 40);
    // First cell: leftmost column, lowest row.
    let first = grid.cells[0];
    assert_eq!(first.center, Vec2 { x: -33 * 20 + 10, y: -19 * 20 });
    assert_eq!(first.density, 0);
    assert_eq!(first.pressure, 0);
    // Last cell: rightmost column, the extra top row.
    let last = grid.cells[66 * 40 - 1];
    assert_eq!(last.center, Vec2 { x: 32 * 20 + 10, y: 20 * 20 });
    // Neighbouring rows are exactly one cell size apart.
    assert_eq!(grid.cells[1].center, Vec2 { x: -650, y: -360 });
    // Column stride: the second column starts after one full set of rows.
    assert_eq!(grid.cells[40].center, Vec2 { x: -630, y: -380 });
}

#[test]
fn grid_layout_small() {
    // Two columns fit a width of 40; a height of 20 gives one row plus the
    // extra row: a 2 x 2 block.
    let grid = setup_cells(20, 40, 20);
    assert_eq!(grid.cells.len(), 4);
    assert_eq!(grid.cells[0].center, Vec2 { x: -10, y: 0 });
    assert_eq!(grid.cells[1].center, Vec2 { x: -10, y: 20 });
    assert_eq!(grid.cells[2].center, Vec2 { x: 10, y: 0 });
    assert_eq!(grid.cells[3].center, Vec2 { x: 10, y: 20 });
}

#[test]
fn grid_layout_odd_counts() {
    // Odd column and row counts are kept whole: three columns fit a width of
    // 60, and a height of 40 gives two rows plus the extra row.
    let grid = setup_cells(20, 60, 40);
    assert_eq!(grid.cells.len(), 9);
    assert_eq!(grid.cells[0].center, Vec2 { x: -10, y: -20 });
    assert_eq!(grid.cells[4].center, Vec2 { x: 10, y: 0 });
    assert_eq!(grid.cells[8].center, Vec2 { x: 30, y: 20 });
}
