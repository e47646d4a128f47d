use vstd::prelude::*;
use vstd::arithmetic::div_mod::{
    lemma_div_nonincreasing, lemma_div_pos_is_pos, lemma_fundamental_div_mod,
    lemma_fundamental_div_mod_converse_div, lemma_fundamental_div_mod_converse_mod,
    lemma_mod_bound,
};
use crate::params::{DENSITY_LIMIT, MAX_COORD, SCALE};
use crate::vec2::{in_bounds, Vec2};

verus! {

/// A scalar density sample carried as a plain record.
pub struct Density {
    pub value: i64,
}

/// A display colour with fixed-point channels: `SCALE` units stand for 1.0.
/// Channels are a pass-through of the mapping below and may leave [0, SCALE].
#[derive(Clone, Copy, PartialEq, Eq, Structural, Debug)]
pub struct Colour {
    pub red: i64,
    pub green: i64,
    pub blue: i64,
}

/// One sample cell of the density grid: a fixed centre, the scalar density
/// recomputed every tick, and a reserved pressure that no pass writes yet.
#[derive(Clone, Copy, PartialEq, Eq, Structural, Debug)]
pub struct Cell {
    pub center: Vec2,
    pub density: i64,
    pub pressure: i64,
}

pub open spec fn abs_val(x: int) -> int {
    if x < 0 {
        -x
    } else {
        x
    }
}

/// The display mapping from a density to a colour: red follows the density,
/// blue its complement, green the complement of their gap. Values outside
/// [0, SCALE] pass through uncapped.
pub fn update_cell_colour(density: i64, fill: &mut Colour)
    requires
        -DENSITY_LIMIT <= density <= DENSITY_LIMIT,
    ensures
        final(fill).red == density,
        final(fill).blue == SCALE - density,
        final(fill).green == SCALE - abs_val(2 * density - SCALE),
{
    let red: i64 = density;
    let blue: i64 = SCALE - density;
    let diff: i64 = red - blue;
    let mag: i64 = if diff < 0 {
        -diff
    } else {
        diff
    };
    let green: i64 = SCALE - mag;
    *fill = Colour { red, green, blue };
}

impl Cell {
    /// A fresh cell at the given centre, with density and pressure zero.
    pub fn new(center: Vec2) -> (cell: Cell)
        ensures
            cell.center == center,
            cell.density == 0,
            cell.pressure == 0,
    {
        Cell { center, density: 0, pressure: 0 }
    }

    /// Adds a contribution to the cell's density; everything else is kept.
    pub fn update_density(&mut self, density: i64)
        requires
            i64::MIN <= old(self).density + density <= i64::MAX,
        ensures
            final(self).density == old(self).density + density,
            final(self).center == old(self).center,
            final(self).pressure == old(self).pressure,
    {
        self.density = self.density + density;
    }

    /// Clears the cell's density for the next tick; everything else is kept.
    pub fn reset_density(&mut self)
        ensures
            final(self).density == 0,
            final(self).center == old(self).center,
            final(self).pressure == old(self).pressure,
    {
        self.density = 0;
    }

    /// Writes the display colour derived from this cell's density.
    pub fn update_cell_colour(&self, fill: &mut Colour)
        requires
            -DENSITY_LIMIT <= self.density <= DENSITY_LIMIT,
        ensures
            final(fill).red == self.density,
            final(fill).blue == SCALE - self.density,
            final(fill).green == SCALE - abs_val(2 * self.density - SCALE),
    {
        update_cell_colour(self.density, fill)
    }
}

/// The per-tick recolouring pass: after the densities are accumulated, every
/// cell's display colour is recomputed from its density, one colour per cell
/// in cell order, replacing whatever colours stood before.
pub fn recompute_colours(cells: &Vec<Cell>, fills: &mut Vec<Colour>)
    requires
        forall|i: int|
            0 <= i < cells@.len() ==> -DENSITY_LIMIT <= (#[trigger] cells@[i]).density
                <= DENSITY_LIMIT,
    ensures
        final(fills)@.len() == cells@.len(),
        forall|i: int|
            0 <= i < cells@.len() ==> (#[trigger] final(fills)@[i]).red == cells@[i].density
                && final(fills)@[i].blue == SCALE - cells@[i].density && final(fills)@[i].green
                == SCALE - abs_val(2 * cells@[i].density - SCALE),
{
    let n: usize = cells.len();
    let mut coloured: Vec<Colour> = Vec::new();
    let mut i: usize = 0;
    while i < n
        invariant
            i <= n,
            n == cells@.len(),
            forall|t: int|
                0 <= t < n ==> -DENSITY_LIMIT <= (#[trigger] cells@[t]).density <= DENSITY_LIMIT,
            coloured@.len() == i,
            forall|t: int|
                0 <= t < i ==> (#[trigger] coloured@[t]).red == cells@[t].density
                    && coloured@[t].blue == SCALE - cells@[t].density && coloured@[t].green
                    == SCALE - abs_val(2 * cells@[t].density - SCALE),
        decreases n - i,
    {
        let mut fill = Colour { red: 0, green: 0, blue: 0 };
        cells[i].update_cell_colour(&mut fill);
        coloured.push(fill);
        i = i + 1;
    }
    *fills = coloured;
}

/// Columns of the grid: as many whole cells as fit the width.
pub open spec fn grid_cols(width: int, cell_size: int) -> int {
    width / cell_size
}

/// Rows of the grid: one more than fit the height — the extra row is
/// preserved boundary behaviour of the layout, not a bug to fix.
pub open spec fn grid_rows(height: int, cell_size: int) -> int {
    height / cell_size + 1
}

/// The cell that belongs at position `idx` of a freshly built grid: columns
/// outermost, rows innermost; centres sit a half cell right of whole column
/// multiples and exactly on row multiples; density and pressure start at zero.
pub open spec fn grid_cell_ok(
    cell: Cell,
    idx: int,
    width: int,
    height: int,
    cell_size: int,
) -> bool {
    let nrows = grid_rows(height, cell_size);
    let hx = (width / cell_size) / 2;
    let hy = (height / cell_size) / 2;
    let c = idx / nrows;
    let r = idx % nrows;
    cell.center.x == (c - hx) * cell_size + cell_size / 2 && cell.center.y == (r - hy) * cell_size
        && cell.density == 0 && cell.pressure == 0
}

/// The fixed lattice of sample cells covering the simulation bounds,
/// constructed once at startup and never resized.
pub struct Grid {
    pub cells: Vec<Cell>,
}

/// The cells that fit one dimension never reach past that dimension, and the
/// half count splits the full count into two near-equal parts.
proof fn lemma_grid_extent(size: int, cell_size: int)
    requires
        0 <= size,
        1 <= cell_size,
    ensures
        0 <= (size / cell_size) / 2 <= size / cell_size <= size,
        2 * ((size / cell_size) / 2) <= size / cell_size <= 2 * ((size / cell_size) / 2) + 1,
        (size / cell_size) * cell_size <= size,
{
    let q = size / cell_size;
    lemma_div_pos_is_pos(size, cell_size);
    lemma_div_pos_is_pos(q, 2);
    lemma_div_nonincreasing(size, cell_size);
    lemma_div_nonincreasing(q, 2);
    lemma_fundamental_div_mod(size, cell_size);
    lemma_mod_bound(size, cell_size);
    lemma_fundamental_div_mod(q, 2);
    lemma_mod_bound(q, 2);
    assert(q * cell_size <= size) by (nonlinear_arith)
        requires
            0 <= q,
            cell_size >= 1,
            size == cell_size * q + size % cell_size,
            size % cell_size >= 0,
    ;
}

/// Builds the sampling grid: centres tile a rectangle around the origin with
/// spacing exactly `cell_size`, covering as many whole columns as fit the
/// width and one row more than fit the height. Every cell starts with zero
/// density and pressure, and every centre lies within the coordinate bounds
/// the other passes accept.
pub fn setup_cells(cell_size: i64, width: i64, height: i64) -> (grid: Grid)
    requires
        1 <= cell_size <= MAX_COORD,
        0 <= width <= MAX_COORD,
        0 <= height <= MAX_COORD,
        grid_cols(width as int, cell_size as int) * grid_rows(height as int, cell_size as int)
            <= 1_000_000,
    ensures
        grid.cells@.len() == grid_cols(width as int, cell_size as int) * grid_rows(
            height as int,
            cell_size as int,
        ),
        forall|idx: int|
            0 <= idx < grid.cells@.len() ==> grid_cell_ok(
                #[trigger] grid.cells@[idx],
                idx,
                width as int,
                height as int,
                cell_size as int,
            ),
        forall|idx: int| 0 <= idx < grid.cells@.len() ==> in_bounds(
            (#[trigger] grid.cells@[idx]).center,
        ),
{
    proof {
        lemma_grid_extent(width as int, cell_size as int);
        lemma_grid_extent(height as int, cell_size as int);
    }
    let qx: u64 = (width as u64) / (cell_size as u64);
    let hx: u64 = qx / 2;
    let qy: u64 = (height as u64) / (cell_size as u64);
    let hy: u64 = qy / 2;
    let ncols: u64 = qx;
    let nrows: u64 = qy + 1;
    let half_cell: i64 = ((cell_size as u64) / 2) as i64;
    let mut cells: Vec<Cell> = Vec::new();
    let mut ci: u64 = 0;
    while ci < ncols
        invariant
            ci <= ncols,
            1 <= cell_size <= MAX_COORD,
            0 <= width <= MAX_COORD,
            0 <= height <= MAX_COORD,
            qx == width as int / cell_size as int,
            qy == height as int / cell_size as int,
            hx == (qx as int) / 2,
            hy == (qy as int) / 2,
            ncols == grid_cols(width as int, cell_size as int),
            nrows == grid_rows(height as int, cell_size as int),
            ncols * nrows <= 1_000_000,
            (qx as int) * (cell_size as int) <= width,
            (qy as int) * (cell_size as int) <= height,
            half_cell == cell_size as int / 2,
            cells@.len() == ci * nrows,
            forall|idx: int|
                0 <= idx < cells@.len() ==> grid_cell_ok(
                    #[trigger] cells@[idx],
                    idx,
                    width as int,
                    height as int,
                    cell_size as int,
                ) && in_bounds(cells@[idx].center),
        decreases ncols - ci,
    {
        proof {
            assert(ci * nrows + nrows == (ci + 1) * nrows && ci * nrows >= 0 && (ci + 1) * nrows
                <= ncols * nrows) by (nonlinear_arith)
                requires
                    0 <= ci < ncols,
                    nrows >= 1,
            ;
        }
        let x: i64 = (ci as i64) - (hx as i64);
        let mut ri: u64 = 0;
        while ri < nrows
            invariant
                ri <= nrows,
                ci < ncols,
                1 <= cell_size <= MAX_COORD,
                0 <= width <= MAX_COORD,
                0 <= height <= MAX_COORD,
                qx == width as int / cell_size as int,
                qy == height as int / cell_size as int,
                hx == (qx as int) / 2,
                hy == (qy as int) / 2,
                ncols == grid_cols(width as int, cell_size as int),
                nrows == grid_rows(height as int, cell_size as int),
                ncols * nrows <= 1_000_000,
                ci * nrows + nrows <= ncols * nrows,
                (qx as int) * (cell_size as int) <= width,
                (qy as int) * (cell_size as int) <= height,
                half_cell == cell_size as int / 2,
                x == ci - hx,
                cells@.len() == ci * nrows + ri,
                forall|idx: int|
                    0 <= idx < cells@.len() ==> grid_cell_ok(
                        #[trigger] cells@[idx],
                        idx,
                        width as int,
                        height as int,
                        cell_size as int,
                    ) && in_bounds(cells@[idx].center),
            decreases nrows - ri,
        {
            let y: i64 = (ri as i64) - (hy as i64);
            proof {
                assert(-1_000_000 <= x * cell_size && x * cell_size + half_cell <= 1_000_000)
                    by (nonlinear_arith)
                    requires
                        0 <= hx as int <= qx as int,
                        -(hx as int) <= x <= (qx as int) - (hx as int) - 1,
                        1 <= cell_size,
                        (qx as int) * (cell_size as int) <= 1_000_000,
                        0 <= half_cell,
                        2 * half_cell <= cell_size,
                ;
                assert(-1_000_000 <= y * cell_size <= 1_000_000) by (nonlinear_arith)
                    requires
                        0 <= hy as int <= qy as int,
                        -(hy as int) <= y <= (qy as int) - (hy as int),
                        1 <= cell_size,
                        (qy as int) * (cell_size as int) <= 1_000_000,
                ;
            }
            let px: i64 = x * cell_size + half_cell;
            let py: i64 = y * cell_size;
            let cell = Cell { center: Vec2 { x: px, y: py }, density: 0, pressure: 0 };
            proof {
                let idx = ci * nrows + ri;
                lemma_fundamental_div_mod_converse_div(
                    idx as int,
                    nrows as int,
                    ci as int,
                    ri as int,
                );
                lemma_fundamental_div_mod_converse_mod(
                    idx as int,
                    nrows as int,
                    ci as int,
                    ri as int,
                );
            }
            cells.push(cell);
            ri = ri + 1;
        }
        ci = ci + 1;
    }
    Grid { cells }
}

} // verus!
