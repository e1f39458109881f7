//! The slope and aspect engine: derives, for every cell of an elevation
//! grid, a gradient vector from two fixed 5x5 convolution kernels, and
//! from it the cell's azimuth and its slope magnitude along the azimuth.
//!
//! The kernels, row-major over offsets -2..2 in y (rows) and x (columns):
//!
//! ```text
//! Gx = [[ -5,  -4, 0,  4,  5],      Gy = [[-5,  -8, -10,  -8, -5],
//!       [ -8, -10, 0, 10,  8],            [-4, -10, -20, -10, -4],
//!       [-10, -20, 0, 20, 10],            [ 0,   0,   0,   0,  0],
//!       [ -8, -10, 0, 10,  8],            [ 4,  10,  20,  10,  4],
//!       [ -5,  -4, 0,  4,  5]]            [ 5,   8,  10,   8,  5]]
//! ```
//!
//! Only cells with a two-cell margin on every side have a defined
//! gradient; border cells are flat with zero slope.

use crate::azimuth::calculate_azimuth;
use crate::azimuth::Azimuth;
use crate::grid::ElevationGrid;
use crate::math::isqrt64;
use crate::math::lemma_sqrt_floor_bounds;
use crate::math::sqrt_floor;
use vstd::prelude::*;

verus! {

/// The fixed normalization constant of the slope magnitude, applied to
/// each gradient component together with the 10-unit cell spacing.
pub const KERNEL_ABS_SUM: i64 = 68;

/// Does the cell have the two-cell margin that the 5x5 kernels need?
pub open spec fn interior_cell(g: ElevationGrid, x: int, y: int) -> bool {
    2 <= x && x + 2 < g.width && 2 <= y && y + 2 < g.height
}

/// Horizontal gradient: the 5x5 `Gx` kernel applied at `(x, y)`.
pub open spec fn conv_gx(g: ElevationGrid, x: int, y: int) -> int {
    -5 * g.cell(x - 2, y - 2) + -4 * g.cell(x - 1, y - 2) + 4 * g.cell(x + 1, y - 2) + 5 * g.cell(
        x + 2,
        y - 2,
    ) + -8 * g.cell(x - 2, y - 1) + -10 * g.cell(x - 1, y - 1) + 10 * g.cell(x + 1, y - 1) + 8
        * g.cell(x + 2, y - 1) + -10 * g.cell(x - 2, y) + -20 * g.cell(x - 1, y) + 20 * g.cell(
        x + 1,
        y,
    ) + 10 * g.cell(x + 2, y) + -8 * g.cell(x - 2, y + 1) + -10 * g.cell(x - 1, y + 1) + 10
        * g.cell(x + 1, y + 1) + 8 * g.cell(x + 2, y + 1) + -5 * g.cell(x - 2, y + 2) + -4 * g.cell(
        x - 1,
        y + 2,
    ) + 4 * g.cell(x + 1, y + 2) + 5 * g.cell(x + 2, y + 2)
}

/// Vertical gradient: the 5x5 `Gy` kernel applied at `(x, y)`.
pub open spec fn conv_gy(g: ElevationGrid, x: int, y: int) -> int {
    -5 * g.cell(x - 2, y - 2) + -8 * g.cell(x - 1, y - 2) + -10 * g.cell(x, y - 2) + -8 * g.cell(
        x + 1,
        y - 2,
    ) + -5 * g.cell(x + 2, y - 2) + -4 * g.cell(x - 2, y - 1) + -10 * g.cell(x - 1, y - 1) + -20
        * g.cell(x, y - 1) + -10 * g.cell(x + 1, y - 1) + -4 * g.cell(x + 2, y - 1) + 4 * g.cell(
        x - 2,
        y + 1,
    ) + 10 * g.cell(x - 1, y + 1) + 20 * g.cell(x, y + 1) + 10 * g.cell(x + 1, y + 1) + 4 * g.cell(
        x + 2,
        y + 1,
    ) + 5 * g.cell(x - 2, y + 2) + 8 * g.cell(x - 1, y + 2) + 10 * g.cell(x, y + 2) + 8 * g.cell(
        x + 1,
        y + 2,
    ) + 5 * g.cell(x + 2, y + 2)
}

/// Slope magnitude along the azimuth, in thousandths: the gradient vector
/// is normalized by the kernel weight sum (68) times the cell spacing
/// (10), and its Euclidean norm truncated to thousandths, which in exact
/// integers is `floor(sqrt(625 * (gx^2 + gy^2)) / 17)` because
/// `1000 / 680 = 25 / 17`.
pub open spec fn slope_milli_spec(gx: int, gy: int) -> int {
    sqrt_floor(625 * (gx * gx + gy * gy)) / 17
}

/// Apply both kernels at an interior cell.
#[verifier::rlimit(60)]
pub fn convolve_cell(grid: &ElevationGrid, x: usize, y: usize) -> (r: (i64, i64))
    requires
        grid.wf(),
        interior_cell(*grid, x as int, y as int),
    ensures
        r.0 == conv_gx(*grid, x as int, y as int),
        r.1 == conv_gy(*grid, x as int, y as int),
        -67200000 <= r.0 <= 67200000,
        -67200000 <= r.1 <= 67200000,
{
    let e00: i64 = grid.at(x - 2, y - 2);
    let e01: i64 = grid.at(x - 1, y - 2);
    let e02: i64 = grid.at(x, y - 2);
    let e03: i64 = grid.at(x + 1, y - 2);
    let e04: i64 = grid.at(x + 2, y - 2);
    let e10: i64 = grid.at(x - 2, y - 1);
    let e11: i64 = grid.at(x - 1, y - 1);
    let e12: i64 = grid.at(x, y - 1);
    let e13: i64 = grid.at(x + 1, y - 1);
    let e14: i64 = grid.at(x + 2, y - 1);
    let e20: i64 = grid.at(x - 2, y);
    let e21: i64 = grid.at(x - 1, y);
    let e23: i64 = grid.at(x + 1, y);
    let e24: i64 = grid.at(x + 2, y);
    let e30: i64 = grid.at(x - 2, y + 1);
    let e31: i64 = grid.at(x - 1, y + 1);
    let e32: i64 = grid.at(x, y + 1);
    let e33: i64 = grid.at(x + 1, y + 1);
    let e34: i64 = grid.at(x + 2, y + 1);
    let e40: i64 = grid.at(x - 2, y + 2);
    let e41: i64 = grid.at(x - 1, y + 2);
    let e42: i64 = grid.at(x, y + 2);
    let e43: i64 = grid.at(x + 1, y + 2);
    let e44: i64 = grid.at(x + 2, y + 2);
    let gx0: i64 = 4 * e03 + 5 * e04 - 5 * e00 - 4 * e01;
    let gx1: i64 = 10 * e13 + 8 * e14 - 8 * e10 - 10 * e11;
    let gx2: i64 = 20 * e23 + 10 * e24 - 10 * e20 - 20 * e21;
    let gx3: i64 = 10 * e33 + 8 * e34 - 8 * e30 - 10 * e31;
    let gx4: i64 = 4 * e43 + 5 * e44 - 5 * e40 - 4 * e41;
    let gy0: i64 = -(5 * e00 + 8 * e01 + 10 * e02 + 8 * e03 + 5 * e04);
    let gy1: i64 = -(4 * e10 + 10 * e11 + 20 * e12 + 10 * e13 + 4 * e14);
    let gy3: i64 = 4 * e30 + 10 * e31 + 20 * e32 + 10 * e33 + 4 * e34;
    let gy4: i64 = 5 * e40 + 8 * e41 + 10 * e42 + 8 * e43 + 5 * e44;
    let gx: i64 = gx0 + gx1 + gx2 + gx3 + gx4;
    let gy: i64 = gy0 + gy1 + gy3 + gy4;
    (gx, gy)
}

/// Slope magnitude along the azimuth, in thousandths. Zero whenever the
/// gradient vanishes, so flat cells always carry zero slope.
pub fn compute_gradient_along_azimuth(gx: i64, gy: i64) -> (s: u32)
    requires
        -67200000 <= gx <= 67200000,
        -67200000 <= gy <= 67200000,
    ensures
        s == slope_milli_spec(gx as int, gy as int),
        (gx == 0 && gy == 0) ==> s == 0,
{
    proof {
        assert(0 <= (gx as int) * (gx as int) <= 4515840000000000 && 0 <= (gy as int) * (
        gy as int) <= 4515840000000000 && 0 <= 625 * ((gx as int) * (gx as int) + (gy as int) * (
        gy as int)) <= 5644800000000000000) by (nonlinear_arith)
            requires
                -67200000 <= (gx as int) <= 67200000,
                -67200000 <= (gy as int) <= 67200000,
        {
        }
    }
    let arg: i64 = 625 * (gx * gx + gy * gy);
    let s: u64 = isqrt64(arg as u64);
    proof {
        let n = 625 * ((gx as int) * (gx as int) + (gy as int) * (gy as int));
        lemma_sqrt_floor_bounds(n);
        assert(sqrt_floor(n) <= 2500000000) by (nonlinear_arith)
            requires
                sqrt_floor(n) >= 0,
                sqrt_floor(n) * sqrt_floor(n) <= n,
                n <= 5644800000000000000,
        {
        }
    }
    (s / 17) as u32
}


/// Column of the cell at flat row-major index `i`.
pub open spec fn cell_x(g: ElevationGrid, i: int) -> int {
    i % (g.width as int)
}

/// Row of the cell at flat row-major index `i`.
pub open spec fn cell_y(g: ElevationGrid, i: int) -> int {
    i / (g.width as int)
}

/// The gradient vector at flat index `i`: the two kernel sums at an
/// interior cell, zero at a border cell.
pub open spec fn gradient_cell_at(g: ElevationGrid, i: int) -> (int, int) {
    let x = cell_x(g, i);
    let y = cell_y(g, i);
    if interior_cell(g, x, y) {
        (conv_gx(g, x, y), conv_gy(g, x, y))
    } else {
        (0, 0)
    }
}

/// The azimuth at flat index `i`, given the caller-supplied raw bearings:
/// flat at border cells and wherever the gradient vanishes, otherwise the
/// normalized bearing.
pub open spec fn azimuth_cell_at(g: ElevationGrid, raws: Seq<i64>, i: int) -> Azimuth {
    let x = cell_x(g, i);
    let y = cell_y(g, i);
    if interior_cell(g, x, y) && !(conv_gx(g, x, y) == 0 && conv_gy(g, x, y) == 0) {
        Azimuth::Deg(
            (if raws[i] < 0 {
                raws[i] + 3600
            } else {
                raws[i] as int
            }) as u32,
        )
    } else {
        Azimuth::Flat
    }
}

/// The slope magnitude at flat index `i`: the normalized gradient norm at
/// an interior cell, zero at a border cell.
pub open spec fn slope_cell_at(g: ElevationGrid, i: int) -> int {
    let x = cell_x(g, i);
    let y = cell_y(g, i);
    if interior_cell(g, x, y) {
        slope_milli_spec(conv_gx(g, x, y), conv_gy(g, x, y))
    } else {
        0
    }
}

/// The derived azimuth and slope grids, row-major, one entry per cell of
/// the elevation grid they were derived from.
pub struct AzimuthResult {
    pub azimuths: Vec<Azimuth>,
    pub gradients: Vec<u32>,
}

/// The gradient vector of every cell, row-major: both kernels at every
/// interior cell, zero at the border. The caller turns these into raw
/// bearings for `compute_azimuths`.
pub fn compute_gradients(grid: &ElevationGrid) -> (r: Vec<(i64, i64)>)
    requires
        grid.wf(),
    ensures
        r@.len() == grid.width * grid.height,
        forall|i: int|
            0 <= i < r@.len() ==> #[trigger] r@[i] == (
            gradient_cell_at(*grid, i).0 as i64,
            gradient_cell_at(*grid, i).1 as i64,
            ),
{
    let w: usize = grid.width;
    let h: usize = grid.height;
    let mut r: Vec<(i64, i64)> = Vec::new();
    let mut y: usize = 0;
    while y < h
        invariant
            grid.wf(),
            w == grid.width,
            h == grid.height,
            y <= h,
            r@.len() == y * w,
            forall|i: int|
                0 <= i < r@.len() ==> #[trigger] r@[i] == (
                gradient_cell_at(*grid, i).0 as i64,
                gradient_cell_at(*grid, i).1 as i64,
                ),
        decreases h - y,
    {
        let mut x: usize = 0;
        while x < w
            invariant
                grid.wf(),
                w == grid.width,
                h == grid.height,
                y < h,
                x <= w,
                r@.len() == y * w + x,
                forall|i: int|
                    0 <= i < r@.len() ==> #[trigger] r@[i] == (
                    gradient_cell_at(*grid, i).0 as i64,
                    gradient_cell_at(*grid, i).1 as i64,
                    ),
            decreases w - x,
        {
            proof {
                vstd::arithmetic::div_mod::lemma_fundamental_div_mod_converse(
                    (y * w + x) as int,
                    w as int,
                    y as int,
                    x as int,
                );
            }
            if x >= 2 && x + 2 < w && y >= 2 && y + 2 < h {
                let (gx, gy): (i64, i64) = convolve_cell(grid, x, y);
                r.push((gx, gy));
            } else {
                r.push((0, 0));
            }
            x = x + 1;
        }
        proof {
            assert(((y as int) + 1) * (w as int) == (y as int) * (w as int) + (w as int))
                by (nonlinear_arith);
        }
        y = y + 1;
    }
    proof {
        assert((h as int) * (w as int) == (w as int) * (h as int)) by (nonlinear_arith);
    }
    r
}

/// Derive the azimuth and slope grids of an elevation grid. The caller
/// supplies, for every cell, the raw bearing `atan2(-gx, gy)` of that
/// cell's gradient vector in truncated tenths of a degree (any value does
/// for cells whose gradient vanishes); everything else - the convolution,
/// the flat test, the normalization into [0, 360), and the slope
/// magnitude - is derived here. Every azimuth of the result is well
/// formed, and every flat azimuth carries zero slope.
pub fn compute_azimuths(grid: &ElevationGrid, raw_angles: &Vec<i64>) -> (r: AzimuthResult)
    requires
        grid.wf(),
        raw_angles@.len() == grid.width * grid.height,
        forall|i: int| 0 <= i < raw_angles@.len() ==> -3600 < #[trigger] raw_angles@[i] < 3600,
    ensures
        r.azimuths@.len() == grid.width * grid.height,
        r.gradients@.len() == grid.width * grid.height,
        forall|i: int|
            0 <= i < r.azimuths@.len() ==> #[trigger] r.azimuths@[i] == azimuth_cell_at(
                *grid,
                raw_angles@,
                i,
            ),
        forall|i: int| 0 <= i < r.azimuths@.len() ==> (#[trigger] r.azimuths@[i]).wf(),
        forall|i: int|
            0 <= i < r.gradients@.len() ==> #[trigger] r.gradients@[i] == slope_cell_at(*grid, i),
        forall|i: int|
            0 <= i < r.azimuths@.len() ==> (#[trigger] r.azimuths@[i] == Azimuth::Flat
                ==> r.gradients@[i] == 0),
{
    let w: usize = grid.width;
    let h: usize = grid.height;
    let mut azimuths: Vec<Azimuth> = Vec::new();
    let mut gradients: Vec<u32> = Vec::new();
    let mut y: usize = 0;
    while y < h
        invariant
            grid.wf(),
            w == grid.width,
            h == grid.height,
            raw_angles@.len() == w * h,
            forall|i: int| 0 <= i < raw_angles@.len() ==> -3600 < #[trigger] raw_angles@[i] < 3600,
            y <= h,
            azimuths@.len() == y * w,
            gradients@.len() == y * w,
            forall|i: int|
                0 <= i < azimuths@.len() ==> #[trigger] azimuths@[i] == azimuth_cell_at(
                    *grid,
                    raw_angles@,
                    i,
                ),
            forall|i: int| 0 <= i < azimuths@.len() ==> (#[trigger] azimuths@[i]).wf(),
            forall|i: int|
                0 <= i < gradients@.len() ==> #[trigger] gradients@[i] == slope_cell_at(*grid, i),
            forall|i: int|
                0 <= i < azimuths@.len() ==> (#[trigger] azimuths@[i] == Azimuth::Flat
                    ==> gradients@[i] == 0),
        decreases h - y,
    {
        let mut x: usize = 0;
        while x < w
            invariant
                grid.wf(),
                w == grid.width,
                h == grid.height,
                raw_angles@.len() == w * h,
                forall|i: int|
                    0 <= i < raw_angles@.len() ==> -3600 < #[trigger] raw_angles@[i] < 3600,
                y < h,
                x <= w,
                azimuths@.len() == y * w + x,
                gradients@.len() == y * w + x,
                forall|i: int|
                    0 <= i < azimuths@.len() ==> #[trigger] azimuths@[i] == azimuth_cell_at(
                        *grid,
                        raw_angles@,
                        i,
                    ),
                forall|i: int| 0 <= i < azimuths@.len() ==> (#[trigger] azimuths@[i]).wf(),
                forall|i: int|
                    0 <= i < gradients@.len() ==> #[trigger] gradients@[i] == slope_cell_at(
                        *grid,
                        i,
                    ),
                forall|i: int|
                    0 <= i < azimuths@.len() ==> (#[trigger] azimuths@[i] == Azimuth::Flat
                        ==> gradients@[i] == 0),
            decreases w - x,
        {
            let i: usize = azimuths.len();
            proof {
                vstd::arithmetic::div_mod::lemma_fundamental_div_mod_converse(
                    (y * w + x) as int,
                    w as int,
                    y as int,
                    x as int,
                );
                assert((y as int) * (w as int) + (x as int) < (w as int) * (h as int))
                    by (nonlinear_arith)
                    requires
                        0 <= (x as int) && (x as int) < (w as int),
                        0 <= (y as int) && (y as int) < (h as int),
                {
                }
            }
            if x >= 2 && x + 2 < w && y >= 2 && y + 2 < h {
                let (gx, gy): (i64, i64) = convolve_cell(grid, x, y);
                let az: Azimuth = calculate_azimuth(gx, gy, raw_angles[i]);
                let s: u32 = compute_gradient_along_azimuth(gx, gy);
                azimuths.push(az);
                if gx == 0 && gy == 0 {
                    gradients.push(0);
                } else {
                    gradients.push(s);
                }
            } else {
                azimuths.push(Azimuth::Flat);
                gradients.push(0);
            }
            x = x + 1;
        }
        proof {
            assert(((y as int) + 1) * (w as int) == (y as int) * (w as int) + (w as int))
                by (nonlinear_arith);
        }
        y = y + 1;
    }
    proof {
        assert((h as int) * (w as int) == (w as int) * (h as int)) by (nonlinear_arith);
    }
    AzimuthResult { azimuths, gradients }
}

/// A cell whose gradient vanishes in both axes derives the flat azimuth,
/// the Flat aspect, and zero slope, whatever raw bearing was supplied.
pub proof fn lemma_flat_cell_classifies_flat(g: ElevationGrid, raws: Seq<i64>, i: int)
    requires
        g.wf(),
        0 <= i < g.width * g.height,
        gradient_cell_at(g, i).0 == 0,
        gradient_cell_at(g, i).1 == 0,
    ensures
        azimuth_cell_at(g, raws, i) == Azimuth::Flat,
        crate::azimuth::aspect_of(azimuth_cell_at(g, raws, i)) == crate::azimuth::Aspect::Flat,
        slope_cell_at(g, i) == 0,
{
    assert(crate::math::sqrt_floor(0) == 0);
}

} // verus!
