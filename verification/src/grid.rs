//! The elevation grid: a rectangular, row-major raster of elevation
//! samples in whole distance units, the same units as the fixed 10-unit
//! cell spacing, so that gradients are dimensionless rise over run.

use vstd::prelude::*;

verus! {

/// Largest accepted width or height of a grid. Together with the cost
/// bounds this keeps every arithmetic step of the search within `i64`.
pub const MAX_DIM: usize = 30000;

/// Largest accepted magnitude of an elevation sample. Keeps the 5x5
/// convolution sums and the squared gradients within `i64`.
pub const MAX_ELEVATION: i64 = 400000;

/// A rectangular digital elevation model, row-major, one sample per cell.
pub struct ElevationGrid {
    pub width: usize,
    pub height: usize,
    pub cells: Vec<i64>,
}

impl ElevationGrid {
    /// Well-formed: positive bounded dimensions, one sample per cell, and
    /// every sample within the accepted elevation range.
    pub open spec fn wf(&self) -> bool {
        &&& 1 <= self.width <= MAX_DIM
        &&& 1 <= self.height <= MAX_DIM
        &&& self.cells@.len() == self.width * self.height
        &&& forall|i: int|
            0 <= i < self.cells@.len() ==> -MAX_ELEVATION <= #[trigger] self.cells@[i]
                <= MAX_ELEVATION
    }

    /// Is `(x, y)` a cell of the grid?
    pub open spec fn in_bounds(&self, x: int, y: int) -> bool {
        0 <= x < self.width && 0 <= y < self.height
    }

    /// The sample at `(x, y)`.
    pub open spec fn cell(&self, x: int, y: int) -> int {
        self.cells@[y * self.width + x] as int
    }

    /// Build a grid, or `None` exactly when the dimensions are out of
    /// range, the sample count does not match them, or a sample is out of
    /// the accepted elevation range.
    pub fn new(width: usize, height: usize, cells: Vec<i64>) -> (r: Option<ElevationGrid>)
        ensures
            r is Some <==> {
                &&& 1 <= width <= MAX_DIM
                &&& 1 <= height <= MAX_DIM
                &&& cells@.len() == width * height
                &&& forall|i: int|
                    0 <= i < cells@.len() ==> -MAX_ELEVATION <= #[trigger] cells@[i]
                        <= MAX_ELEVATION
            },
            r matches Some(g) ==> g.wf() && g.width == width && g.height == height && g.cells@
                == cells@,
    {
        if width < 1 || width > MAX_DIM || height < 1 || height > MAX_DIM {
            return None;
        }
        proof {
            assert((width as int) * (height as int) <= 900000000) by (nonlinear_arith)
                requires
                    0 <= (width as int) <= 30000 && 0 <= (height as int) <= 30000,
            {
            }
        }
        if cells.len() != width * height {
            return None;
        }
        let mut i: usize = 0;
        while i < cells.len()
            invariant
                i <= cells@.len(),
                forall|j: int|
                    0 <= j < i ==> -MAX_ELEVATION <= #[trigger] cells@[j] <= MAX_ELEVATION,
            decreases cells@.len() - i,
        {
            if cells[i] < -MAX_ELEVATION || cells[i] > MAX_ELEVATION {
                return None;
            }
            i = i + 1;
        }
        Some(ElevationGrid { width, height, cells })
    }

    /// Read the sample at `(x, y)`.
    pub fn at(&self, x: usize, y: usize) -> (e: i64)
        requires
            self.wf(),
            self.in_bounds(x as int, y as int),
        ensures
            e == self.cell(x as int, y as int),
            -MAX_ELEVATION <= e <= MAX_ELEVATION,
    {
        proof {
            assert((y as int) * (self.width as int) + (x as int) < (self.width as int) * (
            self.height as int) && (self.width as int) * (self.height as int) <= 900000000)
                by (nonlinear_arith)
                requires
                    0 <= (x as int) && (x as int) < (self.width as int) && (self.width as int)
                        <= 30000,
                    0 <= (y as int) && (y as int) < (self.height as int) && (self.height as int)
                        <= 30000,
            {
            }
        }
        self.cells[y * self.width + x]
    }
}

} // verus!
