//! A terrain bundles the elevation grid with its derived azimuth and
//! slope grids, the three rasters the search consults per edge.

use crate::azimuth::Azimuth;
use crate::grid::ElevationGrid;
use crate::slope::AzimuthResult;
use vstd::prelude::*;

verus! {

/// An elevation grid together with its derived azimuth and slope grids,
/// all row-major with one entry per cell.
pub struct Terrain {
    pub elev: ElevationGrid,
    pub azimuths: Vec<Azimuth>,
    pub slopes: Vec<u32>,
}

impl Terrain {
    /// Well-formed: the elevation grid is, and both derived grids have one
    /// well-formed entry per cell.
    pub open spec fn wf(&self) -> bool {
        &&& self.elev.wf()
        &&& self.azimuths@.len() == self.elev.cells@.len()
        &&& self.slopes@.len() == self.elev.cells@.len()
        &&& forall|i: int| 0 <= i < self.azimuths@.len() ==> (#[trigger] self.azimuths@[i]).wf()
    }

    /// The azimuth at flat index `y * width + x`.
    pub open spec fn azimuth_at_spec(&self, x: int, y: int) -> Azimuth {
        self.azimuths@[y * self.elev.width + x]
    }

    /// The slope magnitude at flat index `y * width + x`.
    pub open spec fn slope_at_spec(&self, x: int, y: int) -> u32 {
        self.slopes@[y * self.elev.width + x]
    }

    /// Bundle an elevation grid with its derived grids, or `None` exactly
    /// when a derived grid has the wrong length or a malformed azimuth.
    pub fn from_parts(elev: ElevationGrid, derived: AzimuthResult) -> (r: Option<Terrain>)
        requires
            elev.wf(),
        ensures
            r is Some <==> {
                &&& derived.azimuths@.len() == elev.cells@.len()
                &&& derived.gradients@.len() == elev.cells@.len()
                &&& forall|i: int|
                    0 <= i < derived.azimuths@.len() ==> (#[trigger] derived.azimuths@[i]).wf()
            },
            r matches Some(t) ==> t.wf() && t.elev == elev && t.azimuths@ == derived.azimuths@
                && t.slopes@ == derived.gradients@,
    {
        if derived.azimuths.len() != elev.cells.len() || derived.gradients.len()
            != elev.cells.len() {
            return None;
        }
        let mut i: usize = 0;
        while i < derived.azimuths.len()
            invariant
                i <= derived.azimuths@.len(),
                forall|j: int| 0 <= j < i ==> (#[trigger] derived.azimuths@[j]).wf(),
            decreases derived.azimuths@.len() - i,
        {
            match derived.azimuths[i] {
                Azimuth::Deg(d) => {
                    if d >= 3600 {
                        return None;
                    }
                },
                Azimuth::Flat => {},
            }
            i = i + 1;
        }
        Some(Terrain { elev, azimuths: derived.azimuths, slopes: derived.gradients })
    }

    /// Read the azimuth at `(x, y)`.
    pub fn azimuth_at(&self, x: usize, y: usize) -> (az: Azimuth)
        requires
            self.wf(),
            self.elev.in_bounds(x as int, y as int),
        ensures
            az == self.azimuth_at_spec(x as int, y as int),
            az.wf(),
    {
        proof {
            assert((y as int) * (self.elev.width as int) + (x as int) < (self.elev.width as int) * (
            self.elev.height as int) && (self.elev.width as int) * (self.elev.height as int)
                <= 900000000) by (nonlinear_arith)
                requires
                    0 <= (x as int) && (x as int) < (self.elev.width as int) && (
                    self.elev.width as int) <= 30000,
                    0 <= (y as int) && (y as int) < (self.elev.height as int) && (
                    self.elev.height as int) <= 30000,
            {
            }
        }
        self.azimuths[y * self.elev.width + x]
    }

    /// Read the slope magnitude at `(x, y)`.
    pub fn slope_at(&self, x: usize, y: usize) -> (s: u32)
        requires
            self.wf(),
            self.elev.in_bounds(x as int, y as int),
        ensures
            s == self.slope_at_spec(x as int, y as int),
    {
        proof {
            assert((y as int) * (self.elev.width as int) + (x as int) < (self.elev.width as int) * (
            self.elev.height as int) && (self.elev.width as int) * (self.elev.height as int)
                <= 900000000) by (nonlinear_arith)
                requires
                    0 <= (x as int) && (x as int) < (self.elev.width as int) && (
                    self.elev.width as int) <= 30000,
                    0 <= (y as int) && (y as int) < (self.elev.height as int) && (
                    self.elev.height as int) <= 30000,
            {
            }
        }
        self.slopes[y * self.elev.width + x]
    }
}

} // verus!
