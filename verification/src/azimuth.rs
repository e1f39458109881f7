//! Azimuths and their compass-sector classification.
//!
//! An azimuth is the downslope compass bearing of a cell, held in tenths of
//! a degree so that every sector boundary (22.5, 67.5, ... degrees) and the
//! default tolerance (2.5 degrees) are exact integers. A cell with no
//! gradient has no bearing; that case is a distinct `Flat` variant rather
//! than a sentinel number.

use vstd::prelude::*;

verus! {

/// Tenths of a degree in a full turn.
pub const FULL_TURN_TENTHS: u32 = 3600;

/// Downslope compass bearing of a cell: `Flat` where the gradient vanishes,
/// otherwise a bearing in tenths of a degree (0 = North, 900 = East).
#[derive(Clone, Copy, PartialEq, Eq, Structural, Debug)]
pub enum Azimuth {
    Flat,
    Deg(u32),
}

impl Azimuth {
    /// A bearing is well formed when it lies in [0, 360) degrees.
    pub open spec fn wf(self) -> bool {
        match self {
            Azimuth::Flat => true,
            Azimuth::Deg(d) => d < FULL_TURN_TENTHS,
        }
    }
}

/// Discrete compass classification of an azimuth: eight 45-degree sectors
/// centered on the compass points, plus `Flat` for cells with no gradient.
#[derive(Clone, Copy, PartialEq, Eq, Structural, Debug)]
pub enum Aspect {
    North,
    Northeast,
    East,
    Southeast,
    South,
    Southwest,
    West,
    Northwest,
    Flat,
}

/// The sector that a bearing of `d` tenths of a degree falls in. Sector
/// boundaries lie at 225, 675, ... tenths; a boundary value belongs to the
/// sector above it, and anything at or above 3375 wraps around to North.
pub open spec fn sector_of(d: int) -> Aspect {
    if d < 225 {
        Aspect::North
    } else if d < 675 {
        Aspect::Northeast
    } else if d < 1125 {
        Aspect::East
    } else if d < 1575 {
        Aspect::Southeast
    } else if d < 2025 {
        Aspect::South
    } else if d < 2475 {
        Aspect::Southwest
    } else if d < 2925 {
        Aspect::West
    } else if d < 3375 {
        Aspect::Northwest
    } else {
        Aspect::North
    }
}

/// Classification of a whole azimuth: `Flat` exactly for the flat variant.
pub open spec fn aspect_of(az: Azimuth) -> Aspect {
    match az {
        Azimuth::Flat => Aspect::Flat,
        Azimuth::Deg(d) => sector_of(d as int),
    }
}

/// The base (tolerance-free) half-open range of each sector over [0, 3600):
/// the ranges of the eight compass sectors partition that interval.
pub open spec fn in_base_sector(a: Aspect, d: int) -> bool {
    match a {
        Aspect::North => (0 <= d && d < 225) || (3375 <= d && d < 3600),
        Aspect::Northeast => 225 <= d && d < 675,
        Aspect::East => 675 <= d && d < 1125,
        Aspect::Southeast => 1125 <= d && d < 1575,
        Aspect::South => 1575 <= d && d < 2025,
        Aspect::Southwest => 2025 <= d && d < 2475,
        Aspect::West => 2475 <= d && d < 2925,
        Aspect::Northwest => 2925 <= d && d < 3375,
        Aspect::Flat => false,
    }
}

/// Containment of an azimuth in a sector widened by `tol` tenths of a
/// degree on both ends. North is the wrap-around sector: its widened range
/// is `[0, 225 + tol]` together with `[3375 - tol, 3600]`. A flat azimuth
/// is contained only in the `Flat` aspect, whatever the tolerance.
pub open spec fn contains_spec(a: Aspect, az: Azimuth, tol: int) -> bool {
    match az {
        Azimuth::Flat => a == Aspect::Flat,
        Azimuth::Deg(d0) => {
            let d = d0 as int;
            match a {
                Aspect::North => (0 - tol <= d && d <= 225 + tol) || (3375 - tol <= d && d
                    <= 3600),
                Aspect::Northeast => 225 - tol <= d && d <= 675 + tol,
                Aspect::East => 675 - tol <= d && d <= 1125 + tol,
                Aspect::Southeast => 1125 - tol <= d && d <= 1575 + tol,
                Aspect::South => 1575 - tol <= d && d <= 2025 + tol,
                Aspect::Southwest => 2025 - tol <= d && d <= 2475 + tol,
                Aspect::West => 2475 - tol <= d && d <= 2925 + tol,
                Aspect::Northwest => 2925 - tol <= d && d <= 3375 + tol,
                Aspect::Flat => false,
            }
        },
    }
}

impl Aspect {
    /// Classify an azimuth into its compass sector; `Flat` exactly for the
    /// flat azimuth.
    pub fn from_azimuth(azimuth: Azimuth) -> (a: Aspect)
        ensures
            a == aspect_of(azimuth),
            (a == Aspect::Flat) <==> (azimuth == Azimuth::Flat),
    {
        match azimuth {
            Azimuth::Flat => Aspect::Flat,
            Azimuth::Deg(d) => {
                if d < 225 {
                    Aspect::North
                } else if d < 675 {
                    Aspect::Northeast
                } else if d < 1125 {
                    Aspect::East
                } else if d < 1575 {
                    Aspect::Southeast
                } else if d < 2025 {
                    Aspect::South
                } else if d < 2475 {
                    Aspect::Southwest
                } else if d < 2925 {
                    Aspect::West
                } else if d < 3375 {
                    Aspect::Northwest
                } else {
                    Aspect::North
                }
            },
        }
    }

    /// Does `azimuth` fall within this sector, widened by `tolerance`
    /// tenths of a degree (0 when absent) on each side?
    pub fn contains_azimuth(&self, azimuth: Azimuth, tolerance: Option<u32>) -> (r: bool)
        ensures
            r == contains_spec(*self, azimuth, tolerance.unwrap_or(0) as int),
    {
        let tol: i64 = match tolerance {
            Some(t) => t as i64,
            None => 0,
        };
        match azimuth {
            Azimuth::Flat => matches!(*self, Aspect::Flat),
            Azimuth::Deg(d0) => {
                let d: i64 = d0 as i64;
                match self {
                    Aspect::North => (0 - tol <= d && d <= 225 + tol) || (3375 - tol <= d && d
                        <= 3600),
                    Aspect::Northeast => 225 - tol <= d && d <= 675 + tol,
                    Aspect::East => 675 - tol <= d && d <= 1125 + tol,
                    Aspect::Southeast => 1125 - tol <= d && d <= 1575 + tol,
                    Aspect::South => 1575 - tol <= d && d <= 2025 + tol,
                    Aspect::Southwest => 2025 - tol <= d && d <= 2475 + tol,
                    Aspect::West => 2475 - tol <= d && d <= 2925 + tol,
                    Aspect::Northwest => 2925 - tol <= d && d <= 3375 + tol,
                    Aspect::Flat => false,
                }
            },
        }
    }
}

/// Turn a raw gradient pair and a raw bearing into an azimuth. The bearing
/// comes from the caller as `atan2(-gx, gy)` in truncated tenths of a
/// degree, a value in (-1800, 1800]; trigonometry is the one step of the
/// derivation this crate leaves to its caller. A cell whose gradient
/// vanishes in both axes is `Flat`, whatever bearing was supplied;
/// otherwise the bearing is normalized into [0, 3600) by adding a full
/// turn to negative values.
pub fn calculate_azimuth(gx: i64, gy: i64, raw_tenths: i64) -> (az: Azimuth)
    requires
        -3600 < raw_tenths < 3600,
    ensures
        az.wf(),
        (gx == 0 && gy == 0) ==> az == Azimuth::Flat,
        !(gx == 0 && gy == 0) ==> az == Azimuth::Deg(
            (if raw_tenths < 0 {
                raw_tenths + 3600
            } else {
                raw_tenths as int
            }) as u32,
        ),
{
    if gx == 0 && gy == 0 {
        Azimuth::Flat
    } else if raw_tenths < 0 {
        Azimuth::Deg((raw_tenths + 3600) as u32)
    } else {
        Azimuth::Deg(raw_tenths as u32)
    }
}

/// The eight compass sectors partition the bearings: every bearing in
/// [0, 3600) lies in the base range of its own classification and of no
/// other sector, and that classification is never `Flat`.
pub proof fn lemma_aspect_partition(d: int)
    requires
        0 <= d < 3600,
    ensures
        in_base_sector(sector_of(d), d),
        sector_of(d) != Aspect::Flat,
        forall|a: Aspect| in_base_sector(a, d) ==> a == sector_of(d),
{
}

/// Widening the tolerance never removes a contained azimuth: containment
/// is monotone in the tolerance.
pub proof fn lemma_contains_monotone(a: Aspect, az: Azimuth, t1: int, t2: int)
    requires
        t1 <= t2,
        contains_spec(a, az, t1),
    ensures
        contains_spec(a, az, t2),
{
}

} // verus!
