//! Terrain-aware least-cost pathfinding over a digital elevation model.
//!
//! The library derives slope and aspect grids from raw elevation samples,
//! evaluates traversal costs under a tunable policy, and searches for a
//! least-cost route between two grid cells. All continuous quantities are
//! held in exact fixed-point integers: azimuths in tenths of a degree,
//! gradients and slope magnitudes in thousandths (rise over run), physical
//! distances in whole distance units (ten units per cell side).

pub mod azimuth;
pub mod cost;
pub mod grid;
pub mod math;
pub mod policy;
pub mod result;
pub mod search;
pub mod terrain;
pub mod slope;

pub use azimuth::Aspect;
pub use azimuth::Azimuth;
pub use grid::ElevationGrid;
pub use policy::PathError;
pub use policy::SearchPolicy;
pub use result::PathRecord;
pub use result::PathResult;
pub use search::find_path_rs;
pub use slope::compute_azimuths;
pub use slope::compute_gradients;
pub use slope::AzimuthResult;
pub use terrain::Terrain;
