//! User-tunable traversal rules and the failure signals of the engine.

use crate::azimuth::Aspect;
use vstd::prelude::*;

verus! {

/// Traversal policy: the steepest allowed uphill gradient (thousandths,
/// rise over run), the compass sectors a route must avoid, and the slope
/// magnitude (thousandths) above which that avoidance applies.
pub struct SearchPolicy {
    pub max_gradient_milli: i64,
    pub excluded_aspects: Vec<Aspect>,
    pub aspect_gradient_threshold_milli: u32,
}

impl Default for SearchPolicy {
    /// The permissive defaults: gradient limit one (rise equal to run), no
    /// excluded sector, zero slope threshold.
    fn default() -> (r: SearchPolicy)
        ensures
            r.max_gradient_milli == 1000,
            r.excluded_aspects@.len() == 0,
            r.aspect_gradient_threshold_milli == 0,
    {
        SearchPolicy {
            max_gradient_milli: 1000,
            excluded_aspects: Vec::new(),
            aspect_gradient_threshold_milli: 0,
        }
    }
}

/// The failure signals. `NotFound` is the expected outcome of a search
/// whose frontier is exhausted; the others mark malformed input or a
/// failure at the raster or geometry boundary around the engine.
#[derive(Clone, Copy, PartialEq, Eq, Structural, Debug)]
pub enum PathError {
    InvalidInput,
    UnsupportedSampleType,
    OutOfBounds,
    NotFound,
    CodecError,
}

} // verus!
