//! Tuning conventions: the numeric guards every statistical
//! computation takes. Immutable per call; a baseline default is given.

use vstd::prelude::*;
use crate::fx::SCALE;

verus! {

/// Guards for the statistical computations, in raw fixed-point units.
#[derive(Clone, Copy, Debug, PartialEq, Eq, Structural)]
pub struct TuningConventions {
    /// Smallest weight sum that is divided by rather than zeroed.
    pub epsilon: i128,
    /// Floor for stiffness denominators.
    pub min_stiffness: i128,
    /// Weights at or below this value are treated as absent.
    pub min_positive_weight: i128,
    /// Penetrations above this value count as contact.
    pub contact_penetration_threshold: i128,
}

/// The baseline conventions: `epsilon = 1e-6`, `min_stiffness = 1e-4`,
/// `min_positive_weight = 0`, `contact_penetration_threshold = 0`.
pub open spec fn default_conventions() -> TuningConventions {
    TuningConventions {
        epsilon: 1,
        min_stiffness: 100,
        min_positive_weight: 0,
        contact_penetration_threshold: 0,
    }
}

impl TuningConventions {
    /// Well-formed conventions: non-negative guards and a usable
    /// stiffness floor.
    pub open spec fn wf(self) -> bool {
        &&& self.epsilon >= 0
        &&& self.min_stiffness >= 1
        &&& self.min_positive_weight >= 0
        &&& -SCALE * SCALE <= self.contact_penetration_threshold <= SCALE * SCALE
    }

    pub fn new(
        epsilon: i128,
        min_stiffness: i128,
        min_positive_weight: i128,
        contact_penetration_threshold: i128,
    ) -> (r: TuningConventions)
        ensures
            r == (TuningConventions {
                epsilon,
                min_stiffness,
                min_positive_weight,
                contact_penetration_threshold,
            }),
    {
        TuningConventions { epsilon, min_stiffness, min_positive_weight, contact_penetration_threshold }
    }
}

impl Default for TuningConventions {
    /// The baseline conventions.
    fn default() -> (r: TuningConventions)
        ensures
            r == default_conventions(),
            r.wf(),
    {
        TuningConventions {
            epsilon: 1,
            min_stiffness: 100,
            min_positive_weight: 0,
            contact_penetration_threshold: 0,
        }
    }
}

} // verus!
