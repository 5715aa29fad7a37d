//! Effective radius calculator: the compressed rolling radius of a
//! loaded tire.

use vstd::prelude::*;
use crate::fx::{divt, div_trunc, min_i, max_i, clamp_i, clamp_spec, SCALE};
use crate::conv::{TuningConventions, default_conventions};

verus! {

/// Largest magnitude the radius calculator accepts for any argument
/// (one million physical units).
pub const RADIUS_IN_MAX: i128 = 1_000_000_000_000;

/// The compressed rolling radius: zero for a degenerate tire,
/// otherwise the nominal radius less the load compression, the
/// compression capped at the full radius and the result clamped to
/// `[min_eff, tire_radius]`.
pub open spec fn effective_radius_spec(
    tire_radius: int,
    min_eff: int,
    load: int,
    stiffness: int,
    min_stiffness: int,
) -> int {
    if tire_radius <= 0 {
        0
    } else {
        let s = if stiffness >= min_stiffness {
            stiffness
        } else {
            min_stiffness
        };
        let loadp = if load >= 0 {
            load
        } else {
            0
        };
        let compression0 = divt(loadp * SCALE, s);
        let compression = if compression0 <= tire_radius {
            compression0
        } else {
            tire_radius
        };
        clamp_spec(tire_radius - compression, min_eff, tire_radius)
    }
}

/// As `compute_effective_radius`, with an explicit stiffness floor
/// taken from `conv`.
pub fn compute_effective_radius_with(
    tire_radius: i128,
    min_effective_radius: i128,
    load: i128,
    stiffness: i128,
    conv: TuningConventions,
) -> (r: i128)
    requires
        conv.wf(),
        conv.min_stiffness <= RADIUS_IN_MAX,
        -RADIUS_IN_MAX <= tire_radius <= RADIUS_IN_MAX,
        -RADIUS_IN_MAX <= min_effective_radius <= RADIUS_IN_MAX,
        -RADIUS_IN_MAX <= load <= RADIUS_IN_MAX,
        -RADIUS_IN_MAX <= stiffness <= RADIUS_IN_MAX,
        tire_radius > 0 ==> min_effective_radius <= tire_radius,
    ensures
        r == effective_radius_spec(
            tire_radius as int,
            min_effective_radius as int,
            load as int,
            stiffness as int,
            conv.min_stiffness as int,
        ),
        (min_effective_radius >= 0 && tire_radius > min_effective_radius)
            ==> min_effective_radius <= r <= tire_radius,
{
    if tire_radius <= 0 {
        return 0;
    }
    let s = max_i(stiffness, conv.min_stiffness);
    let loadp = max_i(load, 0);
    let compression0 = div_trunc(loadp * SCALE, s);
    proof {
        vstd::arithmetic::div_mod::lemma_div_pos_is_pos(
            loadp as int * SCALE as int, s as int);
    }
    let compression = min_i(compression0, tire_radius);
    clamp_i(tire_radius - compression, min_effective_radius, tire_radius)
}

/// Derives the compressed rolling radius under the baseline
/// conventions' stiffness floor.
pub fn compute_effective_radius(
    tire_radius: i128,
    min_effective_radius: i128,
    load: i128,
    stiffness: i128,
) -> (r: i128)
    requires
        -RADIUS_IN_MAX <= tire_radius <= RADIUS_IN_MAX,
        -RADIUS_IN_MAX <= min_effective_radius <= RADIUS_IN_MAX,
        -RADIUS_IN_MAX <= load <= RADIUS_IN_MAX,
        -RADIUS_IN_MAX <= stiffness <= RADIUS_IN_MAX,
        tire_radius > 0 ==> min_effective_radius <= tire_radius,
    ensures
        r == effective_radius_spec(
            tire_radius as int,
            min_effective_radius as int,
            load as int,
            stiffness as int,
            default_conventions().min_stiffness as int,
        ),
        (min_effective_radius >= 0 && tire_radius > min_effective_radius)
            ==> min_effective_radius <= r <= tire_radius,
{
    let conv = TuningConventions::default();
    compute_effective_radius_with(tire_radius, min_effective_radius, load, stiffness, conv)
}

} // verus!
