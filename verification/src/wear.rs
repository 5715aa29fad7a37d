//! Wear and thermal stepper: advances tire wear and the two-node
//! (surface/core) temperature model by one explicit time step.
//!
//! All arithmetic is exact and bounded, so no non-finite value can
//! arise; the clamp of wear to `[0, 1]` is therefore the only guard
//! needed to keep wear well-formed.

use vstd::prelude::*;
use crate::fx::{
    divt, fxm, fx_mul, div_trunc, clamp_i, clamp_spec, lemma_mul_le,
    lemma_fxm_le, lemma_divt_le, SCALE,
};

verus! {

/// Largest magnitude the stepper accepts for any input field
/// (ten thousand physical units).
pub const WEAR_IN_MAX: i128 = 10_000_000_000;

/// The read-only input record of one wear/thermal step.
#[derive(Clone, Copy, Debug, PartialEq, Eq, Structural)]
pub struct WearStepInput {
    pub wheel_slip_ratio: i128,
    pub wheel_slip_angle: i128,
    pub max_pressure: i128,
    pub total_force_magnitude: i128,
    pub current_tire_wear: i128,
    pub base_wear_rate: i128,
    pub base_heat_generation: i128,
    pub cooling_rate: i128,
    pub ambient_temperature: i128,
    pub surface_temperature: i128,
    pub core_temperature: i128,
    pub delta: i128,
}

/// The output record: updated wear and the two temperature nodes.
#[derive(Clone, Copy, Debug, PartialEq, Eq, Structural)]
pub struct WearStepOutput {
    pub tire_wear: i128,
    pub surface_temperature: i128,
    pub core_temperature: i128,
}

/// An input record whose fields the stepper accepts.
pub open spec fn wf_wear_input(inp: WearStepInput) -> bool {
    &&& -WEAR_IN_MAX <= inp.wheel_slip_ratio <= WEAR_IN_MAX
    &&& -WEAR_IN_MAX <= inp.wheel_slip_angle <= WEAR_IN_MAX
    &&& -WEAR_IN_MAX <= inp.max_pressure <= WEAR_IN_MAX
    &&& -WEAR_IN_MAX <= inp.total_force_magnitude <= WEAR_IN_MAX
    &&& -WEAR_IN_MAX <= inp.current_tire_wear <= WEAR_IN_MAX
    &&& -WEAR_IN_MAX <= inp.base_wear_rate <= WEAR_IN_MAX
    &&& -WEAR_IN_MAX <= inp.base_heat_generation <= WEAR_IN_MAX
    &&& -WEAR_IN_MAX <= inp.cooling_rate <= WEAR_IN_MAX
    &&& -WEAR_IN_MAX <= inp.ambient_temperature <= WEAR_IN_MAX
    &&& -WEAR_IN_MAX <= inp.surface_temperature <= WEAR_IN_MAX
    &&& -WEAR_IN_MAX <= inp.core_temperature <= WEAR_IN_MAX
    &&& -WEAR_IN_MAX <= inp.delta <= WEAR_IN_MAX
}

/// Absolute value.
pub open spec fn abs_sp(x: int) -> int {
    if x >= 0 {
        x
    } else {
        -x
    }
}

/// The exact result of one wear/thermal step. The wear rate scales
/// with slip and pressure and is integrated then clamped to `[0, 1]`;
/// heat generation scales with slip and total force, routed 70% to the
/// surface node and 30% to the core node; surface cooling toward
/// ambient applies fully to the surface and at half rate to the core.
pub open spec fn wear_step_spec(inp: WearStepInput) -> WearStepOutput {
    let slip = inp.wheel_slip_ratio as int;
    let angle = abs_sp(inp.wheel_slip_angle as int);
    let wear_factor = SCALE + 5 * slip + 3 * angle;
    let wr1 = fxm(inp.base_wear_rate as int, wear_factor);
    let p10k = divt(inp.max_pressure as int, 10000);
    let wr2 = fxm(wr1, p10k);
    let dwear = fxm(wr2, inp.delta as int);
    let wear = clamp_spec(inp.current_tire_wear + dwear, 0, SCALE as int);
    let heat_factor = SCALE + 3 * slip + 2 * angle;
    let hg1 = fxm(inp.base_heat_generation as int, heat_factor);
    let f10k = divt(inp.total_force_magnitude as int, 10000);
    let hg2 = fxm(hg1, f10k);
    let sheat = fxm(hg2, 700_000);
    let cheat = fxm(hg2, 300_000);
    let st1 = inp.surface_temperature + fxm(sheat, inp.delta as int);
    let ct1 = inp.core_temperature + fxm(cheat, inp.delta as int);
    let cooling = fxm(inp.cooling_rate as int, inp.ambient_temperature - st1);
    let st2 = st1 + fxm(cooling, inp.delta as int);
    let ct2 = ct1 + fxm(fxm(cooling, 500_000), inp.delta as int);
    WearStepOutput {
        tire_wear: wear as i128,
        surface_temperature: st2 as i128,
        core_temperature: ct2 as i128,
    }
}

/// The stepper is a pure function of its input record: equal inputs
/// give equal outputs, on every call and on every machine.
pub proof fn lemma_wear_step_deterministic(a: WearStepInput, b: WearStepInput)
    requires
        a == b,
    ensures
        wear_step_spec(a) == wear_step_spec(b),
{
}

/// Advances wear and the two temperature nodes by one time step,
/// exactly as `wear_step_spec` states.
pub fn tire_step_wear_and_temperature(input: WearStepInput) -> (r: WearStepOutput)
    requires
        wf_wear_input(input),
    ensures
        r == wear_step_spec(input),
        0 <= r.tire_wear <= SCALE,
{
    let slip: i128 = input.wheel_slip_ratio;
    let angle: i128 = if input.wheel_slip_angle >= 0 {
        input.wheel_slip_angle
    } else {
        -input.wheel_slip_angle
    };
    let wear_factor: i128 = SCALE + 5 * slip + 3 * angle;
    proof {
        lemma_mul_le(input.base_wear_rate as int, WEAR_IN_MAX as int,
            wear_factor as int, 100_000_000_000);
        lemma_fxm_le(input.base_wear_rate as int, wear_factor as int,
            1_000_000_000_000_000);
    }
    let wr1: i128 = fx_mul(input.base_wear_rate, wear_factor);
    let p10k: i128 = div_trunc(input.max_pressure, 10000);
    proof {
        lemma_divt_le(input.max_pressure as int, 10000, 1_000_000);
        lemma_mul_le(wr1 as int, 1_000_000_000_000_000, p10k as int, 1_000_000);
        lemma_fxm_le(wr1 as int, p10k as int, 1_000_000_000_000_000);
    }
    let wr2: i128 = fx_mul(wr1, p10k);
    proof {
        lemma_mul_le(wr2 as int, 1_000_000_000_000_000, input.delta as int,
            WEAR_IN_MAX as int);
        lemma_fxm_le(wr2 as int, input.delta as int, 10_000_000_000_000_000_000);
    }
    let dwear: i128 = fx_mul(wr2, input.delta);
    let tire_wear: i128 = clamp_i(input.current_tire_wear + dwear, 0, SCALE);

    let heat_factor: i128 = SCALE + 3 * slip + 2 * angle;
    proof {
        lemma_mul_le(input.base_heat_generation as int, WEAR_IN_MAX as int,
            heat_factor as int, 100_000_000_000);
        lemma_fxm_le(input.base_heat_generation as int, heat_factor as int,
            1_000_000_000_000_000);
    }
    let hg1: i128 = fx_mul(input.base_heat_generation, heat_factor);
    let f10k: i128 = div_trunc(input.total_force_magnitude, 10000);
    proof {
        lemma_divt_le(input.total_force_magnitude as int, 10000, 1_000_000);
        lemma_mul_le(hg1 as int, 1_000_000_000_000_000, f10k as int, 1_000_000);
        lemma_fxm_le(hg1 as int, f10k as int, 1_000_000_000_000_000);
    }
    let hg2: i128 = fx_mul(hg1, f10k);
    proof {
        lemma_mul_le(hg2 as int, 1_000_000_000_000_000, 700_000, 700_000);
        lemma_fxm_le(hg2 as int, 700_000, 1_000_000_000_000_000);
        lemma_mul_le(hg2 as int, 1_000_000_000_000_000, 300_000, 300_000);
        lemma_fxm_le(hg2 as int, 300_000, 1_000_000_000_000_000);
    }
    let sheat: i128 = fx_mul(hg2, 700_000);
    let cheat: i128 = fx_mul(hg2, 300_000);
    proof {
        lemma_mul_le(sheat as int, 1_000_000_000_000_000, input.delta as int,
            WEAR_IN_MAX as int);
        lemma_fxm_le(sheat as int, input.delta as int, 10_000_000_000_000_000_000);
        lemma_mul_le(cheat as int, 1_000_000_000_000_000, input.delta as int,
            WEAR_IN_MAX as int);
        lemma_fxm_le(cheat as int, input.delta as int, 10_000_000_000_000_000_000);
    }
    let surface_t1: i128 = input.surface_temperature + fx_mul(sheat, input.delta);
    let core_t1: i128 = input.core_temperature + fx_mul(cheat, input.delta);
    proof {
        lemma_mul_le(input.cooling_rate as int, WEAR_IN_MAX as int,
            input.ambient_temperature - surface_t1 as int,
            100_000_000_000_000_000_000);
        lemma_fxm_le(input.cooling_rate as int,
            input.ambient_temperature - surface_t1 as int,
            1_000_000_000_000_000_000_000_000);
    }
    let cooling: i128 = fx_mul(input.cooling_rate,
        input.ambient_temperature - surface_t1);
    proof {
        lemma_mul_le(cooling as int, 1_000_000_000_000_000_000_000_000,
            input.delta as int, WEAR_IN_MAX as int);
        lemma_fxm_le(cooling as int, input.delta as int,
            10_000_000_000_000_000_000_000_000_000);
        lemma_mul_le(cooling as int, 1_000_000_000_000_000_000_000_000,
            500_000, 500_000);
        lemma_fxm_le(cooling as int, 500_000, 1_000_000_000_000_000_000_000_000);
    }
    let surface_temperature: i128 = surface_t1 + fx_mul(cooling, input.delta);
    let cool_half: i128 = fx_mul(cooling, 500_000);
    proof {
        lemma_mul_le(cool_half as int, 1_000_000_000_000_000_000_000_000,
            input.delta as int, WEAR_IN_MAX as int);
        lemma_fxm_le(cool_half as int, input.delta as int,
            10_000_000_000_000_000_000_000_000_000);
    }
    let core_temperature: i128 = core_t1 + fx_mul(cool_half, input.delta);
    WearStepOutput { tire_wear, surface_temperature, core_temperature }
}

} // verus!
