//! Patch statistical aggregator: combines per-sample penetration, slip
//! and weight observations into one confidence-weighted summary.

use vstd::prelude::*;
use crate::fx::{
    fxm, fx_mul, max_i, clamp_i, clamp_spec, lemma_mul_le, lemma_fxm_le,
    lemma_divt_mul_le, SCALE,
};
use crate::conv::TuningConventions;
use crate::normalize::{
    tqsum, norm_at, osum, normalize_weights, lemma_qsum_ge_elem,
    lemma_osum_bounds, WEIGHT_MAX, MAX_SAMPLES,
};

verus! {

/// One contact observation: an unnormalized importance weight, a
/// penetration depth and two slip components.
#[derive(Clone, Copy, Debug, PartialEq, Eq, Structural)]
pub struct ContactSample {
    pub weight: i128,
    pub penetration: i128,
    pub slip_x: i128,
    pub slip_y: i128,
}

/// The per-tick statistical summary of a sample set.
#[derive(Clone, Copy, Debug, PartialEq, Eq, Structural)]
pub struct PatchAggregate {
    pub contact_confidence: i128,
    pub penetration_avg: i128,
    pub penetration_max: i128,
    pub slip_x_avg: i128,
    pub slip_y_avg: i128,
}

/// A sample whose fields the aggregator accepts.
pub open spec fn wf_sample(s: ContactSample) -> bool {
    &&& -WEIGHT_MAX <= s.weight <= WEIGHT_MAX
    &&& -WEIGHT_MAX <= s.penetration <= WEIGHT_MAX
    &&& -WEIGHT_MAX <= s.slip_x <= WEIGHT_MAX
    &&& -WEIGHT_MAX <= s.slip_y <= WEIGHT_MAX
}

/// The raw weights of a sample list.
pub open spec fn wseq(samples: Seq<ContactSample>) -> Seq<i128> {
    Seq::new(samples.len(), |i: int| samples[i].weight)
}

/// The normalized weight of sample `i`: its share of the qualifying
/// weight mass, or zero when that mass is at most `epsilon`.
pub open spec fn nw_at(samples: Seq<ContactSample>, conv: TuningConventions, i: int) -> int {
    let t = tqsum(wseq(samples), conv);
    if t > conv.epsilon {
        norm_at(samples[i].weight as int, conv.min_positive_weight as int, t)
    } else {
        0
    }
}

/// Sum of the normalized weights of the first `k` samples.
pub open spec fn nwsum(samples: Seq<ContactSample>, conv: TuningConventions, k: int) -> int
    decreases k,
{
    if k <= 0 {
        0
    } else {
        nwsum(samples, conv, k - 1) + nw_at(samples, conv, k - 1)
    }
}

/// Contact confidence mass: normalized weight of the samples among the
/// first `k` whose penetration exceeds the contact threshold.
pub open spec fn csum(samples: Seq<ContactSample>, conv: TuningConventions, k: int) -> int
    decreases k,
{
    if k <= 0 {
        0
    } else {
        csum(samples, conv, k - 1) + if samples[k - 1].penetration
            > conv.contact_penetration_threshold {
            nw_at(samples, conv, k - 1)
        } else {
            0
        }
    }
}

/// Normalized-weight-weighted penetration sum of the first `k` samples.
pub open spec fn wavg_pen(samples: Seq<ContactSample>, conv: TuningConventions, k: int) -> int
    decreases k,
{
    if k <= 0 {
        0
    } else {
        wavg_pen(samples, conv, k - 1) + fxm(
            nw_at(samples, conv, k - 1),
            samples[k - 1].penetration as int,
        )
    }
}

/// Normalized-weight-weighted longitudinal slip sum.
pub open spec fn wavg_sx(samples: Seq<ContactSample>, conv: TuningConventions, k: int) -> int
    decreases k,
{
    if k <= 0 {
        0
    } else {
        wavg_sx(samples, conv, k - 1) + fxm(
            nw_at(samples, conv, k - 1),
            samples[k - 1].slip_x as int,
        )
    }
}

/// Normalized-weight-weighted lateral slip sum.
pub open spec fn wavg_sy(samples: Seq<ContactSample>, conv: TuningConventions, k: int) -> int
    decreases k,
{
    if k <= 0 {
        0
    } else {
        wavg_sy(samples, conv, k - 1) + fxm(
            nw_at(samples, conv, k - 1),
            samples[k - 1].slip_y as int,
        )
    }
}

/// Largest penetration among the first `k` samples (unweighted).
pub open spec fn maxpen(samples: Seq<ContactSample>, k: int) -> int
    decreases k,
{
    if k <= 1 {
        samples[0].penetration as int
    } else {
        let m = maxpen(samples, k - 1);
        if samples[k - 1].penetration > m {
            samples[k - 1].penetration as int
        } else {
            m
        }
    }
}

/// The all-zero aggregate, returned for an empty sample list.
pub open spec fn zero_patch() -> PatchAggregate {
    PatchAggregate {
        contact_confidence: 0,
        penetration_avg: 0,
        penetration_max: 0,
        slip_x_avg: 0,
        slip_y_avg: 0,
    }
}

/// Every normalized weight lies in `[0, SCALE]`.
proof fn lemma_nw_at_bounds(samples: Seq<ContactSample>, conv: TuningConventions, i: int)
    requires
        conv.wf(),
        0 <= i < samples.len(),
    ensures
        0 <= nw_at(samples, conv, i) <= SCALE,
{
    let ws = wseq(samples);
    let mpw = conv.min_positive_weight as int;
    let t = tqsum(ws, conv);
    let w = samples[i].weight as int;
    if t > conv.epsilon && w > mpw {
        let s = SCALE as int;
        lemma_qsum_ge_elem(ws, mpw, ws.len() as int, i);
        assert(w * s >= 0) by (nonlinear_arith)
            requires
                w > mpw >= 0,
                s > 0,
        ;
        vstd::arithmetic::div_mod::lemma_div_pos_is_pos(w * s, t);
        assert(w * s <= t * s) by (nonlinear_arith)
            requires
                0 <= w <= t,
                s > 0,
        ;
        vstd::arithmetic::div_mod::lemma_div_is_ordered(w * s, t * s, t);
        vstd::arithmetic::div_mod::lemma_div_multiples_vanish(s, t);
    }
}

/// The normalized weight sum of a prefix is the normalized sum of the
/// corresponding raw weights.
proof fn lemma_nwsum_is_osum(samples: Seq<ContactSample>, conv: TuningConventions, k: int)
    requires
        tqsum(wseq(samples), conv) > conv.epsilon,
        0 <= k <= samples.len(),
    ensures
        nwsum(samples, conv, k) == osum(
            wseq(samples),
            conv.min_positive_weight as int,
            tqsum(wseq(samples), conv),
            k,
        ),
    decreases k,
{
    if k > 0 {
        lemma_nwsum_is_osum(samples, conv, k - 1);
    }
}

/// The normalized weights of a whole sample list sum to at most one
/// unit.
proof fn lemma_nwsum_le_scale(samples: Seq<ContactSample>, conv: TuningConventions)
    requires
        conv.wf(),
    ensures
        nwsum(samples, conv, samples.len() as int) <= SCALE,
    decreases samples.len(),
{
    let n = samples.len() as int;
    let ws = wseq(samples);
    let mpw = conv.min_positive_weight as int;
    let t = tqsum(ws, conv);
    if t > conv.epsilon {
        lemma_nwsum_is_osum(samples, conv, n);
        lemma_osum_bounds(ws, mpw, t, n);
        let v = nwsum(samples, conv, n);
        assert(v <= SCALE) by (nonlinear_arith)
            requires
                t * v <= SCALE * t,
                t > 0,
        ;
    } else {
        assert forall|k: int| 0 <= k <= n implies nwsum(samples, conv, k) == 0 by {
            lemma_nwsum_all_zero(samples, conv, k);
        }
    }
}

proof fn lemma_nwsum_all_zero(samples: Seq<ContactSample>, conv: TuningConventions, k: int)
    requires
        tqsum(wseq(samples), conv) <= conv.epsilon,
        k <= samples.len(),
    ensures
        nwsum(samples, conv, k) == 0,
    decreases k,
{
    if k > 0 {
        lemma_nwsum_all_zero(samples, conv, k - 1);
    }
}

/// The weighted penetration sum, scaled back, is bounded by `m` times
/// the normalized weight mass, for any bound `m` on the penetrations.
proof fn lemma_wavg_le_max(samples: Seq<ContactSample>, conv: TuningConventions, m: int, k: int)
    requires
        conv.wf(),
        0 <= k <= samples.len(),
        m >= 0,
        forall|i: int| 0 <= i < k ==> 0 <= (#[trigger] samples[i]).penetration <= m,
    ensures
        SCALE * wavg_pen(samples, conv, k) <= m * nwsum(samples, conv, k),
    decreases k,
{
    if k > 0 {
        lemma_wavg_le_max(samples, conv, m, k - 1);
        let nw = nw_at(samples, conv, k - 1);
        let p = samples[k - 1].penetration as int;
        let d = fxm(nw, p);
        lemma_nw_at_bounds(samples, conv, k - 1);
        assert(nw * p >= 0) by (nonlinear_arith)
            requires
                nw >= 0,
                p >= 0,
        ;
        lemma_divt_mul_le(nw * p, SCALE as int);
        assert(nw * p <= nw * m) by (nonlinear_arith)
            requires
                nw >= 0,
                p <= m,
        ;
        assert(m * (nwsum(samples, conv, k - 1) + nw)
            == m * nwsum(samples, conv, k - 1) + m * nw) by (nonlinear_arith);
        assert(nw * m == m * nw) by (nonlinear_arith);
    }
}

/// No sample past the threshold means no confidence mass.
proof fn lemma_csum_zero(samples: Seq<ContactSample>, conv: TuningConventions, k: int)
    requires
        forall|i: int| 0 <= i < samples.len()
            ==> (#[trigger] samples[i]).penetration <= conv.contact_penetration_threshold,
        k <= samples.len(),
    ensures
        csum(samples, conv, k) == 0,
    decreases k,
{
    if k > 0 {
        lemma_csum_zero(samples, conv, k - 1);
    }
}

/// The confidence mass of a prefix stays within the normalized weight
/// mass of the whole list.
proof fn lemma_csum_bounds(samples: Seq<ContactSample>, conv: TuningConventions, k: int)
    requires
        conv.wf(),
        0 <= k <= samples.len(),
    ensures
        0 <= csum(samples, conv, k) <= nwsum(samples, conv, k),
    decreases k,
{
    if k > 0 {
        lemma_csum_bounds(samples, conv, k - 1);
        lemma_nw_at_bounds(samples, conv, k - 1);
    }
}

/// The largest penetration is at least each sample's penetration.
proof fn lemma_maxpen_ge(samples: Seq<ContactSample>, k: int, j: int)
    requires
        0 <= j < k,
        k <= samples.len(),
    ensures
        maxpen(samples, k) >= samples[j].penetration,
    decreases k,
{
    if j < k - 1 && k >= 2 {
        lemma_maxpen_ge(samples, k - 1, j);
    }
}

/// Aggregates a sample list into a patch summary: an empty list gives
/// the all-zero aggregate; otherwise the confidence is the clamped
/// normalized weight mass of the samples in contact, the averages are
/// normalized-weight-weighted sums, and the maximum penetration is the
/// unweighted worst sample.
pub fn aggregate_patch(samples: &Vec<ContactSample>, conv: TuningConventions) -> (r: PatchAggregate)
    requires
        conv.wf(),
        samples@.len() <= MAX_SAMPLES,
        forall|i: int| 0 <= i < samples@.len() ==> wf_sample(#[trigger] samples@[i]),
    ensures
        samples@.len() == 0 ==> r == zero_patch(),
        samples@.len() > 0 ==> r == (PatchAggregate {
            contact_confidence: clamp_spec(
                csum(samples@, conv, samples@.len() as int), 0, SCALE as int) as i128,
            penetration_avg: wavg_pen(samples@, conv, samples@.len() as int) as i128,
            penetration_max: maxpen(samples@, samples@.len() as int) as i128,
            slip_x_avg: wavg_sx(samples@, conv, samples@.len() as int) as i128,
            slip_y_avg: wavg_sy(samples@, conv, samples@.len() as int) as i128,
        }),
        0 <= r.contact_confidence <= SCALE,
        (forall|i: int| 0 <= i < samples@.len() ==> (#[trigger] samples@[i]).penetration >= 0)
            ==> r.penetration_max >= r.penetration_avg,
        (forall|i: int| 0 <= i < samples@.len()
            ==> (#[trigger] samples@[i]).penetration <= conv.contact_penetration_threshold)
            ==> r.contact_confidence == 0,
{
    let n: usize = samples.len();
    if n == 0 {
        return PatchAggregate {
            contact_confidence: 0,
            penetration_avg: 0,
            penetration_max: 0,
            slip_x_avg: 0,
            slip_y_avg: 0,
        };
    }
    let mut ws: Vec<i128> = Vec::new();
    let mut i: usize = 0;
    while i < n
        invariant
            n == samples@.len(),
            i <= n,
            ws@.len() == i,
            forall|j: int| 0 <= j < i ==> ws@[j] == (#[trigger] samples@[j]).weight,
            forall|j: int| 0 <= j < n ==> wf_sample(#[trigger] samples@[j]),
        decreases n - i,
    {
        let s = samples[i];
        ws.push(s.weight);
        i = i + 1;
    }
    proof {
        assert(ws@ =~= wseq(samples@));
    }
    let nws = normalize_weights(&ws, conv);
    proof {
        assert forall|j: int| 0 <= j < n implies nws@[j] == nw_at(samples@, conv, j) by {
            assert(ws@[j] == samples@[j].weight);
        }
    }
    let first = samples[0];
    let mut conf: i128 = 0;
    let mut pen_acc: i128 = 0;
    let mut sx_acc: i128 = 0;
    let mut sy_acc: i128 = 0;
    let mut maxp: i128 = first.penetration;
    let mut i2: usize = 0;
    while i2 < n
        invariant
            n == samples@.len(),
            0 < n <= MAX_SAMPLES,
            i2 <= n,
            conv.wf(),
            nws@.len() == n,
            forall|j: int| 0 <= j < n ==> wf_sample(#[trigger] samples@[j]),
            forall|j: int| 0 <= j < n ==> #[trigger] nws@[j] == nw_at(samples@, conv, j),
            forall|j: int| 0 <= j < n ==> 0 <= #[trigger] nws@[j] <= SCALE,
            conf == csum(samples@, conv, i2 as int),
            0 <= conf <= i2 * SCALE,
            pen_acc == wavg_pen(samples@, conv, i2 as int),
            -(i2 * WEIGHT_MAX) <= pen_acc <= i2 * WEIGHT_MAX,
            sx_acc == wavg_sx(samples@, conv, i2 as int),
            -(i2 * WEIGHT_MAX) <= sx_acc <= i2 * WEIGHT_MAX,
            sy_acc == wavg_sy(samples@, conv, i2 as int),
            -(i2 * WEIGHT_MAX) <= sy_acc <= i2 * WEIGHT_MAX,
            maxp == maxpen(samples@, if i2 == 0 { 1int } else { i2 as int }),
        decreases n - i2,
    {
        let s = samples[i2];
        let nw = nws[i2];
        proof {
            lemma_mul_le(nw as int, SCALE as int, s.penetration as int, WEIGHT_MAX as int);
            lemma_mul_le(nw as int, SCALE as int, s.slip_x as int, WEIGHT_MAX as int);
            lemma_mul_le(nw as int, SCALE as int, s.slip_y as int, WEIGHT_MAX as int);
            lemma_fxm_le(nw as int, s.penetration as int, WEIGHT_MAX as int);
            lemma_fxm_le(nw as int, s.slip_x as int, WEIGHT_MAX as int);
            lemma_fxm_le(nw as int, s.slip_y as int, WEIGHT_MAX as int);
        }
        if s.penetration > conv.contact_penetration_threshold {
            conf = conf + nw;
        }
        pen_acc = pen_acc + fx_mul(nw, s.penetration);
        sx_acc = sx_acc + fx_mul(nw, s.slip_x);
        sy_acc = sy_acc + fx_mul(nw, s.slip_y);
        maxp = max_i(maxp, s.penetration);
        i2 = i2 + 1;
    }
    let confidence = clamp_i(conf, 0, SCALE);
    proof {
        let nn = n as int;
        if forall|i: int| 0 <= i < samples@.len()
            ==> (#[trigger] samples@[i]).penetration >= 0 {
            let m = maxpen(samples@, nn);
            assert forall|j: int| 0 <= j < nn implies
                0 <= (#[trigger] samples@[j]).penetration <= m by {
                lemma_maxpen_ge(samples@, nn, j);
            }
            assert(m >= 0) by {
                lemma_maxpen_ge(samples@, nn, 0);
            }
            lemma_wavg_le_max(samples@, conv, m, nn);
            lemma_nwsum_le_scale(samples@, conv);
            assert(m * nwsum(samples@, conv, nn) <= m * SCALE) by (nonlinear_arith)
                requires
                    m >= 0,
                    nwsum(samples@, conv, nn) <= SCALE,
            ;
        }
        if forall|i: int| 0 <= i < samples@.len()
            ==> (#[trigger] samples@[i]).penetration <= conv.contact_penetration_threshold {
            lemma_csum_zero(samples@, conv, nn);
        }
        lemma_csum_bounds(samples@, conv, nn);
        lemma_nwsum_le_scale(samples@, conv);
    }
    PatchAggregate {
        contact_confidence: confidence,
        penetration_avg: pen_acc,
        penetration_max: maxp,
        slip_x_avg: sx_acc,
        slip_y_avg: sy_acc,
    }
}

} // verus!
