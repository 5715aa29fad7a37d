//! Weight normalizer: turns a list of importance weights into a
//! distribution that sums to one unit (or to zero when the qualifying
//! mass is too small to divide by).

use vstd::prelude::*;
use crate::fx::{divt, div_trunc, SCALE};
use crate::conv::TuningConventions;

verus! {

/// Largest weight magnitude the normalizer accepts (one million units).
pub const WEIGHT_MAX: i128 = 1_000_000_000_000;

/// Largest number of weights or samples a single call accepts.
pub const MAX_SAMPLES: usize = 100_000;

/// Sum of the qualifying weights (those strictly above `mpw`) among the
/// first `k` entries.
pub open spec fn qsum(ws: Seq<i128>, mpw: int, k: int) -> int
    decreases k,
{
    if k <= 0 {
        0
    } else {
        qsum(ws, mpw, k - 1) + if ws[k - 1] > mpw {
            ws[k - 1] as int
        } else {
            0
        }
    }
}

/// The qualifying sum of a whole weight list under `conv`.
pub open spec fn tqsum(ws: Seq<i128>, conv: TuningConventions) -> int {
    qsum(ws, conv.min_positive_weight as int, ws.len() as int)
}

/// A single normalized weight: a qualifying weight divided by the
/// qualifying total `t`, a non-qualifying one mapped to zero.
pub open spec fn norm_at(w: int, mpw: int, t: int) -> int {
    if w > mpw {
        divt(w * SCALE, t)
    } else {
        0
    }
}

/// Sum of the first `k` normalized weights.
pub open spec fn osum(ws: Seq<i128>, mpw: int, t: int, k: int) -> int
    decreases k,
{
    if k <= 0 {
        0
    } else {
        osum(ws, mpw, t, k - 1) + norm_at(ws[k - 1] as int, mpw, t)
    }
}

/// Sum of a scalar sequence.
pub open spec fn vsum(s: Seq<i128>) -> int
    decreases s.len(),
{
    if s.len() == 0 {
        0
    } else {
        vsum(s.drop_last()) + s.last()
    }
}

/// The qualifying sum grows along the list.
pub proof fn lemma_qsum_monotone(ws: Seq<i128>, mpw: int, j: int, k: int)
    requires
        mpw >= 0,
        0 <= j <= k,
    ensures
        qsum(ws, mpw, j) <= qsum(ws, mpw, k),
    decreases k - j,
{
    if j < k {
        lemma_qsum_monotone(ws, mpw, j, k - 1);
    }
}

/// The qualifying sum is at least any single qualifying weight.
pub proof fn lemma_qsum_ge_elem(ws: Seq<i128>, mpw: int, k: int, j: int)
    requires
        mpw >= 0,
        0 <= j < k,
        ws[j] > mpw,
    ensures
        qsum(ws, mpw, k) >= ws[j],
        qsum(ws, mpw, k) > 0,
    decreases k,
{
    lemma_qsum_monotone(ws, mpw, 0, j);
    lemma_qsum_monotone(ws, mpw, j + 1, k);
}

/// With no qualifying weight, the qualifying sum is zero.
pub proof fn lemma_qsum_zero(ws: Seq<i128>, mpw: int, k: int)
    requires
        forall|i: int| 0 <= i < k ==> ws[i] <= mpw,
    ensures
        qsum(ws, mpw, k) == 0,
    decreases k,
{
    if k > 0 {
        lemma_qsum_zero(ws, mpw, k - 1);
    }
}

/// The normalized prefix sum, scaled back by `t`, tracks the qualifying
/// prefix sum scaled by `SCALE`, losing less than `t` per entry.
pub proof fn lemma_osum_bounds(ws: Seq<i128>, mpw: int, t: int, k: int)
    requires
        mpw >= 0,
        t > 0,
        k >= 0,
    ensures
        t * osum(ws, mpw, t, k) <= SCALE * qsum(ws, mpw, k),
        t * osum(ws, mpw, t, k) >= SCALE * qsum(ws, mpw, k) - k * (t - 1),
    decreases k,
{
    if k == 0 {
    } else {
        lemma_osum_bounds(ws, mpw, t, k - 1);
        let o1 = osum(ws, mpw, t, k - 1);
        let q1 = qsum(ws, mpw, k - 1);
        let w = ws[k - 1] as int;
        assert(k * (t - 1) == (k - 1) * (t - 1) + (t - 1)) by (nonlinear_arith);
        if w > mpw {
            let d = divt(w * SCALE, t);
            assert(w * SCALE >= 0) by (nonlinear_arith)
                requires
                    w > mpw >= 0,
            ;
            vstd::arithmetic::div_mod::lemma_fundamental_div_mod(w * SCALE, t);
            vstd::arithmetic::div_mod::lemma_mod_bound(w * SCALE, t);
            assert(osum(ws, mpw, t, k) == o1 + d);
            assert(qsum(ws, mpw, k) == q1 + w);
            assert(t * (o1 + d) == t * o1 + t * d) by (nonlinear_arith);
            assert(SCALE * (q1 + w) == SCALE * q1 + SCALE * w);
        } else {
            assert(osum(ws, mpw, t, k) == o1);
            assert(qsum(ws, mpw, k) == q1);
        }
    }
}

/// When `r` matches the normalized weights pointwise, its sum is the
/// normalized sum.
pub proof fn lemma_vsum_matches_osum(r: Seq<i128>, ws: Seq<i128>, mpw: int, t: int, k: int)
    requires
        0 <= k <= r.len(),
        k <= ws.len(),
        forall|i: int| 0 <= i < k ==> r[i] == norm_at(ws[i] as int, mpw, t),
    ensures
        vsum(r.take(k)) == osum(ws, mpw, t, k),
    decreases k,
{
    if k == 0 {
        assert(r.take(0).len() == 0);
    } else {
        lemma_vsum_matches_osum(r, ws, mpw, t, k - 1);
        assert(r.take(k).drop_last() =~= r.take(k - 1));
        assert(r.take(k).last() == r[k - 1]);
    }
}

/// Normalizes a weight list under `conv`: qualifying weights are
/// divided by their total so the result sums to one unit (`SCALE`),
/// non-qualifying weights become zero; when the qualifying total is at
/// most `epsilon`, every entry is zero instead.
pub fn normalize_weights(weights: &Vec<i128>, conv: TuningConventions) -> (r: Vec<i128>)
    requires
        conv.wf(),
        weights@.len() <= MAX_SAMPLES,
        forall|i: int| 0 <= i < weights@.len() ==> -WEIGHT_MAX <= #[trigger] weights@[i] <= WEIGHT_MAX,
    ensures
        r@.len() == weights@.len(),
        forall|i: int| 0 <= i < r@.len() ==> r@[i] == (if tqsum(weights@, conv) > conv.epsilon {
            norm_at(weights@[i] as int, conv.min_positive_weight as int, tqsum(weights@, conv))
        } else {
            0
        }),
        forall|i: int| 0 <= i < r@.len() ==> 0 <= #[trigger] r@[i] <= SCALE,
        tqsum(weights@, conv) > conv.epsilon ==> SCALE - weights@.len() < vsum(r@) <= SCALE,
        (forall|i: int| 0 <= i < weights@.len() ==> weights@[i] <= conv.min_positive_weight)
            ==> (forall|i: int| 0 <= i < r@.len() ==> r@[i] == 0),
    {
    let ghost mpw: int = conv.min_positive_weight as int;
    let n: usize = weights.len();
    let mut total: i128 = 0;
    let mut i: usize = 0;
    while i < n
        invariant
            n == weights@.len(),
            n <= MAX_SAMPLES,
            i <= n,
            forall|j: int| 0 <= j < n ==> -WEIGHT_MAX <= #[trigger] weights@[j] <= WEIGHT_MAX,
            total == qsum(weights@, mpw, i as int),
            0 <= total <= i * WEIGHT_MAX,
            conv.wf(),
            mpw == conv.min_positive_weight as int,
        decreases n - i,
    {
        let w = weights[i];
        if w > conv.min_positive_weight {
            total = total + w;
        }
        i = i + 1;
    }
    assert(total == tqsum(weights@, conv));
    if total <= conv.epsilon {
        let mut out: Vec<i128> = Vec::new();
        let mut j: usize = 0;
        while j < n
            invariant
                j <= n,
                out@.len() == j,
                forall|p: int| 0 <= p < j ==> out@[p] == 0,
            decreases n - j,
        {
            out.push(0);
            j = j + 1;
        }
        out
    } else {
        let mut out: Vec<i128> = Vec::new();
        let mut j: usize = 0;
        while j < n
            invariant
                n == weights@.len(),
                n <= MAX_SAMPLES,
                j <= n,
                forall|p: int| 0 <= p < n ==> -WEIGHT_MAX <= #[trigger] weights@[p] <= WEIGHT_MAX,
                total == tqsum(weights@, conv),
                total > conv.epsilon >= 0,
                out@.len() == j,
                forall|p: int| 0 <= p < j ==> out@[p] == norm_at(weights@[p] as int, mpw, total as int),
                forall|p: int| 0 <= p < j ==> 0 <= #[trigger] out@[p] <= SCALE,
                conv.wf(),
                mpw == conv.min_positive_weight as int,
            decreases n - j,
    {
            let w = weights[j];
            if w > conv.min_positive_weight {
                proof {
                    lemma_qsum_ge_elem(weights@, mpw, n as int, j as int);
                }
                let q = div_trunc(w * SCALE, total);
                proof {
                    let s = SCALE as int;
                    let wi = w as int;
                    let t = total as int;
                    assert(wi * s >= 0) by (nonlinear_arith)
                        requires
                            wi > mpw >= 0,
                            s > 0,
                    ;
                    vstd::arithmetic::div_mod::lemma_div_pos_is_pos(wi * s, t);
                    assert(wi * s <= t * s) by (nonlinear_arith)
                        requires
                            0 <= wi <= t,
                            s > 0,
                    ;
                    vstd::arithmetic::div_mod::lemma_div_is_ordered(wi * s, t * s, t);
                    vstd::arithmetic::div_mod::lemma_div_multiples_vanish(s, t);
                }
                out.push(q);
            } else {
                out.push(0);
            }
            j = j + 1;
        }
        proof {
            let t = total as int;
            let nn = n as int;
            lemma_osum_bounds(weights@, mpw, t, nn);
            lemma_vsum_matches_osum(out@, weights@, mpw, t, nn);
            assert(out@.take(nn) =~= out@);
            let v = vsum(out@);
            if nn == 0 {
                assert(qsum(weights@, mpw, 0) == 0);
            }
            assert(v <= SCALE) by (nonlinear_arith)
                requires
                    t * v <= SCALE * t,
                    t > 0,
            ;
            assert(v > SCALE - nn) by (nonlinear_arith)
                requires
                    t * v >= SCALE * t - nn * (t - 1),
                    t > 0,
                    nn >= 1,
            ;
            if forall|p: int| 0 <= p < n ==> weights@[p] <= conv.min_positive_weight {
                lemma_qsum_zero(weights@, mpw, nn);
                assert(false);
            }
        }
        out
    }
}

} // verus!
