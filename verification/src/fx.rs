//! Signed fixed-point scalars: `i128` raw values with `SCALE` raw units
//! to one physical unit. Multiplication and division truncate toward
//! zero, as the corresponding hardware operations do.

use vstd::prelude::*;

verus! {

/// Raw units per physical unit: one raw unit is `1e-6`.
pub const SCALE: i128 = 1_000_000;

/// Largest product `a * b` that the fixed-point multiplier accepts;
/// comfortably inside the `i128` range.
pub const FX_PROD_MAX: i128 = 10_000_000_000_000_000_000_000_000_000_000_000_000;

/// Largest magnitude of a fixed-point product whose factors satisfy
/// the multiplier's bound: `FX_PROD_MAX / SCALE`.
pub const FX_NUM_MAX: i128 = 10_000_000_000_000_000_000_000_000_000_000;

/// Truncating (toward zero) division for `b > 0`.
pub open spec fn divt(a: int, b: int) -> int {
    if a >= 0 {
        a / b
    } else {
        -((-a) / b)
    }
}

/// Fixed-point product: `a * b` rescaled, truncated toward zero.
pub open spec fn fxm(a: int, b: int) -> int {
    divt(a * b, SCALE as int)
}

/// Magnitude of an `i128`, exact even for `i128::MIN`.
pub fn abs_u128(a: i128) -> (r: u128)
    ensures
        a >= 0 ==> r == a,
        a < 0 ==> r == -(a as int),
{
    if a >= 0 {
        a as u128
    } else {
        ((-1 - a) as u128) + 1
    }
}

/// Truncating division of a signed value by a positive one.
pub fn div_trunc(a: i128, b: i128) -> (r: i128)
    requires
        b > 0,
        -FX_PROD_MAX <= a <= FX_PROD_MAX,
    ensures
        r == divt(a as int, b as int),
        -FX_PROD_MAX <= r <= FX_PROD_MAX,
{
    let aa: u128 = abs_u128(a);
    let bb: u128 = b as u128;
    let q: u128 = aa / bb;
    proof {
        assert(q <= aa) by {
            vstd::arithmetic::div_mod::lemma_div_is_ordered_by_denominator(
                aa as int, 1, bb as int);
        }
    }
    if a >= 0 {
        q as i128
    } else {
        -(q as i128)
    }
}

/// Fixed-point multiply, exact per `fxm`.
pub fn fx_mul(a: i128, b: i128) -> (r: i128)
    requires
        -FX_PROD_MAX <= a as int * b as int <= FX_PROD_MAX,
    ensures
        r == fxm(a as int, b as int),
{
    let aa: u128 = abs_u128(a);
    let bb: u128 = abs_u128(b);
    proof {
        assert(aa as int * bb as int == (if a as int * b as int >= 0 {
            a as int * b as int
        } else {
            -(a as int * b as int)
        })) by (nonlinear_arith)
            requires
                aa as int == (if a as int >= 0 { a as int } else { -(a as int) }),
                bb as int == (if b as int >= 0 { b as int } else { -(b as int) }),
        ;
    }
    let p: u128 = aa * bb;
    let q: u128 = p / (SCALE as u128);
    proof {
        assert(q <= p) by {
            vstd::arithmetic::div_mod::lemma_div_is_ordered_by_denominator(
                p as int, 1, SCALE as int);
        }
        assert(((a as int) < 0 && (b as int) > 0) ==> (a as int) * (b as int) < 0)
            by (nonlinear_arith);
        assert(((a as int) > 0 && (b as int) < 0) ==> (a as int) * (b as int) < 0)
            by (nonlinear_arith);
        assert(((a as int) < 0 && (b as int) < 0) ==> (a as int) * (b as int) > 0)
            by (nonlinear_arith);
    }
    if (a < 0) != (b < 0) {
        -(q as i128)
    } else {
        q as i128
    }
}

/// The larger of two scalars.
pub fn max_i(a: i128, b: i128) -> (r: i128)
    ensures
        r == (if a as int >= b as int { a as int } else { b as int }),
{
    if a >= b {
        a
    } else {
        b
    }
}

/// The smaller of two scalars.
pub fn min_i(a: i128, b: i128) -> (r: i128)
    ensures
        r == (if a as int <= b as int { a as int } else { b as int }),
{
    if a <= b {
        a
    } else {
        b
    }
}

/// Mathematical clamp of `x` to `[lo, hi]`.
pub open spec fn clamp_spec(x: int, lo: int, hi: int) -> int {
    if x < lo {
        lo
    } else if x > hi {
        hi
    } else {
        x
    }
}

/// Clamp `x` to `[lo, hi]`.
pub fn clamp_i(x: i128, lo: i128, hi: i128) -> (r: i128)
    requires
        lo <= hi,
    ensures
        r == clamp_spec(x as int, lo as int, hi as int),
{
    if x < lo {
        lo
    } else if x > hi {
        hi
    } else {
        x
    }
}

/// Bounds the magnitude of a product from bounds on the factors.
pub proof fn lemma_mul_le(a: int, qa: int, b: int, qb: int)
    requires
        0 <= qa,
        0 <= qb,
        -qa <= a <= qa,
        -qb <= b <= qb,
    ensures
        -(qa * qb) <= a * b <= qa * qb,
{
    assert(-(qa * qb) <= a * b <= qa * qb) by (nonlinear_arith)
        requires
            0 <= qa,
            0 <= qb,
            -qa <= a <= qa,
            -qb <= b <= qb,
    ;
}

/// Bounds a fixed-point product: if `|a * b| <= q * SCALE` then
/// `|fxm(a, b)| <= q`.
pub proof fn lemma_fxm_le(a: int, b: int, q: int)
    requires
        0 <= q,
        -(q * (SCALE as int)) <= a * b <= q * (SCALE as int),
    ensures
        -q <= fxm(a, b) <= q,
{
    let s = SCALE as int;
    let p = a * b;
    if p >= 0 {
        vstd::arithmetic::div_mod::lemma_div_is_ordered(p, q * s, s);
        vstd::arithmetic::div_mod::lemma_div_by_multiple(q, s);
        vstd::arithmetic::div_mod::lemma_div_pos_is_pos(p, s);
    } else {
        vstd::arithmetic::div_mod::lemma_div_is_ordered(-p, q * s, s);
        vstd::arithmetic::div_mod::lemma_div_by_multiple(q, s);
        vstd::arithmetic::div_mod::lemma_div_pos_is_pos(-p, s);
    }
}

/// Integer square root: the largest `r` with `r * r <= n`.
pub open spec fn sqrt_floor(n: int) -> int
    decreases n,
{
    if n <= 0 {
        0
    } else {
        let p = sqrt_floor(n - 1);
        if (p + 1) * (p + 1) <= n {
            p + 1
        } else {
            p
        }
    }
}

pub proof fn lemma_sqrt_floor(n: int)
    requires
        n >= 0,
    ensures
        sqrt_floor(n) >= 0,
        sqrt_floor(n) * sqrt_floor(n) <= n,
        n < (sqrt_floor(n) + 1) * (sqrt_floor(n) + 1),
    decreases n,
{
    if n == 0 {
        assert(sqrt_floor(0) == 0);
    } else {
        lemma_sqrt_floor(n - 1);
        let p = sqrt_floor(n - 1);
        if (p + 1) * (p + 1) <= n {
            assert(n - 1 < (p + 1) * (p + 1));
            assert(n == (p + 1) * (p + 1));
            assert((p + 1) * (p + 1) < (p + 2) * (p + 2)) by (nonlinear_arith)
                requires
                    p >= 0,
            ;
        }
    }
}

/// Any `r >= 0` with `r * r <= n < (r + 1) * (r + 1)` is `sqrt_floor(n)`.
pub proof fn lemma_sqrt_floor_unique(n: int, r: int)
    requires
        n >= 0,
        r >= 0,
        r * r <= n,
        n < (r + 1) * (r + 1),
    ensures
        r == sqrt_floor(n),
{
    lemma_sqrt_floor(n);
    let s = sqrt_floor(n);
    if r < s {
        assert((r + 1) * (r + 1) <= s * s) by (nonlinear_arith)
            requires
                0 <= r + 1 <= s,
        ;
    }
    if s < r {
        assert((s + 1) * (s + 1) <= r * r) by (nonlinear_arith)
            requires
                0 <= s + 1 <= r,
        ;
    }
}

/// Integer square root of a `u128`, by bisection.
pub fn isqrt_u(n: u128) -> (r: u128)
    ensures
        r < 0x1_0000_0000_0000_0000,
        r as int * r as int <= n as int,
        (n as int) < (r as int + 1) * (r as int + 1),
        r == sqrt_floor(n as int),
{
    let mut lo: u128 = 0;
    let mut hi: u128 = 0x1_0000_0000_0000_0000;
    proof {
        assert(hi as int * hi as int > u128::MAX as int);
    }
    while lo + 1 < hi
        invariant
            lo < hi <= 0x1_0000_0000_0000_0000,
            lo as int * lo as int <= n as int,
            (n as int) < (hi as int) * (hi as int),
        decreases hi - lo,
    {
        let mid: u128 = lo + (hi - lo) / 2;
        proof {
            lemma_mul_le(mid as int, 0xffff_ffff_ffff_ffff,
                mid as int, 0xffff_ffff_ffff_ffff);
        }
        if mid * mid <= n {
            lo = mid;
        } else {
            hi = mid;
        }
    }
    proof {
        lemma_sqrt_floor_unique(n as int, lo as int);
    }
    lo
}

/// Bounds a truncated quotient: if `|a| <= q * b` then `|divt(a, b)| <= q`.
pub proof fn lemma_divt_le(a: int, b: int, q: int)
    requires
        b >= 1,
        0 <= q,
        -(q * b) <= a <= q * b,
    ensures
        -q <= divt(a, b) <= q,
{
    if a >= 0 {
        vstd::arithmetic::div_mod::lemma_div_is_ordered(a, q * b, b);
        vstd::arithmetic::div_mod::lemma_div_by_multiple(q, b);
        vstd::arithmetic::div_mod::lemma_div_pos_is_pos(a, b);
    } else {
        vstd::arithmetic::div_mod::lemma_div_is_ordered(-a, q * b, b);
        vstd::arithmetic::div_mod::lemma_div_by_multiple(q, b);
        vstd::arithmetic::div_mod::lemma_div_pos_is_pos(-a, b);
    }
}

/// A truncated quotient scaled back never exceeds the numerator:
/// `|divt(a, b)| * b <= |a|`.
pub proof fn lemma_divt_mul_le(a: int, b: int)
    requires
        b > 0,
    ensures
        a >= 0 ==> divt(a, b) * b <= a && divt(a, b) >= 0,
        a < 0 ==> divt(a, b) * b >= a && divt(a, b) <= 0,
{
    if a >= 0 {
        let d = a / b;
        vstd::arithmetic::div_mod::lemma_fundamental_div_mod(a, b);
        vstd::arithmetic::div_mod::lemma_mod_bound(a, b);
        vstd::arithmetic::div_mod::lemma_div_pos_is_pos(a, b);
        assert(d * b == b * d) by (nonlinear_arith);
    } else {
        let d = (-a) / b;
        vstd::arithmetic::div_mod::lemma_fundamental_div_mod(-a, b);
        vstd::arithmetic::div_mod::lemma_mod_bound(-a, b);
        vstd::arithmetic::div_mod::lemma_div_pos_is_pos(-a, b);
        assert((-d) * b == -(b * d)) by (nonlinear_arith);
    }
}

} // verus!
