//! Three-component vectors over fixed-point scalars, with the
//! mathematical model `V3` (unbounded integers) used by all contracts.

use vstd::prelude::*;
use crate::fx::{
    fxm, sqrt_floor, fx_mul, abs_u128, isqrt_u, lemma_mul_le, lemma_fxm_le,
    lemma_sqrt_floor_unique, FX_PROD_MAX, FX_NUM_MAX,
};

verus! {

/// Largest component magnitude that `length` accepts: keeps the sum of
/// squares inside `u128`.
pub const LEN_COMP_MAX: i128 = 1_000_000_000_000_000_000;

/// Mathematical model of a vector: unbounded integer components.
pub ghost struct V3 {
    pub x: int,
    pub y: int,
    pub z: int,
}

impl V3 {
    /// Component-wise sum.
    pub open spec fn plus(self, o: V3) -> V3 {
        V3 { x: self.x + o.x, y: self.y + o.y, z: self.z + o.z }
    }

    /// Component-wise difference.
    pub open spec fn minus(self, o: V3) -> V3 {
        V3 { x: self.x - o.x, y: self.y - o.y, z: self.z - o.z }
    }

    /// Uniform fixed-point scale.
    pub open spec fn scale(self, k: int) -> V3 {
        V3 { x: fxm(self.x, k), y: fxm(self.y, k), z: fxm(self.z, k) }
    }

    /// Fixed-point cross product.
    pub open spec fn crossf(self, o: V3) -> V3 {
        V3 {
            x: fxm(self.y, o.z) - fxm(self.z, o.y),
            y: fxm(self.z, o.x) - fxm(self.x, o.z),
            z: fxm(self.x, o.y) - fxm(self.y, o.x),
        }
    }

    /// Sum of squared components (raw units squared).
    pub open spec fn ssq(self) -> int {
        self.x * self.x + self.y * self.y + self.z * self.z
    }

    /// Fixed-point Euclidean length: the integer square root of the
    /// sum of squares, which is the length in raw units.
    pub open spec fn lenf(self) -> int {
        sqrt_floor(self.ssq())
    }
}

/// The zero vector, mathematically.
pub open spec fn v3_zero() -> V3 {
    V3 { x: 0, y: 0, z: 0 }
}

/// A three-component fixed-point vector.
#[derive(Clone, Copy, Debug, PartialEq, Eq, Structural)]
pub struct Vec3 {
    pub x: i128,
    pub y: i128,
    pub z: i128,
}

impl View for Vec3 {
    type V = V3;

    open spec fn view(&self) -> V3 {
        V3 { x: self.x as int, y: self.y as int, z: self.z as int }
    }
}

impl Default for Vec3 {
    /// The zero vector.
    fn default() -> (r: Vec3)
        ensures
            r@ == v3_zero(),
    {
        Vec3 { x: 0, y: 0, z: 0 }
    }
}

impl Vec3 {
    pub fn new(x: i128, y: i128, z: i128) -> (r: Vec3)
        ensures
            r@ == (V3 { x: x as int, y: y as int, z: z as int }),
    {
        Vec3 { x, y, z }
    }

    /// Component-wise addition.
    pub fn add(self, rhs: Vec3) -> (r: Vec3)
        requires
            i128::MIN <= self@.x + rhs@.x <= i128::MAX,
            i128::MIN <= self@.y + rhs@.y <= i128::MAX,
            i128::MIN <= self@.z + rhs@.z <= i128::MAX,
        ensures
            r@ == self@.plus(rhs@),
    {
        Vec3 { x: self.x + rhs.x, y: self.y + rhs.y, z: self.z + rhs.z }
    }

    /// Component-wise subtraction.
    pub fn sub(self, rhs: Vec3) -> (r: Vec3)
        requires
            i128::MIN <= self@.x - rhs@.x <= i128::MAX,
            i128::MIN <= self@.y - rhs@.y <= i128::MAX,
            i128::MIN <= self@.z - rhs@.z <= i128::MAX,
        ensures
            r@ == self@.minus(rhs@),
    {
        Vec3 { x: self.x - rhs.x, y: self.y - rhs.y, z: self.z - rhs.z }
    }

    /// Uniform scale by a fixed-point factor.
    pub fn mul(self, k: i128) -> (r: Vec3)
        requires
            -FX_PROD_MAX <= self@.x * k <= FX_PROD_MAX,
            -FX_PROD_MAX <= self@.y * k <= FX_PROD_MAX,
            -FX_PROD_MAX <= self@.z * k <= FX_PROD_MAX,
        ensures
            r@ == self@.scale(k as int),
    {
        Vec3 { x: fx_mul(self.x, k), y: fx_mul(self.y, k), z: fx_mul(self.z, k) }
    }

    /// Fixed-point cross product.
    pub fn cross(self, rhs: Vec3) -> (r: Vec3)
        requires
            -FX_PROD_MAX <= self@.y * rhs@.z <= FX_PROD_MAX,
            -FX_PROD_MAX <= self@.z * rhs@.y <= FX_PROD_MAX,
            -FX_PROD_MAX <= self@.z * rhs@.x <= FX_PROD_MAX,
            -FX_PROD_MAX <= self@.x * rhs@.z <= FX_PROD_MAX,
            -FX_PROD_MAX <= self@.x * rhs@.y <= FX_PROD_MAX,
            -FX_PROD_MAX <= self@.y * rhs@.x <= FX_PROD_MAX,
        ensures
            r@ == self@.crossf(rhs@),
    {
        proof {
            lemma_fxm_le(self@.y, rhs@.z, FX_NUM_MAX as int);
            lemma_fxm_le(self@.z, rhs@.y, FX_NUM_MAX as int);
            lemma_fxm_le(self@.z, rhs@.x, FX_NUM_MAX as int);
            lemma_fxm_le(self@.x, rhs@.z, FX_NUM_MAX as int);
            lemma_fxm_le(self@.x, rhs@.y, FX_NUM_MAX as int);
            lemma_fxm_le(self@.y, rhs@.x, FX_NUM_MAX as int);
        }
        Vec3 {
            x: fx_mul(self.y, rhs.z) - fx_mul(self.z, rhs.y),
            y: fx_mul(self.z, rhs.x) - fx_mul(self.x, rhs.z),
            z: fx_mul(self.x, rhs.y) - fx_mul(self.y, rhs.x),
        }
    }

    /// Euclidean length in raw units, truncated to an integer.
    pub fn length(self) -> (r: i128)
        requires
            -LEN_COMP_MAX <= self@.x <= LEN_COMP_MAX,
            -LEN_COMP_MAX <= self@.y <= LEN_COMP_MAX,
            -LEN_COMP_MAX <= self@.z <= LEN_COMP_MAX,
        ensures
            r == self@.lenf(),
            0 <= r <= 2 * LEN_COMP_MAX,
    {
        let ax: u128 = abs_u128(self.x);
        let ay: u128 = abs_u128(self.y);
        let az: u128 = abs_u128(self.z);
        proof {
            lemma_mul_le(ax as int, LEN_COMP_MAX as int, ax as int, LEN_COMP_MAX as int);
            lemma_mul_le(ay as int, LEN_COMP_MAX as int, ay as int, LEN_COMP_MAX as int);
            lemma_mul_le(az as int, LEN_COMP_MAX as int, az as int, LEN_COMP_MAX as int);
            assert(ax as int * ax as int == self@.x * self@.x) by (nonlinear_arith)
                requires
                    ax as int == (if self@.x >= 0 { self@.x } else { -self@.x }),
            ;
            assert(ay as int * ay as int == self@.y * self@.y) by (nonlinear_arith)
                requires
                    ay as int == (if self@.y >= 0 { self@.y } else { -self@.y }),
            ;
            assert(az as int * az as int == self@.z * self@.z) by (nonlinear_arith)
                requires
                    az as int == (if self@.z >= 0 { self@.z } else { -self@.z }),
            ;
        }
        let ssq: u128 = ax * ax + ay * ay + az * az;
        let r: u128 = isqrt_u(ssq);
        proof {
            assert(r as int * r as int <= ssq as int);
            assert(r <= 2 * LEN_COMP_MAX) by (nonlinear_arith)
                requires
                    r as int * r as int <= ssq as int,
                    ssq as int <= 3 * (LEN_COMP_MAX as int) * (LEN_COMP_MAX as int),
                    r >= 0,
            ;
            lemma_sqrt_floor_unique(ssq as int, r as int);
        }
        r as i128
    }
}

} // verus!
