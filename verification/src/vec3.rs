//! Three-component vector algebra over fixed-point scalars.
//!
//! The mathematical model of a vector is `V3`, a triple of unbounded
//! integers; every operation's contract states its result exactly over that
//! model, including the rounding of fixed-point products and quotients.

use vstd::prelude::*;
use crate::fixed::{
    fx_div, fx_mul, fx_sqrt, iabs, tdiv, div_fx, mul_fx, sqrt_fx,
    lemma_fx_mul_bound, lemma_sqrt_floor_bounds, lemma_tdiv_bound, lemma_tdiv_shrinks,
    FX_BOUND, FX_ONE, FX_SQRT_MAX,
};
use crate::rng::Sampler;

verus! {

/// Cap on the coordinates of scene geometry and traced rays (2^24 raw,
/// 256 world units): inside it, every intermediate of the intersection
/// arithmetic stays within the ranges the fixed-point routines admit.
pub const VEC_LIMIT: i64 = 16777216;

/// Threshold under which a component counts as zero. One raw unit is the
/// smallest representable magnitude, so `near_zero` means exactly zero.
pub const NEAR_ZERO_EPS: i64 = 1;

/// The mathematical value of a vector: its raw components as unbounded
/// integers.
pub struct V3 {
    pub x: int,
    pub y: int,
    pub z: int,
}

pub open spec fn bounded3(a: V3, m: int) -> bool {
    &&& iabs(a.x) <= m
    &&& iabs(a.y) <= m
    &&& iabs(a.z) <= m
}

pub open spec fn vadd(a: V3, b: V3) -> V3 {
    V3 { x: a.x + b.x, y: a.y + b.y, z: a.z + b.z }
}

pub open spec fn vsub(a: V3, b: V3) -> V3 {
    V3 { x: a.x - b.x, y: a.y - b.y, z: a.z - b.z }
}

pub open spec fn vscale(a: V3, s: int) -> V3 {
    V3 { x: fx_mul(a.x, s), y: fx_mul(a.y, s), z: fx_mul(a.z, s) }
}

pub open spec fn vdivs(a: V3, s: int) -> V3 {
    V3 { x: fx_div(a.x, s), y: fx_div(a.y, s), z: fx_div(a.z, s) }
}

/// The fixed-point dot product: the exact product sum, scaled down with
/// truncation.
pub open spec fn vdot(a: V3, b: V3) -> int {
    tdiv(a.x * b.x + a.y * b.y + a.z * b.z, FX_ONE as int)
}

pub open spec fn vneg(a: V3) -> V3 {
    V3 { x: -a.x, y: -a.y, z: -a.z }
}

pub open spec fn vcross(a: V3, b: V3) -> V3 {
    V3 {
        x: fx_mul(a.y, b.z) - fx_mul(a.z, b.y),
        y: fx_mul(a.z, b.x) - fx_mul(a.x, b.z),
        z: fx_mul(a.x, b.y) - fx_mul(a.y, b.x),
    }
}

pub open spec fn near_zero3(a: V3) -> bool {
    &&& iabs(a.x) < NEAR_ZERO_EPS
    &&& iabs(a.y) < NEAR_ZERO_EPS
    &&& iabs(a.z) < NEAR_ZERO_EPS
}

/// The fixed-point normalization of `a`: `a` divided by the fixed-point
/// length of `a`.
pub open spec fn unit3(a: V3) -> V3 {
    vdivs(a, fx_sqrt(vdot(a, a)))
}

/// `u` is the normalization of some point strictly inside the unit ball
/// and strictly outside the origin: the shape of every scatter sample.
pub open spec fn unit_sample(u: V3) -> bool {
    exists|p: V3|
        {
            &&& 1 <= vdot(p, p) < FX_ONE
            &&& bounded3(p, FX_ONE as int)
            &&& u == unit3(p)
        }
}

/// Each componentwise product of the dot-product sum fits comfortably in
/// 128 bits (2^76), which keeps the sum and the scaled result in range.
pub open spec fn dot_fits(a: V3, b: V3) -> bool {
    &&& iabs(a.x * b.x) <= 75557863725914323419136
    &&& iabs(a.y * b.y) <= 75557863725914323419136
    &&& iabs(a.z * b.z) <= 75557863725914323419136
}

/// Componentwise bounds whose product stays within 2^76 make a dot product
/// admissible.
pub proof fn lemma_dot_fits(a: V3, b: V3, m: int, n: int)
    requires
        bounded3(a, m),
        bounded3(b, n),
        0 <= m,
        0 <= n,
        m * n <= 75557863725914323419136,
    ensures
        dot_fits(a, b),
{
    lemma_product_bound(a.x, b.x, m, n);
    lemma_product_bound(a.y, b.y, m, n);
    lemma_product_bound(a.z, b.z, m, n);
}

/// Componentwise magnitude bounds carry over to the product.
pub proof fn lemma_product_bound(x: int, y: int, m: int, n: int)
    requires
        iabs(x) <= m,
        iabs(y) <= n,
    ensures
        iabs(x * y) <= m * n,
{
    assert(-(m * n) <= x * y <= m * n && m * n >= 0) by (nonlinear_arith)
        requires
            -m <= x <= m,
            -n <= y <= n,
    ;
}

/// A dot product of a vector with itself is non-negative.
pub proof fn lemma_vdot_self_nonneg(a: V3)
    ensures
        vdot(a, a) >= 0,
{
    assert(a.x * a.x + a.y * a.y + a.z * a.z >= 0) by (nonlinear_arith);
    lemma_tdiv_shrinks(a.x * a.x + a.y * a.y + a.z * a.z, FX_ONE as int);
}

/// An upper bound on the magnitude of a dot product, from componentwise
/// bounds on the operands.
pub proof fn lemma_vdot_bound(a: V3, b: V3, m: int, n: int)
    requires
        bounded3(a, m),
        bounded3(b, n),
        0 <= m,
        0 <= n,
    ensures
        iabs(vdot(a, b)) <= 3 * m * n / (FX_ONE as int),
{
    lemma_product_bound(a.x, b.x, m, n);
    lemma_product_bound(a.y, b.y, m, n);
    lemma_product_bound(a.z, b.z, m, n);
    assert(3 * m * n == (m * n) + (m * n) + (m * n)) by (nonlinear_arith);
    lemma_tdiv_bound(a.x * b.x + a.y * b.y + a.z * b.z, FX_ONE as int, 3 * m * n);
}

/// An immutable triple of fixed-point coordinates.
#[derive(Clone, Copy, Debug)]
pub struct Vec3 {
    pub x: i64,
    pub y: i64,
    pub z: i64,
}

impl View for Vec3 {
    type V = V3;

    open spec fn view(&self) -> V3 {
        V3 { x: self.x as int, y: self.y as int, z: self.z as int }
    }
}

impl Vec3 {
    pub fn new(x: i64, y: i64, z: i64) -> (r: Vec3)
        ensures
            r@.x == x as int,
            r@.y == y as int,
            r@.z == z as int,
    {
        Vec3 { x, y, z }
    }

    pub fn zero() -> (r: Vec3)
        ensures
            r@.x == 0 && r@.y == 0 && r@.z == 0,
    {
        Vec3 { x: 0, y: 0, z: 0 }
    }

    pub fn x(&self) -> (r: i64)
        ensures
            r as int == self@.x,
    {
        self.x
    }

    pub fn y(&self) -> (r: i64)
        ensures
            r as int == self@.y,
    {
        self.y
    }

    pub fn z(&self) -> (r: i64)
        ensures
            r as int == self@.z,
    {
        self.z
    }

    /// Whether every coordinate has magnitude at most `m`.
    pub fn within(&self, m: i64) -> (r: bool)
        requires
            m >= 0,
        ensures
            r == bounded3(self@, m as int),
    {
        -m <= self.x && self.x <= m && -m <= self.y && self.y <= m && -m <= self.z && self.z
            <= m
    }

    pub fn add(self, rhs: Vec3) -> (r: Vec3)
        requires
            i64::MIN <= self@.x + rhs@.x <= i64::MAX,
            i64::MIN <= self@.y + rhs@.y <= i64::MAX,
            i64::MIN <= self@.z + rhs@.z <= i64::MAX,
        ensures
            r@ == vadd(self@, rhs@),
    {
        Vec3 { x: self.x + rhs.x, y: self.y + rhs.y, z: self.z + rhs.z }
    }

    pub fn sub(self, rhs: Vec3) -> (r: Vec3)
        requires
            i64::MIN <= self@.x - rhs@.x <= i64::MAX,
            i64::MIN <= self@.y - rhs@.y <= i64::MAX,
            i64::MIN <= self@.z - rhs@.z <= i64::MAX,
        ensures
            r@ == vsub(self@, rhs@),
    {
        Vec3 { x: self.x - rhs.x, y: self.y - rhs.y, z: self.z - rhs.z }
    }

    /// The opposite vector.
    pub fn neg(self) -> (r: Vec3)
        requires
            -i64::MAX <= self@.x,
            -i64::MAX <= self@.y,
            -i64::MAX <= self@.z,
        ensures
            r@ == vneg(self@),
    {
        Vec3 { x: -self.x, y: -self.y, z: -self.z }
    }

    /// Scale by a fixed-point scalar.
    pub fn mul(self, s: i64) -> (r: Vec3)
        requires
            bounded3(self@, FX_BOUND as int),
            -FX_BOUND <= s <= FX_BOUND,
        ensures
            r@ == vscale(self@, s as int),
    {
        Vec3 { x: mul_fx(self.x, s), y: mul_fx(self.y, s), z: mul_fx(self.z, s) }
    }

    /// Divide by a fixed-point scalar.
    pub fn div(self, s: i64) -> (r: Vec3)
        requires
            s != 0,
            bounded3(self@, FX_BOUND as int),
        ensures
            r@ == vdivs(self@, s as int),
    {
        Vec3 { x: div_fx(self.x, s), y: div_fx(self.y, s), z: div_fx(self.z, s) }
    }

    pub fn dot(&self, rhs: &Vec3) -> (r: i64)
        requires
            dot_fits(self@, rhs@),
        ensures
            r as int == vdot(self@, rhs@),
    {
        let px: i128 = (self.x as i128) * (rhs.x as i128);
        let py: i128 = (self.y as i128) * (rhs.y as i128);
        let pz: i128 = (self.z as i128) * (rhs.z as i128);
        let q = crate::fixed::tdiv128(px + py + pz, FX_ONE as i128);
        proof {
            lemma_tdiv_bound(
                px as int + py as int + pz as int,
                FX_ONE as int,
                3 * 75557863725914323419136int,
            );
        }
        q as i64
    }

    pub fn squared_length(&self) -> (r: i64)
        requires
            dot_fits(self@, self@),
        ensures
            r as int == vdot(self@, self@),
            0 <= r,
    {
        proof {
            lemma_vdot_self_nonneg(self@);
        }
        self.dot(self)
    }

    /// The fixed-point length: the square root of the squared length.
    pub fn length(&self) -> (r: i64)
        requires
            dot_fits(self@, self@),
            vdot(self@, self@) <= FX_SQRT_MAX,
        ensures
            r as int == fx_sqrt(vdot(self@, self@)),
            0 <= r,
    {
        let sq = self.squared_length();
        sqrt_fx(sq)
    }

    /// Normalize. A vector of fixed-point squared length zero cannot be
    /// normalized, so the precondition asks for at least one raw unit.
    pub fn unit_vec(self) -> (r: Vec3)
        requires
            dot_fits(self@, self@),
            1 <= vdot(self@, self@) <= FX_SQRT_MAX,
            bounded3(self@, FX_BOUND as int),
        ensures
            r@ == unit3(self@),
    {
        let len = self.length();
        proof {
            lemma_sqrt_floor_bounds(vdot(self@, self@) * (FX_ONE as int));
            assert(len >= 1) by (nonlinear_arith)
                requires
                    (len as int) * (len as int) <= vdot(self@, self@) * (FX_ONE as int),
                    vdot(self@, self@) * (FX_ONE as int) < (len as int + 1) * (len as int + 1),
                    vdot(self@, self@) >= 1,
                    len >= 0,
            ;
        }
        self.div(len)
    }

    /// Whether every component is below the near-zero threshold in
    /// magnitude.
    pub fn near_zero(&self) -> (r: bool)
        ensures
            r == near_zero3(self@),
    {
        -NEAR_ZERO_EPS < self.x && self.x < NEAR_ZERO_EPS && -NEAR_ZERO_EPS < self.y && self.y
            < NEAR_ZERO_EPS && -NEAR_ZERO_EPS < self.z && self.z < NEAR_ZERO_EPS
    }

    pub fn cross(self, rhs: &Vec3) -> (r: Vec3)
        requires
            bounded3(self@, 274877906944),
            bounded3(rhs@, 274877906944),
        ensures
            r@ == vcross(self@, rhs@),
    {
        proof {
            lemma_fx_mul_bound(self@.y, rhs@.z, 274877906944, 274877906944);
            lemma_fx_mul_bound(self@.z, rhs@.y, 274877906944, 274877906944);
            lemma_fx_mul_bound(self@.z, rhs@.x, 274877906944, 274877906944);
            lemma_fx_mul_bound(self@.x, rhs@.z, 274877906944, 274877906944);
            lemma_fx_mul_bound(self@.x, rhs@.y, 274877906944, 274877906944);
            lemma_fx_mul_bound(self@.y, rhs@.x, 274877906944, 274877906944);
        }
        Vec3 {
            x: mul_fx(self.y, rhs.z) - mul_fx(self.z, rhs.y),
            y: mul_fx(self.z, rhs.x) - mul_fx(self.x, rhs.z),
            z: mul_fx(self.x, rhs.y) - mul_fx(self.y, rhs.x),
        }
    }

    /// Reinterpret the coordinates as color channels, applying the
    /// highlight-rescaling policy as the color constructor does.
    pub fn to_color(&self) -> (c: crate::color::Color)
        requires
            0 <= self@.x <= FX_BOUND,
            0 <= self@.y <= FX_BOUND,
            0 <= self@.z <= FX_BOUND,
        ensures
            c@ == crate::color::correct_spec(
                (crate::color::C3 { r: self@.x, g: self@.y, b: self@.z }),
            ),
    {
        crate::color::Color::new(self.x, self.y, self.z)
    }

    /// A vector with uniform random coordinates in `[0, 1)`.
    pub fn random(rng: &mut Sampler) -> (r: Vec3)
        ensures
            0 <= r@.x < FX_ONE,
            0 <= r@.y < FX_ONE,
            0 <= r@.z < FX_ONE,
    {
        Vec3 {
            x: rng.next_in_range(0, FX_ONE),
            y: rng.next_in_range(0, FX_ONE),
            z: rng.next_in_range(0, FX_ONE),
        }
    }

    /// A vector with uniform random coordinates in `[min, max)`.
    pub fn limited_random(rng: &mut Sampler, min: i64, max: i64) -> (r: Vec3)
        requires
            min < max,
        ensures
            min <= r@.x < max,
            min <= r@.y < max,
            min <= r@.z < max,
    {
        Vec3 {
            x: rng.next_in_range(min, max),
            y: rng.next_in_range(min, max),
            z: rng.next_in_range(min, max),
        }
    }

    /// Rejection-sample a point inside the unit ball: draw from
    /// `[-1, 1)^3` until the squared length falls below one. Draws whose
    /// fixed-point squared length rounds to zero are rejected too, since
    /// they cannot be normalized; after a run of failed draws (vanishingly
    /// unlikely) a fixed interior point is returned so that the routine
    /// terminates.
    pub fn random_in_unit_sphere(rng: &mut Sampler) -> (r: Vec3)
        ensures
            1 <= vdot(r@, r@) < FX_ONE,
            bounded3(r@, FX_ONE as int),
    {
        let mut tries: u64 = 0;
        while tries < 64
            decreases 64 - tries,
        {
            let p = Vec3::limited_random(rng, -FX_ONE, FX_ONE);
            proof {
                lemma_dot_fits(p@, p@, FX_ONE as int, FX_ONE as int);
            }
            let sq = p.squared_length();
            if 1 <= sq && sq < FX_ONE {
                return p;
            }
            tries = tries + 1;
        }
        let fallback = Vec3 { x: 32768, y: 0, z: 0 };
        proof {
            let f = fallback@;
            assert(f.x == 32768 && f.y == 0 && f.z == 0);
            assert(f.x * f.x + f.y * f.y + f.z * f.z == 1073741824) by (nonlinear_arith)
                requires
                    f.x == 32768 && f.y == 0 && f.z == 0,
            ;
            assert(1073741824int / 65536int == 16384);
            assert(tdiv(1073741824, 65536) == 16384);
            assert(vdot(f, f) == 16384);
        }
        fallback
    }

    /// A random direction of fixed-point length close to one: a point from
    /// the unit ball, normalized.
    pub fn random_unit_vector(rng: &mut Sampler) -> (r: Vec3)
        ensures
            unit_sample(r@),
            bounded3(r@, 16777216),
    {
        let p = Vec3::random_in_unit_sphere(rng);
        proof {
            lemma_dot_fits(p@, p@, FX_ONE as int, FX_ONE as int);
        }
        let r = p.unit_vec();
        proof {
            let sq = vdot(p@, p@);
            let len = fx_sqrt(sq);
            lemma_sqrt_floor_bounds(sq * (FX_ONE as int));
            assert(len >= 256) by (nonlinear_arith)
                requires
                    len >= 0,
                    sq * (FX_ONE as int) < (len + 1) * (len + 1),
                    sq >= 1,
            ;
            lemma_unit_component_bound(p@.x, len);
            lemma_unit_component_bound(p@.y, len);
            lemma_unit_component_bound(p@.z, len);
            assert(1 <= vdot(p@, p@) < FX_ONE && bounded3(p@, FX_ONE as int) && r@ == unit3(p@));
        }
        r
    }
}

/// Dividing a sub-unit coordinate by a length of at least 1/256 keeps the
/// quotient within 2^24.
proof fn lemma_unit_component_bound(c: int, len: int)
    requires
        iabs(c) <= FX_ONE,
        len >= 256,
    ensures
        iabs(fx_div(c, len)) <= 16777216,
{
    assert(iabs(c * (FX_ONE as int)) <= 4294967296);
    lemma_tdiv_bound(c * (FX_ONE as int), len, 4294967296);
    vstd::arithmetic::div_mod::lemma_div_is_ordered_by_denominator(4294967296, 256, len);
}

} // verus!
