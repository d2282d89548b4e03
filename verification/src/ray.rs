//! Rays: an origin and a direction, with evaluation at a parameter.

use vstd::prelude::*;
use crate::fixed::{fx_mul, FX_BOUND};
use crate::vec3::{bounded3, vadd, vscale, Vec3, V3};

verus! {

/// A ray `origin + t * direction`. The direction need not be normalized:
/// everything downstream works with its raw components.
#[derive(Clone, Copy, Debug)]
pub struct Ray {
    pub origin: Vec3,
    pub direction: Vec3,
}

/// The point the ray reaches at parameter `t` (a fixed-point scalar).
pub open spec fn ray_at(r: Ray, t: int) -> V3 {
    vadd(r.origin@, vscale(r.direction@, t))
}

impl Ray {
    pub fn new(origin: Vec3, direction: Vec3) -> (r: Ray)
        ensures
            r.origin@ == origin@,
            r.direction@ == direction@,
    {
        Ray { origin, direction }
    }

    /// Evaluate the ray at parameter `t`.
    pub fn at(&self, t: i64) -> (r: Vec3)
        requires
            bounded3(self.direction@, FX_BOUND as int),
            -FX_BOUND <= t <= FX_BOUND,
            i64::MIN <= self.origin@.x + fx_mul(self.direction@.x, t as int) <= i64::MAX,
            i64::MIN <= self.origin@.y + fx_mul(self.direction@.y, t as int) <= i64::MAX,
            i64::MIN <= self.origin@.z + fx_mul(self.direction@.z, t as int) <= i64::MAX,
        ensures
            r@ == ray_at(*self, t as int),
    {
        self.origin.add(self.direction.mul(t))
    }

    pub fn direction(&self) -> (r: &Vec3)
        ensures
            r@ == self.direction@,
    {
        &self.direction
    }

    pub fn origin(&self) -> (r: &Vec3)
        ensures
            r@ == self.origin@,
    {
        &self.origin
    }
}

} // verus!
