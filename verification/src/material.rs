//! The scattering model: what a surface does to a ray that strikes it.
//!
//! A material either scatters the incoming ray — yielding an attenuation
//! color and the outgoing ray — or absorbs it. The diffuse (Lambertian)
//! variant always scatters; the inert variant always absorbs, exercising
//! the absorption side of the contract that future variants may use.

use vstd::prelude::*;
use crate::color::Color;
use crate::hittable::{HitRecord, NORMAL_LIMIT};
use crate::ray::Ray;
use crate::rng::Sampler;
use crate::vec3::{bounded3, near_zero3, unit_sample, vadd, Vec3, V3};

verus! {

/// A material the tracer can carry: a diffuse albedo must be an in-range
/// color, so attenuation never brightens.
pub open spec fn material_wf(m: Material) -> bool {
    match m {
        Material::Lambertian(l) => crate::color::in_range3(l.albedo@),
        Material::Inert => true,
    }
}

/// The scatter direction the diffuse model derives from a surface normal
/// and a random unit sample: their sum, or the bare normal when the sum
/// cancels to zero.
pub open spec fn scatter_dir3(normal: V3, u: V3) -> V3 {
    if near_zero3(vadd(normal, u)) {
        normal
    } else {
        vadd(normal, u)
    }
}

/// Combine a surface normal with a random unit sample into a scatter
/// direction, avoiding the degenerate zero direction.
pub fn scatter_direction(normal: &Vec3, u: &Vec3) -> (r: Vec3)
    requires
        i64::MIN <= normal@.x + u@.x <= i64::MAX,
        i64::MIN <= normal@.y + u@.y <= i64::MAX,
        i64::MIN <= normal@.z + u@.z <= i64::MAX,
    ensures
        r@ == scatter_dir3(normal@, u@),
{
    let d = (*normal).add(*u);
    if d.near_zero() {
        *normal
    } else {
        d
    }
}

/// A diffuse surface: scattered light is attenuated by its albedo.
#[derive(Clone, Copy, Debug)]
pub struct Lambertian {
    pub albedo: Color,
}

impl Lambertian {
    pub fn new(albedo: Color) -> (r: Lambertian)
        ensures
            r.albedo == albedo,
    {
        Lambertian { albedo }
    }

    /// Diffuse scattering: the outgoing ray leaves the hit point in the
    /// direction `normal + random_unit_vector()`, and the attenuation is
    /// the albedo. Always scatters.
    pub fn scatter(&self, r_in: &Ray, rec: &HitRecord, rng: &mut Sampler) -> (res: Option<
        (Color, Ray),
    >)
        requires
            bounded3(rec.normal@, NORMAL_LIMIT as int),
        ensures
            res is Some,
            res.unwrap().0 == self.albedo,
            res.unwrap().1.origin@ == rec.p@,
            exists|u: V3|
                {
                    &&& unit_sample(u)
                    &&& bounded3(u, 16777216)
                    &&& res.unwrap().1.direction@ == scatter_dir3(rec.normal@, u)
                },
    {
        let u = Vec3::random_unit_vector(rng);
        let dir = scatter_direction(&rec.normal, &u);
        let scattered = Ray::new(rec.p, dir);
        proof {
            assert(unit_sample(u@) && bounded3(u@, 16777216) && scattered.direction@
                == scatter_dir3(rec.normal@, u@));
        }
        Some((self.albedo, scattered))
    }
}

/// The kinds of surface a primitive can carry.
#[derive(Clone, Copy, Debug)]
pub enum Material {
    Lambertian(Lambertian),
    /// A surface that absorbs every ray; scattering always fails on it.
    Inert,
}

impl Material {
    /// Scatter the incoming ray off this material, or report absorption.
    /// Succeeds exactly on the diffuse variant.
    pub fn scatter(&self, r_in: &Ray, rec: &HitRecord, rng: &mut Sampler) -> (res: Option<
        (Color, Ray),
    >)
        requires
            bounded3(rec.normal@, NORMAL_LIMIT as int),
        ensures
            res is Some <==> self is Lambertian,
            self is Lambertian ==> {
                &&& res.unwrap().0 == self->Lambertian_0.albedo
                &&& res.unwrap().1.origin@ == rec.p@
                &&& exists|u: V3|
                    {
                        &&& unit_sample(u)
                        &&& bounded3(u, 16777216)
                        &&& res.unwrap().1.direction@ == scatter_dir3(rec.normal@, u)
                    }
            },
    {
        match self {
            Material::Lambertian(inner) => inner.scatter(r_in, rec, rng),
            Material::Inert => None,
        }
    }
}

} // verus!
