//! The pinhole camera: normalized image-plane coordinates to world rays.

use vstd::prelude::*;
use crate::fixed::{fx_mul, lemma_fx_mul_bound, FX_ONE};
use crate::hittable::ray_wf;
use crate::ray::Ray;
use crate::vec3::{bounded3, vadd, vdivs, vscale, vsub, Vec3, V3};

verus! {

/// Largest admitted aspect ratio (16, as a fixed-point scalar): it keeps
/// every camera ray within the tracer's coordinate cap.
pub const ASPECT_LIMIT: i64 = 1048576;

/// The fixed viewport height convention (2, as a fixed-point scalar).
pub const VIEWPORT_HEIGHT: i64 = 131072;

/// The fixed focal length (1, as a fixed-point scalar).
pub const FOCAL_LENGTH: i64 = 65536;

pub open spec fn camera_horizontal(aspect: int) -> V3 {
    V3 { x: fx_mul(aspect, VIEWPORT_HEIGHT as int), y: 0, z: 0 }
}

pub open spec fn camera_vertical() -> V3 {
    V3 { x: 0, y: VIEWPORT_HEIGHT as int, z: 0 }
}

pub open spec fn camera_lower_left(aspect: int) -> V3 {
    vsub(
        vsub(
            vsub(V3 { x: 0, y: 0, z: 0 }, vdivs(camera_horizontal(aspect), 2 * FX_ONE)),
            vdivs(camera_vertical(), 2 * FX_ONE),
        ),
        V3 { x: 0, y: 0, z: FOCAL_LENGTH as int },
    )
}

/// Fields small enough that every ray the camera makes is traceable.
pub open spec fn camera_wf(c: Camera) -> bool {
    &&& bounded3(c.origin@, ASPECT_LIMIT as int)
    &&& bounded3(c.horizontal@, 2 * ASPECT_LIMIT as int)
    &&& bounded3(c.vertical@, ASPECT_LIMIT as int)
    &&& bounded3(c.lower_left_corner@, 2 * ASPECT_LIMIT as int)
}

/// A pinhole camera at the origin looking along the negative `z` axis.
pub struct Camera {
    pub origin: Vec3,
    pub lower_left_corner: Vec3,
    pub horizontal: Vec3,
    pub vertical: Vec3,
}

impl Camera {
    /// A camera with viewport height 2, width `aspect_ratio * 2`, and
    /// focal length 1.
    pub fn new(aspect_ratio: i64) -> (c: Camera)
        requires
            0 < aspect_ratio <= ASPECT_LIMIT,
        ensures
            c.origin@ == (V3 { x: 0, y: 0, z: 0 }),
            c.horizontal@ == camera_horizontal(aspect_ratio as int),
            c.vertical@ == camera_vertical(),
            c.lower_left_corner@ == camera_lower_left(aspect_ratio as int),
            camera_wf(c),
    {
        let viewport_height: i64 = VIEWPORT_HEIGHT;
        let viewport_width: i64 = crate::fixed::mul_fx(aspect_ratio, viewport_height);
        proof {
            lemma_fx_mul_bound(aspect_ratio as int, viewport_height as int, ASPECT_LIMIT as int,
                VIEWPORT_HEIGHT as int);
        }
        let focal_length: i64 = FOCAL_LENGTH;
        let horizontal = Vec3::new(viewport_width, 0, 0);
        let vertical = Vec3::new(0, viewport_height, 0);
        let two: i64 = 2 * FX_ONE;
        let half_h = horizontal.div(two);
        let half_v = vertical.div(two);
        proof {
            crate::fixed::lemma_tdiv_bound(horizontal@.x * (FX_ONE as int), two as int,
                274877906944);
            crate::fixed::lemma_tdiv_bound(vertical@.y * (FX_ONE as int), two as int, 8589934592);
        }
        let lower_left_corner = Vec3::zero().sub(half_h).sub(half_v).sub(
            Vec3::new(0, 0, focal_length),
        );
        Camera { origin: Vec3::zero(), lower_left_corner, horizontal, vertical }
    }

    /// The ray through normalized image-plane coordinates `(u, v)`,
    /// nominally in `[0, 1]` each; jittered samples on the last pixel row
    /// or column may run up to 2.
    pub fn get_ray(&self, u: i64, v: i64) -> (r: Ray)
        requires
            camera_wf(*self),
            0 <= u <= 2 * FX_ONE,
            0 <= v <= 2 * FX_ONE,
        ensures
            r.origin@ == self.origin@,
            r.direction@ == vsub(
                vadd(
                    vadd(self.lower_left_corner@, vscale(self.horizontal@, u as int)),
                    vscale(self.vertical@, v as int),
                ),
                self.origin@,
            ),
            ray_wf(r),
    {
        proof {
            lemma_fx_mul_bound(self.horizontal@.x, u as int, 2 * ASPECT_LIMIT as int,
                2 * FX_ONE as int);
            lemma_fx_mul_bound(self.horizontal@.y, u as int, 2 * ASPECT_LIMIT as int,
                2 * FX_ONE as int);
            lemma_fx_mul_bound(self.horizontal@.z, u as int, 2 * ASPECT_LIMIT as int,
                2 * FX_ONE as int);
            lemma_fx_mul_bound(self.vertical@.x, v as int, ASPECT_LIMIT as int,
                2 * FX_ONE as int);
            lemma_fx_mul_bound(self.vertical@.y, v as int, ASPECT_LIMIT as int,
                2 * FX_ONE as int);
            lemma_fx_mul_bound(self.vertical@.z, v as int, ASPECT_LIMIT as int,
                2 * FX_ONE as int);
        }
        Ray::new(
            self.origin,
            self.lower_left_corner.add(self.horizontal.mul(u)).add(self.vertical.mul(v)).sub(
                self.origin,
            ),
        )
    }
}

} // verus!
