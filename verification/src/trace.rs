//! The integrator: recursive radiance accumulation along a ray.

use vstd::prelude::*;
use crate::color::{
    cadd, cmul, cscale, in_range3, lemma_cmul_in_range, Color, C3,
};
use crate::fixed::{
    fx_mul, fx_sqrt, lemma_fx_mul_le, lemma_fx_mul_one, lemma_sqrt_floor_bounds,
    lemma_tdiv_bound, FX_ONE,
};
use crate::hittable::{
    lemma_scan_misses, list_wf, outward_normal3, ray_wf, scan_hit, sphere_hit_t, HittableList,
    Sphere,
};
use crate::material::{scatter_dir3, Material};
use crate::ray::{ray_at, Ray};
use crate::rng::Sampler;
use crate::vec3::{
    bounded3, lemma_dot_fits, lemma_vdot_bound, lemma_vdot_self_nonneg, unit3, unit_sample, vdot,
    vneg, Vec3, V3, VEC_LIMIT,
};

verus! {

/// The lower end of the intersection window: a small positive bias that
/// keeps a bounced ray from immediately re-hitting its own origin.
pub const SHADOW_EPS: i64 = 66;

pub open spec fn black3() -> C3 {
    C3 { r: 0, g: 0, b: 0 }
}

/// A scalar clamped to `[-1, 1]`.
pub open spec fn clamp_unit(v: int) -> int {
    if v < -(FX_ONE as int) {
        -(FX_ONE as int)
    } else if v > FX_ONE {
        FX_ONE as int
    } else {
        v
    }
}

/// The vertical component of the normalized direction, clamped to
/// `[-1, 1]` — fixed-point truncation can push the normalized component
/// one raw unit past one — and taken as zero for a direction whose
/// fixed-point squared length rounds to zero (such a ray cannot be
/// normalized and reads as horizontal).
pub open spec fn sky_uy(d: V3) -> int {
    if vdot(d, d) == 0 {
        0
    } else {
        clamp_unit(unit3(d).y)
    }
}

/// The procedural sky: blend white toward the horizon and sky blue toward
/// the zenith, by `t = 0.5 * (1 - y)` of the normalized direction. With
/// the vertical component clamped, the blend stays inside `[0, 1]`.
pub open spec fn sky3(d: V3) -> C3 {
    let t = fx_mul(32768, (FX_ONE as int) - sky_uy(d));
    cadd(
        cscale(C3 { r: FX_ONE as int, g: FX_ONE as int, b: FX_ONE as int }, t),
        cscale(C3 { r: 32768, g: 45875, b: FX_ONE as int }, (FX_ONE as int) - t),
    )
}

/// Normalizing a capped direction over a length of at least 1/256 keeps
/// each component within 2^32.
proof fn lemma_unit_dir_bound(c: int, len: int)
    requires
        crate::fixed::iabs(c) <= VEC_LIMIT,
        len >= 256,
    ensures
        crate::fixed::iabs(crate::fixed::fx_div(c, len)) <= 4294967296,
{
    lemma_tdiv_bound(c * (FX_ONE as int), len, 1099511627776);
    vstd::arithmetic::div_mod::lemma_div_is_ordered_by_denominator(1099511627776, 256, len);
}

/// The background color for a ray that hits nothing.
pub fn sky_color(r: &Ray) -> (c: Color)
    requires
        bounded3(r.direction@, VEC_LIMIT as int),
    ensures
        c@ == sky3(r.direction@),
        in_range3(c@),
{
    let d = *r.direction();
    proof {
        lemma_dot_fits(d@, d@, VEC_LIMIT as int, VEC_LIMIT as int);
        lemma_vdot_self_nonneg(d@);
        lemma_vdot_bound(d@, d@, VEC_LIMIT as int, VEC_LIMIT as int);
    }
    let sq = d.squared_length();
    let uy_raw: i64;
    if sq == 0 {
        uy_raw = 0;
    } else {
        let u = d.unit_vec();
        proof {
            let dd = vdot(d@, d@);
            let len = fx_sqrt(dd);
            lemma_sqrt_floor_bounds(dd * (FX_ONE as int));
            assert(len >= 256) by (nonlinear_arith)
                requires
                    len >= 0,
                    dd * (FX_ONE as int) < (len + 1) * (len + 1),
                    dd >= 1,
            ;
            lemma_unit_dir_bound(d@.y, len);
        }
        uy_raw = u.y();
    }
    let uy = crate::color::clamp(uy_raw, -FX_ONE, FX_ONE);
    let w: i64 = FX_ONE - uy;
    proof {
        lemma_tdiv_bound(32768 * (w as int), FX_ONE as int, 4294967296);
        lemma_fx_mul_le(32768, w as int);
    }
    let t = crate::fixed::mul_fx(32768, w);
    let white = Color { r: FX_ONE, g: FX_ONE, b: FX_ONE };
    let blue = Color { r: 32768, g: 45875, b: FX_ONE };
    proof {
        lemma_fx_mul_one(t as int);
        lemma_fx_mul_le(blue@.r, (FX_ONE as int) - t);
        lemma_fx_mul_le(blue@.g, (FX_ONE as int) - t);
        lemma_fx_mul_le(blue@.b, (FX_ONE as int) - t);
    }
    let cw = white.mul(t);
    let cb = blue.mul(FX_ONE - t);
    cw.add(cb)
}

/// A ray whose origin lies outside every sphere and whose direction
/// enters none of them resolves to no hit, so — by `ray_color`'s
/// contract — such a ray yields exactly the background gradient for its
/// direction, independent of what the scene holds.
pub proof fn lemma_miss_scene(world: Seq<Sphere>, r: Ray)
    requires
        forall|j: int|
            0 <= j < world.len() ==> sphere_hit_t(
                #[trigger] world[j],
                r,
                SHADOW_EPS as int,
                VEC_LIMIT as int,
            ) is None,
    ensures
        scan_hit(world, r, SHADOW_EPS as int, VEC_LIMIT as int, None, 0) is None,
{
    lemma_scan_misses(world, r, SHADOW_EPS as int, VEC_LIMIT as int, None, 0);
}

/// The vector whose raw coordinates are the given triple.
pub open spec fn vec_of(v: V3) -> Vec3 {
    Vec3 { x: v.x as i64, y: v.y as i64, z: v.z as i64 }
}

/// The ray with the given origin and direction triples.
pub open spec fn ray_of(o: V3, d: V3) -> Ray {
    Ray { origin: vec_of(o), direction: vec_of(d) }
}

/// The radiance the integrator computes, as a function of the scene, the
/// ray, the bounce budget, and the sequence of random unit samples drawn
/// at the bounces: black once the budget is exhausted; the sky on a miss;
/// black on an absorbing hit; and on a diffuse hit the albedo times the
/// radiance of the scattered ray — or black when the scattered geometry
/// leaves the tracer's coordinate caps.
pub open spec fn trace_spec(objs: Seq<Sphere>, r: Ray, depth: int, us: Seq<V3>) -> C3
    decreases depth,
{
    if depth <= 0 {
        black3()
    } else {
        let sc = scan_hit(objs, r, SHADOW_EPS as int, VEC_LIMIT as int, None, 0);
        if sc is None {
            sky3(r.direction@)
        } else {
            let s = objs[sc.unwrap().0];
            match s.material {
                Material::Inert => black3(),
                Material::Lambertian(l) => {
                    let p = ray_at(r, sc.unwrap().1);
                    let outward = outward_normal3(s, p);
                    let normal = if vdot(r.direction@, outward) < 0 {
                        outward
                    } else {
                        vneg(outward)
                    };
                    let u = if us.len() > 0 {
                        us[0]
                    } else {
                        (V3 { x: 0, y: 0, z: 0 })
                    };
                    let dir = scatter_dir3(normal, u);
                    if bounded3(p, VEC_LIMIT as int) && bounded3(dir, VEC_LIMIT as int) {
                        cmul(l.albedo@, trace_spec(objs, ray_of(p, dir), depth - 1, us.skip(1)))
                    } else {
                        black3()
                    }
                },
            }
        }
    }
}

/// The radiance along a ray. The result is `trace_spec` of the scene, the
/// ray, the budget and the unit samples the scatterer drew, so each case
/// of the integrator is pinned modulo the draws; it always lies in
/// `[0, 1]` per channel.
pub fn ray_color(r: &Ray, world: &HittableList, depth: i32, rng: &mut Sampler) -> (c: Color)
    requires
        list_wf(world@),
        ray_wf(*r),
    ensures
        depth <= 0 ==> c@ == black3(),
        (depth > 0 && scan_hit(world@, *r, SHADOW_EPS as int, VEC_LIMIT as int, None, 0)
            is None) ==> c@ == sky3(r.direction@),
        (depth > 0 && ({
            let sc = scan_hit(world@, *r, SHADOW_EPS as int, VEC_LIMIT as int, None, 0);
            sc is Some && world@[sc.unwrap().0].material is Inert
        })) ==> c@ == black3(),
        exists|us: Seq<V3>|
            {
                &&& forall|i: int| 0 <= i < us.len() ==> unit_sample(#[trigger] us[i])
                &&& c@ == #[trigger] trace_spec(world@, *r, depth as int, us)
            },
        in_range3(c@),
    decreases depth,
{
    if depth <= 0 {
        let c = Color::black();
        proof {
            let ws = Seq::<V3>::empty();
            assert(c@ == trace_spec(world@, *r, depth as int, ws));
        }
        return c;
    }
    match world.hit(r, SHADOW_EPS, VEC_LIMIT) {
        None => {
            let c = sky_color(r);
            proof {
                let ws = Seq::<V3>::empty();
                assert(c@ == trace_spec(world@, *r, depth as int, ws));
            }
            c
        },
        Some(rec) => {
            let ghost sc = scan_hit(world@, *r, SHADOW_EPS as int, VEC_LIMIT as int, None, 0);
            let ghost s = world@[sc.unwrap().0];
            proof {
                assert(crate::hittable::sphere_wf(s));
            }
            match rec.material.scatter(r, &rec, rng) {
                None => {
                    let c = Color::black();
                    proof {
                        let ws = Seq::<V3>::empty();
                        assert(c@ == trace_spec(world@, *r, depth as int, ws));
                    }
                    c
                },
                Some((attenuation, scattered)) => {
                    let ghost u = choose|u: V3|
                        unit_sample(u) && bounded3(u, 16777216) && scattered.direction@
                            == scatter_dir3(rec.normal@, u);
                    proof {
                        let p = ray_at(*r, sc.unwrap().1);
                        assert(p == rec.p@);
                        let outward = outward_normal3(s, p);
                        let normal = if vdot(r.direction@, outward) < 0 {
                            outward
                        } else {
                            vneg(outward)
                        };
                        assert(normal == rec.normal@);
                        assert(vec_of(p) == scattered.origin);
                        assert(vec_of(scatter_dir3(normal, u)) == scattered.direction);
                        assert(ray_of(p, scatter_dir3(normal, u)) == scattered);
                    }
                    if scattered.origin.within(VEC_LIMIT) && scattered.direction.within(
                        VEC_LIMIT,
                    ) {
                        let bounced = ray_color(&scattered, world, depth - 1, rng);
                        proof {
                            assert(in_range3(attenuation@));
                            lemma_cmul_in_range(attenuation@, bounced@);
                            let us2 = choose|us: Seq<V3>|
                                {
                                    &&& forall|i: int|
                                        0 <= i < us.len() ==> unit_sample(#[trigger] us[i])
                                    &&& bounced@ == #[trigger] trace_spec(
                                        world@,
                                        scattered,
                                        (depth - 1) as int,
                                        us,
                                    )
                                };
                            let ws = seq![u] + us2;
                            assert(ws[0] == u);
                            assert(ws.skip(1) =~= us2);
                            assert(trace_spec(world@, *r, depth as int, ws) == cmul(
                                attenuation@,
                                bounced@,
                            ));
                            assert(forall|i: int|
                                0 <= i < ws.len() ==> unit_sample(#[trigger] ws[i]));
                        }
                        attenuation.modulate(bounced)
                    } else {
                        let c = Color::black();
                        proof {
                            let ws = seq![u];
                            assert(ws[0] == u);
                            assert(c@ == trace_spec(world@, *r, depth as int, ws));
                            assert(forall|i: int|
                                0 <= i < ws.len() ==> unit_sample(#[trigger] ws[i]));
                        }
                        c
                    }
                },
            }
        },
    }
}

} // verus!
