//! Sphere geometry, ray-sphere intersection, and the scene container with
//! its nearest-hit policy.

use vstd::prelude::*;
use crate::fixed::{
    fx_div, fx_mul, fx_sqrt, sqrt_floor, tdiv, div_fx, mul_fx, sqrt_fx, lemma_fx_div_bound,
    lemma_fx_mul_bound, lemma_sqrt_floor_bounds, FX_ONE,
};
use crate::material::Material;
use crate::ray::{ray_at, Ray};
use crate::vec3::{
    bounded3, lemma_dot_fits, lemma_vdot_bound, lemma_vdot_self_nonneg, vdot, vdivs, vneg, vsub,
    Vec3, V3, VEC_LIMIT,
};

verus! {

/// Cap on the coordinates of a hit point: a bounded ray evaluated inside
/// the admitted parameter window stays under 2^33.
pub const HIT_P_LIMIT: i64 = 8589934592;

/// Cap on the coordinates of a hit normal: a bounded offset divided by a
/// positive fixed-point radius stays under 2^50.
pub const NORMAL_LIMIT: i64 = 1125899906842624;

/// A ray the tracer can intersect: origin and direction within the
/// coordinate cap.
pub open spec fn ray_wf(r: Ray) -> bool {
    &&& bounded3(r.origin@, VEC_LIMIT as int)
    &&& bounded3(r.direction@, VEC_LIMIT as int)
}

/// A sphere the tracer can intersect: center within the coordinate cap and
/// a positive, capped radius.
pub open spec fn sphere_wf(s: Sphere) -> bool {
    &&& bounded3(s.center@, VEC_LIMIT as int)
    &&& 0 < s.radius <= VEC_LIMIT
    &&& crate::material::material_wf(s.material)
}

pub open spec fn list_wf(objs: Seq<Sphere>) -> bool {
    forall|i: int| 0 <= i < objs.len() ==> sphere_wf(#[trigger] objs[i])
}

/// The result of an intersection query: the hit point, the normal oriented
/// against the incoming ray, the hit parameter, the facing flag, and a
/// copy of the struck primitive's material.
#[derive(Clone, Copy, Debug)]
pub struct HitRecord {
    pub p: Vec3,
    pub normal: Vec3,
    pub material: Material,
    pub t: i64,
    pub front_face: bool,
}

impl HitRecord {
    /// Orient the stored normal against the incoming ray: `front_face`
    /// holds exactly when the ray meets the outward normal head on, and
    /// the stored normal is the outward normal or its opposite
    /// accordingly.
    pub fn set_face_normal(&mut self, r: &Ray, outward_normal: &Vec3)
        requires
            crate::vec3::dot_fits(r.direction@, outward_normal@),
            bounded3(outward_normal@, i64::MAX as int),
        ensures
            final(self).front_face == (vdot(r.direction@, outward_normal@) < 0),
            final(self).normal@ == (if final(self).front_face {
                outward_normal@
            } else {
                vneg(outward_normal@)
            }),
            final(self).p == old(self).p,
            final(self).t == old(self).t,
            final(self).material == old(self).material,
    {
        self.front_face = r.direction().dot(outward_normal) < 0;
        self.normal = if self.front_face {
            *outward_normal
        } else {
            (*outward_normal).neg()
        };
    }
}

/// A sphere with its material.
#[derive(Clone, Copy, Debug)]
pub struct Sphere {
    pub center: Vec3,
    pub radius: i64,
    pub material: Material,
}

/// The outward unit-scale normal of the sphere at a surface point: the
/// offset from the center, divided by the radius.
pub open spec fn outward_normal3(s: Sphere, p: V3) -> V3 {
    vdivs(vsub(p, s.center@), s.radius as int)
}

/// The intersection parameter the quadratic yields, if any: with `oc` the
/// origin offset, `a = d.d`, `half_b = oc.d` and `c = oc.oc - rad*rad`, a
/// hit needs a non-negative discriminant and a root inside the window,
/// the nearer root preferred. A direction whose fixed-point squared
/// length rounds to zero is degenerate and misses.
pub open spec fn sphere_hit_core(
    center: V3,
    rad: int,
    origin: V3,
    d: V3,
    t_min: int,
    t_max: int,
) -> Option<int> {
    let a = vdot(d, d);
    let oc = vsub(origin, center);
    let half_b = vdot(oc, d);
    let c = vdot(oc, oc) - fx_mul(rad, rad);
    let disc = fx_mul(half_b, half_b) - fx_mul(a, c);
    if a == 0 {
        None
    } else if disc < 0 {
        None
    } else {
        let sq = fx_sqrt(disc);
        let t0 = fx_div(-half_b - sq, a);
        if t_min <= t0 && t0 <= t_max {
            Some(t0)
        } else {
            let t1 = fx_div(-half_b + sq, a);
            if t_min <= t1 && t1 <= t_max {
                Some(t1)
            } else {
                None
            }
        }
    }
}

/// The intersection parameter for a sphere and a ray.
pub open spec fn sphere_hit_t(s: Sphere, r: Ray, t_min: int, t_max: int) -> Option<int> {
    sphere_hit_core(s.center@, s.radius as int, r.origin@, r.direction@, t_min, t_max)
}

/// The record fields a hit at parameter `rec.t` on sphere `s` must carry.
pub open spec fn hit_rec_matches(s: Sphere, r: Ray, rec: HitRecord) -> bool {
    let outward = outward_normal3(s, rec.p@);
    &&& rec.p@ == ray_at(r, rec.t as int)
    &&& rec.material == s.material
    &&& rec.front_face == (vdot(r.direction@, outward) < 0)
    &&& rec.normal@ == (if rec.front_face {
        outward
    } else {
        vneg(outward)
    })
}

impl Sphere {
    pub fn new(center: Vec3, radius: i64, material: Material) -> (s: Sphere)
        requires
            bounded3(center@, VEC_LIMIT as int),
            0 < radius <= VEC_LIMIT,
            crate::material::material_wf(material),
        ensures
            s.center == center,
            s.radius == radius,
            s.material == material,
            sphere_wf(s),
    {
        Sphere { center, radius, material }
    }

    /// Build the hit record for a root that passed the window test.
    fn make_record(&self, r: &Ray, root: i64) -> (rec: HitRecord)
        requires
            sphere_wf(*self),
            ray_wf(*r),
            0 <= root <= VEC_LIMIT,
        ensures
            rec.t == root,
            hit_rec_matches(*self, *r, rec),
            vdot(rec.normal@, r.direction@) <= 0,
            bounded3(rec.p@, HIT_P_LIMIT as int),
            bounded3(rec.normal@, NORMAL_LIMIT as int),
    {
        proof {
            lemma_fx_mul_bound(r.direction@.x, root as int, VEC_LIMIT as int, VEC_LIMIT as int);
            lemma_fx_mul_bound(r.direction@.y, root as int, VEC_LIMIT as int, VEC_LIMIT as int);
            lemma_fx_mul_bound(r.direction@.z, root as int, VEC_LIMIT as int, VEC_LIMIT as int);
        }
        let p = r.at(root);
        let op = p.sub(self.center);
        proof {
            lemma_fx_div_bound(op@.x, self.radius as int, 17196646400);
            lemma_fx_div_bound(op@.y, self.radius as int, 17196646400);
            lemma_fx_div_bound(op@.z, self.radius as int, 17196646400);
        }
        let outward = op.div(self.radius);
        let mut rec = HitRecord {
            p,
            normal: Vec3::zero(),
            material: self.material,
            t: root,
            front_face: false,
        };
        proof {
            lemma_dot_fits(r.direction@, outward@, VEC_LIMIT as int, NORMAL_LIMIT as int);
        }
        rec.set_face_normal(r, &outward);
        proof {
            lemma_normal_faces_ray(r.direction@, outward@);
        }
        rec
    }

    /// Intersect the ray with this sphere inside the parameter window.
    /// Returns the record of the nearer admissible root, or `None` exactly
    /// when the quadratic has none.
    pub fn hit(&self, r: &Ray, t_min: i64, t_max: i64) -> (res: Option<HitRecord>)
        requires
            sphere_wf(*self),
            ray_wf(*r),
            0 <= t_min <= t_max <= VEC_LIMIT,
        ensures
            res is None <==> sphere_hit_t(*self, *r, t_min as int, t_max as int) is None,
            res is Some ==> {
                &&& sphere_hit_t(*self, *r, t_min as int, t_max as int) == Some(
                    res.unwrap().t as int,
                )
                &&& t_min <= res.unwrap().t <= t_max
                &&& hit_rec_matches(*self, *r, res.unwrap())
                &&& vdot(res.unwrap().normal@, r.direction@) <= 0
                &&& bounded3(res.unwrap().p@, HIT_P_LIMIT as int)
                &&& bounded3(res.unwrap().normal@, NORMAL_LIMIT as int)
            },
    {
        let dir = *r.direction();
        let ro = *r.origin();
        proof {
            lemma_dot_fits(dir@, dir@, VEC_LIMIT as int, VEC_LIMIT as int);
            lemma_vdot_self_nonneg(dir@);
            lemma_vdot_bound(dir@, dir@, VEC_LIMIT as int, VEC_LIMIT as int);
        }
        let a = dir.squared_length();
        let oc = ro.sub(self.center);
        proof {
            lemma_dot_fits(oc@, dir@, 33554432, VEC_LIMIT as int);
            lemma_vdot_bound(oc@, dir@, 33554432, VEC_LIMIT as int);
            lemma_dot_fits(oc@, oc@, 33554432, 33554432);
            lemma_vdot_bound(oc@, oc@, 33554432, 33554432);
            lemma_fx_mul_bound(self.radius as int, self.radius as int, VEC_LIMIT as int,
                VEC_LIMIT as int);
        }
        let half_b = oc.dot(&dir);
        let rr = mul_fx(self.radius, self.radius);
        let c = oc.squared_length() - rr;
        proof {
            lemma_fx_mul_bound(half_b as int, half_b as int, 25769803776, 25769803776);
            lemma_fx_mul_bound(a as int, c as int, 12884901888, 55834574848);
        }
        let disc = mul_fx(half_b, half_b) - mul_fx(a, c);
        if a == 0 {
            return None;
        }
        if disc < 0 {
            return None;
        }
        let sq = sqrt_fx(disc);
        proof {
            assert((sq as int) * (sq as int) <= 1441800000000000000000int);
            assert(sq <= 38000000000i64) by (nonlinear_arith)
                requires
                    (sq as int) * (sq as int) <= 1441800000000000000000int,
                    sq >= 0,
            ;
        }
        let t0 = div_fx(-half_b - sq, a);
        if t_min <= t0 && t0 <= t_max {
            let rec = self.make_record(r, t0);
            return Some(rec);
        }
        let t1 = div_fx(-half_b + sq, a);
        if t_min <= t1 && t1 <= t_max {
            let rec = self.make_record(r, t1);
            return Some(rec);
        }
        None
    }
}

/// A dot product is symmetric in its operands.
pub proof fn lemma_vdot_comm(a: V3, b: V3)
    ensures
        vdot(a, b) == vdot(b, a),
{
}

/// Negating one operand negates the dot product.
pub proof fn lemma_vdot_neg(a: V3, b: V3)
    ensures
        vdot(vneg(a), b) == -vdot(a, b),
{
    assert((-a.x) * b.x + (-a.y) * b.y + (-a.z) * b.z == -(a.x * b.x + a.y * b.y + a.z * b.z))
        by (nonlinear_arith);
}

/// The face-orientation convention: `front_face` holds exactly when the
/// incoming direction meets the outward normal head on, and the normal a
/// hit record keeps — the outward normal or its opposite accordingly —
/// never points along the incoming direction. This holds whether the ray
/// starts outside or inside the sphere.
pub proof fn lemma_normal_faces_ray(d: V3, o: V3)
    ensures
        ({
            let front_face = vdot(d, o) < 0;
            let n = if front_face {
                o
            } else {
                vneg(o)
            };
            vdot(n, d) <= 0
        }),
{
    lemma_vdot_comm(d, o);
    lemma_vdot_neg(o, d);
}

/// Firing a ray straight at a sphere's center reports a hit whose near
/// root is the distance to the center minus the radius, to within one
/// raw fixed-point unit — the rounding the discriminant may lose. The
/// ray runs along the axis, from any origin and over any distance; an
/// oblique direction is not covered, because truncation is not rotation
/// invariant: off the axis the dot products each round on their own and
/// no bound this tight holds of every direction. The radius must reach
/// half a unit, below which the discriminant's last digit can vanish
/// entirely. (That the returned normal is parallel to the hit-point
/// offset from the center is `hit_rec_matches`: the normal is that
/// offset over the radius, or its opposite.)
pub proof fn lemma_head_on_near_root(o: V3, m: int, rad: int)
    requires
        2 * rad > FX_ONE,
        rad <= m,
        m - rad + 1 <= VEC_LIMIT,
    ensures
        ({
            let center = V3 { x: o.x, y: o.y, z: o.z - m };
            let d = V3 { x: 0, y: 0, z: -(FX_ONE as int) };
            let res = sphere_hit_core(center, rad, o, d, 0, VEC_LIMIT as int);
            &&& res is Some
            &&& m - rad <= res.unwrap() <= m - rad + 1
        }),
{
    let s = FX_ONE as int;
    let center = V3 { x: o.x, y: o.y, z: o.z - m };
    let d = V3 { x: 0, y: 0, z: -s };
    let oc = vsub(o, center);
    assert(oc == (V3 { x: 0, y: 0, z: m }));

    // a = d.d is exactly one
    assert((-65536int) * (-65536int) == 4294967296int) by (nonlinear_arith);
    assert(4294967296int / 65536int == 65536);
    assert(vdot(d, d) == s);

    // half_b = oc.d is exactly -m
    assert(m * (-s) == -(m * s)) by (nonlinear_arith);
    assert(m * s > 0) by (nonlinear_arith)
        requires
            m > 0,
            s > 0,
    ;
    vstd::arithmetic::div_mod::lemma_div_multiples_vanish(m, s);
    assert(tdiv(-(m * s), s) == -m);
    assert(vdot(oc, d) == -m);

    // c = floor(m*m/s) - floor(rad*rad/s), and the discriminant collapses
    // to floor(rad*rad/s)
    let q2 = tdiv(m * m, s);
    let qr = tdiv(rad * rad, s);
    assert(m * m >= 0 && rad * rad >= 0 && m * m >= rad * rad && (-m) * (-m) == m * m)
        by (nonlinear_arith)
        requires
            0 < rad <= m,
    ;
    assert(vdot(oc, oc) == q2);
    assert(fx_mul(rad, rad) == qr);
    vstd::arithmetic::div_mod::lemma_div_is_ordered(rad * rad, m * m, s);
    assert(qr <= q2);
    let c_term = q2 - qr;
    assert(fx_mul(-m, -m) == q2);
    assert(s * c_term >= 0) by (nonlinear_arith)
        requires
            s > 0,
            c_term >= 0,
    ;
    vstd::arithmetic::div_mod::lemma_div_multiples_vanish(c_term, s);
    assert(fx_mul(s, c_term) == c_term);
    let disc = qr;
    assert(fx_mul(vdot(oc, d), vdot(oc, d)) - fx_mul(vdot(d, d), vdot(oc, oc) - fx_mul(rad, rad))
        == disc);

    // the square root of the discriminant is the radius, give or take one
    vstd::arithmetic::div_mod::lemma_fundamental_div_mod(rad * rad, s);
    vstd::arithmetic::div_mod::lemma_mod_division_less_than_divisor(rad * rad, s);
    assert(rad * rad - s < qr * s <= rad * rad);
    let sq = sqrt_floor(qr * s);
    lemma_sqrt_floor_bounds(qr * s);
    assert(sq <= rad) by (nonlinear_arith)
        requires
            sq >= 0,
            rad > 0,
            sq * sq <= qr * s,
            qr * s <= rad * rad,
    ;
    assert(sq >= rad - 1) by (nonlinear_arith)
        requires
            sq >= 0,
            rad > 0,
            2 * rad > s,
            qr * s < (sq + 1) * (sq + 1),
            rad * rad - s < qr * s,
    ;
    assert(fx_sqrt(disc) == sq);

    // the near root is m - sq, which brackets m - rad
    assert((m - sq) * s >= 0) by (nonlinear_arith)
        requires
            m >= sq,
            s > 0,
    ;
    vstd::arithmetic::div_mod::lemma_div_multiples_vanish(m - sq, s);
    assert(fx_div(-(-m) - sq, s) == m - sq);
    assert(0 <= m - sq <= VEC_LIMIT);
    assert(sphere_hit_core(center, rad, o, d, 0, VEC_LIMIT as int) == Some(m - sq));
}

/// The walk the scene container makes over its primitives, oldest first:
/// each is intersected against a window shrunk to the closest hit so far,
/// and the last success wins. `k` is the index of the first remaining
/// primitive; the result carries the winning index and parameter.
pub open spec fn scan_hit(
    objs: Seq<Sphere>,
    r: Ray,
    t_min: int,
    closest: int,
    best: Option<(int, int)>,
    k: int,
) -> Option<(int, int)>
    decreases objs.len(),
{
    if objs.len() == 0 {
        best
    } else {
        let rest = objs.subrange(1, objs.len() as int);
        match sphere_hit_t(objs[0], r, t_min, closest) {
            Some(t) => scan_hit(rest, r, t_min, t, Some((k, t)), k + 1),
            None => scan_hit(rest, r, t_min, closest, best, k + 1),
        }
    }
}

/// A sphere that misses a window misses every window contained in it:
/// the quadratic's roots do not depend on the window.
pub proof fn lemma_hit_window_none(
    center: V3,
    rad: int,
    origin: V3,
    d: V3,
    t_min: int,
    t_max: int,
    t_cut: int,
)
    requires
        sphere_hit_core(center, rad, origin, d, t_min, t_max) is None,
        t_min <= t_cut <= t_max,
    ensures
        sphere_hit_core(center, rad, origin, d, t_min, t_cut) is None,
{
}

/// A sphere hit at parameter `t` admits no hit in a window that ends
/// strictly below `t`: the window test rejected whatever root lies lower.
pub proof fn lemma_hit_window_some(
    center: V3,
    rad: int,
    origin: V3,
    d: V3,
    t_min: int,
    t_max: int,
    t: int,
    t_cut: int,
)
    requires
        sphere_hit_core(center, rad, origin, d, t_min, t_max) == Some(t),
        t_min <= t_cut < t,
        t_cut <= t_max,
    ensures
        sphere_hit_core(center, rad, origin, d, t_min, t_cut) is None,
{
    let a = vdot(d, d);
    let oc = vsub(origin, center);
    let half_b = vdot(oc, d);
    let c = vdot(oc, oc) - fx_mul(rad, rad);
    let disc = fx_mul(half_b, half_b) - fx_mul(a, c);
    lemma_vdot_self_nonneg(d);
    assert(a >= 1 && disc >= 0);
    let sq = fx_sqrt(disc);
    lemma_sqrt_floor_bounds(disc * (FX_ONE as int));
    assert(disc * (FX_ONE as int) >= 0) by (nonlinear_arith)
        requires
            disc >= 0,
    ;
    assert(sq >= 0);
    let s = FX_ONE as int;
    assert((-half_b - sq) * s <= (-half_b + sq) * s) by (nonlinear_arith)
        requires
            sq >= 0,
            s > 0,
    ;
    crate::fixed::lemma_tdiv_mono((-half_b - sq) * s, (-half_b + sq) * s, a);
    assert(fx_div(-half_b - sq, a) <= fx_div(-half_b + sq, a));
}

/// If every remaining primitive misses the current window, the walk keeps
/// what it has.
pub proof fn lemma_scan_misses(
    objs: Seq<Sphere>,
    r: Ray,
    t_min: int,
    closest: int,
    best: Option<(int, int)>,
    k: int,
)
    requires
        forall|j: int|
            0 <= j < objs.len() ==> sphere_hit_t(#[trigger] objs[j], r, t_min, closest) is None,
    ensures
        scan_hit(objs, r, t_min, closest, best, k) == best,
    decreases objs.len(),
{
    if objs.len() > 0 {
        let rest = objs.subrange(1, objs.len() as int);
        assert(forall|j: int|
            0 <= j < rest.len() ==> #[trigger] rest[j] == objs[j + 1]);
        lemma_scan_misses(rest, r, t_min, closest, best, k + 1);
    }
}

/// The walk's result is no farther than the window it started with, and
/// no primitive it visited admits a hit in a window ending strictly below
/// the winning parameter: the walk resolves the nearest hit.
pub proof fn lemma_scan_finds_nearest(
    objs: Seq<Sphere>,
    r: Ray,
    t_min: int,
    closest: int,
    best: Option<(int, int)>,
    k: int,
)
    requires
        t_min <= closest,
        best is Some ==> best.unwrap().1 == closest,
    ensures
        scan_hit(objs, r, t_min, closest, best, k) is Some ==> {
            let t = scan_hit(objs, r, t_min, closest, best, k).unwrap().1;
            &&& t <= closest
            &&& forall|j: int, c: int|
                0 <= j < objs.len() && t_min <= c < t ==> #[trigger] sphere_hit_t(objs[j], r, t_min, c) is None
        },
    decreases objs.len(),
{
    if objs.len() == 0 {
        return ;
    }
    let rest = objs.subrange(1, objs.len() as int);
    let head = objs[0];
    match sphere_hit_t(head, r, t_min, closest) {
        Some(th) => {
            assert(t_min <= th <= closest);
            lemma_scan_finds_nearest(rest, r, t_min, th, Some((k, th)), k + 1);
            let res = scan_hit(objs, r, t_min, closest, best, k);
            if res is Some {
                let t = res.unwrap().1;
                assert(t <= th);
                assert forall|j: int, c: int|
                    0 <= j < objs.len() && t_min <= c < t implies #[trigger] sphere_hit_t(objs[j], r, t_min, c) is None by {
                    if j == 0 {
                        lemma_hit_window_some(head.center@, head.radius as int, r.origin@,
                            r.direction@, t_min, closest, th, c);
                    } else {
                        assert(objs[j] == rest[j - 1]);
                    }
                }
            }
        },
        None => {
            lemma_scan_finds_nearest(rest, r, t_min, closest, best, k + 1);
            let res = scan_hit(objs, r, t_min, closest, best, k);
            if res is Some {
                let t = res.unwrap().1;
                assert forall|j: int, c: int|
                    0 <= j < objs.len() && t_min <= c < t implies #[trigger] sphere_hit_t(objs[j], r, t_min, c) is None by {
                    if j == 0 {
                        lemma_hit_window_none(head.center@, head.radius as int, r.origin@,
                            r.direction@, t_min, closest, c);
                    } else {
                        assert(objs[j] == rest[j - 1]);
                    }
                }
            }
        },
    }
}

/// Nearest-hit resolution, at the top of the walk: when the scene reports
/// a hit at parameter `t`, no primitive in it admits a hit in any window
/// ending strictly below `t`.
pub proof fn lemma_nearest_hit(objs: Seq<Sphere>, r: Ray, t_min: int, t_max: int)
    requires
        t_min <= t_max,
    ensures
        scan_hit(objs, r, t_min, t_max, None, 0) is Some ==> {
            let t = scan_hit(objs, r, t_min, t_max, None, 0).unwrap().1;
            forall|j: int, c: int|
                0 <= j < objs.len() && t_min <= c < t ==> #[trigger] sphere_hit_t(objs[j], r, t_min, c) is None
        },
{
    lemma_scan_finds_nearest(objs, r, t_min, t_max, None, 0);
}

/// The scene: an ordered collection of primitives, resolved to the
/// nearest valid hit.
pub struct HittableList {
    pub objects: Vec<Sphere>,
}

impl View for HittableList {
    type V = Seq<Sphere>;

    open spec fn view(&self) -> Seq<Sphere> {
        self.objects@
    }
}

impl HittableList {
    pub fn new() -> (l: HittableList)
        ensures
            l@.len() == 0,
    {
        HittableList { objects: Vec::new() }
    }

    pub fn clear(&mut self)
        ensures
            final(self)@.len() == 0,
    {
        self.objects.clear();
    }

    pub fn add(&mut self, object: Sphere)
        ensures
            final(self)@ == old(self)@.push(object),
    {
        self.objects.push(object);
    }

    /// Resolve the nearest hit among all primitives inside the window:
    /// each primitive is tested against a window shrunk to the closest hit
    /// so far, and the returned record is that of the winning primitive.
    /// Returns `None` exactly when the walk finds no hit.
    pub fn hit(&self, r: &Ray, t_min: i64, t_max: i64) -> (res: Option<HitRecord>)
        requires
            list_wf(self@),
            ray_wf(*r),
            0 <= t_min <= t_max <= VEC_LIMIT,
        ensures
            ({
                let sc = scan_hit(self@, *r, t_min as int, t_max as int, None, 0);
                &&& (res is None <==> sc is None)
                &&& res is Some ==> {
                    &&& sc is Some
                    &&& 0 <= sc.unwrap().0 < self@.len()
                    &&& res.unwrap().t as int == sc.unwrap().1
                    &&& t_min <= res.unwrap().t <= t_max
                    &&& hit_rec_matches(self@[sc.unwrap().0], *r, res.unwrap())
                    &&& vdot(res.unwrap().normal@, r.direction@) <= 0
                    &&& bounded3(res.unwrap().p@, HIT_P_LIMIT as int)
                    &&& bounded3(res.unwrap().normal@, NORMAL_LIMIT as int)
                }
            }),
    {
        let ghost full = self@;
        let ghost target = scan_hit(full, *r, t_min as int, t_max as int, None, 0);
        proof {
            assert(full.subrange(0, full.len() as int) =~= full);
        }
        let n = self.objects.len();
        let mut i: usize = 0;
        let mut closest: i64 = t_max;
        let mut best: Option<HitRecord> = None;
        let ghost mut gbest: Option<(int, int)> = None;
        while i < n
            invariant
                n == full.len(),
                full == self@,
                0 <= i <= n,
                list_wf(full),
                ray_wf(*r),
                0 <= t_min <= closest <= t_max <= VEC_LIMIT,
                scan_hit(
                    full.subrange(i as int, full.len() as int),
                    *r,
                    t_min as int,
                    closest as int,
                    gbest,
                    i as int,
                ) == target,
                best is None <==> gbest is None,
                best is None ==> closest == t_max,
                best is Some ==> {
                    &&& gbest is Some
                    &&& 0 <= gbest.unwrap().0 < i
                    &&& gbest.unwrap().1 == best.unwrap().t as int
                    &&& closest == best.unwrap().t
                    &&& t_min <= best.unwrap().t <= t_max
                    &&& hit_rec_matches(full[gbest.unwrap().0], *r, best.unwrap())
                    &&& vdot(best.unwrap().normal@, r.direction@) <= 0
                    &&& bounded3(best.unwrap().p@, HIT_P_LIMIT as int)
                    &&& bounded3(best.unwrap().normal@, NORMAL_LIMIT as int)
                },
            decreases n - i,
        {
            let s = self.objects[i];
            proof {
                assert(sphere_wf(full[i as int]));
                let sub_i = full.subrange(i as int, full.len() as int);
                assert(sub_i[0] == full[i as int]);
                assert(sub_i.subrange(1, sub_i.len() as int) =~= full.subrange(
                    i as int + 1,
                    full.len() as int,
                ));
            }
            let step = s.hit(r, t_min, closest);
            match step {
                Some(rec2) => {
                    proof {
                        gbest = Some((i as int, rec2.t as int));
                    }
                    closest = rec2.t;
                    best = Some(rec2);
                },
                None => {},
            }
            i = i + 1;
        }
        proof {
            assert(full.subrange(n as int, full.len() as int).len() == 0);
        }
        best
    }
}

} // verus!
