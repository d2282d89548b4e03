//! Vector, ray and color arithmetic on exact fixed-point values.

use raytrace::color::Color;
use raytrace::fixed::FX_ONE;
use raytrace::ray::Ray;
use raytrace::vec3::Vec3;

const S: i64 = FX_ONE; // 65536: the fixed-point one

#[test]
fn vec3_new_and_accessors() {
    let v = Vec3::new(3 * S, -2 * S, 7);
    assert_eq!(v.x(), 3 * S);
    assert_eq!(v.y(), -2 * S);
    assert_eq!(v.z(), 7);
    let z = Vec3::zero();
    assert_eq!(z.x(), 0);
    assert_eq!(z.y(), 0);
    assert_eq!(z.z(), 0);
}

#[test]
fn vec3_add_sub() {
    let a = Vec3::new(98304, -131072, 16384);
    let b = Vec3::new(32768, 65536, -16384);
    let s = a.add(b);
    assert_eq!((s.x(), s.y(), s.z()), (131072, -65536, 0));
    let d = a.sub(b);
    assert_eq!((d.x(), d.y(), d.z()), (65536, -196608, 32768));
}

#[test]
fn vec3_scale_truncates_toward_zero() {
    let v = Vec3::new(98304, -131072, 16384);
    let h = v.mul(32768); // scale by one half
    assert_eq!((h.x(), h.y(), h.z()), (49152, -65536, 8192));
    // -3 raw units halved is -1.5 raw, truncated toward zero to -1
    let w = Vec3::new(-3, 3, 0).mul(32768);
    assert_eq!((w.x(), w.y(), w.z()), (-1, 1, 0));
}

#[test]
fn vec3_div_by_scalar() {
    let v = Vec3::new(S, -S, 0);
    let t = v.div(3 * S); // divide by three
    assert_eq!((t.x(), t.y(), t.z()), (21845, -21845, 0));
}

#[test]
fn vec3_dot_product() {
    let a = Vec3::new(S, 2 * S, 3 * S);
    let b = Vec3::new(4 * S, 5 * S, 6 * S);
    assert_eq!(a.dot(&b), 32 * S);
    assert_eq!(b.dot(&a), 32 * S);
}

#[test]
fn vec3_cross_product() {
    let x = Vec3::new(S, 0, 0);
    let y = Vec3::new(0, S, 0);
    let c = x.cross(&y);
    assert_eq!((c.x(), c.y(), c.z()), (0, 0, S));
    let c2 = y.cross(&x);
    assert_eq!((c2.x(), c2.y(), c2.z()), (0, 0, -S));
}

#[test]
fn vec3_length_and_unit() {
    let v = Vec3::new(3 * S, 4 * S, 0);
    assert_eq!(v.squared_length(), 25 * S);
    assert_eq!(v.length(), 5 * S);
    let u = v.unit_vec();
    // 3/5 and 4/5, truncated at the last fixed-point digit
    assert_eq!((u.x(), u.y(), u.z()), (39321, 52428, 0));
}

#[test]
fn vec3_near_zero_checks_magnitude() {
    assert!(Vec3::zero().near_zero());
    assert!(!Vec3::new(1, 0, 0).near_zero());
    // a negative component is not near zero either
    assert!(!Vec3::new(0, -1, 0).near_zero());
}

#[test]
fn ray_at_parameter() {
    let r = Ray::new(Vec3::new(0, S, 0), Vec3::new(0, 0, -S));
    let p = r.at(98304); // t = 1.5
    assert_eq!((p.x(), p.y(), p.z()), (0, S, -98304));
    assert_eq!(r.origin().y(), S);
    assert_eq!(r.direction().z(), -S);
}

#[test]
fn color_arithmetic() {
    let a = Color::new(16384, 32768, 65536);
    let b = Color::new(16384, 16384, 0);
    let s = a.add(b);
    assert_eq!((s.r(), s.g(), s.b()), (32768, 49152, 65536));
    let d = s.sub(b);
    assert_eq!((d.r(), d.g(), d.b()), (16384, 32768, 65536));
    let h = a.mul(32768);
    assert_eq!((h.r(), h.g(), h.b()), (8192, 16384, 32768));
    let q = a.div(2 * S);
    assert_eq!((q.r(), q.g(), q.b()), (8192, 16384, 32768));
    let m = a.modulate(Color::new(32768, 32768, 32768));
    assert_eq!((m.r(), m.g(), m.b()), (8192, 16384, 32768));
}

#[test]
fn color_black_is_zero() {
    let c = Color::black();
    assert_eq!((c.r(), c.g(), c.b()), (0, 0, 0));
}

#[test]
fn correct_color_in_range_is_identity() {
    let c = Color { r: 16384, g: 32768, b: 65536 };
    let d = c.correct_color();
    assert_eq!((d.r(), d.g(), d.b()), (16384, 32768, 65536));
    let e = Color::black().correct_color();
    assert_eq!((e.r(), e.g(), e.b()), (0, 0, 0));
}

#[test]
fn correct_color_rescales_by_max() {
    // (2, 1, 0) becomes (1, 0.5, 0)
    let c = Color { r: 2 * S, g: S, b: 0 }.correct_color();
    assert_eq!((c.r(), c.g(), c.b()), (S, 32768, 0));
    // new() applies the same policy
    let d = Color::new(2 * S, S, 0);
    assert_eq!((d.r(), d.g(), d.b()), (S, 32768, 0));
}

#[test]
fn clamp_bounds() {
    assert_eq!(raytrace::color::clamp(-5, 0, 10), 0);
    assert_eq!(raytrace::color::clamp(7, 0, 10), 7);
    assert_eq!(raytrace::color::clamp(99, 0, 10), 10);
}

#[test]
fn vec3_to_color_applies_correction() {
    let c = Vec3::new(2 * S, S, 0).to_color();
    assert_eq!((c.r(), c.g(), c.b()), (S, 32768, 0));
    let d = Vec3::new(16384, 32768, 0).to_color();
    assert_eq!((d.r(), d.g(), d.b()), (16384, 32768, 0));
}

#[test]
fn color_to_string_encoding() {
    assert_eq!(Color::black().to_string(), "0 0 0");
    let w = Color { r: S, g: S, b: S };
    assert_eq!(w.to_string(), "255 255 255");
    // 0.25 has square root 0.5, which encodes to 128
    let q = Color { r: 16384, g: 16384, b: 16384 };
    assert_eq!(q.to_string(), "128 128 128");
    let mixed = Color { r: 16384, g: S, b: 0 };
    assert_eq!(mixed.to_string(), "128 255 0");
    // a dim channel: sqrt(2^24) scales to a two-digit value
    let dim = Color { r: 256, g: 256, b: 256 };
    assert_eq!(dim.to_string(), "16 16 16");
}
