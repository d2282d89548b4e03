//! Sphere intersection and scene nearest-hit resolution.

use raytrace::color::Color;
use raytrace::fixed::FX_ONE;
use raytrace::hittable::{HittableList, Sphere};
use raytrace::material::{Lambertian, Material};
use raytrace::ray::Ray;
use raytrace::vec3::Vec3;

const S: i64 = FX_ONE;

fn gray() -> Material {
    Material::Lambertian(Lambertian::new(Color::new(32768, 32768, 32768)))
}

#[test]
fn sphere_head_on_hit() {
    // Sphere two units ahead with radius one half: the near root is the
    // distance to the center minus the radius, exactly.
    let sphere = Sphere::new(Vec3::new(0, 0, -2 * S), 32768, gray());
    let ray = Ray::new(Vec3::zero(), Vec3::new(0, 0, -S));
    let rec = sphere.hit(&ray, 0, 1 << 24).expect("head-on ray must hit");
    assert_eq!(rec.t, 98304); // 2.0 - 0.5
    assert_eq!((rec.p.x(), rec.p.y(), rec.p.z()), (0, 0, -98304));
    // the normal is a unit vector parallel to (hit point - center)
    assert_eq!((rec.normal.x(), rec.normal.y(), rec.normal.z()), (0, 0, S));
    assert_eq!(rec.normal.squared_length(), S);
    assert!(rec.front_face);
    assert!(matches!(rec.material, Material::Lambertian(_)));
}

#[test]
fn sphere_missed_sideways() {
    let sphere = Sphere::new(Vec3::new(0, 0, -2 * S), 32768, gray());
    let up = Ray::new(Vec3::zero(), Vec3::new(0, S, 0));
    assert!(sphere.hit(&up, 0, 1 << 24).is_none());
}

#[test]
fn sphere_hit_from_inside_flips_normal() {
    // Ray from the center of the sphere: the outward normal points along
    // the ray, so front_face is false and the stored normal is flipped to
    // face the incoming direction.
    let sphere = Sphere::new(Vec3::new(0, 0, -2 * S), 32768, gray());
    let ray = Ray::new(Vec3::new(0, 0, -2 * S), Vec3::new(0, 0, -S));
    let rec = sphere.hit(&ray, 0, 1 << 24).expect("interior ray must hit");
    assert_eq!(rec.t, 32768); // the radius
    assert!(!rec.front_face);
    assert_eq!((rec.normal.x(), rec.normal.y(), rec.normal.z()), (0, 0, S));
    // the returned normal faces the incoming ray
    assert!(rec.normal.dot(ray.direction()) <= 0);
}

#[test]
fn sphere_front_face_matches_direction_sign() {
    let sphere = Sphere::new(Vec3::new(0, 0, -2 * S), 32768, gray());
    let outside = Ray::new(Vec3::zero(), Vec3::new(0, 0, -S));
    let rec_out = sphere.hit(&outside, 0, 1 << 24).unwrap();
    // outward normal (0,0,1); direction (0,0,-1): negative dot, front face
    assert!(rec_out.front_face);
    assert!(rec_out.normal.dot(outside.direction()) <= 0);
    let inside = Ray::new(Vec3::new(0, 0, -2 * S), Vec3::new(0, 0, S));
    let rec_in = sphere.hit(&inside, 0, 1 << 24).unwrap();
    assert!(!rec_in.front_face);
    assert!(rec_in.normal.dot(inside.direction()) <= 0);
}

#[test]
fn sphere_respects_window() {
    let sphere = Sphere::new(Vec3::new(0, 0, -2 * S), 32768, gray());
    let ray = Ray::new(Vec3::zero(), Vec3::new(0, 0, -S));
    // both roots (1.5 and 2.5) lie beyond a window ending at 1.0
    assert!(sphere.hit(&ray, 0, S).is_none());
    // a window starting past the near root yields the far root
    let rec = sphere.hit(&ray, 2 * S, 1 << 24).unwrap();
    assert_eq!(rec.t, 163840); // 2.5
    assert!(!rec.front_face);
}

#[test]
fn scene_picks_nearest_hit() {
    let near = Sphere::new(Vec3::new(0, 0, -2 * S), 32768, gray());
    let far = Sphere::new(Vec3::new(0, 0, -4 * S), 32768, gray());
    let ray = Ray::new(Vec3::zero(), Vec3::new(0, 0, -S));

    let mut world = HittableList::new();
    world.add(near);
    world.add(far);
    let rec = world.hit(&ray, 0, 1 << 24).expect("scene must hit");
    assert_eq!(rec.t, 98304);

    // container order does not change the nearest hit
    let mut reversed = HittableList::new();
    reversed.add(far);
    reversed.add(near);
    let rec2 = reversed.hit(&ray, 0, 1 << 24).unwrap();
    assert_eq!(rec2.t, 98304);

    // the far sphere alone is hit at 3.5
    let mut only_far = HittableList::new();
    only_far.add(far);
    assert_eq!(only_far.hit(&ray, 0, 1 << 24).unwrap().t, 229376);
}

#[test]
fn scene_reports_no_hit() {
    let mut world = HittableList::new();
    world.add(Sphere::new(Vec3::new(0, 0, -2 * S), 32768, gray()));
    world.add(Sphere::new(Vec3::new(0, -100 * S, -2 * S), 64 * S, gray()));
    // a ray fired straight up passes outside every sphere
    let up = Ray::new(Vec3::zero(), Vec3::new(0, S, 0));
    assert!(world.hit(&up, 66, 1 << 24).is_none());
    // an empty scene never hits
    let empty = HittableList::new();
    assert!(empty.hit(&up, 66, 1 << 24).is_none());
}

#[test]
fn scene_add_and_clear() {
    let mut world = HittableList::new();
    assert_eq!(world.objects.len(), 0);
    world.add(Sphere::new(Vec3::new(0, 0, -2 * S), 32768, gray()));
    world.add(Sphere::new(Vec3::new(0, 0, -4 * S), 32768, gray()));
    assert_eq!(world.objects.len(), 2);
    world.clear();
    assert_eq!(world.objects.len(), 0);
}
