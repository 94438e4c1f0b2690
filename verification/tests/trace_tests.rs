use raytracer::coloration::{Color, Coloration};
use raytracer::fx::{Fx, SCALE};
use raytracer::intersection::Intersection;
use raytracer::material::{Material, SurfaceType};
use raytracer::objects::{Object, Sphere};
use raytracer::ray::Ray;
use raytracer::scene::Scene;
use raytracer::vector::Vec3;

fn fxv(x: i64, y: i64, z: i64) -> Vec3 {
    Vec3 { x: Fx::from_int(x), y: Fx::from_int(y), z: Fx::from_int(z) }
}

fn diffuse_white() -> Material {
    Material {
        color: Coloration::Solid(Color { color: fxv(1, 1, 1) }),
        surface: SurfaceType::Diffuse,
        albedo: Fx { raw: 11796 },
    }
}

fn sphere_at(z: i64, radius: i64) -> Object {
    Object::Sphere(
        Sphere { center: fxv(0, 0, z), radius: Fx::from_int(radius), material: diffuse_white() },
    )
}

fn scene_with(objects: Vec<Object>) -> Scene {
    Scene {
        width: 4,
        height: 3,
        fov: Fx::from_int(90),
        samples: 1,
        shadow_bias: Fx { raw: 16 },
        max_recursion_depth: 5,
        objects,
        lights: Vec::new(),
    }
}

fn axis_ray() -> Ray {
    Ray { origin: fxv(0, 0, 0), direction: fxv(0, 0, -1) }
}

#[test]
fn trace_empty_scene_finds_nothing() {
    let scene = scene_with(Vec::new());
    assert!(scene.check());
    assert_eq!(scene.trace(&axis_ray()), None);
}

#[test]
fn trace_returns_the_closest_object() {
    let scene = scene_with(vec![sphere_at(-9, 1), sphere_at(-5, 1), sphere_at(-7, 1)]);
    assert!(scene.check());
    let hit = scene.trace(&axis_ray()).expect("the axis ray hits all three spheres");
    assert_eq!(hit, Intersection { distance: Fx { raw: 4 * SCALE }, object_index: 1 });
}

#[test]
fn trace_ties_go_to_the_first_object() {
    let scene = scene_with(vec![sphere_at(-5, 1), sphere_at(-5, 1)]);
    let hit = scene.trace(&axis_ray()).expect("the axis ray hits both spheres");
    assert_eq!(hit.object_index, 0);
}

#[test]
fn trace_ignores_objects_behind_the_origin() {
    let scene = scene_with(vec![sphere_at(9, 1), sphere_at(-6, 1)]);
    let hit = scene.trace(&axis_ray()).expect("one sphere is in front");
    assert_eq!(hit, Intersection { distance: Fx { raw: 5 * SCALE }, object_index: 1 });
}

#[test]
fn scene_check_rejects_bad_parameters() {
    // Portrait raster: width must exceed height.
    let mut scene = scene_with(Vec::new());
    scene.width = 3;
    scene.height = 4;
    assert!(!scene.check());
    // A sample count that is no perfect square.
    let mut scene = scene_with(Vec::new());
    scene.samples = 3;
    assert!(!scene.check());
    // A nonpositive radius.
    let scene = scene_with(vec![sphere_at(-5, 0)]);
    assert!(!scene.check());
    // A negative shadow bias.
    let mut scene = scene_with(Vec::new());
    scene.shadow_bias = Fx { raw: -1 };
    assert!(!scene.check());
}
