use raytracer::coloration::{Color, Coloration};
use raytracer::fx::{Fx, SCALE};
use raytracer::material::{Material, SurfaceType};
use raytracer::objects::{Object, Plane, Sphere};
use raytracer::ray::Ray;
use raytracer::vector::Vec3;

fn fxv(x: i64, y: i64, z: i64) -> Vec3 {
    Vec3 { x: Fx::from_int(x), y: Fx::from_int(y), z: Fx::from_int(z) }
}

fn white_material() -> Material {
    Material {
        color: Coloration::Solid(Color { color: fxv(1, 1, 1) }),
        surface: SurfaceType::Diffuse,
        albedo: Fx { raw: 11796 },
    }
}

fn axis_ray() -> Ray {
    Ray { origin: fxv(0, 0, 0), direction: fxv(0, 0, -1) }
}

#[test]
fn sphere_ahead_hits_at_the_nearer_root() {
    // Unit sphere five units down the axis: the nearer root is at 4.
    let s = Sphere { center: fxv(0, 0, -5), radius: Fx::from_int(1), material: white_material() };
    let hit = s.intersect(&axis_ray());
    assert_eq!(hit, Some(Fx { raw: 4 * SCALE }));
}

#[test]
fn sphere_behind_the_origin_misses() {
    let s = Sphere { center: fxv(0, 0, 5), radius: Fx::from_int(1), material: white_material() };
    assert_eq!(s.intersect(&axis_ray()), None);
}

#[test]
fn sphere_off_axis_misses() {
    let s = Sphere { center: fxv(10, 0, -5), radius: Fx::from_int(1), material: white_material() };
    assert_eq!(s.intersect(&axis_ray()), None);
}

#[test]
fn sphere_from_inside_reports_the_exit_root() {
    // The origin sits inside this sphere: t0 < 0 <= t1, so t1 is reported.
    let s = Sphere { center: fxv(0, 0, -1), radius: Fx::from_int(2), material: white_material() };
    let hit = s.intersect(&axis_ray());
    assert_eq!(hit, Some(Fx { raw: 3 * SCALE }));
}

#[test]
fn sphere_surface_normal_points_outward() {
    let s = Sphere { center: fxv(0, 0, -5), radius: Fx::from_int(1), material: white_material() };
    let n = s.surface_normal(&fxv(0, 0, -4));
    assert_eq!(n, fxv(0, 0, 1));
}

#[test]
fn plane_facing_the_ray_hits_at_distance() {
    let p = Plane {
        origin: fxv(0, 0, -20),
        normal: fxv(0, 0, -1),
        material: white_material(),
    };
    assert_eq!(p.intersect(&axis_ray()), Some(Fx { raw: 20 * SCALE }));
    assert_eq!(p.surface_normal(&fxv(0, 0, -20)), fxv(0, 0, 1));
}

#[test]
fn plane_parallel_to_the_ray_misses() {
    let p = Plane { origin: fxv(0, -2, 0), normal: fxv(0, -1, 0), material: white_material() };
    assert_eq!(p.intersect(&axis_ray()), None);
}

#[test]
fn plane_texture_axes_fall_back_when_degenerate() {
    // A plane whose normal is the first default axis must use the second.
    let p = Plane { origin: fxv(0, 0, -20), normal: fxv(0, 0, -1), material: white_material() };
    let c = p.texture_coords(&fxv(3, 2, -20));
    // x_axis = (0,0,-1) x (0,1,0) = (1,0,0); y_axis = (0,0,-1) x (1,0,0) = (0,-1,0).
    assert_eq!(c.x, Fx::from_int(3));
    assert_eq!(c.y, Fx::from_int(-2));
}

#[test]
fn sphere_texture_coordinates_stay_in_the_unit_square() {
    let s = Sphere { center: fxv(0, 0, -5), radius: Fx::from_int(1), material: white_material() };
    let points = [
        fxv(0, 0, -4),
        fxv(0, 0, -6),
        fxv(1, 0, -5),
        fxv(-1, 0, -5),
        fxv(0, 1, -5),
        fxv(0, -1, -5),
    ];
    for p in &points {
        let c = s.texture_coords(p);
        assert!(0 <= c.x.raw && c.x.raw <= SCALE, "u out of range: {}", c.x.raw);
        assert!(0 <= c.y.raw && c.y.raw <= SCALE, "v out of range: {}", c.y.raw);
    }
    // The two poles map to the two ends of the polar coordinate.
    let top = s.texture_coords(&fxv(0, 1, -5));
    let bottom = s.texture_coords(&fxv(0, -1, -5));
    assert!(top.y.raw < SCALE / 8, "top pole v: {}", top.y.raw);
    assert!(bottom.y.raw > SCALE - SCALE / 8, "bottom pole v: {}", bottom.y.raw);
}

#[test]
fn object_enum_dispatches_to_its_variant() {
    let s = Object::Sphere(
        Sphere { center: fxv(0, 0, -5), radius: Fx::from_int(1), material: white_material() },
    );
    assert_eq!(s.intersect(&axis_ray()), Some(Fx { raw: 4 * SCALE }));
    let p = Object::Plane(
        Plane { origin: fxv(0, 0, -20), normal: fxv(0, 0, -1), material: white_material() },
    );
    assert_eq!(p.intersect(&axis_ray()), Some(Fx { raw: 20 * SCALE }));
}
