use raytracer::coloration::{Color, Coloration, Texture};
use raytracer::color_convert::{Rgb8, Rgba8};
use raytracer::fx::{Fx, SCALE};
use raytracer::lights::{DirectionalLight, Light, SphericalLight};
use raytracer::material::{Material, SurfaceType};
use raytracer::objects::{Object, Plane, Sphere};
use raytracer::ray::Ray;
use raytracer::render::{cast_ray, render, render_pixel};
use raytracer::scene::Scene;
use raytracer::vector::{Vec2, Vec3};

fn fxv(x: i64, y: i64, z: i64) -> Vec3 {
    Vec3 { x: Fx::from_int(x), y: Fx::from_int(y), z: Fx::from_int(z) }
}

fn solid(r: i64, g: i64, b: i64, surface: SurfaceType) -> Material {
    Material {
        color: Coloration::Solid(Color { color: fxv(r, g, b) }),
        surface,
        albedo: Fx { raw: 11796 },
    }
}

fn base_scene(objects: Vec<Object>, lights: Vec<Light>) -> Scene {
    Scene {
        width: 8,
        height: 6,
        fov: Fx::from_int(90),
        samples: 1,
        shadow_bias: Fx { raw: 16 },
        max_recursion_depth: 10,
        objects,
        lights,
    }
}

fn axis_ray() -> Ray {
    Ray { origin: fxv(0, 0, 0), direction: fxv(0, 0, -1) }
}

fn bright_light() -> Light {
    Light::Spherical(
        SphericalLight {
            position: fxv(-2, 10, -3),
            color: fxv(1, 1, 1),
            intensity: Fx::from_int(10000),
        },
    )
}

fn front_sphere(material: Material) -> Object {
    Object::Sphere(Sphere { center: fxv(0, 0, -5), radius: Fx::from_int(2), material })
}

fn backdrop() -> Object {
    Object::Plane(
        Plane {
            origin: fxv(0, 0, -20),
            normal: fxv(0, 0, -1),
            material: solid(1, 0, 0, SurfaceType::Diffuse),
        },
    )
}

#[test]
fn missing_everything_is_black() {
    // A ray that intersects no object gathers the zero color.
    let scene = base_scene(Vec::new(), vec![bright_light()]);
    assert!(scene.check());
    assert_eq!(cast_ray(&scene, &axis_ray(), 0), fxv(0, 0, 0));
}

#[test]
fn zero_recursion_cap_blacks_out_everything() {
    // The cap is checked before any geometry: even a sphere dead ahead
    // stays black.
    let mut scene = base_scene(
        vec![front_sphere(solid(1, 1, 1, SurfaceType::Diffuse))],
        vec![bright_light()],
    );
    scene.max_recursion_depth = 0;
    assert!(scene.check());
    assert_eq!(cast_ray(&scene, &axis_ray(), 0), fxv(0, 0, 0));
    let img = render(&scene);
    assert_eq!(img.len(), 48);
    for p in &img {
        assert_eq!(*p, Rgb8 { r: 0, g: 0, b: 0 });
    }
}

#[test]
fn unlit_sphere_renders_black() {
    // One directional light of zero intensity: the sphere is hit (the
    // axis ray meets it at distance 3) but every shaded pixel is black.
    let scene = base_scene(
        vec![front_sphere(solid(1, 1, 1, SurfaceType::Diffuse))],
        vec![
            Light::Directional(
                DirectionalLight {
                    direction: fxv(0, 0, -1),
                    color: fxv(1, 1, 1),
                    intensity: Fx::from_int(0),
                },
            ),
        ],
    );
    assert!(scene.check());
    let hit = scene.trace(&axis_ray()).expect("the axis ray meets the sphere");
    assert_eq!(hit.distance, Fx { raw: 3 * SCALE });
    let img = render(&scene);
    for p in &img {
        assert_eq!(*p, Rgb8 { r: 0, g: 0, b: 0 });
    }
}

#[test]
fn zero_reflectivity_matches_diffuse_pixel_for_pixel() {
    let reflective = base_scene(
        vec![
            front_sphere(
                solid(0, 1, 0, SurfaceType::Reflective { reflectivity: Fx { raw: 0 } }),
            ),
            backdrop(),
        ],
        vec![bright_light()],
    );
    let diffuse = base_scene(
        vec![front_sphere(solid(0, 1, 0, SurfaceType::Diffuse)), backdrop()],
        vec![bright_light()],
    );
    assert!(reflective.check() && diffuse.check());
    assert_eq!(render(&reflective), render(&diffuse));
}

#[test]
fn refraction_changes_the_picture() {
    // A clear glass sphere in front of a red backdrop cannot look like a
    // white diffuse sphere.
    let glass = base_scene(
        vec![
            front_sphere(
                solid(
                    1,
                    1,
                    1,
                    SurfaceType::Refractive {
                        index: Fx { raw: 98304 },
                        transparency: Fx { raw: SCALE },
                    },
                ),
            ),
            backdrop(),
        ],
        vec![bright_light()],
    );
    let chalk = base_scene(
        vec![front_sphere(solid(1, 1, 1, SurfaceType::Diffuse)), backdrop()],
        vec![bright_light()],
    );
    assert!(glass.check() && chalk.check());
    assert_ne!(render(&glass), render(&chalk));
}

#[test]
fn render_is_deterministic_and_order_free() {
    let scene = base_scene(
        vec![
            front_sphere(
                solid(0, 1, 0, SurfaceType::Reflective { reflectivity: Fx { raw: 45875 } }),
            ),
            backdrop(),
        ],
        vec![bright_light()],
    );
    assert!(scene.check());
    let first = render(&scene);
    let second = render(&scene);
    assert_eq!(first, second);
    // Fill the buffer pixel by pixel in the reverse order: each pixel is
    // a pure function of its coordinates, so the image is identical.
    let mut reversed = vec![Rgb8 { r: 0, g: 0, b: 0 }; 48];
    for y in (0..6u32).rev() {
        for x in (0..8u32).rev() {
            reversed[(y * 8 + x) as usize] = render_pixel(&scene, x, y);
        }
    }
    assert_eq!(first, reversed);
}

#[test]
fn center_pixel_ray_meets_the_unit_sphere_near_four() {
    // A unit sphere five units down the axis, field of view 90 degrees:
    // the ray through the pixel nearest the image center meets it at a
    // distance of about 5 - 1 = 4, and with only a zero-intensity light
    // the shaded center pixel is black.
    let mut scene = base_scene(
        vec![
            Object::Sphere(
                Sphere {
                    center: fxv(0, 0, -5),
                    radius: Fx::from_int(1),
                    material: solid(1, 1, 1, SurfaceType::Diffuse),
                },
            ),
        ],
        vec![
            Light::Directional(
                DirectionalLight {
                    direction: fxv(0, 0, -1),
                    color: fxv(1, 1, 1),
                    intensity: Fx::from_int(0),
                },
            ),
        ],
    );
    scene.width = 32;
    scene.height = 24;
    assert!(scene.check());
    let center_ray = Ray::new_prime(15, 11, 0, &scene);
    let hit = scene.trace(&center_ray).expect("the center ray meets the sphere");
    let four = 4 * SCALE;
    assert!(
        (hit.distance.raw - four).abs() < SCALE / 8,
        "distance raw {} is not near {}",
        hit.distance.raw,
        four
    );
    assert_eq!(render_pixel(&scene, 15, 11), Rgb8 { r: 0, g: 0, b: 0 });
}

#[test]
fn a_blocker_between_light_and_surface_casts_a_shadow() {
    // A floor lit from straight above, with a sphere hanging over one
    // spot: the point under the sphere is shadowed and shades black,
    // while an uncovered point shades bright.
    let scene = base_scene(
        vec![
            Object::Sphere(
                Sphere {
                    center: fxv(0, 0, -5),
                    radius: Fx::from_int(1),
                    material: solid(1, 1, 1, SurfaceType::Diffuse),
                },
            ),
            Object::Plane(
                Plane {
                    origin: fxv(0, -2, 0),
                    normal: fxv(0, -1, 0),
                    material: solid(1, 1, 1, SurfaceType::Diffuse),
                },
            ),
        ],
        vec![
            Light::Directional(
                DirectionalLight {
                    direction: fxv(0, -1, 0),
                    color: fxv(1, 1, 1),
                    intensity: Fx::from_int(1),
                },
            ),
        ],
    );
    assert!(scene.check());
    // Toward the floor right under the sphere.
    let shadowed = Ray {
        origin: fxv(0, 0, 0),
        direction: Vec3::new(Fx::from_int(0), Fx::from_int(-2), Fx::from_int(-5)).normalize(),
    };
    assert_eq!(cast_ray(&scene, &shadowed, 0), fxv(0, 0, 0));
    // Toward an uncovered part of the floor, away from the sphere.
    let lit = Ray {
        origin: fxv(0, 0, 0),
        direction: Vec3::new(Fx::from_int(8), Fx::from_int(-2), Fx::from_int(-5)).normalize(),
    };
    let c = cast_ray(&scene, &lit, 0);
    assert!(c.x.raw > 0 && c.y.raw > 0 && c.z.raw > 0, "lit floor came out {:?}", c);
}

#[test]
fn cast_ray_stays_in_the_unit_cube() {
    // Shading never leaves the unit cube, so pixel packing can never be
    // handed an out-of-range channel, even through glass and mirrors.
    let glass = base_scene(
        vec![
            front_sphere(
                solid(
                    1,
                    1,
                    1,
                    SurfaceType::Refractive {
                        index: Fx { raw: 98304 },
                        transparency: Fx { raw: SCALE },
                    },
                ),
            ),
            backdrop(),
        ],
        vec![bright_light()],
    );
    assert!(glass.check());
    for y in 0..6u32 {
        for x in 0..8u32 {
            let ray = Ray::new_prime(x, y, 0, &glass);
            let c = cast_ray(&glass, &ray, 0);
            for ch in [c.x, c.y, c.z] {
                assert!(0 <= ch.raw && ch.raw <= SCALE, "channel {} out of range", ch.raw);
            }
        }
    }
}

#[test]
fn texture_coordinates_wrap_around() {
    // Four distinct texels in one row: sampling at 1.25 lands on the same
    // texel as 0.25, and -0.25 folds back to 0.75.
    let texels = vec![
        Rgba8 { r: 10, g: 0, b: 0, a: 255 },
        Rgba8 { r: 0, g: 20, b: 0, a: 255 },
        Rgba8 { r: 0, g: 0, b: 30, a: 255 },
        Rgba8 { r: 40, g: 40, b: 40, a: 255 },
    ];
    let tex = Coloration::Image(Texture { width: 4, height: 1, pixels: texels });
    let at = |raw: i64| tex.color(&Vec2 { x: Fx { raw }, y: Fx { raw: 0 } });
    let quarter = SCALE / 4;
    assert_eq!(at(SCALE + quarter), at(quarter));
    assert_eq!(at(-quarter), at(3 * quarter));
    assert_ne!(at(quarter), at(2 * quarter));
}
