use raytracer::fx::{Fx, SCALE};
use raytracer::lights::{DirectionalLight, Light, LightDistance, SphericalLight};
use raytracer::render::fresnel;
use raytracer::vector::Vec3;

fn fxv(x: i64, y: i64, z: i64) -> Vec3 {
    Vec3 { x: Fx::from_int(x), y: Fx::from_int(y), z: Fx::from_int(z) }
}

#[test]
fn directional_light_is_infinitely_far() {
    let l = Light::Directional(
        DirectionalLight {
            direction: fxv(0, 0, -1),
            color: fxv(1, 1, 1),
            intensity: Fx::from_int(5),
        },
    );
    assert_eq!(l.distance(&fxv(7, 7, 7)), LightDistance::Unbounded);
    // The direction toward the light opposes the light's own direction.
    assert_eq!(l.direction_from(&fxv(0, 0, 0)), fxv(0, 0, 1));
    // No falloff: the intensity is the same everywhere.
    assert_eq!(l.intensity(&fxv(0, 0, 0)), Fx::from_int(5));
    assert_eq!(l.intensity(&fxv(9, 9, 9)), Fx::from_int(5));
}

#[test]
fn spherical_light_falls_off_with_the_square_of_distance() {
    let l = Light::Spherical(
        SphericalLight {
            position: fxv(0, 0, 2),
            color: fxv(1, 1, 1),
            intensity: Fx::from_int(1000),
        },
    );
    assert_eq!(l.distance(&fxv(0, 0, 0)), LightDistance::Finite(Fx::from_int(2)));
    // 1000 / (4 * pi * 2^2) in fixed point.
    assert_eq!(l.intensity(&fxv(0, 0, 0)).raw, 1303799);
    // Twice as far: a quarter of the power (up to truncation).
    let near = l.intensity(&fxv(0, 0, 0)).raw;
    let far = l.intensity(&fxv(0, 0, -2)).raw;
    assert!((near - 4 * far).abs() <= 4, "near {} far {}", near, far);
    assert_eq!(l.direction_from(&fxv(0, 0, 0)), fxv(0, 0, 1));
}

#[test]
fn fresnel_at_normal_incidence_reflects_four_percent() {
    // Glass at straight-on incidence: ((1.5 - 1) / (1.5 + 1))^2 = 0.04.
    let kr = fresnel(fxv(0, 0, -1), fxv(0, 0, 1), Fx { raw: 98304 });
    assert_eq!(kr.raw, 2621);
}

#[test]
fn fresnel_total_internal_reflection_is_one() {
    // Leaving glass at a grazing angle: the sine of the transmitted angle
    // passes one, so everything reflects.
    let incident = Vec3 { x: Fx { raw: 64000 }, y: Fx { raw: 0 }, z: Fx { raw: 14000 } };
    let kr = fresnel(incident, fxv(0, 0, 1), Fx { raw: 98304 });
    assert_eq!(kr.raw, SCALE);
}
