use raytracer::color_convert::{
    gamma_decode, gamma_encode, rgba_to_vec3, vec3_to_rgb, Rgb8, Rgba8,
};
use raytracer::fx::{Fx, SCALE};
use raytracer::vector::Vec3;

fn gray(raw: i64) -> Vec3 {
    Vec3 { x: Fx { raw }, y: Fx { raw }, z: Fx { raw } }
}

#[test]
fn gamma_fixes_zero_and_one() {
    assert_eq!(gamma_encode(gray(0)), gray(0));
    assert_eq!(gamma_encode(gray(SCALE)), gray(SCALE));
    assert_eq!(gamma_decode(gray(0)), gray(0));
    assert_eq!(gamma_decode(gray(SCALE)), gray(SCALE));
}

#[test]
fn gamma_decode_darkens_and_encode_brightens() {
    // 0.5^2.2 is about 0.2176; 0.5^(1/2.2) is about 0.7297.
    let half = SCALE / 2;
    assert_eq!(gamma_decode(gray(half)).x.raw, 14263);
    assert_eq!(gamma_encode(gray(half)).x.raw, 47825);
}

#[test]
fn gamma_round_trip_stays_close() {
    for &raw in &[0, 1, 7, 100, 4096, SCALE / 3, SCALE / 2, 50000, SCALE - 1, SCALE] {
        let x = gray(raw);
        let back = gamma_decode(gamma_encode(x)).x.raw;
        assert!(back >= raw, "round trip fell short: {} -> {}", raw, back);
        assert!(back - raw <= 2, "round trip overshot: {} -> {}", raw, back);
    }
}

#[test]
fn pack_black_and_white_pixels() {
    assert_eq!(vec3_to_rgb(gray(0)), Rgb8 { r: 0, g: 0, b: 0 });
    assert_eq!(vec3_to_rgb(gray(SCALE)), Rgb8 { r: 255, g: 255, b: 255 });
    // Out-of-range channels are clamped before packing.
    assert_eq!(vec3_to_rgb(gray(3 * SCALE)), Rgb8 { r: 255, g: 255, b: 255 });
    assert_eq!(vec3_to_rgb(gray(-SCALE)), Rgb8 { r: 0, g: 0, b: 0 });
}

#[test]
fn unpack_texels_to_linear() {
    let white = rgba_to_vec3(Rgba8 { r: 255, g: 255, b: 255, a: 7 });
    assert_eq!(white, gray(SCALE));
    let black = rgba_to_vec3(Rgba8 { r: 0, g: 0, b: 0, a: 0 });
    assert_eq!(black, gray(0));
    // A mid gray decodes below one half: 0.5^2.2 < 0.5.
    let mid = rgba_to_vec3(Rgba8 { r: 128, g: 128, b: 128, a: 255 });
    assert!(mid.x.raw < SCALE / 2);
    assert!(mid.x.raw > 0);
}

#[test]
fn byte_round_trip_through_linear() {
    for &b in &[0u8, 1, 17, 64, 128, 200, 254, 255] {
        let linear = rgba_to_vec3(Rgba8 { r: b, g: b, b: b, a: 255 });
        let packed = vec3_to_rgb(linear);
        assert!(
            (packed.r as i32 - b as i32).abs() <= 1,
            "byte {} came back as {}",
            b,
            packed.r
        );
    }
}
