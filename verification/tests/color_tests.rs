//! Spot checks of the reference sRGB -> linear -> L*a*b* conversions that the
//! library's trusted wrappers rely on, run against the `palette` crate itself.

use palette::{IntoColor, Lab, Srgb};

fn lab_of_bytes(r: u8, g: u8, b: u8) -> Lab {
    let srgb: Srgb<f32> = Srgb::new(r, g, b).into_format();
    srgb.into_linear().into_color()
}

#[test]
fn black_maps_to_lab_origin() {
    let lab = lab_of_bytes(0, 0, 0);
    assert!(lab.l.abs() < 1e-3, "l = {}", lab.l);
    assert!(lab.a.abs() < 1e-3, "a = {}", lab.a);
    assert!(lab.b.abs() < 1e-3, "b = {}", lab.b);
}

#[test]
fn white_maps_to_full_lightness() {
    let lab = lab_of_bytes(255, 255, 255);
    assert!((lab.l - 100.0).abs() < 1e-2, "l = {}", lab.l);
    assert!(lab.a.abs() < 1e-2, "a = {}", lab.a);
    assert!(lab.b.abs() < 1e-2, "b = {}", lab.b);
}

#[test]
fn mid_gray_is_neutral() {
    let lab = lab_of_bytes(0x80, 0x80, 0x80);
    // A neutral gray has no chroma; its lightness sits between the extremes.
    assert!(lab.a.abs() < 1e-2, "a = {}", lab.a);
    assert!(lab.b.abs() < 1e-2, "b = {}", lab.b);
    assert!(lab.l > 40.0 && lab.l < 65.0, "l = {}", lab.l);
}

#[test]
fn channel_bytes_scale_into_the_unit_interval() {
    // palette converts a channel byte as `b * (1/255).recip()`-style scaling:
    // within one ulp of b / 255, with 0 and 255 mapping exactly to the ends.
    let srgb: Srgb<f32> = Srgb::new(51u8, 102u8, 255u8).into_format();
    assert!((srgb.red - 51.0 / 255.0).abs() <= f32::EPSILON);
    assert!((srgb.green - 102.0 / 255.0).abs() <= f32::EPSILON);
    assert_eq!(srgb.blue, 1.0);
    let zero: Srgb<f32> = Srgb::new(0u8, 0u8, 0u8).into_format();
    assert_eq!(zero.red, 0.0);
}
