//! End-to-end and component tests of the dithering engine, checked against
//! the `palette` crate's own conversions and difference formula.

use dither::buffer::WorkingBuffer;
use dither::engine::{dither_image, dither_step, find_closest_color, kernel_offsets};
use dither::palette_index::Palette;

use palette::color_difference::ImprovedCiede2000;
use palette::{IntoColor, Lab, Srgb};

fn lab_of_bytes(p: (u8, u8, u8)) -> Lab {
    let srgb: Srgb<f32> = Srgb::new(p.0, p.1, p.2).into_format();
    srgb.into_linear().into_color()
}

fn diff_of_bytes(a: (u8, u8, u8), b: (u8, u8, u8)) -> f32 {
    lab_of_bytes(a).improved_difference(lab_of_bytes(b))
}

fn pal_of(hexes: &[&str]) -> Palette {
    let hexes: Vec<String> = hexes.iter().map(|h| String::from(*h)).collect();
    Palette::from_hex(&hexes).unwrap()
}

#[test]
fn kernel_numerators_sum_to_48() {
    let taps = kernel_offsets();
    assert_eq!(taps.len(), 12);
    let sum: u32 = taps.iter().map(|t| t.2 as u32).sum();
    assert_eq!(sum, 48);
}

#[test]
fn kernel_weights_sum_to_one() {
    let taps = kernel_offsets();
    let sum: f32 = taps.iter().map(|t| t.2 as f32 / 48.0).sum();
    assert!((sum - 1.0).abs() < 1e-6, "sum = {}", sum);
}

#[test]
fn buffer_cells_hold_palette_unit_floats() {
    // The stored cells are exactly what palette's byte-to-float conversion
    // gives, channel by channel, and each channel lies in [0, 1].
    let px = vec![(51u8, 0u8, 255u8), (128u8, 64u8, 1u8)];
    let buf = WorkingBuffer::from_pixels(&px);
    let cells = buf.snapshot();
    assert_eq!(cells.len(), 2);
    for (cell, p) in cells.iter().zip(px.iter()) {
        let srgb: Srgb<f32> = Srgb::new(p.0, p.1, p.2).into_format();
        assert_eq!(cell.0, srgb.red.to_bits());
        assert_eq!(cell.1, srgb.green.to_bits());
        assert_eq!(cell.2, srgb.blue.to_bits());
        for bits in [cell.0, cell.1, cell.2] {
            let v = f32::from_bits(bits);
            assert!(v >= 0.0 && v <= 1.0);
        }
    }
    // And the conversion is within one ulp of b / 255.
    let v = f32::from_bits(cells[0].0);
    assert!((v - 51.0 / 255.0).abs() <= f32::EPSILON, "v = {}", v);
}

#[test]
fn exact_match_returns_its_entry() {
    let pal = pal_of(&["#102030", "#50281e", "#c86432"]);
    let buf = WorkingBuffer::from_pixels(&vec![(0x50, 0x28, 0x1e)]);
    assert_eq!(find_closest_color(&buf, 0, &pal), Ok(1));
}

#[test]
fn nearest_matches_brute_force_argmin() {
    let entries = [
        (0x28u8, 0x2au8, 0x36u8),
        (0xf8u8, 0xf8u8, 0xf2u8),
        (0xffu8, 0x79u8, 0xc6u8),
        (0x50u8, 0xfau8, 0x7bu8),
    ];
    let pal = pal_of(&["#282a36", "#f8f8f2", "#ff79c6", "#50fa7b"]);
    let pixel = (90u8, 90u8, 90u8);
    let buf = WorkingBuffer::from_pixels(&vec![pixel]);
    let got = find_closest_color(&buf, 0, &pal).unwrap();
    let mut best = 0usize;
    for j in 1..entries.len() {
        if diff_of_bytes(pixel, entries[j]) < diff_of_bytes(pixel, entries[best]) {
            best = j;
        }
    }
    assert_eq!(got, best);
    for j in 0..entries.len() {
        assert!(diff_of_bytes(pixel, entries[j]) >= diff_of_bytes(pixel, entries[got]));
    }
}

#[test]
fn solid_color_passes_through_unchanged() {
    // A 2x2 raster of exactly one palette entry's output color, full
    // strength: zero error everywhere, output equals input.
    let c = (0xbd, 0x93, 0xf9);
    let pal = pal_of(&["#bd93f9"]);
    let px = vec![c, c, c, c];
    let out = dither_image(&px, 2, 2, &pal, 255).unwrap();
    assert_eq!(out, px);
}

#[test]
fn single_gray_pixel_picks_the_closer_extreme() {
    // A 1x1 raster has no neighbors at all, so every kernel tap is skipped:
    // the output is simply the perceptually closer of black and white.
    let pal = pal_of(&["#000000", "#ffffff"]);
    let px = vec![(0x80u8, 0x80u8, 0x80u8)];
    let out = dither_image(&px, 1, 1, &pal, 255).unwrap();
    let d_black = diff_of_bytes((0x80, 0x80, 0x80), (0, 0, 0));
    let d_white = diff_of_bytes((0x80, 0x80, 0x80), (255, 255, 255));
    let expected = if d_white < d_black {
        (255u8, 255u8, 255u8)
    } else {
        (0u8, 0u8, 0u8)
    };
    assert_eq!(out[0], expected);
}

#[test]
fn interior_pixel_conserves_error() {
    // All twelve taps of the pixel at (2, 0) in a 5x3 raster are in bounds
    // and far from the clamp boundaries, so the error added over the buffer
    // equals strength * (original - quantized) per channel.
    let c = (100u8, 150u8, 200u8);
    let pal = pal_of(&["#000000"]);
    let px = vec![c; 15];
    let mut buf = WorkingBuffer::from_pixels(&px);
    let before = buf.snapshot();
    let out = dither_step(&mut buf, 2, 0, 5, 3, &pal, 255).unwrap();
    assert_eq!(out, (0, 0, 0));
    let after = buf.snapshot();
    let sums = before.iter().zip(after.iter()).fold(
        (0.0f64, 0.0f64, 0.0f64),
        |acc, (b, a)| {
            (
                acc.0 + (f32::from_bits(a.0) - f32::from_bits(b.0)) as f64,
                acc.1 + (f32::from_bits(a.1) - f32::from_bits(b.1)) as f64,
                acc.2 + (f32::from_bits(a.2) - f32::from_bits(b.2)) as f64,
            )
        },
    );
    let err = (
        (100.0 / 255.0) as f64,
        (150.0 / 255.0) as f64,
        (200.0 / 255.0) as f64,
    );
    assert!((sums.0 - err.0).abs() < 1e-5, "{} vs {}", sums.0, err.0);
    assert!((sums.1 - err.1).abs() < 1e-5, "{} vs {}", sums.1, err.1);
    assert!((sums.2 - err.2).abs() < 1e-5, "{} vs {}", sums.2, err.2);
}

#[test]
fn reduced_strength_scales_the_error() {
    let c = (100u8, 150u8, 200u8);
    let pal = pal_of(&["#000000"]);
    let px = vec![c; 15];
    let mut buf = WorkingBuffer::from_pixels(&px);
    let before = buf.snapshot();
    // strength 51/255 = 0.2
    dither_step(&mut buf, 2, 0, 5, 3, &pal, 51).unwrap();
    let after = buf.snapshot();
    let sum_red: f64 = before
        .iter()
        .zip(after.iter())
        .map(|(b, a)| (f32::from_bits(a.0) - f32::from_bits(b.0)) as f64)
        .sum();
    let expected = (51.0 / 255.0) as f64 * (100.0 / 255.0) as f64;
    assert!((sum_red - expected).abs() < 1e-5, "{} vs {}", sum_red, expected);
}

fn pseudo_random_pixels(count: usize, seed: u32) -> Vec<(u8, u8, u8)> {
    let mut state = seed;
    let mut next = || {
        state = state.wrapping_mul(1664525).wrapping_add(1013904223);
        (state >> 24) as u8
    };
    (0..count).map(|_| (next(), next(), next())).collect()
}

#[test]
fn buffer_stays_in_unit_interval() {
    let pal = pal_of(&["#000000", "#ff0000", "#00ff00", "#ffffff"]);
    for (seed, strength) in [(1u32, 255u8), (2, 128), (3, 1), (4, 200)] {
        let px = pseudo_random_pixels(35, seed);
        let mut buf = WorkingBuffer::from_pixels(&px);
        dither_pass_all(&mut buf, 7, 5, &pal, strength);
        for cell in buf.snapshot() {
            for bits in [cell.0, cell.1, cell.2] {
                let v = f32::from_bits(bits);
                assert!(v >= 0.0 && v <= 1.0, "out of range: {}", v);
            }
        }
    }
}

fn dither_pass_all(
    buf: &mut WorkingBuffer,
    width: usize,
    height: usize,
    pal: &Palette,
    strength: u8,
) {
    dither::engine::dither_pass(buf, width, height, pal, strength).unwrap();
}

#[test]
fn identical_runs_give_identical_output() {
    let pal = pal_of(&["#282a36", "#f8f8f2", "#ff79c6", "#50fa7b", "#8be9fd"]);
    let px = pseudo_random_pixels(48, 7);
    let a = dither_image(&px, 8, 6, &pal, 255).unwrap();
    let b = dither_image(&px, 8, 6, &pal, 255).unwrap();
    assert_eq!(a, b);
    // And through an independently built buffer as well.
    let mut buf = WorkingBuffer::from_pixels(&px);
    let c = dither::engine::dither_pass(&mut buf, 8, 6, &pal, 255).unwrap();
    assert_eq!(a, c);
}

#[test]
fn dithering_spreads_quantization_error() {
    // A mid-gray raster against a black-and-white palette must not collapse
    // to a single color: the diffused error pushes later pixels across the
    // decision boundary.
    let pal = pal_of(&["#000000", "#ffffff"]);
    let px = vec![(0x80u8, 0x80u8, 0x80u8); 64];
    let out = dither_image(&px, 8, 8, &pal, 255).unwrap();
    let whites = out.iter().filter(|p| **p == (255, 255, 255)).count();
    let blacks = out.iter().filter(|p| **p == (0, 0, 0)).count();
    assert_eq!(whites + blacks, 64);
    assert!(whites > 0 && blacks > 0, "whites = {}, blacks = {}", whites, blacks);
}
