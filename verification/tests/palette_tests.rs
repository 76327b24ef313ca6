use dither::palette_index::Palette;
use dither::DitherError;

#[test]
fn empty_palette_is_rejected() {
    let hexes: Vec<String> = Vec::new();
    assert_eq!(
        Palette::from_hex(&hexes).unwrap_err(),
        DitherError::EmptyPalette
    );
}

#[test]
fn malformed_entry_is_rejected() {
    let hexes = vec![String::from("#282a36"), String::from("nonsense")];
    assert_eq!(
        Palette::from_hex(&hexes).unwrap_err(),
        DitherError::PaletteParse
    );
}

#[test]
fn entries_keep_order_and_values() {
    let hexes = vec![
        String::from("#282a36"),
        String::from("#f8f8f2"),
        String::from("ff79c6"),
    ];
    let pal = Palette::from_hex(&hexes).unwrap();
    assert_eq!(
        pal.entries,
        vec![(0x28, 0x2a, 0x36), (0xf8, 0xf8, 0xf2), (0xff, 0x79, 0xc6)]
    );
}

#[test]
fn single_entry_palette_is_accepted() {
    let hexes = vec![String::from("#000000")];
    let pal = Palette::from_hex(&hexes).unwrap();
    assert_eq!(pal.entries, vec![(0, 0, 0)]);
}
