//! The fixed, ordered palette the dithering pass quantizes against.
//!
//! A palette is built once from an ordered list of hex color strings. Each
//! entry keeps the parsed output byte triple; the perceptual comparison
//! against an entry happens in the nearest-color search, which derives the
//! entry's L*a*b* color from these same bytes. Entry order matters only for
//! tie-breaking: the first entry at minimum difference wins.

use vstd::prelude::*;

use crate::buffer::Rgb8;
use crate::hex::{spec_hex_byte, valid_hex};
use crate::DitherError;

verus! {

/// An ordered, non-empty list of output byte triples.
#[derive(Debug)]
pub struct Palette {
    /// The output byte triple of each entry, in configuration order.
    pub entries: Vec<Rgb8>,
}

impl Palette {
    /// A palette is well formed when it holds at least one entry.
    pub open spec fn wf(self) -> bool {
        self.entries@.len() >= 1
    }

    /// The parsed byte triple of the hex string `s`.
    pub open spec fn spec_entry_of(s: Seq<char>) -> Rgb8 {
        (spec_hex_byte(s, 0), spec_hex_byte(s, 1), spec_hex_byte(s, 2))
    }

    /// Builds the palette from an ordered list of hex color strings.
    ///
    /// Succeeds exactly when the list is non-empty and every string is valid
    /// `#RRGGBB` hex; the entries are then the parsed byte triples in the
    /// same order. An empty list gives [`DitherError::EmptyPalette`]; a
    /// malformed string gives [`DitherError::PaletteParse`].
    pub fn from_hex(hexes: &Vec<String>) -> (r: Result<Palette, DitherError>)
        ensures
            r is Ok <==> hexes@.len() >= 1 && (forall|i: int|
                0 <= i < hexes@.len() ==> valid_hex(#[trigger] hexes@[i]@)),
            r is Ok ==> {
                let p = r.unwrap();
                &&& p.wf()
                &&& p.entries@.len() == hexes@.len()
                &&& forall|i: int|
                    0 <= i < hexes@.len() ==> #[trigger] p.entries@[i] == Self::spec_entry_of(
                        hexes@[i]@,
                    )
            },
            hexes@.len() == 0 ==> r == Err::<Palette, _>(DitherError::EmptyPalette),
            r is Err && hexes@.len() >= 1 ==> r == Err::<Palette, _>(DitherError::PaletteParse),
    {
        if hexes.len() == 0 {
            return Err(DitherError::EmptyPalette);
        }
        let mut entries: Vec<Rgb8> = Vec::new();
        let mut i: usize = 0;
        while i < hexes.len()
            invariant
                i <= hexes@.len(),
                entries@.len() == i,
                forall|j: int| 0 <= j < i ==> valid_hex(#[trigger] hexes@[j]@),
                forall|j: int|
                    0 <= j < i ==> #[trigger] entries@[j] == Self::spec_entry_of(hexes@[j]@),
            decreases hexes@.len() - i,
        {
            match crate::hex::parse_hex(hexes[i].as_str()) {
                Ok(p) => {
                    entries.push(p);
                },
                Err(_) => {
                    return Err(DitherError::PaletteParse);
                },
            }
            i = i + 1;
        }
        Ok(Palette { entries })
    }
}

} // verus!
