//! The mutable working raster of the diffusion pass.
//!
//! Each pixel of the working buffer is a triple of single-precision floats in
//! the unit interval: the pixel's encoded-sRGB channels, plus whatever error
//! earlier pixels have diffused into it. The floats themselves live inside
//! `palette`'s color types behind an opaque struct; verified code sees the
//! buffer only through [`buffer_cells`], which gives every cell as the IEEE-754
//! bit patterns of its three channels, and through the small trusted wrappers
//! below, each of which performs one step of floating-point color work with
//! the `palette` crate and states its effect on [`buffer_cells`].

use vstd::prelude::*;

use palette::color_difference::ImprovedCiede2000;
use palette::Clamp;
use palette::IntoColor;

use crate::fbits::{in_unit3, is_nan_bits};

verus! {

/// One buffer cell: the bit patterns of the three channel floats.
pub type Cell = (u32, u32, u32);

/// One palette entry or output pixel: three channel bytes.
pub type Rgb8 = (u8, u8, u8);

/// The bit pattern of the unit-interval float that `palette` assigns to the
/// channel byte `b`: the exact float `b` scaled by the reciprocal of 255 —
/// within one ulp of `b / 255`, with 0 and 255 mapping exactly to the ends.
/// Named, not defined: the value is fixed by IEEE-754 arithmetic, which the
/// library does not model.
pub uninterp spec fn unit_of(b: u8) -> u32;

/// The three channels of a byte triple as unit-interval floats.
pub open spec fn units_of(p: Rgb8) -> Cell {
    (unit_of(p.0), unit_of(p.1), unit_of(p.2))
}

/// The contents of a working buffer: one [`Cell`] of channel bit patterns per
/// pixel, in row-major order.
pub uninterp spec fn buffer_cells(b: WorkingBuffer) -> Seq<Cell>;

/// The bit pattern of the improved CIEDE2000 difference between the L*a*b*
/// color of a stored float triple (`cell`, given by its bit patterns) and the
/// L*a*b* color of a palette entry's byte triple. A pure function of its two
/// arguments; its value is fixed by `palette`'s conversion and difference
/// formulas, which the library does not model.
pub uninterp spec fn diff_of(cell: Cell, entry: Rgb8) -> u32;

/// The updated value of buffer cell `tgt` after one diffusion tap: the old
/// `tgt` value plus `(src - quantized(entry)) * (strength/255) * weight`,
/// clamped per channel into [0, 1], where `weight` is the kernel fraction
/// `num/den`. A pure function of its arguments; its value is fixed by
/// IEEE-754 arithmetic, which the library does not model.
pub uninterp spec fn diffused(
    tgt: Cell,
    src: Cell,
    entry: Rgb8,
    strength: u8,
    num: u8,
    den: u8,
) -> Cell;

/// The working buffer itself. The float triples are stored in `palette`'s
/// sRGB color type; verified code never sees them directly.
#[verifier::external_body]
pub struct WorkingBuffer {
    cells: Vec<palette::Srgb>,
}

impl WorkingBuffer {
    /// Relies on `Vec::new`: a fresh buffer holds no cell.
    #[verifier::external_body]
    pub(crate) fn empty() -> (b: WorkingBuffer)
        ensures
            buffer_cells(b).len() == 0,
    {
        WorkingBuffer { cells: Vec::new() }
    }

    /// Relies on `palette::Srgb::into_format`, which maps each channel byte
    /// `b` to the float `b` scaled by the reciprocal of 255 — a pure function
    /// of the byte, in [0, 1] — and on `Vec::push`.
    #[verifier::external_body]
    pub(crate) fn push_pixel(&mut self, p: Rgb8)
        ensures
            buffer_cells(*final(self)) == buffer_cells(*old(self)).push(
                (unit_of(p.0), unit_of(p.1), unit_of(p.2)),
            ),
            in_unit3(buffer_cells(*final(self))[buffer_cells(*old(self)).len() as int]),
    {
        let c: palette::Srgb = palette::Srgb::new(p.0, p.1, p.2).into_format();
        self.cells.push(c);
    }

    /// Relies on `Vec::len`.
    #[verifier::external_body]
    pub(crate) fn cell_count(&self) -> (n: usize)
        ensures
            n == buffer_cells(*self).len(),
    {
        self.cells.len()
    }

    /// Relies on `f32::to_bits`, which returns the IEEE-754 bit pattern of a
    /// float: reads back the three channel patterns of cell `i`.
    #[verifier::external_body]
    pub(crate) fn cell_bits(&self, i: usize) -> (r: Cell)
        requires
            i < buffer_cells(*self).len(),
        ensures
            r == buffer_cells(*self)[i as int],
    {
        let c = self.cells[i];
        (c.red.to_bits(), c.green.to_bits(), c.blue.to_bits())
    }

    /// Relies on `palette`'s sRGB → linear sRGB → L*a*b* conversion
    /// (`into_linear`, `IntoColor::into_color`) and on the improved CIEDE2000
    /// difference (`ImprovedCiede2000::improved_difference`). All of these are
    /// pure functions of their operands, so the difference depends only on the
    /// stored float triple and the entry bytes; [`diff_of`] names its bit
    /// pattern. The difference formula is a square root scaled by positive
    /// constants (`1.43 * ciede2000(a, b).powf(0.7)`), so a non-NaN result is
    /// non-negative, i.e. its sign bit is clear.
    #[verifier::external_body]
    pub(crate) fn diff_key(&self, i: usize, entry: Rgb8) -> (r: u32)
        requires
            i < buffer_cells(*self).len(),
        ensures
            r == diff_of(buffer_cells(*self)[i as int], entry),
            !is_nan_bits(r) ==> r < 0x8000_0000u32,
    {
        let c = self.cells[i];
        let pixel_lab: palette::Lab = c.into_linear().into_color();
        let e: palette::Srgb = palette::Srgb::new(entry.0, entry.1, entry.2).into_format();
        let entry_lab: palette::Lab = e.into_linear().into_color();
        pixel_lab.improved_difference(entry_lab).to_bits()
    }

    /// Adds one weighted share of pixel `src`'s quantization error into cell
    /// `tgt` and clamps. Relies on `palette`'s component-wise `Sub`, `Mul`,
    /// `Div` and `Clamp` on its sRGB float type, i.e. on IEEE-754 `f32`
    /// arithmetic: the error is `(cells[src] - quantized) * (strength/255) *
    /// (num/den)` (each fraction as `palette`'s byte scaling or a quotient of
    /// such values), where `quantized` is the entry's byte triple read back as
    /// unit-interval floats (deliberately without re-applying gamma removal),
    /// and every channel of `cells[tgt] + error_share` is clamped into [0, 1].
    /// [`diffused`] names the updated cell, a pure function of the arguments.
    /// Because clamping bounds each channel, a unit-interval source and target
    /// give a unit-interval result; and a source cell exactly equal to the
    /// quantized entry gives a zero error, which leaves the target unchanged.
    #[verifier::external_body]
    pub(crate) fn diffuse_into(
        &mut self,
        src: usize,
        entry: Rgb8,
        strength: u8,
        num: u8,
        den: u8,
        tgt: usize,
    )
        requires
            src < buffer_cells(*old(self)).len(),
            tgt < buffer_cells(*old(self)).len(),
            1 <= den,
        ensures
            buffer_cells(*final(self)) == buffer_cells(*old(self)).update(
                tgt as int,
                diffused(
                    buffer_cells(*old(self))[tgt as int],
                    buffer_cells(*old(self))[src as int],
                    entry,
                    strength,
                    num,
                    den,
                ),
            ),
            in_unit3(buffer_cells(*old(self))[tgt as int]) && in_unit3(
                buffer_cells(*old(self))[src as int],
            ) ==> in_unit3(buffer_cells(*final(self))[tgt as int]),
            in_unit3(buffer_cells(*old(self))[tgt as int]) && buffer_cells(*old(self))[src as int]
                == units_of(entry) ==> buffer_cells(*final(self))[tgt as int] == buffer_cells(
                *old(self),
            )[tgt as int],
    {
        let quant: palette::Srgb = palette::Srgb::new(entry.0, entry.1, entry.2).into_format();
        let st: palette::Srgb = palette::Srgb::new(strength, strength, strength).into_format();
        let wn: palette::Srgb = palette::Srgb::new(num, num, num).into_format();
        let wd: palette::Srgb = palette::Srgb::new(den, den, den).into_format();
        let error = (self.cells[src] - quant) * st * (wn / wd);
        self.cells[tgt] = (self.cells[tgt] + error).clamp();
    }

    /// Builds a working buffer from a raster of byte pixels in row-major
    /// order: every cell is the pixel's channels as unit-interval floats.
    pub fn from_pixels(px: &Vec<Rgb8>) -> (b: WorkingBuffer)
        ensures
            buffer_cells(b) == px@.map_values(|p: Rgb8| units_of(p)),
            buffer_cells(b).len() == px@.len(),
            forall|i: int| 0 <= i < buffer_cells(b).len() ==> in_unit3(#[trigger] buffer_cells(b)[i]),
    {
        let mut b = WorkingBuffer::empty();
        let mut i: usize = 0;
        while i < px.len()
            invariant
                i <= px@.len(),
                buffer_cells(b) =~= px@.take(i as int).map_values(|p: Rgb8| units_of(p)),
                forall|j: int| 0 <= j < i ==> in_unit3(#[trigger] buffer_cells(b)[j]),
            decreases px@.len() - i,
        {
            b.push_pixel(px[i]);
            proof {
                assert(px@.take(i + 1).map_values(|p: Rgb8| units_of(p)) =~= px@.take(
                    i as int,
                ).map_values(|p: Rgb8| units_of(p)).push(units_of(px@[i as int])));
            }
            i = i + 1;
        }
        proof {
            assert(px@.take(px@.len() as int) =~= px@);
        }
        b
    }

    /// Reads the whole buffer back as channel bit patterns, cell by cell.
    pub fn snapshot(&self) -> (v: Vec<Cell>)
        ensures
            v@ == buffer_cells(*self),
    {
        let n = self.cell_count();
        let mut v: Vec<Cell> = Vec::new();
        let mut i: usize = 0;
        while i < n
            invariant
                i <= n,
                n == buffer_cells(*self).len(),
                v@ =~= buffer_cells(*self).take(i as int),
            decreases n - i,
        {
            v.push(self.cell_bits(i));
            i = i + 1;
        }
        proof {
            assert(buffer_cells(*self).take(n as int) =~= buffer_cells(*self));
        }
        v
    }
}

} // verus!
