//! The error-diffusion engine: nearest-color search and the raster pass.
//!
//! The pass visits pixels in raster order. At each pixel it finds the palette
//! entry with the smallest improved-CIEDE2000 difference (first entry wins
//! ties), writes that entry to the output, and spreads the quantization error
//! over twelve forward neighbors with the Jarvis-Judice-Ninke kernel,
//! skipping neighbors that fall outside the raster. The whole pass is
//! specified as a mathematical function of the initial buffer contents, the
//! palette, the dimensions and the strength, so the result is deterministic.

use vstd::prelude::*;

use crate::buffer::{buffer_cells, diff_of, diffused, units_of, Cell, Rgb8, WorkingBuffer};
use crate::fbits::{f32_lt, in_unit3, is_nan_bits};
use crate::palette_index::Palette;
use crate::DitherError;

verus! {

/// Whether some palette entry's difference to `cell` is NaN, which makes the
/// comparison — and the whole pass — fail.
pub open spec fn pixel_has_nan(cell: Cell, entries: Seq<Rgb8>) -> bool {
    exists|j: int| 0 <= j < entries.len() && is_nan_bits(diff_of(cell, #[trigger] entries[j]))
}

/// The index of the first palette entry among `entries[..n]` with minimal
/// difference to `cell`: a candidate replaces the running best only when its
/// difference is strictly smaller.
pub open spec fn best_upto(cell: Cell, entries: Seq<Rgb8>, n: int) -> int
    decreases n,
{
    if n <= 1 {
        0
    } else {
        let p = best_upto(cell, entries, n - 1);
        if f32_lt(diff_of(cell, entries[n - 1]), diff_of(cell, entries[p])) {
            n - 1
        } else {
            p
        }
    }
}

/// Finds the palette entry perceptually closest to buffer cell `i`.
///
/// Returns the index of the first entry with minimal improved-CIEDE2000
/// difference; no other entry has a strictly smaller difference, and every
/// entry before the returned one has a strictly larger one. If any entry's
/// difference is NaN the comparison fails with [`DitherError::Comparison`];
/// and if some entry's difference is exactly zero — a perceptually exact
/// match — the returned entry's difference is zero.
pub fn find_closest_color(buf: &WorkingBuffer, i: usize, pal: &Palette) -> (r: Result<
    usize,
    DitherError,
>)
    requires
        pal.wf(),
        i < buffer_cells(*buf).len(),
    ensures
        ({
            let cell = buffer_cells(*buf)[i as int];
            let entries = pal.entries@;
            &&& (r is Ok <==> !pixel_has_nan(cell, entries))
            &&& (r is Err ==> r == Err::<usize, _>(DitherError::Comparison))
            &&& (r is Ok ==> {
                let k = r.unwrap() as int;
                &&& 0 <= k < entries.len()
                &&& k == best_upto(cell, entries, entries.len() as int)
                &&& (forall|j: int|
                    0 <= j < entries.len() ==> !f32_lt(
                        diff_of(cell, #[trigger] entries[j]),
                        diff_of(cell, entries[k]),
                    ))
                &&& (forall|j: int|
                    0 <= j < k ==> f32_lt(diff_of(cell, entries[k]), diff_of(cell, #[trigger] entries[j])))
                &&& ((exists|j: int|
                    0 <= j < entries.len() && diff_of(cell, #[trigger] entries[j]) == 0) ==> diff_of(
                    cell,
                    entries[k],
                ) == 0)
            })
        }),
{
    let ghost cell = buffer_cells(*buf)[i as int];
    let ghost entries = pal.entries@;
    let len = pal.entries.len();
    let k0 = buf.diff_key(i, pal.entries[0]);
    if crate::fbits::is_nan_exec(k0) {
        return Err(DitherError::Comparison);
    }
    let mut best: usize = 0;
    let mut best_key: u32 = k0;
    let mut j: usize = 1;
    while j < len
        invariant
            1 <= j <= len,
            len == entries.len(),
            pal.entries@ == entries,
            cell == buffer_cells(*buf)[i as int],
            i < buffer_cells(*buf).len(),
            best < j,
            best_key == diff_of(cell, entries[best as int]),
            best == best_upto(cell, entries, j as int),
            forall|m: int|
                0 <= m < j ==> !is_nan_bits(diff_of(cell, #[trigger] entries[m])) && diff_of(
                    cell,
                    #[trigger] entries[m],
                ) < 0x8000_0000u32,
            forall|m: int|
                0 <= m < j ==> !f32_lt(
                    diff_of(cell, #[trigger] entries[m]),
                    diff_of(cell, entries[best as int]),
                ),
            forall|m: int|
                0 <= m < best ==> f32_lt(
                    diff_of(cell, entries[best as int]),
                    diff_of(cell, #[trigger] entries[m]),
                ),
        decreases len - j,
    {
        let kj = buf.diff_key(i, pal.entries[j]);
        if crate::fbits::is_nan_exec(kj) {
            return Err(DitherError::Comparison);
        }
        if crate::fbits::f32_lt_bits(kj, best_key) {
            best = j;
            best_key = kj;
        }
        j = j + 1;
    }
    Ok(best)
}

/// The common denominator of the kernel weights.
pub const KERNEL_DEN: u8 = 48;

/// The Jarvis-Judice-Ninke kernel: twelve forward taps `(dx, dy, num)`, each
/// carrying `num/48` of the quantization error.
pub open spec fn kernel_spec() -> Seq<(i8, i8, u8)> {
    seq![
        (1i8, 0i8, 7u8),
        (2i8, 0i8, 5u8),
        (-2i8, 1i8, 3u8),
        (-1i8, 1i8, 5u8),
        (0i8, 1i8, 7u8),
        (1i8, 1i8, 5u8),
        (2i8, 1i8, 3u8),
        (-2i8, 2i8, 1u8),
        (-1i8, 2i8, 3u8),
        (0i8, 2i8, 5u8),
        (1i8, 2i8, 3u8),
        (2i8, 2i8, 1u8),
    ]
}

/// Every kernel tap points strictly forward in raster order: never at the
/// current pixel, never above it, and at most two columns and rows away.
pub proof fn lemma_kernel_props()
    ensures
        kernel_spec().len() == 12,
        forall|t: int|
            0 <= t < 12 ==> {
                let tap = #[trigger] kernel_spec()[t];
                &&& -2 <= tap.0 as int <= 2
                &&& 0 <= tap.1 as int <= 2
                &&& 1 <= tap.2 <= 7
                &&& !(tap.0 as int == 0 && tap.1 as int == 0)
            },
{
    assert forall|t: int|
        0 <= t < 12 implies {
        let tap = #[trigger] kernel_spec()[t];
        &&& -2 <= tap.0 as int <= 2
        &&& 0 <= tap.1 as int <= 2
        &&& 1 <= tap.2 <= 7
        &&& !(tap.0 as int == 0 && tap.1 as int == 0)
    } by {
        if t == 0 {
        } else if t == 1 {
        } else if t == 2 {
        } else if t == 3 {
        } else if t == 4 {
        } else if t == 5 {
        } else if t == 6 {
        } else if t == 7 {
        } else if t == 8 {
        } else if t == 9 {
        } else if t == 10 {
        }
    }
}

/// The kernel taps as a runtime list, in kernel order.
pub fn kernel_offsets() -> (v: Vec<(i8, i8, u8)>)
    ensures
        v@ == kernel_spec(),
{
    let mut v: Vec<(i8, i8, u8)> = Vec::new();
    v.push((1i8, 0i8, 7u8));
    v.push((2i8, 0i8, 5u8));
    v.push((-2i8, 1i8, 3u8));
    v.push((-1i8, 1i8, 5u8));
    v.push((0i8, 1i8, 7u8));
    v.push((1i8, 1i8, 5u8));
    v.push((2i8, 1i8, 3u8));
    v.push((-2i8, 2i8, 1u8));
    v.push((-1i8, 2i8, 3u8));
    v.push((0i8, 2i8, 5u8));
    v.push((1i8, 2i8, 3u8));
    v.push((2i8, 2i8, 1u8));
    proof {
        assert(v@ =~= kernel_spec());
    }
    v
}

/// The sum of the weight numerators of a tap list.
pub open spec fn weight_sum(taps: Seq<(i8, i8, u8)>) -> int
    decreases taps.len(),
{
    if taps.len() == 0 {
        0
    } else {
        weight_sum(taps.drop_last()) + taps.last().2
    }
}

/// The kernel's weights sum to exactly one: the numerators over the common
/// denominator 48 add up to 48, so no error energy is created or lost where
/// no tap leaves the raster.
pub proof fn lemma_kernel_weights_sum()
    ensures
        weight_sum(kernel_spec()) == KERNEL_DEN,
{
    reveal_with_fuel(weight_sum, 13);
}

/// The boundary policy of the pass, exactly as the diffusion loop checks it:
/// the target column must exist, and the target row must not be past the
/// bottom. (`y + dy` is never negative for forward taps, so no lower row
/// check is needed.)
pub open spec fn tap_in_bounds(x: int, y: int, dx: int, dy: int, w: int, h: int) -> bool {
    0 <= x + dx && x + dx < w && y + dy < h
}

/// The buffer contents after the first `t` kernel taps of the pixel at
/// `(x, y)` have been applied: each in-bounds tap updates its target cell
/// with one weighted, clamped share of the pixel's quantization error;
/// out-of-bounds taps are skipped and their share of the error is lost.
pub open spec fn apply_taps(
    cells: Seq<Cell>,
    x: int,
    y: int,
    w: int,
    h: int,
    src: Cell,
    entry: Rgb8,
    strength: u8,
    t: int,
) -> Seq<Cell>
    decreases t,
{
    if t <= 0 {
        cells
    } else {
        let prev = apply_taps(cells, x, y, w, h, src, entry, strength, t - 1);
        let tap = kernel_spec()[t - 1];
        if tap_in_bounds(x, y, tap.0 as int, tap.1 as int, w, h) {
            let ti = (y + tap.1 as int) * w + (x + tap.0 as int);
            prev.update(ti, diffused(prev[ti], src, entry, strength, tap.2, KERNEL_DEN))
        } else {
            prev
        }
    }
}

/// Row-major indexing is injective: two in-range column offsets can only give
/// the same index in the same row and column.
pub proof fn lemma_rowmajor_inj(a: int, b: int, c: int, d: int, w: int)
    by (nonlinear_arith)
    requires
        0 <= b < w,
        0 <= d < w,
        a * w + b == c * w + d,
    ensures
        a == c,
        b == d,
{
}

/// A row-major index of an in-range position is in range.
pub proof fn lemma_rowmajor_bound(yy: int, xx: int, h: int, w: int)
    by (nonlinear_arith)
    requires
        0 <= yy < h,
        0 <= xx < w,
    ensures
        0 <= yy * w + xx < h * w,
        yy * w + xx < w * h,
        yy * w <= yy * w + xx,
{
}

/// A positive raster area bounds each dimension.
pub proof fn lemma_dim_bounds(w: int, h: int)
    by (nonlinear_arith)
    requires
        1 <= w,
        1 <= h,
        w * h < 0x8000_0000,
    ensures
        w < 0x8000_0000,
        h < 0x8000_0000,
{
}

/// Processes one pixel of the pass: quantizes cell `(x, y)` to its nearest
/// palette entry, returns that entry as the output pixel, and diffuses the
/// quantization error into the in-bounds forward neighbors. A NaN difference
/// aborts the step with [`DitherError::Comparison`] and leaves the buffer
/// untouched. Every cell stays in the unit interval.
pub fn dither_step(
    buf: &mut WorkingBuffer,
    x: usize,
    y: usize,
    width: usize,
    height: usize,
    pal: &Palette,
    strength: u8,
) -> (r: Result<Rgb8, DitherError>)
    requires
        pal.wf(),
        x < width,
        y < height,
        buffer_cells(*old(buf)).len() == (width as int) * (height as int),
        (width as int) * (height as int) < 0x8000_0000,
        forall|i: int|
            0 <= i < buffer_cells(*old(buf)).len() ==> in_unit3(
                #[trigger] buffer_cells(*old(buf))[i],
            ),
    ensures
        ({
            let cells0 = buffer_cells(*old(buf));
            let n = y as int * width as int + x as int;
            let cell = cells0[n];
            let entries = pal.entries@;
            &&& buffer_cells(*final(buf)).len() == cells0.len()
            &&& (forall|i: int|
                0 <= i < cells0.len() ==> in_unit3(#[trigger] buffer_cells(*final(buf))[i]))
            &&& (r is Ok <==> !pixel_has_nan(cell, entries))
            &&& (r is Err ==> r == Err::<Rgb8, _>(DitherError::Comparison) && buffer_cells(
                *final(buf),
            ) == cells0)
            &&& (r is Ok ==> r.unwrap() == entries[best_upto(cell, entries, entries.len() as int)]
                && buffer_cells(*final(buf)) == apply_taps(
                cells0,
                x as int,
                y as int,
                width as int,
                height as int,
                cell,
                r.unwrap(),
                strength,
                12,
            ))
            &&& (r is Ok && cell == units_of(r.unwrap()) ==> buffer_cells(*final(buf)) == cells0)
        }),
{
    let ghost cells0 = buffer_cells(*old(buf));
    let ghost entries = pal.entries@;
    proof {
        lemma_rowmajor_bound(y as int, x as int, height as int, width as int);
        lemma_dim_bounds(width as int, height as int);
    }
    let n = y * width + x;
    let ghost cell = cells0[n as int];
    let k = match find_closest_color(buf, n, pal) {
        Ok(k) => k,
        Err(e) => {
            return Err(e);
        },
    };
    let entry = pal.entries[k];
    let kern = kernel_offsets();
    proof {
        lemma_kernel_props();
    }
    let mut t: usize = 0;
    while t < 12
        invariant
            t <= 12,
            kern@ == kernel_spec(),
            x < width,
            y < height,
            (width as int) < 0x8000_0000,
            (height as int) < 0x8000_0000,
            n == y * width + x,
            n < buffer_cells(*buf).len(),
            (width as int) * (height as int) < 0x8000_0000,
            cells0.len() == (width as int) * (height as int),
            entry == entries[best_upto(cell, entries, entries.len() as int)],
            buffer_cells(*buf) == apply_taps(
                cells0,
                x as int,
                y as int,
                width as int,
                height as int,
                cell,
                entry,
                strength,
                t as int,
            ),
            buffer_cells(*buf).len() == cells0.len(),
            buffer_cells(*buf)[n as int] == cell,
            in_unit3(cell),
            cell == units_of(entry) ==> buffer_cells(*buf) == cells0,
            forall|i: int|
                0 <= i < buffer_cells(*buf).len() ==> in_unit3(#[trigger] buffer_cells(*buf)[i]),
        decreases 12 - t,
    {
        proof {
            lemma_kernel_props();
        }
        let (dx, dy, num) = kern[t];
        let nx = x as i64 + dx as i64;
        let ny = y as i64 + dy as i64;
        let ghost before = buffer_cells(*buf);
        if nx >= 0 && nx < width as i64 && ny < height as i64 {
            proof {
                lemma_rowmajor_bound(ny as int, nx as int, height as int, width as int);
            }
            let ti = (ny as usize) * width + (nx as usize);
            proof {
                if ti as int == n as int {
                    lemma_rowmajor_inj(ny as int, nx as int, y as int, x as int, width as int);
                    assert(false);
                }
            }
            buf.diffuse_into(n, entry, strength, num, KERNEL_DEN, ti);
            proof {
                assert(buffer_cells(*buf) == before.update(
                    ti as int,
                    diffused(before[ti as int], cell, entry, strength, num, KERNEL_DEN),
                ));
                if cell == units_of(entry) {
                    assert(buffer_cells(*buf) =~= before);
                }
            }
        }
        t = t + 1;
    }
    Ok(entry)
}

/// Integer division bounds a row index: a raster index below `w * h` sits in
/// a row below `h`.
pub proof fn lemma_div_bound(n: int, w: int, h: int)
    by (nonlinear_arith)
    requires
        0 <= n,
        1 <= w,
        n < w * h,
    ensures
        0 <= n / w < h,
        w * (n / w) + n % w == n,
{
}

/// The state of the pass after its first `n` pixels, as a mathematical
/// function of the initial buffer contents, the palette entries, the raster
/// dimensions and the strength: the output pixels written so far and the
/// current buffer contents, or [`DitherError::Comparison`] if some visited
/// pixel's difference to a palette entry was NaN.
pub open spec fn pass_upto(
    cells0: Seq<Cell>,
    entries: Seq<Rgb8>,
    w: int,
    h: int,
    strength: u8,
    n: nat,
) -> Result<(Seq<Rgb8>, Seq<Cell>), DitherError>
    decreases n,
{
    if n == 0 {
        Ok((Seq::empty(), cells0))
    } else {
        match pass_upto(cells0, entries, w, h, strength, (n - 1) as nat) {
            Err(e) => Err(e),
            Ok(st) => {
                let x = (n - 1) % w;
                let y = (n - 1) / w;
                let cell = st.1[n - 1];
                if pixel_has_nan(cell, entries) {
                    Err(DitherError::Comparison)
                } else {
                    let k = best_upto(cell, entries, entries.len() as int);
                    let e = entries[k];
                    Ok(
                        (
                            st.0.push(e),
                            apply_taps(st.1, x, y, w, h, cell, e, strength, 12),
                        ),
                    )
                }
            },
        }
    }
}

/// Once the pass has failed it stays failed: a NaN comparison at any pixel
/// makes every longer prefix of the pass fail too.
pub proof fn lemma_pass_err_stays(
    cells0: Seq<Cell>,
    entries: Seq<Rgb8>,
    w: int,
    h: int,
    strength: u8,
    n1: nat,
    n2: nat,
)
    requires
        n1 <= n2,
        pass_upto(cells0, entries, w, h, strength, n1) is Err,
    ensures
        pass_upto(cells0, entries, w, h, strength, n2) is Err,
        pass_upto(cells0, entries, w, h, strength, n2) == pass_upto(
            cells0,
            entries,
            w,
            h,
            strength,
            n1,
        ),
    decreases n2,
{
    if n2 > n1 {
        lemma_pass_err_stays(cells0, entries, w, h, strength, n1, (n2 - 1) as nat);
    }
}

/// Determinism: the pass is a mathematical function of the initial buffer
/// contents, the palette entries, the dimensions and the strength alone. Two
/// runs over equal inputs give equal outputs and equal final buffers — or
/// fail at the same pixel. Dithering is not idempotent, but it is
/// reproducible.
pub proof fn lemma_pass_deterministic(
    cells1: Seq<Cell>,
    entries1: Seq<Rgb8>,
    cells2: Seq<Cell>,
    entries2: Seq<Rgb8>,
    w: int,
    h: int,
    strength: u8,
    n: nat,
)
    requires
        cells1 == cells2,
        entries1 == entries2,
    ensures
        pass_upto(cells1, entries1, w, h, strength, n) == pass_upto(
            cells2,
            entries2,
            w,
            h,
            strength,
            n,
        ),
{
}

/// Runs the full error-diffusion pass over the working buffer, in raster
/// order, and returns the output pixels in raster order.
///
/// The result and the final buffer contents are exactly [`pass_upto`] over
/// the whole raster: quantize each pixel to the first nearest palette entry,
/// then diffuse the error forward. A NaN difference anywhere aborts with
/// [`DitherError::Comparison`] and no output. Every buffer cell stays in the
/// unit interval throughout.
pub fn dither_pass(
    buf: &mut WorkingBuffer,
    width: usize,
    height: usize,
    pal: &Palette,
    strength: u8,
) -> (r: Result<Vec<Rgb8>, DitherError>)
    requires
        pal.wf(),
        1 <= strength,
        buffer_cells(*old(buf)).len() == (width as int) * (height as int),
        (width as int) * (height as int) < 0x8000_0000,
        forall|i: int|
            0 <= i < buffer_cells(*old(buf)).len() ==> in_unit3(
                #[trigger] buffer_cells(*old(buf))[i],
            ),
    ensures
        ({
            let cells0 = buffer_cells(*old(buf));
            let full = pass_upto(
                cells0,
                pal.entries@,
                width as int,
                height as int,
                strength,
                ((width as int) * (height as int)) as nat,
            );
            &&& (r is Ok <==> full is Ok)
            &&& (r is Ok ==> full == Ok::<_, DitherError>(
                (r.unwrap()@, buffer_cells(*final(buf))),
            ))
            &&& (r is Ok ==> r.unwrap()@.len() == cells0.len())
            &&& (r is Err ==> r == Err::<Vec<Rgb8>, _>(DitherError::Comparison))
            &&& buffer_cells(*final(buf)).len() == cells0.len()
            &&& (forall|i: int|
                0 <= i < cells0.len() ==> in_unit3(#[trigger] buffer_cells(*final(buf))[i]))
            &&& (r is Ok && pal.entries@.len() == 1 && (forall|i: int|
                0 <= i < cells0.len() ==> #[trigger] cells0[i] == units_of(pal.entries@[0]))
                ==> buffer_cells(*final(buf)) == cells0 && (forall|i: int|
                0 <= i < r.unwrap()@.len() ==> #[trigger] r.unwrap()@[i] == pal.entries@[0]))
        }),
{
    let ghost cells0 = buffer_cells(*buf);
    let ghost entries = pal.entries@;
    let total = width * height;
    let mut out: Vec<Rgb8> = Vec::new();
    let mut n: usize = 0;
    while n < total
        invariant
            n <= total,
            total == (width as int) * (height as int),
            total < 0x8000_0000,
            pal.wf(),
            pal.entries@ == entries,
            1 <= strength,
            cells0 == buffer_cells(*old(buf)),
            cells0.len() == (width as int) * (height as int),
            buffer_cells(*buf).len() == cells0.len(),
            out@.len() == n,
            pass_upto(cells0, entries, width as int, height as int, strength, n as nat)
                == Ok::<_, DitherError>((out@, buffer_cells(*buf))),
            (entries.len() == 1 && (forall|i: int|
                0 <= i < cells0.len() ==> #[trigger] cells0[i] == units_of(entries[0])))
                ==> buffer_cells(*buf) == cells0 && (forall|i: int|
                0 <= i < out@.len() ==> #[trigger] out@[i] == entries[0]),
            forall|i: int|
                0 <= i < buffer_cells(*buf).len() ==> in_unit3(#[trigger] buffer_cells(*buf)[i]),
        decreases total - n,
    {
        let ghost cells_n = buffer_cells(*buf);
        let x = n % width;
        let y = n / width;
        proof {
            lemma_div_bound(n as int, width as int, height as int);
            assert((y as int) * (width as int) == (width as int) * (y as int)) by (nonlinear_arith);
            assert((y as int) * (width as int) + (x as int) == n as int);
        }
        match dither_step(buf, x, y, width, height, pal, strength) {
            Ok(e) => {
                out.push(e);
            },
            Err(err) => {
                proof {
                    assert(pass_upto(
                        cells0,
                        entries,
                        width as int,
                        height as int,
                        strength,
                        (n + 1) as nat,
                    ) is Err);
                    lemma_pass_err_stays(
                        cells0,
                        entries,
                        width as int,
                        height as int,
                        strength,
                        (n + 1) as nat,
                        total as nat,
                    );
                }
                return Err(err);
            },
        }
        n = n + 1;
    }
    Ok(out)
}

/// Quantizes and dithers a whole raster of byte pixels against the palette:
/// builds the working buffer, runs the pass, and returns the output pixels in
/// raster order. The result is exactly [`pass_upto`] over the buffer built
/// from the input pixels, so equal inputs always give equal outputs.
pub fn dither_image(
    pixels: &Vec<Rgb8>,
    width: usize,
    height: usize,
    pal: &Palette,
    strength: u8,
) -> (r: Result<Vec<Rgb8>, DitherError>)
    requires
        pal.wf(),
        1 <= strength,
        pixels@.len() == (width as int) * (height as int),
        (width as int) * (height as int) < 0x8000_0000,
    ensures
        ({
            let cells0 = pixels@.map_values(|p: Rgb8| units_of(p));
            let full = pass_upto(
                cells0,
                pal.entries@,
                width as int,
                height as int,
                strength,
                ((width as int) * (height as int)) as nat,
            );
            &&& (r is Ok <==> full is Ok)
            &&& (r is Ok ==> r.unwrap()@ == full.unwrap().0 && r.unwrap()@.len() == pixels@.len())
            &&& (r is Err ==> r == Err::<Vec<Rgb8>, _>(DitherError::Comparison))
            &&& (r is Ok && pal.entries@.len() == 1 && (forall|i: int|
                0 <= i < pixels@.len() ==> #[trigger] pixels@[i] == pal.entries@[0])
                ==> r.unwrap()@ =~= pixels@)
        }),
{
    let mut buf = WorkingBuffer::from_pixels(pixels);
    dither_pass(&mut buf, width, height, pal, strength)
}

} // verus!
