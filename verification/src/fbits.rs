//! An integer model of IEEE-754 single-precision values through their bit
//! patterns.
//!
//! The working values of the dithering pass are single-precision floats, which
//! this crate never holds directly: every channel value is represented by the
//! `u32` bit pattern of the float. The definitions here recover, from the bit
//! pattern alone, exactly the pieces the algorithm decides on: whether a value
//! is NaN, how two non-NaN values compare, and whether a value lies in the
//! unit interval.

use vstd::prelude::*;

verus! {

/// The bit pattern of `1.0f32`; every pattern at or below it encodes a value
/// in `[0, 1]`.
pub const ONE_BITS: u32 = 0x3f80_0000;

/// The magnitude part (exponent and fraction) of a bit pattern, i.e. the
/// pattern with the sign bit cleared.
pub open spec fn mag_bits(x: u32) -> u32 {
    (x % 0x8000_0000) as u32
}

/// Whether `x` is the bit pattern of a NaN: magnitude strictly above that of
/// infinity.
pub open spec fn is_nan_bits(x: u32) -> bool {
    mag_bits(x) > 0x7f80_0000
}

/// A signed key that orders bit patterns exactly as IEEE-754 orders the
/// encoded values, as long as neither is NaN: both zeros map to 0, a positive
/// value to its magnitude, a negative value to minus its magnitude.
pub open spec fn f32_key(x: u32) -> int {
    if mag_bits(x) == 0 {
        0
    } else if x >= 0x8000_0000 {
        -(mag_bits(x) as int)
    } else {
        mag_bits(x) as int
    }
}

/// IEEE-754 `<` on the values encoded by `a` and `b`, meaningful when neither
/// is NaN.
pub open spec fn f32_lt(a: u32, b: u32) -> bool {
    f32_key(a) < f32_key(b)
}

/// Whether `x` encodes a value in the unit interval `[0, 1]`: non-negative
/// sign and magnitude at most that of `1.0`.
pub open spec fn in_unit(x: u32) -> bool {
    x <= ONE_BITS
}

/// All three channels of a pixel lie in the unit interval.
pub open spec fn in_unit3(c: (u32, u32, u32)) -> bool {
    in_unit(c.0) && in_unit(c.1) && in_unit(c.2)
}

/// Executable IEEE-754 `<` on bit patterns.
pub fn f32_lt_bits(a: u32, b: u32) -> (r: bool)
    ensures
        r == f32_lt(a, b),
{
    let ma: u32 = a % 0x8000_0000;
    let mb: u32 = b % 0x8000_0000;
    let sa: bool = a >= 0x8000_0000;
    let sb: bool = b >= 0x8000_0000;
    if ma == 0 && mb == 0 {
        false
    } else if ma == 0 {
        !sb
    } else if mb == 0 {
        sa
    } else if sa && sb {
        mb < ma
    } else if sa {
        true
    } else if sb {
        false
    } else {
        ma < mb
    }
}

/// Executable NaN test on bit patterns.
pub fn is_nan_exec(x: u32) -> (r: bool)
    ensures
        r == is_nan_bits(x),
{
    x % 0x8000_0000 > 0x7f80_0000
}

} // verus!
