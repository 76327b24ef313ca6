//! Parsing of `#RRGGBB` hex color strings.
//!
//! A palette is configured as a list of hex strings: an optional leading `#`
//! followed by exactly six hex digits, upper or lower case. Anything else is
//! rejected with [`DitherError::PaletteParse`].

use vstd::prelude::*;

use crate::DitherError;

verus! {

/// Whether `c` is an ASCII hex digit (`0-9`, `a-f`, `A-F`).
pub open spec fn is_hex_digit_char(c: char) -> bool {
    (48 <= c as u32 && c as u32 <= 57) || (97 <= c as u32 && c as u32 <= 102) || (65 <= c as u32
        && c as u32 <= 70)
}

/// The numeric value of a hex digit character.
pub open spec fn spec_hex_val(c: char) -> u8 {
    if 48 <= c as u32 && c as u32 <= 57 {
        (c as u32 - 48) as u8
    } else if 97 <= c as u32 && c as u32 <= 102 {
        (c as u32 - 87) as u8
    } else {
        (c as u32 - 55) as u8
    }
}

/// The digit positions of a hex color string: everything after one optional
/// leading `#`.
pub open spec fn hex_digits(s: Seq<char>) -> Seq<char> {
    if s.len() > 0 && s[0] == '#' {
        s.skip(1)
    } else {
        s
    }
}

/// A valid hex color string: exactly six hex digits after the optional `#`.
pub open spec fn valid_hex(s: Seq<char>) -> bool {
    hex_digits(s).len() == 6 && (forall|i: int|
        0 <= i < 6 ==> is_hex_digit_char(#[trigger] hex_digits(s)[i]))
}

/// Channel `k` (0 = red, 1 = green, 2 = blue) of a valid hex color string.
pub open spec fn spec_hex_byte(s: Seq<char>, k: int) -> u8 {
    (spec_hex_val(hex_digits(s)[2 * k]) as int * 16 + spec_hex_val(
        hex_digits(s)[2 * k + 1],
    ) as int) as u8
}

/// The numeric value of one hex digit character, or `None` when `c` is not a
/// hex digit.
fn hex_digit_value(c: char) -> (r: Option<u8>)
    ensures
        r is Some <==> is_hex_digit_char(c),
        is_hex_digit_char(c) ==> r == Some(spec_hex_val(c)) && spec_hex_val(c) < 16,
{
    let u = c as u32;
    if 48 <= u && u <= 57 {
        Some((u - 48) as u8)
    } else if 97 <= u && u <= 102 {
        Some((u - 87) as u8)
    } else if 65 <= u && u <= 70 {
        Some((u - 55) as u8)
    } else {
        None
    }
}

/// Parses an `#RRGGBB` hex color string into its three channel bytes.
///
/// Succeeds exactly on the strings that [`valid_hex`] accepts, and then
/// returns exactly the three encoded bytes; every other input is rejected
/// with [`DitherError::PaletteParse`].
pub fn parse_hex(hex: &str) -> (r: Result<(u8, u8, u8), DitherError>)
    ensures
        r is Ok <==> valid_hex(hex@),
        valid_hex(hex@) ==> r == Ok::<_, DitherError>(
            (spec_hex_byte(hex@, 0), spec_hex_byte(hex@, 1), spec_hex_byte(hex@, 2)),
        ),
        !valid_hex(hex@) ==> r == Err::<(u8, u8, u8), _>(DitherError::PaletteParse),
{
    let n = hex.unicode_len();
    let off: usize = if n >= 1 && hex.get_char(0) == '#' {
        1
    } else {
        0
    };
    if n - off != 6 {
        return Err(DitherError::PaletteParse);
    }
    let c0 = hex.get_char(off);
    let c1 = hex.get_char(off + 1);
    let c2 = hex.get_char(off + 2);
    let c3 = hex.get_char(off + 3);
    let c4 = hex.get_char(off + 4);
    let c5 = hex.get_char(off + 5);
    proof {
        assert(hex@[off as int] == hex_digits(hex@)[0]);
        assert(hex@[off + 1] == hex_digits(hex@)[1]);
        assert(hex@[off + 2] == hex_digits(hex@)[2]);
        assert(hex@[off + 3] == hex_digits(hex@)[3]);
        assert(hex@[off + 4] == hex_digits(hex@)[4]);
        assert(hex@[off + 5] == hex_digits(hex@)[5]);
    }
    let h0 = hex_digit_value(c0);
    let h1 = hex_digit_value(c1);
    let h2 = hex_digit_value(c2);
    let h3 = hex_digit_value(c3);
    let h4 = hex_digit_value(c4);
    let h5 = hex_digit_value(c5);
    match (h0, h1, h2, h3, h4, h5) {
        (Some(v0), Some(v1), Some(v2), Some(v3), Some(v4), Some(v5)) => {
            assert forall|j: int| 0 <= j < 6 implies is_hex_digit_char(
                #[trigger] hex_digits(hex@)[j],
            ) by {
                if j == 0 {
                } else if j == 1 {
                } else if j == 2 {
                } else if j == 3 {
                } else if j == 4 {
                }
            }
            let red = v0 * 16 + v1;
            let green = v2 * 16 + v3;
            let blue = v4 * 16 + v5;
            Ok((red, green, blue))
        },
        _ => Err(DitherError::PaletteParse),
    }
}

} // verus!
