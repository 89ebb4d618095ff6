//! Lock-screen text geometry for its fixed-advance bitmap font: widths count
//! rendered characters, not UTF-8 bytes.
use vstd::prelude::*;

use crate::text::str_chars;

verus! {

/// Horizontal advance of one bitmap glyph, in pixels.
pub const BITMAP_GLYPH_ADVANCE: u32 = 8;

/// `n * advance` for the character count taken as a `u32` (modulo
/// 2^32), saturating at `u32::MAX`.
pub open spec fn saturated_width(n: nat) -> u32 {
    let m = n % 0x1_0000_0000;
    if m * 8 > u32::MAX {
        u32::MAX
    } else {
        (m * 8) as u32
    }
}

/// Width of `text`: characters times the glyph advance (saturating).
pub fn bitmap_text_width(text: &str) -> (r: u32)
    ensures
        r == saturated_width(text@.len()),
{
    let n = str_chars(text).len() as u64;
    let m = (n % 0x1_0000_0000) as u32;
    if m > 0x1fff_ffff {
        assert(m * 8 > u32::MAX) by (nonlinear_arith)
            requires
                m > 0x1fff_ffff,
        ;
        u32::MAX
    } else {
        m * BITMAP_GLYPH_ADVANCE
    }
}

/// Left edge that centres `text` in `width` pixels (zero when it does not
/// fit).
pub fn centered_bitmap_text_x(width: u32, text: &str) -> (r: u32)
    ensures
        r == (if width >= saturated_width(text@.len()) {
            (width - saturated_width(text@.len())) / 2
        } else {
            0
        }),
{
    let w = bitmap_text_width(text);
    if width >= w {
        (width - w) / 2
    } else {
        0
    }
}

} // verus!
