//! Writing the pixels of the diff image.

use vstd::prelude::*;
use crate::color::{blend, blend_spec, luma_spec, rgb2y};

verus! {

/// Denominator of the opacity of opaque black: an alpha byte counts in 255ths.
pub const ALPHA_SCALE: u32 = 255;

/// The unchanged parts of the first image are drawn with a tenth of their
/// opacity.
pub const BACKGROUND_FADE: u32 = 10;

/// The grey level that stands for the sample at byte offset `i` in the
/// background of the diff image: its luma, drawn over white with a tenth of
/// the sample's own opacity.
pub open spec fn gray_value(img: Seq<u8>, i: int) -> int {
    blend_spec(
        luma_spec(img[i] as int, img[i + 1] as int, img[i + 2] as int),
        img[i + 3] as int,
        BACKGROUND_FADE * ALPHA_SCALE,
    )
}

/// The buffer `out` with the four bytes from `pos` on replaced by an opaque
/// pixel of colour `(r, g, b)`.
pub open spec fn with_pixel(out: Seq<u8>, pos: int, r: u8, g: u8, b: u8) -> Seq<u8> {
    out.update(pos, r).update(pos + 1, g).update(pos + 2, b).update(pos + 3, 255u8)
}

/// Writes an opaque pixel of colour `(r, g, b)` at byte offset `pos`.
pub fn draw_pixel(output: &mut [u8], pos: usize, r: u8, g: u8, b: u8)
    requires
        pos + 4 <= old(output).len(),
    ensures
        final(output)@ == with_pixel(old(output)@, pos as int, r, g, b),
{
    output[pos] = r;
    output[pos + 1] = g;
    output[pos + 2] = b;
    output[pos + 3] = 255;
}

/// Writes at byte offset `i` of `output` the grey pixel that stands for the
/// sample at byte offset `i` of `img`.
pub fn draw_gray_pixel(img: &[u8], i: usize, output: &mut [u8])
    requires
        i + 4 <= img.len(),
        i + 4 <= old(output).len(),
    ensures
        0 <= gray_value(img@, i as int) <= 255,
        final(output)@ == with_pixel(
            old(output)@,
            i as int,
            gray_value(img@, i as int) as u8,
            gray_value(img@, i as int) as u8,
            gray_value(img@, i as int) as u8,
        ),
{
    let r: u8 = img[i];
    let g: u8 = img[i + 1];
    let b: u8 = img[i + 2];
    let val: u8 = blend(rgb2y(r, g, b), img[i + 3] as u32, BACKGROUND_FADE * ALPHA_SCALE);
    draw_pixel(output, i, val, val, val);
}

} // verus!
