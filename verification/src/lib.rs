//! Perceptual comparison of two RGBA images of equal size.
//!
//! [`pixelmatch`] counts the pixels whose colours differ by more than a
//! threshold allows and draws a diff image: a faint grey echo of the first
//! image, with the differing pixels in red and the pixels that differ only
//! through anti-aliasing in yellow.
//!
//! All arithmetic is exact. Colours and distances are fixed-point integers,
//! and the threshold is given in millionths.

pub mod antialias;
pub mod color;
pub mod diff;
pub mod grid;
pub mod laws;
pub mod render;
pub mod siblings;

use vstd::prelude::*;
use crate::diff::{
    classify_pixel, diff_count, diff_image, diff_pixel, lemma_max_delta_bound, lemma_rendered_step,
    max_delta, rendered, PixelClass, MAX_DELTA_FACTOR,
};
use crate::grid::{is_image, lemma_pixel_index, lemma_pixel_offset_bound};
use crate::laws::{lemma_same_image_count, lemma_same_image_unchanged};
use crate::render::{draw_gray_pixel, draw_pixel};

verus! {

/// Why two images cannot be compared.
#[derive(Clone, Copy, Debug, PartialEq, Eq, Structural)]
pub enum PixelmatchError {
    /// The two images and the output buffer are not of one length.
    BufferSizeMismatch,
    /// The buffers do not hold `width * height` pixels of four bytes.
    DimensionMismatch,
}

impl PixelmatchError {
    /// The error in words.
    pub fn message(&self) -> (text: &'static str)
        ensures
            text@ == match *self {
                PixelmatchError::BufferSizeMismatch => "Image sizes do not match"@,
                PixelmatchError::DimensionMismatch => "Image data size does not match width/height"@,
            },
    {
        match self {
            PixelmatchError::BufferSizeMismatch => "Image sizes do not match",
            PixelmatchError::DimensionMismatch => "Image data size does not match width/height",
        }
    }
}

/// The error, if any, with which buffers of the given lengths are refused:
/// first for lengths that differ, then for a length that the dimensions do
/// not give.
pub open spec fn size_error(len1: int, len2: int, len_out: int, width: int, height: int) -> Option<
    PixelmatchError,
> {
    if len1 != len2 || len1 != len_out {
        Some(PixelmatchError::BufferSizeMismatch)
    } else if len1 != width * height * 4 {
        Some(PixelmatchError::DimensionMismatch)
    } else {
        None
    }
}

/// The number of bytes of an image of `width` by `height` pixels, unless it
/// is more than a buffer can hold.
pub fn byte_length(width: usize, height: usize) -> (bytes: Option<usize>)
    ensures
        match bytes {
            Some(n) => n == width * height * 4,
            None => width * height * 4 > usize::MAX,
        },
{
    match width.checked_mul(height) {
        Some(pixels) => pixels.checked_mul(4),
        None => None,
    }
}

/// Whether two buffers of one length hold the same bytes.
pub fn images_identical(img1: &[u8], img2: &[u8]) -> (same: bool)
    requires
        img1.len() == img2.len(),
    ensures
        same == (img1@ == img2@),
{
    let mut i: usize = 0;
    while i < img1.len()
        invariant
            img1.len() == img2.len(),
            i <= img1.len(),
            forall|j: int| 0 <= j < i ==> img1@[j] == img2@[j],
        decreases img1.len() - i,
    {
        if img1[i] != img2[i] {
            return false;
        }
        i = i + 1;
    }
    assert(img1@ =~= img2@);
    true
}

/// Compares two images of `width` by `height` pixels, draws the diff image
/// into `output` and returns the number of pixels that differ.
///
/// The three buffers hold RGBA pixels in row-major order. `threshold` is in
/// millionths, so that 100 000 stands for 0.1: a pixel counts as unchanged
/// while the colour distance is at most `35215 * threshold^2`. A smaller
/// threshold makes the comparison more sensitive. A pixel beyond the threshold
/// that belongs to an anti-aliased edge in either image is drawn in yellow and
/// not counted; any other is drawn in red and counted.
///
/// Buffers of different lengths, or of a length other than
/// `width * height * 4`, are refused, and `output` is left as it was. An
/// image without pixels is compared like any other: the count is 0.
pub fn pixelmatch(
    img1: &[u8],
    img2: &[u8],
    output: &mut [u8],
    width: usize,
    height: usize,
    threshold: u32,
) -> (result: Result<usize, PixelmatchError>)
    ensures
        match result {
            Ok(count) => {
                &&& size_error(
                    img1@.len() as int,
                    img2@.len() as int,
                    old(output)@.len() as int,
                    width as int,
                    height as int,
                ) is None
                &&& final(output)@ == diff_image(
                    img1@,
                    img2@,
                    width as int,
                    height as int,
                    max_delta(threshold as int),
                )
                &&& count == diff_count(
                    img1@,
                    img2@,
                    width as int,
                    height as int,
                    max_delta(threshold as int),
                    width * height,
                )
            },
            Err(error) => {
                &&& size_error(
                    img1@.len() as int,
                    img2@.len() as int,
                    old(output)@.len() as int,
                    width as int,
                    height as int,
                ) == Some(error)
                &&& final(output)@ == old(output)@
            },
        },
{
    if img1.len() != img2.len() || img1.len() != output.len() {
        return Err(PixelmatchError::BufferSizeMismatch);
    }
    match byte_length(width, height) {
        Some(bytes) => {
            if img1.len() != bytes {
                return Err(PixelmatchError::DimensionMismatch);
            }
        },
        None => {
            return Err(PixelmatchError::DimensionMismatch);
        },
    }
    let ghost w = width as int;
    let ghost h = height as int;
    let ghost limit = max_delta(threshold as int);
    proof {
        lemma_max_delta_bound(threshold as int);
    }
    let len: usize = width * height;

    if images_identical(img1, img2) {
        let mut i: usize = 0;
        while i < len
            invariant
                img1@ == img2@,
                limit >= 0,
                len == w * h,
                img1.len() == 4 * len,
                output.len() == 4 * len,
                i <= len,
                rendered(output@, img1@, img2@, w, h, limit, 4 * i),
            decreases len - i,
        {
            let ghost before = output@;
            draw_gray_pixel(img1, 4 * i, output);
            proof {
                lemma_same_image_unchanged(img1@, w, h, limit, i as int);
                lemma_rendered_step(before, output@, img1@, img2@, w, h, limit, i as int);
            }
            i = i + 1;
        }
        proof {
            lemma_same_image_count(img1@, w, h, limit, w * h);
            assert(output@ =~= diff_image(img1@, img2@, w, h, limit));
        }
        return Ok(0);
    }
    // the largest acceptable squared distance between two colours
    let max_delta: i128 = MAX_DELTA_FACTOR * ((threshold as i128) * (threshold as i128));
    let mut diff: usize = 0;

    // compare each pixel of one image against the other one
    let mut y: usize = 0;
    while y < height
        invariant
            w == width,
            h == height,
            is_image(img1@, w, h),
            is_image(img2@, w, h),
            len == w * h,
            img1.len() == 4 * len,
            output.len() == 4 * len,
            max_delta == limit,
            y <= height,
            diff <= y * w,
            diff == diff_count(img1@, img2@, w, h, limit, y * w),
            rendered(output@, img1@, img2@, w, h, limit, 4 * (y * w)),
        decreases height - y,
    {
        let mut x: usize = 0;
        while x < width
            invariant
                w == width,
                h == height,
                is_image(img1@, w, h),
                is_image(img2@, w, h),
                len == w * h,
                img1.len() == 4 * len,
                output.len() == 4 * len,
                max_delta == limit,
                y < height,
                x <= width,
                diff <= y * w + x,
                diff == diff_count(img1@, img2@, w, h, limit, y * w + x),
                rendered(output@, img1@, img2@, w, h, limit, 4 * (y * w + x)),
            decreases width - x,
        {
            proof {
                lemma_pixel_offset_bound(x as int, y as int, w, h);
                lemma_pixel_index(x as int, y as int, w);
            }
            let pos: usize = (y * width + x) * 4;
            let ghost before = output@;
            let class: PixelClass = classify_pixel(img1, img2, x, y, width, height, max_delta);
            assert(class == diff_pixel(img1@, img2@, w, h, limit, y * w + x));
            match class {
                PixelClass::Unchanged => {
                    // the pixels are similar: draw the background as a
                    // grey image blended with white
                    draw_gray_pixel(img1, pos, output);
                },
                PixelClass::AntiAliased => {
                    // one of the pixels is anti-aliasing: draw it in
                    // yellow and do not count it
                    draw_pixel(output, pos, 255, 255, 0);
                },
                PixelClass::Different => {
                    // a substantial difference that anti-aliasing does
                    // not account for
                    draw_pixel(output, pos, 255, 0, 0);
                    diff = diff + 1;
                },
            }
            proof {
                lemma_rendered_step(before, output@, img1@, img2@, w, h, limit, y * w + x);
            }
            x = x + 1;
        }
        proof {
            assert(y * w + w == (y + 1) * w) by (nonlinear_arith);
        }
        y = y + 1;
    }
    proof {
        assert(h * w == w * h) by (nonlinear_arith);
        assert(output@ =~= diff_image(img1@, img2@, w, h, limit));
    }
    Ok(diff)
}

} // verus!
