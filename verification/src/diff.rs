//! What the comparison of two images yields: the class of every pixel, the
//! diff image and the number of pixels that differ.

use vstd::prelude::*;
use crate::antialias::{antialiased, antialiased_spec};
use crate::color::{color_delta, color_distance, lemma_distance_is_magnitude};
use crate::grid::{in_image, is_image, lemma_pixel_offset_bound, pixel_offset};
use crate::render::gray_value;

verus! {

/// A threshold is given in millionths: 100 000 stands for 0.1.
pub const THRESHOLD_SCALE: u32 = 1_000_000;

/// The largest colour distance that a threshold of one millionth lets pass, in
/// units of 10^-20. A threshold of one lets pass the largest distance that the
/// YIQ metric can give, 35215.
pub const MAX_DELTA_FACTOR: i128 = 3_521_500_000_000;

/// How a pixel of the second image relates to the same pixel of the first.
#[derive(Clone, Copy, Debug, PartialEq, Eq, Structural)]
pub enum PixelClass {
    /// The colours are no further apart than the threshold allows.
    Unchanged,
    /// The colours are further apart, but the pixel belongs to an
    /// anti-aliased edge in one of the images.
    AntiAliased,
    /// The colours are further apart, and anti-aliasing does not account for
    /// it.
    Different,
}

/// The largest colour distance, in units of 10^-20, that still counts as no
/// change under a threshold in millionths: `35215 * threshold^2`.
pub open spec fn max_delta(threshold: int) -> int {
    MAX_DELTA_FACTOR * (threshold * threshold)
}

/// The class of pixel `(x, y)`, where `limit` is the largest colour distance
/// that counts as no change.
pub open spec fn classify(
    img1: Seq<u8>,
    img2: Seq<u8>,
    width: int,
    height: int,
    limit: int,
    x: int,
    y: int,
) -> PixelClass {
    let pos = pixel_offset(x, y, width);
    if color_distance(img1, img2, pos, pos) <= limit {
        PixelClass::Unchanged
    } else if antialiased_spec(img1, x, y, width, height, img2) || antialiased_spec(
        img2,
        x,
        y,
        width,
        height,
        img1,
    ) {
        PixelClass::AntiAliased
    } else {
        PixelClass::Different
    }
}

/// The class of the pixel with index `p` in row-major order.
pub open spec fn diff_pixel(img1: Seq<u8>, img2: Seq<u8>, width: int, height: int, limit: int, p: int) -> PixelClass {
    classify(img1, img2, width, height, limit, p % width, p / width)
}

/// Channel `ch` of the pixel that the diff image shows for a pixel of class
/// `class` whose sample lies at byte offset `pos`: a faint grey echo of the
/// first image where nothing changed, yellow for anti-aliasing, red for a
/// difference, each fully opaque.
pub open spec fn marker_byte(img1: Seq<u8>, class: PixelClass, pos: int, ch: int) -> u8 {
    match class {
        PixelClass::Unchanged => if ch == 3 {
            255u8
        } else {
            gray_value(img1, pos) as u8
        },
        PixelClass::AntiAliased => if ch == 2 {
            0u8
        } else {
            255u8
        },
        PixelClass::Different => if ch == 0 || ch == 3 {
            255u8
        } else {
            0u8
        },
    }
}

/// Byte `i` of the diff image.
pub open spec fn diff_byte(img1: Seq<u8>, img2: Seq<u8>, width: int, height: int, limit: int, i: int) -> u8 {
    marker_byte(img1, diff_pixel(img1, img2, width, height, limit, i / 4), 4 * (i / 4), i % 4)
}

/// The diff image of two images of `width` by `height` pixels.
pub open spec fn diff_image(img1: Seq<u8>, img2: Seq<u8>, width: int, height: int, limit: int) -> Seq<u8> {
    Seq::new((width * height * 4) as nat, |i: int| diff_byte(img1, img2, width, height, limit, i))
}

/// The number of pixels of class `Different` among the first `n` pixels in
/// row-major order.
pub open spec fn diff_count(img1: Seq<u8>, img2: Seq<u8>, width: int, height: int, limit: int, n: int) -> int
    decreases n,
{
    if n <= 0 {
        0
    } else {
        diff_count(img1, img2, width, height, limit, n - 1) + if diff_pixel(
            img1,
            img2,
            width,
            height,
            limit,
            n - 1,
        ) == PixelClass::Different {
            1int
        } else {
            0int
        }
    }
}

/// Whether the first `n` bytes of `out` are those of the diff image.
pub open spec fn rendered(
    out: Seq<u8>,
    img1: Seq<u8>,
    img2: Seq<u8>,
    width: int,
    height: int,
    limit: int,
    n: int,
) -> bool {
    forall|i: int| 0 <= i < n ==> #[trigger] out[i] == diff_byte(img1, img2, width, height, limit, i)
}

/// The limit that belongs to a threshold is never negative, and it fits the
/// executable type.
pub proof fn lemma_max_delta_bound(threshold: int)
    by (nonlinear_arith)
    requires
        0 <= threshold <= u32::MAX,
    ensures
        0 <= threshold * threshold <= 0xFFFF_FFFF * 0xFFFF_FFFF,
        0 <= max_delta(threshold) <= 3_521_500_000_000 * (0xFFFF_FFFF * 0xFFFF_FFFF),
{
}

/// After one more pixel is written, the diff image is rendered up to and
/// including that pixel.
pub proof fn lemma_rendered_step(
    before: Seq<u8>,
    after: Seq<u8>,
    img1: Seq<u8>,
    img2: Seq<u8>,
    width: int,
    height: int,
    limit: int,
    p: int,
)
    requires
        0 <= p,
        4 * p + 4 <= before.len(),
        after.len() == before.len(),
        rendered(before, img1, img2, width, height, limit, 4 * p),
        forall|i: int| 0 <= i < 4 * p ==> after[i] == before[i],
        after[4 * p] == marker_byte(img1, diff_pixel(img1, img2, width, height, limit, p), 4 * p, 0),
        after[4 * p + 1] == marker_byte(img1, diff_pixel(img1, img2, width, height, limit, p), 4 * p, 1),
        after[4 * p + 2] == marker_byte(img1, diff_pixel(img1, img2, width, height, limit, p), 4 * p, 2),
        after[4 * p + 3] == marker_byte(img1, diff_pixel(img1, img2, width, height, limit, p), 4 * p, 3),
    ensures
        rendered(after, img1, img2, width, height, limit, 4 * (p + 1)),
{
    assert forall|i: int| 0 <= i < 4 * (p + 1) implies #[trigger] after[i] == diff_byte(
        img1,
        img2,
        width,
        height,
        limit,
        i,
    ) by {
        if i < 4 * p {
            assert(before[i] == diff_byte(img1, img2, width, height, limit, i));
        } else {
            assert(i / 4 == p && i % 4 == i - 4 * p);
        }
    }
}

/// Classifies the pixel `(x, y)`, where `limit` is the largest colour distance
/// that counts as no change.
pub fn classify_pixel(
    img1: &[u8],
    img2: &[u8],
    x: usize,
    y: usize,
    width: usize,
    height: usize,
    limit: i128,
) -> (class: PixelClass)
    requires
        is_image(img1@, width as int, height as int),
        is_image(img2@, width as int, height as int),
        in_image(x as int, y as int, width as int, height as int),
    ensures
        class == classify(img1@, img2@, width as int, height as int, limit as int, x as int, y as int),
{
    proof {
        assert(img1.len() == img1@.len());
        assert(img2.len() == img2@.len());
        lemma_pixel_offset_bound(x as int, y as int, width as int, height as int);
    }
    let pos: usize = (y * width + x) * 4;
    // squared YIQ distance between the colours at this position, negative
    // where the pixel of the first image is the brighter one
    let delta: i128 = color_delta(img1, img2, pos, pos, false);
    proof {
        lemma_distance_is_magnitude(img1@, img2@, pos as int, pos as int);
    }
    let magnitude: i128 = if delta < 0 {
        -delta
    } else {
        delta
    };
    if magnitude > limit {
        // a real difference of rendering, or just anti-aliasing?
        if antialiased(img1, x, y, width, height, img2) || antialiased(img2, x, y, width, height, img1) {
            PixelClass::AntiAliased
        } else {
            PixelClass::Different
        }
    } else {
        PixelClass::Unchanged
    }
}

} // verus!
