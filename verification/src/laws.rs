//! Laws of the comparison, stated over the functions that describe it.

use vstd::prelude::*;
use crate::color::{
    brightness_delta, color_distance, lemma_same_sample_no_delta, sample_i, sample_q,
};
use crate::diff::{classify, diff_count, diff_image, diff_pixel, max_delta, PixelClass};
use crate::grid::pixel_offset;
use crate::render::gray_value;

verus! {

/// The background of the diff image: every pixel of `img` as a faint grey
/// echo, fully opaque. It depends on `img` and the dimensions alone.
pub open spec fn gray_image(img: Seq<u8>, width: int, height: int) -> Seq<u8> {
    Seq::new(
        (width * height * 4) as nat,
        |i: int|
            if i % 4 == 3 {
                255u8
            } else {
                gray_value(img, 4 * (i / 4)) as u8
            },
    )
}

/// An image compared with itself has no changed pixel, whatever the limit.
pub proof fn lemma_same_image_unchanged(img: Seq<u8>, width: int, height: int, limit: int, p: int)
    requires
        limit >= 0,
    ensures
        diff_pixel(img, img, width, height, limit, p) == PixelClass::Unchanged,
{
    let pos = pixel_offset(p % width, p / width, width);
    lemma_same_sample_no_delta(img, img, pos, pos, false);
}

/// An image compared with itself has no differing pixel among its first `n`.
pub proof fn lemma_same_image_count(img: Seq<u8>, width: int, height: int, limit: int, n: int)
    requires
        limit >= 0,
    ensures
        diff_count(img, img, width, height, limit, n) == 0,
    decreases n,
{
    if n > 0 {
        lemma_same_image_count(img, width, height, limit, n - 1);
        lemma_same_image_unchanged(img, width, height, limit, n - 1);
    }
}

/// Identity: an image compared with itself yields no difference, and the diff
/// image is the grey rendering of the image, whatever the limit.
pub proof fn lemma_identity(img: Seq<u8>, width: int, height: int, limit: int)
    requires
        limit >= 0,
    ensures
        diff_count(img, img, width, height, limit, width * height) == 0,
        diff_image(img, img, width, height, limit) == gray_image(img, width, height),
{
    lemma_same_image_count(img, width, height, limit, width * height);
    let a = diff_image(img, img, width, height, limit);
    let b = gray_image(img, width, height);
    assert forall|i: int| 0 <= i < a.len() implies a[i] == b[i] by {
        lemma_same_image_unchanged(img, width, height, limit, i / 4);
    }
    assert(diff_image(img, img, width, height, limit) =~= gray_image(img, width, height));
}

/// The colour distance does not depend on the order of the two samples.
pub proof fn lemma_distance_symmetric(img1: Seq<u8>, img2: Seq<u8>, k: int, m: int)
    ensures
        color_distance(img1, img2, k, m) == color_distance(img2, img1, m, k),
{
    reveal(color_distance);
    let y = brightness_delta(img1, img2, k, m);
    let i = sample_i(img1, k) - sample_i(img2, m);
    let q = sample_q(img1, k) - sample_q(img2, m);
    assert(y * y == (-y) * (-y) && i * i == (-i) * (-i) && q * q == (-q) * (-q))
        by (nonlinear_arith);
}

/// A pixel has the same class whichever of the two images comes first.
pub proof fn lemma_class_symmetric(
    img1: Seq<u8>,
    img2: Seq<u8>,
    width: int,
    height: int,
    limit: int,
    x: int,
    y: int,
)
    ensures
        classify(img1, img2, width, height, limit, x, y) == classify(
            img2,
            img1,
            width,
            height,
            limit,
            x,
            y,
        ),
{
    let pos = pixel_offset(x, y, width);
    lemma_distance_symmetric(img1, img2, pos, pos);
}

/// Among the first `n` pixels as many differ whichever of the two images
/// comes first.
pub proof fn lemma_count_symmetric(
    img1: Seq<u8>,
    img2: Seq<u8>,
    width: int,
    height: int,
    limit: int,
    n: int,
)
    ensures
        diff_count(img1, img2, width, height, limit, n) == diff_count(
            img2,
            img1,
            width,
            height,
            limit,
            n,
        ),
    decreases n,
{
    if n > 0 {
        lemma_count_symmetric(img1, img2, width, height, limit, n - 1);
        lemma_class_symmetric(img1, img2, width, height, limit, (n - 1) % width, (n - 1) / width);
    }
}

/// Symmetry: with the two images swapped the number of differing pixels is
/// the same, under every threshold.
pub proof fn lemma_swap_keeps_count(img1: Seq<u8>, img2: Seq<u8>, width: int, height: int, threshold: int)
    ensures
        diff_count(img1, img2, width, height, max_delta(threshold), width * height) == diff_count(
            img2,
            img1,
            width,
            height,
            max_delta(threshold),
            width * height,
        ),
{
    lemma_count_symmetric(img1, img2, width, height, max_delta(threshold), width * height);
}

/// A larger threshold allows a larger colour distance.
pub proof fn lemma_max_delta_monotonic(t1: int, t2: int)
    by (nonlinear_arith)
    requires
        0 <= t1 <= t2,
    ensures
        0 <= max_delta(t1) <= max_delta(t2),
{
}

/// Under a larger limit no more of the first `n` pixels differ.
pub proof fn lemma_count_monotonic(
    img1: Seq<u8>,
    img2: Seq<u8>,
    width: int,
    height: int,
    limit1: int,
    limit2: int,
    n: int,
)
    requires
        limit1 <= limit2,
    ensures
        diff_count(img1, img2, width, height, limit1, n) >= diff_count(
            img1,
            img2,
            width,
            height,
            limit2,
            n,
        ),
    decreases n,
{
    if n > 0 {
        lemma_count_monotonic(img1, img2, width, height, limit1, limit2, n - 1);
    }
}

/// Threshold monotonicity: raising the threshold never raises the number of
/// differing pixels.
pub proof fn lemma_threshold_monotonic(
    img1: Seq<u8>,
    img2: Seq<u8>,
    width: int,
    height: int,
    t1: int,
    t2: int,
)
    requires
        0 <= t1 <= t2,
    ensures
        diff_count(img1, img2, width, height, max_delta(t1), width * height) >= diff_count(
            img1,
            img2,
            width,
            height,
            max_delta(t2),
            width * height,
        ),
{
    lemma_max_delta_monotonic(t1, t2);
    lemma_count_monotonic(img1, img2, width, height, max_delta(t1), max_delta(t2), width * height);
}

} // verus!
