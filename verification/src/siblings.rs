//! Whether a pixel sits in a flat area: three or more of the samples around
//! it equal its own.

use vstd::prelude::*;
use crate::color::{same_sample, samples_equal};
use crate::grid::{
    block_end, block_start, border_seed, in_image, is_image, is_neighbor, lemma_pixel_offset_bound,
    pixel_offset, slot_offset, slot_x, slot_y,
};

verus! {

/// Number of neighbours among the first `k` slots of the block around
/// `(x, y)` whose sample equals that of `(x, y)`, byte for byte.
pub open spec fn equal_siblings(img: Seq<u8>, x: int, y: int, width: int, height: int, k: int) -> int
    decreases k,
{
    if k <= 0 {
        0
    } else {
        equal_siblings(img, x, y, width, height, k - 1) + if is_neighbor(x, y, width, height, k - 1)
            && same_sample(img, img, pixel_offset(x, y, width), slot_offset(x, y, width, k - 1)) {
            1int
        } else {
            0int
        }
    }
}

/// A pixel has many siblings when the neighbours equal to it, together with
/// the credit for a border position, number three or more.
pub open spec fn has_many_siblings_spec(img: Seq<u8>, x: int, y: int, width: int, height: int) -> bool {
    border_seed(x, y, width, height) + equal_siblings(img, x, y, width, height, 9) >= 3
}

/// The count of equal siblings never falls as more slots are taken in.
pub proof fn lemma_equal_siblings_grow(img: Seq<u8>, x: int, y: int, width: int, height: int, j: int, k: int)
    requires
        j <= k,
    ensures
        0 <= equal_siblings(img, x, y, width, height, j) <= equal_siblings(img, x, y, width, height, k),
    decreases k,
{
    if k <= 0 {
    } else if j == k {
        lemma_equal_siblings_grow(img, x, y, width, height, j - 1, k - 1);
    } else {
        lemma_equal_siblings_grow(img, x, y, width, height, j, k - 1);
    }
}

/// Slots outside the image add nothing: the count stays as it is from `j` to
/// `k` when no slot between them holds a neighbour.
pub proof fn lemma_equal_siblings_skip(img: Seq<u8>, x: int, y: int, width: int, height: int, j: int, k: int)
    requires
        0 <= j <= k,
        forall|s: int| j <= s < k ==> !is_neighbor(x, y, width, height, s),
    ensures
        equal_siblings(img, x, y, width, height, j) == equal_siblings(img, x, y, width, height, k),
    decreases k - j,
{
    if j < k {
        lemma_equal_siblings_skip(img, x, y, width, height, j, k - 1);
    }
}

/// Checks whether the pixel `(x1, y1)` has three or more adjacent pixels of
/// its own colour. The block of adjacent pixels is cut to the image on all
/// four sides, and a pixel on the border is credited with one match.
pub fn has_many_siblings(img: &[u8], x1: usize, y1: usize, width: usize, height: usize) -> (many: bool)
    requires
        is_image(img@, width as int, height as int),
        in_image(x1 as int, y1 as int, width as int, height as int),
    ensures
        many == has_many_siblings_spec(img@, x1 as int, y1 as int, width as int, height as int),
{
    let x0: usize = block_start(x1);
    let y0: usize = block_start(y1);
    let x2: usize = block_end(x1, width);
    let y2: usize = block_end(y1, height);
    proof {
        assert(img.len() == img@.len());
        lemma_pixel_offset_bound(x1 as int, y1 as int, width as int, height as int);
    }
    let pos: usize = (y1 * width + x1) * 4;
    let mut zeroes: usize = if x1 == x0 || x1 == x2 || y1 == y0 || y1 == y2 {
        1
    } else {
        0
    };
    let ghost w = width as int;
    let ghost h = height as int;
    let ghost cx = x1 as int;
    let ghost cy = y1 as int;
    proof {
        lemma_equal_siblings_skip(img@, cx, cy, w, h, 0, 3 * (x0 - cx + 1));
    }
    let mut x: usize = x0;
    while x <= x2
        invariant
            is_image(img@, w, h),
            in_image(cx, cy, w, h),
            w == width,
            h == height,
            cx == x1,
            cy == y1,
            x0 == if x1 > 0 { x1 - 1 } else { 0 },
            y0 == if y1 > 0 { y1 - 1 } else { 0 },
            x2 == if x1 + 1 < width { x1 + 1 } else { width - 1 },
            y2 == if y1 + 1 < height { y1 + 1 } else { height - 1 },
            pos == pixel_offset(cx, cy, w),
            img.len() == w * h * 4,
            pos + 4 <= img.len(),
            x0 <= x <= x2 + 1,
            zeroes <= 2,
            zeroes == border_seed(cx, cy, w, h) + equal_siblings(img@, cx, cy, w, h, 3 * (x - cx + 1)),
        decreases x2 + 1 - x,
    {
        proof {
            lemma_equal_siblings_skip(img@, cx, cy, w, h, 3 * (x - cx + 1), 3 * (x - cx + 1) + (y0 - cy + 1));
        }
        let mut y: usize = y0;
        while y <= y2
            invariant
                is_image(img@, w, h),
                in_image(cx, cy, w, h),
                w == width,
                h == height,
                cx == x1,
                cy == y1,
                y0 == if y1 > 0 { y1 - 1 } else { 0 },
                y2 == if y1 + 1 < height { y1 + 1 } else { height - 1 },
                pos == pixel_offset(cx, cy, w),
                img.len() == w * h * 4,
            pos + 4 <= img.len(),
                cx - 1 <= x <= cx + 1,
                x < width,
                y0 <= y <= y2 + 1,
                zeroes <= 2,
                zeroes == border_seed(cx, cy, w, h) + equal_siblings(
                    img@,
                    cx,
                    cy,
                    w,
                    h,
                    3 * (x - cx + 1) + (y - cy + 1),
                ),
            decreases y2 + 1 - y,
        {
            let ghost k: int = 3 * (x - cx + 1) + (y - cy + 1);
            proof {
                assert(slot_x(cx, k) == x && slot_y(cy, k) == y);
                assert(equal_siblings(img@, cx, cy, w, h, k + 1) == equal_siblings(img@, cx, cy, w, h, k)
                    + if is_neighbor(cx, cy, w, h, k) && same_sample(
                    img@,
                    img@,
                    pixel_offset(cx, cy, w),
                    slot_offset(cx, cy, w, k),
                ) {
                    1int
                } else {
                    0int
                });
            }
            if !(x == x1 && y == y1) {
                proof {
                    lemma_pixel_offset_bound(x as int, y as int, w, h);
                }
                let pos2: usize = (y * width + x) * 4;
                if samples_equal(img, img, pos, pos2) {
                    zeroes = zeroes + 1;
                }
                if zeroes > 2 {
                    proof {
                        lemma_equal_siblings_grow(img@, cx, cy, w, h, k + 1, 9);
                    }
                    return true;
                }
            }
            y = y + 1;
        }
        proof {
            lemma_equal_siblings_skip(
                img@,
                cx,
                cy,
                w,
                h,
                3 * (x - cx + 1) + (y - cy + 1),
                3 * (x - cx + 2),
            );
        }
        x = x + 1;
    }
    proof {
        lemma_equal_siblings_skip(img@, cx, cy, w, h, 3 * (x - cx + 1), 9);
    }
    false
}

} // verus!
