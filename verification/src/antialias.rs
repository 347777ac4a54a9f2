//! Whether a pixel that differs between two images is an artefact of
//! anti-aliasing rather than a change of content.

use vstd::prelude::*;
use crate::color::{brightness_delta, color_delta};
use crate::grid::{
    block_end, block_start, border_seed, in_image, is_image, is_neighbor, lemma_pixel_offset_bound,
    pixel_offset, slot_of, slot_offset, slot_x, slot_y,
};
use crate::siblings::{has_many_siblings, has_many_siblings_spec};

verus! {

/// What a scan of the neighbours of a pixel has found so far. A brightness
/// difference is that of the pixel less that of the neighbour.
pub struct Extremes {
    /// Neighbours of the pixel's own brightness, with the credit for a border
    /// position.
    pub zeroes: int,
    /// The lowest difference met, or 0 where none was below 0.
    pub min: int,
    /// Column of the first neighbour with the lowest difference.
    pub min_x: int,
    /// Row of the first neighbour with the lowest difference.
    pub min_y: int,
    /// The highest difference met, or 0 where none was above 0.
    pub max: int,
    /// Column of the first neighbour with the highest difference.
    pub max_x: int,
    /// Row of the first neighbour with the highest difference.
    pub max_y: int,
}

/// The findings before any neighbour is looked at.
pub open spec fn scan_start(x: int, y: int, width: int, height: int) -> Extremes {
    Extremes {
        zeroes: border_seed(x, y, width, height),
        min: 0,
        min_x: 0,
        min_y: 0,
        max: 0,
        max_x: 0,
        max_y: 0,
    }
}

/// The findings `acc` after one more neighbour, at `(nx, ny)`, whose
/// brightness difference is `delta`. A new extreme must be strictly beyond the
/// old one, so among equal extremes the first one met is kept.
pub open spec fn scan_step(acc: Extremes, delta: int, nx: int, ny: int) -> Extremes {
    if delta == 0 {
        Extremes { zeroes: acc.zeroes + 1, ..acc }
    } else if delta < acc.min {
        Extremes { min: delta, min_x: nx, min_y: ny, ..acc }
    } else if delta > acc.max {
        Extremes { max: delta, max_x: nx, max_y: ny, ..acc }
    } else {
        acc
    }
}

/// Brightness of `(x, y)` less that of the pixel in slot `k` of its block.
pub open spec fn neighbor_delta(img: Seq<u8>, x: int, y: int, width: int, k: int) -> int {
    brightness_delta(img, img, pixel_offset(x, y, width), slot_offset(x, y, width, k))
}

/// The findings after the neighbours in the first `k` slots of the block
/// around `(x, y)`.
pub open spec fn scan_neighbors(img: Seq<u8>, x: int, y: int, width: int, height: int, k: int) -> Extremes
    decreases k,
{
    if k <= 0 {
        scan_start(x, y, width, height)
    } else {
        let acc = scan_neighbors(img, x, y, width, height, k - 1);
        if is_neighbor(x, y, width, height, k - 1) {
            scan_step(acc, neighbor_delta(img, x, y, width, k - 1), slot_x(x, k - 1), slot_y(y, k - 1))
        } else {
            acc
        }
    }
}

/// A pixel of `img` is anti-aliased when at most two of its neighbours (with
/// the credit for a border position) have its own brightness, some neighbour
/// is darker and some brighter than it, and the neighbour at one of the two
/// extremes has many siblings in both images.
pub open spec fn antialiased_spec(
    img: Seq<u8>,
    x: int,
    y: int,
    width: int,
    height: int,
    img2: Seq<u8>,
) -> bool {
    let found = scan_neighbors(img, x, y, width, height, 9);
    &&& found.zeroes <= 2
    &&& found.min < 0
    &&& found.max > 0
    &&& ({
        ||| (has_many_siblings_spec(img, found.min_x, found.min_y, width, height)
            && has_many_siblings_spec(img2, found.min_x, found.min_y, width, height))
        ||| (has_many_siblings_spec(img, found.max_x, found.max_y, width, height)
            && has_many_siblings_spec(img2, found.max_x, found.max_y, width, height))
    })
}

/// Number of neighbours among the first `k` slots of the block around
/// `(x, y)` that are exactly as bright as `(x, y)`.
pub open spec fn equal_brightness(img: Seq<u8>, x: int, y: int, width: int, height: int, k: int) -> int
    decreases k,
{
    if k <= 0 {
        0
    } else {
        equal_brightness(img, x, y, width, height, k - 1) + if is_neighbor(x, y, width, height, k - 1)
            && neighbor_delta(img, x, y, width, k - 1) == 0 {
            1int
        } else {
            0int
        }
    }
}

/// Whether slot `s` holds the first of the neighbours with the lowest
/// brightness difference among the first `k` slots.
pub open spec fn first_lowest(img: Seq<u8>, x: int, y: int, width: int, height: int, k: int, s: int) -> bool {
    &&& 0 <= s < k
    &&& is_neighbor(x, y, width, height, s)
    &&& forall|j: int|
        0 <= j < k && is_neighbor(x, y, width, height, j) ==> #[trigger] neighbor_delta(img, x, y, width, j)
            >= neighbor_delta(img, x, y, width, s)
    &&& forall|j: int|
        0 <= j < s && is_neighbor(x, y, width, height, j) ==> #[trigger] neighbor_delta(img, x, y, width, j)
            > neighbor_delta(img, x, y, width, s)
}

/// Whether slot `s` holds the first of the neighbours with the highest
/// brightness difference among the first `k` slots.
pub open spec fn first_highest(img: Seq<u8>, x: int, y: int, width: int, height: int, k: int, s: int) -> bool {
    &&& 0 <= s < k
    &&& is_neighbor(x, y, width, height, s)
    &&& forall|j: int|
        0 <= j < k && is_neighbor(x, y, width, height, j) ==> #[trigger] neighbor_delta(img, x, y, width, j)
            <= neighbor_delta(img, x, y, width, s)
    &&& forall|j: int|
        0 <= j < s && is_neighbor(x, y, width, height, j) ==> #[trigger] neighbor_delta(img, x, y, width, j)
            < neighbor_delta(img, x, y, width, s)
}

/// What the findings of a scan mean. The count is that of the neighbours of
/// equal brightness, with the credit for a border position. The lowest
/// difference is below 0 exactly when some neighbour is brighter than the
/// pixel, and it is then found at the first neighbour that attains it; the
/// highest difference likewise, for the neighbours darker than the pixel.
pub proof fn lemma_scan_meaning(img: Seq<u8>, x: int, y: int, width: int, height: int, k: int)
    requires
        0 <= k <= 9,
    ensures
        ({
            let found = scan_neighbors(img, x, y, width, height, k);
            let low = slot_of(x, y, found.min_x, found.min_y);
            let high = slot_of(x, y, found.max_x, found.max_y);
            &&& found.zeroes == border_seed(x, y, width, height) + equal_brightness(img, x, y, width, height, k)
            &&& found.min <= 0 <= found.max
            &&& forall|j: int|
                0 <= j < k && is_neighbor(x, y, width, height, j) ==> found.min <= #[trigger] neighbor_delta(
                    img,
                    x,
                    y,
                    width,
                    j,
                ) <= found.max
            &&& found.min < 0 ==> {
                &&& first_lowest(img, x, y, width, height, k, low)
                &&& neighbor_delta(img, x, y, width, low) == found.min
                &&& slot_x(x, low) == found.min_x
                &&& slot_y(y, low) == found.min_y
            }
            &&& found.max > 0 ==> {
                &&& first_highest(img, x, y, width, height, k, high)
                &&& neighbor_delta(img, x, y, width, high) == found.max
                &&& slot_x(x, high) == found.max_x
                &&& slot_y(y, high) == found.max_y
            }
        }),
    decreases k,
{
    if k > 0 {
        lemma_scan_meaning(img, x, y, width, height, k - 1);
        let s = k - 1;
        assert(slot_of(x, y, slot_x(x, s), slot_y(y, s)) == s);
    }
}

/// The count of neighbours of equal brightness never falls as more slots are
/// taken in.
pub proof fn lemma_scan_zeroes_grow(img: Seq<u8>, x: int, y: int, width: int, height: int, j: int, k: int)
    requires
        j <= k,
    ensures
        scan_neighbors(img, x, y, width, height, j).zeroes <= scan_neighbors(
            img,
            x,
            y,
            width,
            height,
            k,
        ).zeroes,
    decreases k,
{
    if k <= 0 {
    } else if j == k {
    } else {
        lemma_scan_zeroes_grow(img, x, y, width, height, j, k - 1);
    }
}

/// Slots outside the image change nothing: the findings stay as they are from
/// `j` to `k` when no slot between them holds a neighbour.
pub proof fn lemma_scan_skip(img: Seq<u8>, x: int, y: int, width: int, height: int, j: int, k: int)
    requires
        0 <= j <= k,
        forall|s: int| j <= s < k ==> !is_neighbor(x, y, width, height, s),
    ensures
        scan_neighbors(img, x, y, width, height, j) == scan_neighbors(img, x, y, width, height, k),
    decreases k - j,
{
    if j < k {
        lemma_scan_skip(img, x, y, width, height, j, k - 1);
    }
}

/// Checks whether the pixel `(x1, y1)` of `img` is likely a part of
/// anti-aliasing. `img2` is the image that `img` is compared with: a
/// neighbour at an extreme counts only if it has many siblings there too.
pub fn antialiased(img: &[u8], x1: usize, y1: usize, width: usize, height: usize, img2: &[u8]) -> (aa:
    bool)
    requires
        is_image(img@, width as int, height as int),
        is_image(img2@, width as int, height as int),
        in_image(x1 as int, y1 as int, width as int, height as int),
    ensures
        aa == antialiased_spec(img@, x1 as int, y1 as int, width as int, height as int, img2@),
{
    let x0: usize = block_start(x1);
    let y0: usize = block_start(y1);
    let x2: usize = block_end(x1, width);
    let y2: usize = block_end(y1, height);
    proof {
        assert(img.len() == img@.len());
        lemma_pixel_offset_bound(x1 as int, y1 as int, width as int, height as int);
    }
    let pos: usize = (y1 * width + x1) * 4;
    let mut zeroes: usize = if x1 == x0 || x1 == x2 || y1 == y0 || y1 == y2 {
        1
    } else {
        0
    };
    let mut min: i128 = 0;
    let mut max: i128 = 0;
    let mut min_x: usize = 0;
    let mut min_y: usize = 0;
    let mut max_x: usize = 0;
    let mut max_y: usize = 0;

    let ghost w = width as int;
    let ghost h = height as int;
    let ghost cx = x1 as int;
    let ghost cy = y1 as int;
    proof {
        lemma_scan_skip(img@, cx, cy, w, h, 0, 3 * (x0 - cx + 1));
    }
    let mut x: usize = x0;
    while x <= x2
        invariant
            is_image(img@, w, h),
            in_image(cx, cy, w, h),
            w == width,
            h == height,
            cx == x1,
            cy == y1,
            x0 == if x1 > 0 { x1 - 1 } else { 0 },
            y0 == if y1 > 0 { y1 - 1 } else { 0 },
            x2 == if x1 + 1 < width { x1 + 1 } else { width - 1 },
            y2 == if y1 + 1 < height { y1 + 1 } else { height - 1 },
            pos == pixel_offset(cx, cy, w),
            img.len() == w * h * 4,
            pos + 4 <= img.len(),
            x0 <= x <= x2 + 1,
            zeroes <= 2,
            min <= 0 <= max,
            min < 0 ==> in_image(min_x as int, min_y as int, w, h),
            max > 0 ==> in_image(max_x as int, max_y as int, w, h),
            scan_neighbors(img@, cx, cy, w, h, 3 * (x - cx + 1)) == (Extremes {
                zeroes: zeroes as int,
                min: min as int,
                min_x: min_x as int,
                min_y: min_y as int,
                max: max as int,
                max_x: max_x as int,
                max_y: max_y as int,
            }),
        decreases x2 + 1 - x,
    {
        proof {
            lemma_scan_skip(img@, cx, cy, w, h, 3 * (x - cx + 1), 3 * (x - cx + 1) + (y0 - cy + 1));
        }
        let mut y: usize = y0;
        while y <= y2
            invariant
                is_image(img@, w, h),
                in_image(cx, cy, w, h),
                w == width,
                h == height,
                cx == x1,
                cy == y1,
                y0 == if y1 > 0 { y1 - 1 } else { 0 },
                y2 == if y1 + 1 < height { y1 + 1 } else { height - 1 },
                pos == pixel_offset(cx, cy, w),
                img.len() == w * h * 4,
                pos + 4 <= img.len(),
                cx - 1 <= x <= cx + 1,
                x < width,
                y0 <= y <= y2 + 1,
                zeroes <= 2,
                min <= 0 <= max,
                min < 0 ==> in_image(min_x as int, min_y as int, w, h),
                max > 0 ==> in_image(max_x as int, max_y as int, w, h),
                scan_neighbors(img@, cx, cy, w, h, 3 * (x - cx + 1) + (y - cy + 1)) == (Extremes {
                    zeroes: zeroes as int,
                    min: min as int,
                    min_x: min_x as int,
                    min_y: min_y as int,
                    max: max as int,
                    max_x: max_x as int,
                    max_y: max_y as int,
                }),
            decreases y2 + 1 - y,
        {
            let ghost k: int = 3 * (x - cx + 1) + (y - cy + 1);
            proof {
                assert(slot_x(cx, k) == x && slot_y(cy, k) == y);
                let acc = scan_neighbors(img@, cx, cy, w, h, k);
                assert(scan_neighbors(img@, cx, cy, w, h, k + 1) == if is_neighbor(cx, cy, w, h, k) {
                    scan_step(acc, neighbor_delta(img@, cx, cy, w, k), slot_x(cx, k), slot_y(cy, k))
                } else {
                    acc
                });
            }
            if !(x == x1 && y == y1) {
                proof {
                    lemma_pixel_offset_bound(x as int, y as int, w, h);
                }
                // brightness delta between the centre pixel and the adjacent one
                let delta: i128 = color_delta(img, img, pos, (y * width + x) * 4, true);
                // count the equal, darker and brighter adjacent pixels
                if delta == 0 {
                    zeroes = zeroes + 1;
                    if zeroes > 2 {
                        proof {
                            lemma_scan_zeroes_grow(img@, cx, cy, w, h, k + 1, 9);
                        }
                        return false;
                    }
                } else if delta < min {
                    min = delta;
                    min_x = x;
                    min_y = y;
                } else if delta > max {
                    max = delta;
                    max_x = x;
                    max_y = y;
                }
            }
            y = y + 1;
        }
        proof {
            lemma_scan_skip(img@, cx, cy, w, h, 3 * (x - cx + 1) + (y - cy + 1), 3 * (x - cx + 2));
        }
        x = x + 1;
    }
    proof {
        lemma_scan_skip(img@, cx, cy, w, h, 3 * (x - cx + 1), 9);
    }
    // without both a darker and a brighter neighbour there is no anti-aliasing
    if min == 0 || max == 0 {
        return false;
    }
    // the pixel is anti-aliased if the neighbour at either extreme has many
    // siblings in both images
    (has_many_siblings(img, min_x, min_y, width, height) && has_many_siblings(
        img2,
        min_x,
        min_y,
        width,
        height,
    )) || (has_many_siblings(img, max_x, max_y, width, height) && has_many_siblings(
        img2,
        max_x,
        max_y,
        width,
        height,
    ))
}

} // verus!
