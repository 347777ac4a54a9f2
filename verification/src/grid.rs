//! Pixel coordinates, byte offsets and the 3x3 block around a pixel.

use vstd::prelude::*;

verus! {

/// Whether `img` holds a row-major RGBA image of `width` by `height` pixels,
/// four bytes to the pixel.
pub open spec fn is_image(img: Seq<u8>, width: int, height: int) -> bool {
    img.len() == width * height * 4
}

/// Whether `(x, y)` is a pixel of an image of `width` by `height` pixels.
pub open spec fn in_image(x: int, y: int, width: int, height: int) -> bool {
    0 <= x < width && 0 <= y < height
}

/// Byte offset of the sample of pixel `(x, y)`.
pub open spec fn pixel_offset(x: int, y: int, width: int) -> int {
    (y * width + x) * 4
}

/// Whether `(x, y)` lies in the first or last row or column, so that its 3x3
/// block is cut by the edge of the image.
pub open spec fn on_border(x: int, y: int, width: int, height: int) -> bool {
    x == 0 || y == 0 || x == width - 1 || y == height - 1
}

/// What a pixel is credited with for the neighbours that the edge cuts away:
/// one match for a border pixel, none for an inner one.
pub open spec fn border_seed(x: int, y: int, width: int, height: int) -> int {
    if on_border(x, y, width, height) {
        1
    } else {
        0
    }
}

/// Column of slot `k` of the 3x3 block around column `x`. The nine slots are
/// numbered column by column, top to bottom; slot 4 is the centre.
pub open spec fn slot_x(x: int, k: int) -> int {
    x - 1 + k / 3
}

/// Row of slot `k` of the 3x3 block around row `y`.
pub open spec fn slot_y(y: int, k: int) -> int {
    y - 1 + k % 3
}

/// Whether slot `k` of the block around `(x, y)` holds a neighbour: a pixel of
/// the image other than `(x, y)` itself.
pub open spec fn is_neighbor(x: int, y: int, width: int, height: int, k: int) -> bool {
    k != 4 && in_image(slot_x(x, k), slot_y(y, k), width, height)
}

/// Byte offset of the pixel in slot `k` of the block around `(x, y)`.
pub open spec fn slot_offset(x: int, y: int, width: int, k: int) -> int {
    pixel_offset(slot_x(x, k), slot_y(y, k), width)
}

/// Slot number of the pixel `(nx, ny)` in the block around `(x, y)`.
pub open spec fn slot_of(x: int, y: int, nx: int, ny: int) -> int {
    3 * (nx - x + 1) + (ny - y + 1)
}

/// The sample of a pixel of the image lies within the buffer.
pub proof fn lemma_pixel_offset_bound(x: int, y: int, width: int, height: int)
    by (nonlinear_arith)
    requires
        in_image(x, y, width, height),
    ensures
        0 <= y * width <= y * width + x < width * height,
        0 <= pixel_offset(x, y, width),
        pixel_offset(x, y, width) + 4 <= width * height * 4,
{
}

/// A pixel is found again from its index in row-major order.
pub proof fn lemma_pixel_index(x: int, y: int, width: int)
    requires
        0 <= x < width,
        0 <= y,
    ensures
        (y * width + x) % width == x,
        (y * width + x) / width == y,
{
    vstd::arithmetic::div_mod::lemma_fundamental_div_mod_converse(y * width + x, width, y, x);
}

/// First column or row of the block around coordinate `c`, kept inside the
/// image.
pub fn block_start(c: usize) -> (lo: usize)
    ensures
        lo == if c > 0 { c - 1 } else { 0 },
{
    if c > 0 {
        c - 1
    } else {
        0
    }
}

/// Last column or row of the block around coordinate `c`, kept inside an image
/// that is `size` pixels wide or high.
pub fn block_end(c: usize, size: usize) -> (hi: usize)
    requires
        c < size,
    ensures
        hi == if c + 1 < size { c + 1 } else { size - 1 },
{
    if c + 1 < size {
        c + 1
    } else {
        size - 1
    }
}

} // verus!
