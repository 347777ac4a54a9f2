//! The colour model: compositing over white and the YIQ transform, in exact
//! fixed-point arithmetic.
//!
//! The YIQ coefficients are held as integers in units of 10^-8, so the two
//! chrominance components are integers in that unit. The luma is rounded down
//! to a whole step in `0..=255`. A colour distance is an integer in units of
//! 10^-20.

use vstd::prelude::*;

verus! {

/// What one unit of a coefficient stands for: 10^-8.
pub const COEFF_SCALE: u64 = 100_000_000;

/// Weight of red in the luma, 0.29889531.
pub const Y_RED: u64 = 29_889_531;

/// Weight of green in the luma, 0.58662247.
pub const Y_GREEN: u64 = 58_662_247;

/// Weight of blue in the luma, 0.11448223.
pub const Y_BLUE: u64 = 11_448_223;

/// Weight of red in the I component, 0.59597799.
pub const I_RED: i64 = 59_597_799;

/// Weight of green in the I component, -0.27417610.
pub const I_GREEN: i64 = -27_417_610;

/// Weight of blue in the I component, -0.32180189.
pub const I_BLUE: i64 = -32_180_189;

/// Weight of red in the Q component, 0.21147017.
pub const Q_RED: i64 = 21_147_017;

/// Weight of green in the Q component, -0.52261711.
pub const Q_GREEN: i64 = -52_261_711;

/// Weight of blue in the Q component, 0.31114694.
pub const Q_BLUE: i64 = 31_114_694;

/// Weight 0.5053 of the squared luma difference, in units of 10^-20.
pub const Y_WEIGHT: i128 = 50_530_000_000_000_000_000;

/// Weight 0.299 of the squared I difference: the square of a chrominance
/// difference is in units of 10^-16, so the weight is in units of 10^-4.
pub const I_WEIGHT: i128 = 2_990;

/// Weight 0.1957 of the squared Q difference, in units of 10^-4.
pub const Q_WEIGHT: i128 = 1_957;

/// A bound on the difference between the chrominance components of two
/// colours, in absolute value.
pub const CHROMA_SPAN: i128 = 40_000_000_000;

/// A bound that no colour distance exceeds.
pub const DISTANCE_BOUND: i128 = 12_000_000_000_000_000_000_000_000;

/// A channel `c` drawn with opacity `num / den` over a white background:
/// `255 + (c - 255) * num / den`, rounded down.
pub open spec fn blend_spec(c: int, num: int, den: int) -> int {
    255 + ((c - 255) * num) / den
}

/// The unsigned form of [`blend_spec`], as the executable code computes it.
proof fn lemma_blend_unsigned(c: int, num: int, den: int)
    requires
        0 <= c <= 255,
        0 <= num <= den,
        0 < den,
    ensures
        0 <= (255 - c) * num <= 255 * den,
        (255 * den - (255 - c) * num) / den == blend_spec(c, num, den),
        0 <= blend_spec(c, num, den) <= 255,
{
    let k: int = (255 - c) * num;
    assert(0 <= k <= 255 * den) by (nonlinear_arith)
        requires
            k == (255 - c) * num,
            0 <= 255 - c <= 255,
            0 <= num <= den,
    ;
    assert((c - 255) * num == -k) by (nonlinear_arith)
        requires
            k == (255 - c) * num,
    ;
    let q: int = (-k) / den;
    let r: int = (-k) % den;
    vstd::arithmetic::div_mod::lemma_fundamental_div_mod(-k, den);
    assert(255 * den - k == (255 + q) * den + r) by (nonlinear_arith)
        requires
            -k == den * q + r,
    ;
    vstd::arithmetic::div_mod::lemma_mod_bound(-k, den);
    vstd::arithmetic::div_mod::lemma_fundamental_div_mod_converse(255 * den - k, den, 255 + q, r);
    assert(0 <= 255 + q <= 255) by (nonlinear_arith)
        requires
            -k == den * q + r,
            0 <= r < den,
            0 <= k <= 255 * den,
    ;
}

/// Blends a semi-transparent channel with white. The opacity is the fraction
/// `num / den`, at most one.
pub fn blend(c: u8, num: u32, den: u32) -> (out: u8)
    requires
        0 < den,
        num <= den,
    ensures
        out as int == blend_spec(c as int, num as int, den as int),
{
    proof {
        lemma_blend_unsigned(c as int, num as int, den as int);
    }
    let white: u64 = 255 * (den as u64);
    let fade: u64 = (255 - c as u64) * (num as u64);
    ((white - fade) / (den as u64)) as u8
}

/// Luma of a colour: `0.29889531 r + 0.58662247 g + 0.11448223 b`, rounded
/// down to a whole step.
pub open spec fn luma_spec(r: int, g: int, b: int) -> int {
    (Y_RED * r + Y_GREEN * g + Y_BLUE * b) / (COEFF_SCALE as int)
}

/// I component of a colour: `0.59597799 r - 0.27417610 g - 0.32180189 b`, in
/// units of 10^-8.
pub open spec fn chroma_i_spec(r: int, g: int, b: int) -> int {
    I_RED * r + I_GREEN * g + I_BLUE * b
}

/// Q component of a colour: `0.21147017 r - 0.52261711 g + 0.31114694 b`, in
/// units of 10^-8.
pub open spec fn chroma_q_spec(r: int, g: int, b: int) -> int {
    Q_RED * r + Q_GREEN * g + Q_BLUE * b
}

/// Channel `ch` (0 red, 1 green, 2 blue) of the sample at byte offset `k`, as
/// it appears over white: a sample with alpha 255 keeps its colour.
pub open spec fn over_white(img: Seq<u8>, k: int, ch: int) -> int {
    blend_spec(img[k + ch] as int, img[k + 3] as int, 255)
}

/// Luma of the sample at byte offset `k`.
pub open spec fn sample_y(img: Seq<u8>, k: int) -> int {
    luma_spec(over_white(img, k, 0), over_white(img, k, 1), over_white(img, k, 2))
}

/// I component of the sample at byte offset `k`.
pub open spec fn sample_i(img: Seq<u8>, k: int) -> int {
    chroma_i_spec(over_white(img, k, 0), over_white(img, k, 1), over_white(img, k, 2))
}

/// Q component of the sample at byte offset `k`.
pub open spec fn sample_q(img: Seq<u8>, k: int) -> int {
    chroma_q_spec(over_white(img, k, 0), over_white(img, k, 1), over_white(img, k, 2))
}

/// Brightness of the sample at `k` in `img1` less that of the sample at `m` in
/// `img2`, in luma steps.
pub open spec fn brightness_delta(img1: Seq<u8>, img2: Seq<u8>, k: int, m: int) -> int {
    sample_y(img1, k) - sample_y(img2, m)
}

/// Weighted squared YIQ distance between two samples:
/// `0.5053 dY^2 + 0.299 dI^2 + 0.1957 dQ^2`, in units of 10^-20.
#[verifier::opaque]
pub open spec fn color_distance(img1: Seq<u8>, img2: Seq<u8>, k: int, m: int) -> int {
    let y = brightness_delta(img1, img2, k, m);
    let i = sample_i(img1, k) - sample_i(img2, m);
    let q = sample_q(img1, k) - sample_q(img2, m);
    Y_WEIGHT * (y * y) + I_WEIGHT * (i * i) + Q_WEIGHT * (q * q)
}

/// The signed colour difference. With `y_only` it is the brightness
/// difference alone. Otherwise its magnitude is the colour distance, and it is
/// negative exactly when the first sample is the brighter one.
pub open spec fn color_delta_spec(img1: Seq<u8>, img2: Seq<u8>, k: int, m: int, y_only: bool) -> int {
    if y_only {
        brightness_delta(img1, img2, k, m)
    } else if brightness_delta(img1, img2, k, m) > 0 {
        -color_distance(img1, img2, k, m)
    } else {
        color_distance(img1, img2, k, m)
    }
}

/// Whether the four bytes at `k` in `img1` equal the four bytes at `m` in `img2`.
pub open spec fn same_sample(img1: Seq<u8>, img2: Seq<u8>, k: int, m: int) -> bool {
    &&& img1[k] == img2[m]
    &&& img1[k + 1] == img2[m + 1]
    &&& img1[k + 2] == img2[m + 2]
    &&& img1[k + 3] == img2[m + 3]
}

/// Luma of a colour, a whole step in `0..=255`.
pub fn rgb2y(r: u8, g: u8, b: u8) -> (y: u8)
    ensures
        y as int == luma_spec(r as int, g as int, b as int),
{
    let sum: u64 = Y_RED * (r as u64) + Y_GREEN * (g as u64) + Y_BLUE * (b as u64);
    (sum / COEFF_SCALE) as u8
}

/// I component of a colour, in units of 10^-8.
pub fn rgb2i(r: u8, g: u8, b: u8) -> (i: i64)
    ensures
        i as int == chroma_i_spec(r as int, g as int, b as int),
{
    I_RED * (r as i64) + I_GREEN * (g as i64) + I_BLUE * (b as i64)
}

/// Q component of a colour, in units of 10^-8.
pub fn rgb2q(r: u8, g: u8, b: u8) -> (q: i64)
    ensures
        q as int == chroma_q_spec(r as int, g as int, b as int),
{
    Q_RED * (r as i64) + Q_GREEN * (g as i64) + Q_BLUE * (b as i64)
}

/// A square is bounded by the square of the bound on its root.
proof fn lemma_square_bound(v: int, bound: int)
    by (nonlinear_arith)
    requires
        -bound <= v <= bound,
    ensures
        0 <= v * v <= bound * bound,
{
}

/// A sample with full opacity keeps its colour over white.
pub proof fn lemma_opaque_keeps_color(c: int)
    ensures
        blend_spec(c, 255, 255) == c,
{
}

/// Two equal samples have equal YIQ components, so every difference between
/// them is zero.
pub proof fn lemma_same_sample_no_delta(img1: Seq<u8>, img2: Seq<u8>, k: int, m: int, y_only: bool)
    requires
        same_sample(img1, img2, k, m),
    ensures
        color_delta_spec(img1, img2, k, m, y_only) == 0,
        brightness_delta(img1, img2, k, m) == 0,
        color_distance(img1, img2, k, m) == 0,
{
    reveal(color_distance);
}

/// The components of a sample lie in fixed ranges.
pub proof fn lemma_sample_bounds(img: Seq<u8>, k: int)
    ensures
        0 <= sample_y(img, k) <= 255,
        -2 * sample_i(img, k) <= CHROMA_SPAN,
        2 * sample_i(img, k) <= CHROMA_SPAN,
        -2 * sample_q(img, k) <= CHROMA_SPAN,
        2 * sample_q(img, k) <= CHROMA_SPAN,
{
    lemma_blend_unsigned(img[k] as int, img[k + 3] as int, 255);
    lemma_blend_unsigned(img[k + 1] as int, img[k + 3] as int, 255);
    lemma_blend_unsigned(img[k + 2] as int, img[k + 3] as int, 255);
}

/// A colour distance is never negative and stays below a fixed bound, and it
/// is the magnitude of the signed colour difference.
pub proof fn lemma_distance_is_magnitude(img1: Seq<u8>, img2: Seq<u8>, k: int, m: int)
    ensures
        0 <= color_distance(img1, img2, k, m) <= DISTANCE_BOUND,
        color_delta_spec(img1, img2, k, m, false) == color_distance(img1, img2, k, m)
            || color_delta_spec(img1, img2, k, m, false) == -color_distance(img1, img2, k, m),
{
    reveal(color_distance);
    lemma_sample_bounds(img1, k);
    lemma_sample_bounds(img2, m);
    let y = brightness_delta(img1, img2, k, m);
    let i = sample_i(img1, k) - sample_i(img2, m);
    let q = sample_q(img1, k) - sample_q(img2, m);
    lemma_square_bound(y, 255);
    lemma_square_bound(i, CHROMA_SPAN as int);
    lemma_square_bound(q, CHROMA_SPAN as int);
}

/// The three components of a sample, as the executable code carries them.
pub struct Yiq {
    /// Luma, in whole steps.
    pub y: u8,
    /// I component, in units of 10^-8.
    pub i: i64,
    /// Q component, in units of 10^-8.
    pub q: i64,
}

/// A channel of a sample with opacity `alpha / 255`, as it appears over white.
fn channel_over_white(c: u8, alpha: u8) -> (out: u8)
    ensures
        out as int == blend_spec(c as int, alpha as int, 255),
{
    if alpha < 255 {
        blend(c, alpha as u32, 255)
    } else {
        proof {
            lemma_opaque_keeps_color(c as int);
        }
        c
    }
}

/// The YIQ components of the sample at byte offset `k`, seen over white.
fn sample_yiq(img: &[u8], k: usize) -> (out: Yiq)
    requires
        k + 4 <= img.len(),
    ensures
        out.y as int == sample_y(img@, k as int),
        out.i as int == sample_i(img@, k as int),
        out.q as int == sample_q(img@, k as int),
        -2 * (out.i as int) <= CHROMA_SPAN,
        2 * (out.i as int) <= CHROMA_SPAN,
        -2 * (out.q as int) <= CHROMA_SPAN,
        2 * (out.q as int) <= CHROMA_SPAN,
{
    let a: u8 = img[k + 3];
    let r: u8 = channel_over_white(img[k], a);
    let g: u8 = channel_over_white(img[k + 1], a);
    let b: u8 = channel_over_white(img[k + 2], a);
    Yiq { y: rgb2y(r, g, b), i: rgb2i(r, g, b), q: rgb2q(r, g, b) }
}

/// Whether the sample at byte offset `k` of `img1` and the sample at byte
/// offset `m` of `img2` are the same four bytes.
pub fn samples_equal(img1: &[u8], img2: &[u8], k: usize, m: usize) -> (same: bool)
    requires
        k + 4 <= img1.len(),
        m + 4 <= img2.len(),
    ensures
        same == same_sample(img1@, img2@, k as int, m as int),
{
    img1[k] == img2[m] && img1[k + 1] == img2[m + 1] && img1[k + 2] == img2[m + 2] && img1[k + 3]
        == img2[m + 3]
}

/// The colour difference between the sample at byte offset `k` of `img1` and
/// the sample at byte offset `m` of `img2`.
///
/// With `y_only` the result is the brightness difference in luma steps.
/// Otherwise it is the weighted squared YIQ distance in units of 10^-20, made
/// negative when the first sample is the brighter one.
pub fn color_delta(img1: &[u8], img2: &[u8], k: usize, m: usize, y_only: bool) -> (delta: i128)
    requires
        k + 4 <= img1.len(),
        m + 4 <= img2.len(),
    ensures
        delta as int == color_delta_spec(img1@, img2@, k as int, m as int, y_only),
{
    if samples_equal(img1, img2, k, m) {
        proof {
            lemma_same_sample_no_delta(img1@, img2@, k as int, m as int, y_only);
        }
        return 0;
    }
    let c1: Yiq = sample_yiq(img1, k);
    let c2: Yiq = sample_yiq(img2, m);
    let y: i128 = c1.y as i128 - c2.y as i128;
    if y_only {
        return y;
    }
    let i: i128 = c1.i as i128 - c2.i as i128;
    let q: i128 = c1.q as i128 - c2.q as i128;
    proof {
        reveal(color_distance);
        lemma_square_bound(y as int, 255);
        lemma_square_bound(i as int, CHROMA_SPAN as int);
        lemma_square_bound(q as int, CHROMA_SPAN as int);
    }
    let delta: i128 = Y_WEIGHT * (y * y) + I_WEIGHT * (i * i) + Q_WEIGHT * (q * q);
    if c1.y > c2.y {
        -delta
    } else {
        delta
    }
}

} // verus!
