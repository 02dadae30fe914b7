//! CPU color conversion, BT.601 studio-swing, 8.8 fixed-point coefficients.
//!
//! Every kernel checks its buffers against the geometry first and answers
//! `false`, writing nothing, when they are too small. Bytes of the destination
//! beyond the converted picture are left alone.

use vstd::arithmetic::div_mod::lemma_fundamental_div_mod;
use vstd::arithmetic::div_mod::lemma_fundamental_div_mod_converse;
use vstd::arithmetic::mul::lemma_mul_inequality;
use vstd::arithmetic::mul::lemma_mul_is_distributive_add_other_way;
use vstd::prelude::*;

verus! {

// ---------------------------------------------------------------------------
// The color model
// ---------------------------------------------------------------------------

/// `x` forced into the range of a byte.
pub open spec fn clamp8(x: int) -> u8 {
    if x < 0 {
        0
    } else if x > 255 {
        255
    } else {
        x as u8
    }
}

/// Red of a studio-swing YUV sample.
#[verifier::opaque]
pub open spec fn red(y: u8, u: u8, v: u8) -> u8 {
    clamp8((298 * (y - 16) + 409 * (v - 128) + 128) / 256)
}

/// Green of a studio-swing YUV sample.
#[verifier::opaque]
pub open spec fn green(y: u8, u: u8, v: u8) -> u8 {
    clamp8((298 * (y - 16) - 100 * (u - 128) - 208 * (v - 128) + 128) / 256)
}

/// Blue of a studio-swing YUV sample.
#[verifier::opaque]
pub open spec fn blue(y: u8, u: u8, v: u8) -> u8 {
    clamp8((298 * (y - 16) + 516 * (u - 128) + 128) / 256)
}

/// Channel `c` (0 red, 1 green, 2 blue) of a studio-swing YUV sample.
pub open spec fn channel(c: int, y: u8, u: u8, v: u8) -> u8 {
    if c == 0 {
        red(y, u, v)
    } else if c == 1 {
        green(y, u, v)
    } else {
        blue(y, u, v)
    }
}

/// Studio-swing luma of an RGB color.
#[verifier::opaque]
pub open spec fn luma(r: int, g: int, b: int) -> u8 {
    clamp8(16 + (66 * r + 129 * g + 25 * b + 128) / 256)
}

/// Studio-swing blue-difference chroma of an RGB color.
#[verifier::opaque]
pub open spec fn chroma_u(r: int, g: int, b: int) -> u8 {
    clamp8(128 + (112 * b - 38 * r - 74 * g + 128) / 256)
}

/// Studio-swing red-difference chroma of an RGB color.
#[verifier::opaque]
pub open spec fn chroma_v(r: int, g: int, b: int) -> u8 {
    clamp8(128 + (112 * r - 94 * g - 18 * b + 128) / 256)
}

/// Number of pixels of a picture.
pub open spec fn pixels(width: u32, height: u32) -> int {
    width as int * height as int
}

/// Luma of pixel `p` of an RGB24 picture.
pub open spec fn rgb_luma(rgb: Seq<u8>, p: int) -> u8 {
    luma(rgb[3 * p] as int, rgb[3 * p + 1] as int, rgb[3 * p + 2] as int)
}

// ---------------------------------------------------------------------------
// Laws of the color model
// ---------------------------------------------------------------------------

/// The encoder keeps to the studio swing: luma stays within 16..=235 and both
/// chroma components within 16..=240, for every RGB color.
pub proof fn law_studio_swing(r: u8, g: u8, b: u8)
    ensures
        16 <= luma(r as int, g as int, b as int) <= 235,
        16 <= chroma_u(r as int, g as int, b as int) <= 240,
        16 <= chroma_v(r as int, g as int, b as int) <= 240,
{
    reveal(luma);
    reveal(chroma_u);
    reveal(chroma_v);
}

/// A gray has neutral chroma.
pub proof fn law_gray_is_neutral(g: u8)
    ensures
        chroma_u(g as int, g as int, g as int) == 128,
        chroma_v(g as int, g as int, g as int) == 128,
{
    reveal(chroma_u);
    reveal(chroma_v);
}

/// A sample with neutral chroma decodes to a gray.
pub proof fn law_neutral_is_gray(y: u8)
    ensures
        red(y, 128, 128) == green(y, 128, 128),
        green(y, 128, 128) == blue(y, 128, 128),
{
    reveal(red);
    reveal(green);
    reveal(blue);
}

/// Encoding a gray and decoding it again moves no channel by more than one.
pub proof fn law_gray_round_trip(g: u8, c: int)
    ensures
        ({
            let y = luma(g as int, g as int, g as int);
            let back = channel(c, y, 128, 128);
            g - 1 <= back <= g + 1
        }),
{
    reveal(luma);
    reveal(red);
    reveal(green);
    reveal(blue);
}

/// Reference black and reference white decode to full-range black and white.
pub proof fn law_reference_levels(c: int)
    ensures
        channel(c, 16, 128, 128) == 0,
        channel(c, 235, 128, 128) == 255,
{
    reveal(red);
    reveal(green);
    reveal(blue);
}

/// The encoder follows the defining coefficients of BT.601 to within one step,
/// for every RGB color: luma spans 219 steps, of which red, green and blue hold
/// 65.481, 128.553 and 24.966, and each chroma component swings by 112 around
/// 128.
pub proof fn law_encoder_follows_bt601(r: u8, g: u8, b: u8)
    ensures
        ({
            let y = luma(r as int, g as int, b as int) - 16;
            let u = chroma_u(r as int, g as int, b as int) - 128;
            let v = chroma_v(r as int, g as int, b as int) - 128;
            &&& -255000 < 255000 * y - (65481 * r + 128553 * g + 24966 * b) < 255000
            &&& -255000 < 255000 * u - (112000 * b - 37797 * r - 74203 * g) < 255000
            &&& -255000 < 255000 * v - (112000 * r - 93786 * g - 18214 * b) < 255000
        }),
{
    reveal(luma);
    reveal(chroma_u);
    reveal(chroma_v);
}

/// The encoder's fixed-point sums, in 256ths of a step, are rounded to the
/// nearest step, for every RGB color.
pub proof fn law_encoder_rounds_to_nearest(r: u8, g: u8, b: u8)
    ensures
        ({
            let y = luma(r as int, g as int, b as int) - 16;
            let u = chroma_u(r as int, g as int, b as int) - 128;
            let v = chroma_v(r as int, g as int, b as int) - 128;
            &&& 256 * y - 128 <= 66 * r + 129 * g + 25 * b < 256 * y + 128
            &&& 256 * u - 128 <= 112 * b - 38 * r - 74 * g < 256 * u + 128
            &&& 256 * v - 128 <= 112 * r - 94 * g - 18 * b < 256 * v + 128
        }),
{
    reveal(luma);
    reveal(chroma_u);
    reveal(chroma_v);
}

/// The decoder follows the defining coefficients of BT.601, given here in
/// millionths, to within one step, for every sample: a channel differs from its
/// exact value by less than a step, except where that value lies outside the
/// range of a byte and the channel is at the end of the range.
pub proof fn law_decoder_follows_bt601(y: u8, u: u8, v: u8)
    ensures
        ({
            let exact_red = 1164383 * (y - 16) + 1596027 * (v - 128);
            let exact_green = 1164383 * (y - 16) - 391762 * (u - 128) - 812968 * (v - 128);
            let exact_blue = 1164383 * (y - 16) + 2017232 * (u - 128);
            &&& channel(0, y, u, v) > 0 ==> 1000000 * (channel(0, y, u, v) - 1) < exact_red
            &&& channel(0, y, u, v) < 255 ==> exact_red < 1000000 * (channel(0, y, u, v) + 1)
            &&& channel(1, y, u, v) > 0 ==> 1000000 * (channel(1, y, u, v) - 1) < exact_green
            &&& channel(1, y, u, v) < 255 ==> exact_green < 1000000 * (channel(1, y, u, v) + 1)
            &&& channel(2, y, u, v) > 0 ==> 1000000 * (channel(2, y, u, v) - 1) < exact_blue
            &&& channel(2, y, u, v) < 255 ==> exact_blue < 1000000 * (channel(2, y, u, v) + 1)
        }),
{
    reveal(red);
    reveal(green);
    reveal(blue);
}

/// The decoder's fixed-point sums, in 256ths of a step, are rounded to the
/// nearest step, for every sample, and held at the ends of the range of a byte.
pub proof fn law_decoder_rounds_to_nearest(y: u8, u: u8, v: u8)
    ensures
        ({
            let sum = 298 * (y - 16) + 409 * (v - 128);
            &&& channel(0, y, u, v) > 0 ==> 256 * channel(0, y, u, v) - 128 <= sum
            &&& channel(0, y, u, v) < 255 ==> sum < 256 * channel(0, y, u, v) + 128
        }),
        ({
            let sum = 298 * (y - 16) - 100 * (u - 128) - 208 * (v - 128);
            &&& channel(1, y, u, v) > 0 ==> 256 * channel(1, y, u, v) - 128 <= sum
            &&& channel(1, y, u, v) < 255 ==> sum < 256 * channel(1, y, u, v) + 128
        }),
        ({
            let sum = 298 * (y - 16) + 516 * (u - 128);
            &&& channel(2, y, u, v) > 0 ==> 256 * channel(2, y, u, v) - 128 <= sum
            &&& channel(2, y, u, v) < 255 ==> sum < 256 * channel(2, y, u, v) + 128
        }),
{
    reveal(red);
    reveal(green);
    reveal(blue);
}

/// Decoding undoes encoding, for every RGB color: red and green come back
/// within two steps and blue within three.
pub proof fn law_color_round_trip(r: u8, g: u8, b: u8)
    ensures
        ({
            let y = luma(r as int, g as int, b as int);
            let u = chroma_u(r as int, g as int, b as int);
            let v = chroma_v(r as int, g as int, b as int);
            &&& r - 2 <= channel(0, y, u, v) <= r + 2
            &&& g - 2 <= channel(1, y, u, v) <= g + 2
            &&& b - 3 <= channel(2, y, u, v) <= b + 3
        }),
{
    law_encoder_rounds_to_nearest(r, g, b);
    law_decoder_rounds_to_nearest(
        luma(r as int, g as int, b as int),
        chroma_u(r as int, g as int, b as int),
        chroma_v(r as int, g as int, b as int),
    );
}

/// A decoded channel moves with the sample as its color does: every channel
/// rises with Y; red rises with V and does not see U; green never rises when U
/// rises nor when V rises; blue rises with U and does not see V.
pub proof fn law_decoder_is_monotone(y1: u8, u1: u8, v1: u8, y2: u8, u2: u8, v2: u8)
    ensures
        y1 <= y2 && v1 <= v2 ==> channel(0, y1, u1, v1) <= channel(0, y2, u2, v2),
        y1 <= y2 && u1 >= u2 && v1 >= v2 ==> channel(1, y1, u1, v1) <= channel(1, y2, u2, v2),
        y1 <= y2 && u1 <= u2 ==> channel(2, y1, u1, v1) <= channel(2, y2, u2, v2),
{
    reveal(red);
    reveal(green);
    reveal(blue);
}

/// An encoded component moves with the color as it should: luma rises with
/// every channel, U rises with blue and falls with red and green, and V rises
/// with red and falls with green and blue.
pub proof fn law_encoder_is_monotone(r1: u8, g1: u8, b1: u8, r2: u8, g2: u8, b2: u8)
    ensures
        r1 <= r2 && g1 <= g2 && b1 <= b2 ==> luma(r1 as int, g1 as int, b1 as int) <= luma(
            r2 as int,
            g2 as int,
            b2 as int,
        ),
        r1 >= r2 && g1 >= g2 && b1 <= b2 ==> chroma_u(r1 as int, g1 as int, b1 as int) <= chroma_u(
            r2 as int,
            g2 as int,
            b2 as int,
        ),
        r1 <= r2 && g1 >= g2 && b1 >= b2 ==> chroma_v(r1 as int, g1 as int, b1 as int) <= chroma_v(
            r2 as int,
            g2 as int,
            b2 as int,
        ),
{
    reveal(luma);
    reveal(chroma_u);
    reveal(chroma_v);
}

// ---------------------------------------------------------------------------
// Arithmetic of the kernels
// ---------------------------------------------------------------------------

/// An arithmetic shift by eight rounds down.
fn floor_256(x: i32) -> (q: i32)
    requires
        -1_000_000 <= x <= 1_000_000,
    ensures
        q == x as int / 256,
{
    assert((x >> 8u32) * 256 <= x && x < (x >> 8u32) * 256 + 256) by (bit_vector)
        requires
            -1_000_000 <= x <= 1_000_000,
    ;
    x >> 8u32
}

/// Forces a value into the range of a byte.
fn clamp_u8(x: i32) -> (r: u8)
    ensures
        r == clamp8(x as int),
{
    if x < 0 {
        0
    } else if x > 255 {
        255
    } else {
        x as u8
    }
}

/// Luma of an RGB color.
fn luma_of(r: i32, g: i32, b: i32) -> (y: u8)
    requires
        0 <= r <= 255,
        0 <= g <= 255,
        0 <= b <= 255,
    ensures
        y == luma(r as int, g as int, b as int),
{
    proof {
        reveal(luma);
    }
    clamp_u8(16 + floor_256(66 * r + 129 * g + 25 * b + 128))
}

/// Chroma pair of an RGB color.
fn chroma_of(r: i32, g: i32, b: i32) -> (uv: (u8, u8))
    requires
        0 <= r <= 255,
        0 <= g <= 255,
        0 <= b <= 255,
    ensures
        uv.0 == chroma_u(r as int, g as int, b as int),
        uv.1 == chroma_v(r as int, g as int, b as int),
{
    proof {
        reveal(chroma_u);
        reveal(chroma_v);
    }
    let u = clamp_u8(128 + floor_256(112 * b - 38 * r - 74 * g + 128));
    let v = clamp_u8(128 + floor_256(112 * r - 94 * g - 18 * b + 128));
    (u, v)
}

/// The three channels of pixel `p` of an RGB24 picture.
fn rgb_at(src: &[u8], p: usize) -> (c: (i32, i32, i32))
    requires
        3 * p + 2 < src@.len(),
    ensures
        c.0 == src@[3 * p as int],
        c.1 == src@[3 * p as int + 1],
        c.2 == src@[3 * p as int + 2],
{
    assert(src@.len() == src.len());
    let i: usize = p * 3;
    (src[i] as i32, src[i + 1] as i32, src[i + 2] as i32)
}

/// Decodes one YUV sample into three bytes at `at`.
pub fn pack_px(dst: &mut [u8], at: usize, y: u8, u: u8, v: u8)
    requires
        at + 2 < old(dst)@.len(),
    ensures
        final(dst)@ == old(dst)@.update(at as int, red(y, u, v)).update(
            at + 1,
            green(y, u, v),
        ).update(at + 2, blue(y, u, v)),
{
    proof {
        reveal(red);
        reveal(green);
        reveal(blue);
    }
    assert(dst@.len() == dst.len());
    let c: i32 = y as i32 - 16;
    let d: i32 = u as i32 - 128;
    let e: i32 = v as i32 - 128;
    dst[at] = clamp_u8(floor_256(298 * c + 409 * e + 128));
    dst[at + 1] = clamp_u8(floor_256(298 * c - 100 * d - 208 * e + 128));
    dst[at + 2] = clamp_u8(floor_256(298 * c + 516 * d + 128));
}

/// The number of pixels always fits in 64 bits.
pub fn pixel_count(width: u32, height: u32) -> (n: u64)
    ensures
        n == pixels(width, height),
{
    assert(width as int * height as int <= u32::MAX * u32::MAX) by (nonlinear_arith)
        requires
            width <= u32::MAX,
            height <= u32::MAX,
    ;
    assert(0 <= width as int * height as int) by (nonlinear_arith);
    width as u64 * height as u64
}

// ---------------------------------------------------------------------------
// YUY2 -> RGB24
// ---------------------------------------------------------------------------

/// Whether the buffers are large enough to convert YUY2 to RGB24.
pub open spec fn yuy2_to_rgb24_fits(
    src_len: nat,
    dst_len: nat,
    width: u32,
    height: u32,
) -> bool {
    src_len >= pixels(width, height) * 2 && dst_len >= pixels(width, height) * 3
}

/// Chroma byte `k` (0 blue-difference, 1 red-difference) of pixel `p` of a
/// YUY2 picture of `npix` pixels. A last pixel without a partner has neutral
/// chroma.
pub open spec fn yuy2_chroma(src: Seq<u8>, npix: int, p: int, k: int) -> u8 {
    if p == npix - 1 && npix % 2 != 0 {
        128
    } else {
        src[4 * (p / 2) + 1 + 2 * k]
    }
}

/// Byte `j` of the RGB24 form of a YUY2 picture of `npix` pixels.
pub open spec fn yuy2_as_rgb(src: Seq<u8>, npix: int, j: int) -> u8 {
    let p = j / 3;
    channel(j % 3, src[2 * p], yuy2_chroma(src, npix, p, 0), yuy2_chroma(src, npix, p, 1))
}

/// Packed YUY2 (`Y0 U0 Y1 V0`) 4:2:2 -> interleaved RGB24.
///
/// Returns `false` when buffer sizes are inconsistent with the geometry.
pub fn yuy2_to_rgb24(src: &[u8], dst: &mut [u8], width: u32, height: u32) -> (ok: bool)
    ensures
        ok == yuy2_to_rgb24_fits(src@.len(), old(dst)@.len(), width, height),
        !ok ==> final(dst)@ == old(dst)@,
        final(dst)@.len() == old(dst)@.len(),
        ok ==> forall|j: int|
            0 <= j < pixels(width, height) * 3 ==> #[trigger] final(dst)@[j] == yuy2_as_rgb(
                src@,
                pixels(width, height),
                j,
            ),
        ok ==> forall|j: int|
            pixels(width, height) * 3 <= j < old(dst)@.len() ==> #[trigger] final(dst)@[j] == old(
                dst,
            )@[j],
{
    let n64: u64 = pixel_count(width, height);
    if (src.len() as u128) < n64 as u128 * 2 || (dst.len() as u128) < n64 as u128 * 3 {
        return false;
    }
    let npix: usize = n64 as usize;
    let pairs: usize = npix / 2;
    let ghost before = dst@;
    let mut i: usize = 0;
    while i < pairs
        invariant
            i <= pairs,
            pairs == npix / 2,
            npix == pixels(width, height),
            src.len() >= npix * 2,
            dst@.len() == before.len(),
            dst@.len() >= npix * 3,
            dst@.len() <= usize::MAX,
            forall|j: int|
                0 <= j < 6 * i ==> #[trigger] dst@[j] == yuy2_as_rgb(src@, npix as int, j),
            forall|j: int| 6 * i <= j < before.len() ==> #[trigger] dst@[j] == before[j],
        decreases pairs - i,
    {
        let s: usize = i * 4;
        let y0 = src[s];
        let u = src[s + 1];
        let y1 = src[s + 2];
        let v = src[s + 3];
        pack_px(dst, i * 6, y0, u, v);
        pack_px(dst, i * 6 + 3, y1, u, v);
        i += 1;
    }
    // Odd pixel count tail (width*height odd): convert the final lone Y with
    // neutral chroma rather than dropping it.
    if npix % 2 != 0 {
        let last: usize = npix - 1;
        pack_px(dst, last * 3, src[last * 2], 128, 128);
    }
    true
}

// ---------------------------------------------------------------------------
// NV12 -> RGB24
// ---------------------------------------------------------------------------

/// Whether the buffers are large enough to convert NV12 to RGB24.
pub open spec fn nv12_to_rgb24_fits(
    src_len: nat,
    dst_len: nat,
    width: u32,
    height: u32,
) -> bool {
    nv12_complete(src_len, width, height) && src_len >= pixels(width, height) * 3 / 2 && dst_len
        >= pixels(width, height) * 3
}

/// Bytes that the chroma of an NV12 picture takes: a row of whole pairs for
/// every two rows of luma. For even dimensions this is half the luma plane.
pub open spec fn nv12_chroma_span(width: u32, height: u32) -> int {
    if width == 0 || height == 0 {
        0
    } else {
        ((height - 1) / 2) * width + (width - 1) / 2 * 2 + 2
    }
}

/// Whether an NV12 buffer holds the chroma of every pixel.
pub open spec fn nv12_complete(src_len: nat, width: u32, height: u32) -> bool {
    src_len >= pixels(width, height) + nv12_chroma_span(width, height)
}

/// Tests whether an NV12 buffer holds the chroma of every pixel.
pub fn nv12_is_complete(src_len: usize, width: u32, height: u32) -> (r: bool)
    ensures
        r == nv12_complete(src_len as nat, width, height),
{
    let n64: u64 = pixel_count(width, height);
    let span: u128 = if width == 0 || height == 0 {
        0
    } else {
        let rows: u64 = pixel_count((height - 1) / 2, width);
        rows as u128 + ((width - 1) / 2) as u128 * 2 + 2
    };
    src_len as u128 >= n64 as u128 + span
}

/// Chroma byte `k` of pixel `p` of an NV12 picture.
pub open spec fn nv12_chroma(src: Seq<u8>, width: u32, height: u32, p: int, k: int) -> u8 {
    let row = p / width as int;
    let col = p % width as int;
    src[pixels(width, height) + (row / 2) * width + col / 2 * 2 + k]
}

/// Byte `j` of the RGB24 form of an NV12 picture.
pub open spec fn nv12_as_rgb(src: Seq<u8>, width: u32, height: u32, j: int) -> u8 {
    let p = j / 3;
    channel(
        j % 3,
        src[p],
        nv12_chroma(src, width, height, p, 0),
        nv12_chroma(src, width, height, p, 1),
    )
}

/// The chroma of every pixel of a complete picture lies inside the buffer.
proof fn lemma_nv12_chroma_bound(width: u32, height: u32, row: int, col: int)
    requires
        0 <= row < height,
        0 <= col < width,
    ensures
        0 <= (row / 2) * width + col / 2 * 2 + 1 < nv12_chroma_span(width, height),
{
    lemma_mul_inequality(row / 2, (height - 1) / 2, width as int);
    lemma_mul_inequality(0, row / 2, width as int);
}

/// Semi-planar NV12 (Y plane + interleaved UV plane) -> RGB24.
///
/// Returns `false` when buffer sizes are inconsistent with the geometry.
pub fn nv12_to_rgb24(src: &[u8], dst: &mut [u8], width: u32, height: u32) -> (ok: bool)
    ensures
        ok == nv12_to_rgb24_fits(src@.len(), old(dst)@.len(), width, height),
        !ok ==> final(dst)@ == old(dst)@,
        final(dst)@.len() == old(dst)@.len(),
        ok ==> forall|j: int|
            0 <= j < pixels(width, height) * 3 ==> #[trigger] final(dst)@[j] == nv12_as_rgb(
                src@,
                width,
                height,
                j,
            ),
        ok ==> forall|j: int|
            pixels(width, height) * 3 <= j < old(dst)@.len() ==> #[trigger] final(dst)@[j] == old(
                dst,
            )@[j],
{
    let n64: u64 = pixel_count(width, height);
    if !nv12_is_complete(src.len(), width, height) || (src.len() as u128) < n64 as u128 * 3 / 2
        || (dst.len() as u128) < n64 as u128 * 3 {
        return false;
    }
    let npix: usize = n64 as usize;
    let w: usize = width as usize;
    let h: usize = height as usize;
    let ghost before = dst@;
    let mut row: usize = 0;
    let mut p: usize = 0;
    while row < h
        invariant
            row <= h,
            w == width,
            h == height,
            npix == pixels(width, height),
            p == row * w,
            nv12_complete(src@.len(), width, height),
            src@.len() == src.len(),
            dst@.len() == before.len(),
            dst@.len() >= npix * 3,
            dst@.len() <= usize::MAX,
            forall|j: int|
                0 <= j < 3 * p ==> #[trigger] dst@[j] == nv12_as_rgb(src@, width, height, j),
            forall|j: int| 3 * p <= j < before.len() ==> #[trigger] dst@[j] == before[j],
        decreases h - row,
    {
        proof {
            if w > 0 {
                lemma_nv12_chroma_bound(width, height, row as int, 0);
            }
            lemma_mul_inequality(row + 1, h as int, w as int);
            lemma_mul_is_distributive_add_other_way(w as int, row as int, 1);
            lemma_mul_inequality(row as int / 2, row as int, w as int);
        }
        let uv_row: usize = (row / 2) * w;
        let mut col: usize = 0;
        while col < w
            invariant
                col <= w,
                row < h,
                w == width,
                h == height,
                npix == pixels(width, height),
                (row + 1) * w == row * w + w,
                (row + 1) * w <= npix,
                p == row * w + col,
                uv_row == (row as int / 2) * w,
                nv12_complete(src@.len(), width, height),
                src@.len() == src.len(),
                dst@.len() == before.len(),
                dst@.len() >= npix * 3,
                dst@.len() <= usize::MAX,
                forall|j: int|
                    0 <= j < 3 * p ==> #[trigger] dst@[j] == nv12_as_rgb(src@, width, height, j),
                forall|j: int| 3 * p <= j < before.len() ==> #[trigger] dst@[j] == before[j],
            decreases w - col,
        {
            proof {
                lemma_nv12_chroma_bound(width, height, row as int, col as int);
                lemma_fundamental_div_mod_converse(p as int, w as int, row as int, col as int);
            }
            let y = src[p];
            let uv: usize = npix + uv_row + col / 2 * 2;
            let u = src[uv];
            let v = src[uv + 1];
            pack_px(dst, p * 3, y, u, v);
            col += 1;
            p += 1;
        }
        row += 1;
    }
    assert(h * w == w * h) by (nonlinear_arith);
    true
}

// ---------------------------------------------------------------------------
// RGB24 -> NV12
// ---------------------------------------------------------------------------

/// Whether RGB24 can be converted to NV12: even dimensions (the 4:2:0 chroma
/// grid) and buffers that are large enough.
pub open spec fn rgb24_to_nv12_fits(
    src_len: nat,
    dst_len: nat,
    width: u32,
    height: u32,
) -> bool {
    &&& width > 0
    &&& height > 0
    &&& width % 2 == 0
    &&& height % 2 == 0
    &&& src_len >= pixels(width, height) * 3
    &&& dst_len >= pixels(width, height) * 3 / 2
}

/// Mean, rounded down, of channel `c` over the 2x2 block with top-left pixel
/// `p` in an RGB24 picture that is `w` pixels wide.
pub open spec fn block_mean(rgb: Seq<u8>, w: int, p: int, c: int) -> int {
    (rgb[3 * p + c] + rgb[3 * (p + 1) + c] + rgb[3 * (p + w) + c] + rgb[3 * (p + w + 1) + c]) / 4
}

/// Byte `m` of the NV12 chroma plane of an RGB24 picture `w` pixels wide.
pub open spec fn rgb_chroma_plane(rgb: Seq<u8>, w: int, m: int) -> u8 {
    let p = (2 * (m / w)) * w + (m % w) / 2 * 2;
    let r = block_mean(rgb, w, p, 0);
    let g = block_mean(rgb, w, p, 1);
    let b = block_mean(rgb, w, p, 2);
    if (m % w) % 2 == 0 {
        chroma_u(r, g, b)
    } else {
        chroma_v(r, g, b)
    }
}

/// Byte `j` of the NV12 form of an RGB24 picture.
pub open spec fn rgb_as_nv12(rgb: Seq<u8>, width: u32, height: u32, j: int) -> u8 {
    if j < pixels(width, height) {
        rgb_luma(rgb, j)
    } else {
        rgb_chroma_plane(rgb, width as int, j - pixels(width, height))
    }
}

/// Whether luma sample `k` lies in a 2x2 block that comes before the block at
/// (`by`, `bx`), in rows of blocks.
spec fn luma_done(k: int, w: int, by: int, bx: int) -> bool {
    k / w < by || (k / w < by + 2 && k % w < bx)
}

/// One block adds exactly its four samples.
proof fn lemma_block(k: int, w: int, by: int, bx: int)
    requires
        0 <= k,
        0 <= by,
        0 <= bx,
        bx + 1 < w,
    ensures
        luma_done(k, w, by, bx + 2) <==> (luma_done(k, w, by, bx) || k == by * w + bx || k == by * w
            + bx + 1 || k == by * w + w + bx || k == by * w + w + bx + 1),
{
    lemma_fundamental_div_mod(k, w);
    let r = k / w;
    let c = k % w;
    assert(k == w * r + c);
    assert(w * r == r * w) by (nonlinear_arith);
    lemma_mul_is_distributive_add_other_way(w, by, 1);
    assert((by + 1) * w == by * w + w);
    lemma_fundamental_div_mod_converse(by * w + bx, w, by, bx);
    lemma_fundamental_div_mod_converse(by * w + bx + 1, w, by, bx + 1);
    lemma_fundamental_div_mod_converse((by + 1) * w + bx, w, by + 1, bx);
    lemma_fundamental_div_mod_converse((by + 1) * w + bx + 1, w, by + 1, bx + 1);
}

/// The sample after the last block of a row of blocks is the first of the next.
proof fn lemma_block_row(k: int, w: int, by: int)
    requires
        0 <= k,
        0 < w,
    ensures
        luma_done(k, w, by, w) <==> luma_done(k, w, by + 2, 0),
{
    lemma_fundamental_div_mod(k, w);
    vstd::arithmetic::div_mod::lemma_mod_bound(k, w);
}

/// Everything is done once the last row of blocks is.
proof fn lemma_luma_all_done(k: int, w: int, h: int)
    requires
        0 <= k < w * h,
        0 < w,
    ensures
        luma_done(k, w, h, 0),
{
    vstd::arithmetic::div_mod::lemma_div_by_multiple_is_strongly_ordered(k, h * w, h, w);
    assert(h * w == w * h) by (nonlinear_arith);
    vstd::arithmetic::div_mod::lemma_div_multiples_vanish(h, w);
}

/// Converts one 2x2 block: four luma samples from pixel `top` on, and one
/// chroma pair at `uv`.
fn nv12_block(src: &[u8], dst: &mut [u8], w: usize, top: usize, uv: usize)
    requires
        w >= 2,
        3 * (top + w + 1) + 2 < src@.len(),
        top + w + 1 < uv,
        uv + 1 < old(dst)@.len(),
    ensures
        final(dst)@ == old(dst)@.update(top as int, rgb_luma(src@, top as int)).update(
            top + 1,
            rgb_luma(src@, top + 1),
        ).update(top + w, rgb_luma(src@, top + w)).update(
            top + w + 1,
            rgb_luma(src@, top + w + 1),
        ).update(
            uv as int,
            chroma_u(
                block_mean(src@, w as int, top as int, 0),
                block_mean(src@, w as int, top as int, 1),
                block_mean(src@, w as int, top as int, 2),
            ),
        ).update(
            uv + 1,
            chroma_v(
                block_mean(src@, w as int, top as int, 0),
                block_mean(src@, w as int, top as int, 1),
                block_mean(src@, w as int, top as int, 2),
            ),
        ),
{
    assert(src@.len() == src.len() && dst@.len() == dst.len());
    let (r00, g00, b00) = rgb_at(src, top);
    let (r01, g01, b01) = rgb_at(src, top + 1);
    let (r10, g10, b10) = rgb_at(src, top + w);
    let (r11, g11, b11) = rgb_at(src, top + w + 1);

    // BT.601: Y = 16 + (66R + 129G + 25B) / 256
    dst[top] = luma_of(r00, g00, b00);
    dst[top + 1] = luma_of(r01, g01, b01);
    dst[top + w] = luma_of(r10, g10, b10);
    dst[top + w + 1] = luma_of(r11, g11, b11);

    let r: i32 = (r00 + r01 + r10 + r11) / 4;
    let g: i32 = (g00 + g01 + g10 + g11) / 4;
    let b: i32 = (b00 + b01 + b10 + b11) / 4;
    // BT.601: U = 128 + (-38R - 74G + 112B) / 256
    //         V = 128 + (112R - 94G - 18B) / 256
    let (u, v) = chroma_of(r, g, b);
    dst[uv] = u;
    dst[uv + 1] = v;
}

/// Interleaved RGB24 -> semi-planar NV12 (Y plane + interleaved UV plane).
///
/// NV12 is the format browsers (Chrome/Firefox WebRTC) reliably accept from a
/// V4L2 capture device, and it is half the size of RGB24. Chroma is 4:2:0
/// subsampled by averaging each 2x2 RGB block. BT.601 studio swing to match
/// [`pack_px`]'s inverse coefficients.
///
/// Single-pass over 2x2 blocks (Y + UV together) for better cache locality.
/// Returns `false` when buffer sizes are inconsistent with the geometry.
#[verifier::spinoff_prover]
pub fn rgb24_to_nv12(src: &[u8], dst: &mut [u8], width: u32, height: u32) -> (ok: bool)
    ensures
        ok == rgb24_to_nv12_fits(src@.len(), old(dst)@.len(), width, height),
        !ok ==> final(dst)@ == old(dst)@,
        final(dst)@.len() == old(dst)@.len(),
        ok ==> forall|j: int|
            0 <= j < pixels(width, height) * 3 / 2 ==> #[trigger] final(dst)@[j] == rgb_as_nv12(
                src@,
                width,
                height,
                j,
            ),
        ok ==> forall|j: int|
            pixels(width, height) * 3 / 2 <= j < old(dst)@.len() ==> #[trigger] final(dst)@[j]
                == old(dst)@[j],
{
    // NV12 requires even dimensions for the 4:2:0 chroma grid.
    if width == 0 || height == 0 || width % 2 != 0 || height % 2 != 0 {
        return false;
    }
    let n64: u64 = pixel_count(width, height);
    if (src.len() as u128) < n64 as u128 * 3 || (dst.len() as u128) < n64 as u128 * 3 / 2 {
        return false;
    }
    let npix: usize = n64 as usize;
    let w: usize = width as usize;
    let h: usize = height as usize;
    let ghost before = dst@;
    proof {
        assert(npix == 2 * ((h as int / 2) * w)) by (nonlinear_arith)
            requires
                npix == w * h,
                h % 2 == 0,
        ;
        assert((0int / 2) * w == 0);
    }
    let mut by: usize = 0;
    // One pass: write four luma samples and one UV pair per 2x2 block.
    while by < h
        invariant
            by <= h,
            by % 2 == 0,
            w == width,
            h == height,
            w > 0,
            h > 0,
            w % 2 == 0,
            h % 2 == 0,
            npix == pixels(width, height),
            npix % 2 == 0,
            npix == 2 * ((h as int / 2) * w),
            src@.len() == src.len(),
            src@.len() >= npix * 3,
            dst@.len() == before.len(),
            dst@.len() >= npix * 3 / 2,
            dst@.len() <= usize::MAX,
            forall|k: int|
                0 <= k < npix ==> #[trigger] dst@[k] == (if luma_done(k, w as int, by as int, 0) {
                    rgb_luma(src@, k)
                } else {
                    before[k]
                }),
            forall|m: int|
                npix <= m < npix + (by as int / 2) * w ==> #[trigger] dst@[m] == rgb_chroma_plane(
                    src@,
                    w as int,
                    m - npix,
                ),
            forall|m: int|
                npix + (by as int / 2) * w <= m < before.len() ==> #[trigger] dst@[m] == before[m],
        decreases h - by,
    {
        proof {
            lemma_mul_inequality(by + 2, h as int, w as int);
            lemma_mul_is_distributive_add_other_way(w as int, by as int, 2);
            lemma_mul_inequality(0, by as int, w as int);
            lemma_mul_inequality(by as int / 2 + 1, h as int / 2, w as int);
            lemma_mul_is_distributive_add_other_way(w as int, by as int / 2, 1);
            lemma_mul_inequality(0, by as int / 2, w as int);
            assert(2 * (by as int / 2) == by);
        }
        let row0: usize = by * w;
        let row1: usize = row0 + w;
        let uv_row: usize = (by / 2) * w;
        let mut bx: usize = 0;
        while bx < w
            invariant
                bx <= w,
                bx % 2 == 0,
                by < h,
                by % 2 == 0,
                w == width,
                h == height,
                w > 0,
                w % 2 == 0,
                npix == pixels(width, height),
                npix % 2 == 0,
                npix == 2 * ((h as int / 2) * w),
                row0 == by * w,
                row1 == row0 + w,
                row1 + w <= npix,
                uv_row == (by as int / 2) * w,
                uv_row + w <= (h as int / 2) * w,
                src@.len() == src.len(),
                src@.len() >= npix * 3,
                dst@.len() == before.len(),
                dst@.len() >= npix * 3 / 2,
                dst@.len() <= usize::MAX,
                forall|k: int|
                    0 <= k < npix ==> #[trigger] dst@[k] == (if luma_done(
                        k,
                        w as int,
                        by as int,
                        bx as int,
                    ) {
                        rgb_luma(src@, k)
                    } else {
                        before[k]
                    }),
                forall|m: int|
                    npix <= m < npix + uv_row + bx ==> #[trigger] dst@[m] == rgb_chroma_plane(
                        src@,
                        w as int,
                        m - npix,
                    ),
                forall|m: int|
                    npix + uv_row + bx <= m < before.len() ==> #[trigger] dst@[m] == before[m],
            decreases w - bx,
        {
            let ghost prev = dst@;
            let top: usize = row0 + bx;
            let uv: usize = npix + uv_row + bx;
            nv12_block(src, dst, w, top, uv);
            proof {
                let m = uv_row + bx;
                lemma_fundamental_div_mod_converse(m, w as int, by as int / 2, bx as int);
                lemma_fundamental_div_mod_converse(m + 1, w as int, by as int / 2, bx + 1);
                assert((2 * (m / w as int)) * w == row0);
                assert(dst@[uv as int] == rgb_chroma_plane(src@, w as int, m));
                assert(dst@[uv + 1] == rgb_chroma_plane(src@, w as int, m + 1));
                assert forall|k: int| 0 <= k < npix implies #[trigger] dst@[k] == (if luma_done(
                    k,
                    w as int,
                    by as int,
                    bx + 2,
                ) {
                    rgb_luma(src@, k)
                } else {
                    before[k]
                }) by {
                    lemma_block(k, w as int, by as int, bx as int);
                    assert(prev[k] == (if luma_done(k, w as int, by as int, bx as int) {
                        rgb_luma(src@, k)
                    } else {
                        before[k]
                    }));
                }
                assert forall|m2: int|
                    npix <= m2 < npix + uv_row + bx + 2 implies #[trigger] dst@[m2]
                    == rgb_chroma_plane(src@, w as int, m2 - npix) by {
                    if m2 < npix + uv_row + bx {
                        assert(dst@[m2] == prev[m2]);
                    }
                }
            }
            bx += 2;
        }
        proof {
            assert forall|k: int| 0 <= k < npix implies #[trigger] dst@[k] == (if luma_done(
                k,
                w as int,
                by + 2,
                0,
            ) {
                rgb_luma(src@, k)
            } else {
                before[k]
            }) by {
                lemma_block_row(k, w as int, by as int);
            }
            assert((by + 2) as int / 2 == by as int / 2 + 1);
        }
        by += 2;
    }
    proof {
        assert forall|j: int| 0 <= j < npix * 3 / 2 implies #[trigger] dst@[j] == rgb_as_nv12(
            src@,
            width,
            height,
            j,
        ) by {
            if j < npix {
                lemma_luma_all_done(j, w as int, h as int);
            }
        }
    }
    true
}

// ---------------------------------------------------------------------------
// RGB24 -> YUY2
// ---------------------------------------------------------------------------

/// Whether RGB24 can be converted to YUY2: an even width (pixels come in
/// pairs) and buffers that are large enough.
pub open spec fn rgb24_to_yuy2_fits(
    src_len: nat,
    dst_len: nat,
    width: u32,
    height: u32,
) -> bool {
    &&& width > 0
    &&& height > 0
    &&& width % 2 == 0
    &&& src_len >= pixels(width, height) * 3
    &&& dst_len >= pixels(width, height) * 2
}

/// Mean, rounded down, of channel `c` over pixels `p` and `p + 1`.
pub open spec fn pair_mean(rgb: Seq<u8>, p: int, c: int) -> int {
    (rgb[3 * p + c] + rgb[3 * (p + 1) + c]) / 2
}

/// Byte `j` of the YUY2 form of an RGB24 picture.
pub open spec fn rgb_as_yuy2(rgb: Seq<u8>, j: int) -> u8 {
    let p = 2 * (j / 4);
    let r = pair_mean(rgb, p, 0);
    let g = pair_mean(rgb, p, 1);
    let b = pair_mean(rgb, p, 2);
    if j % 4 == 0 {
        rgb_luma(rgb, p)
    } else if j % 4 == 1 {
        chroma_u(r, g, b)
    } else if j % 4 == 2 {
        rgb_luma(rgb, p + 1)
    } else {
        chroma_v(r, g, b)
    }
}

/// Interleaved RGB24 -> packed YUY2 (`Y0 U0 Y1 V0`).
///
/// Used when YUY2 is wanted but the camera only delivers MJPEG/RGB. An even
/// width is required (2-pixel YUY2 pairs).
pub fn rgb24_to_yuy2(src: &[u8], dst: &mut [u8], width: u32, height: u32) -> (ok: bool)
    ensures
        ok == rgb24_to_yuy2_fits(src@.len(), old(dst)@.len(), width, height),
        !ok ==> final(dst)@ == old(dst)@,
        final(dst)@.len() == old(dst)@.len(),
        ok ==> forall|j: int|
            0 <= j < pixels(width, height) * 2 ==> #[trigger] final(dst)@[j] == rgb_as_yuy2(
                src@,
                j,
            ),
        ok ==> forall|j: int|
            pixels(width, height) * 2 <= j < old(dst)@.len() ==> #[trigger] final(dst)@[j] == old(
                dst,
            )@[j],
{
    if width == 0 || height == 0 || width % 2 != 0 {
        return false;
    }
    let n64: u64 = pixel_count(width, height);
    if (src.len() as u128) < n64 as u128 * 3 || (dst.len() as u128) < n64 as u128 * 2 {
        return false;
    }
    let npix: usize = n64 as usize;
    let w: usize = width as usize;
    let h: usize = height as usize;
    let ghost before = dst@;
    let mut row: usize = 0;
    let mut p: usize = 0;
    while row < h
        invariant
            row <= h,
            w == width,
            h == height,
            w % 2 == 0,
            npix == pixels(width, height),
            p == row * w,
            p % 2 == 0,
            src@.len() == src.len(),
            src@.len() >= npix * 3,
            dst@.len() == before.len(),
            dst@.len() >= npix * 2,
            dst@.len() <= usize::MAX,
            forall|j: int| 0 <= j < 2 * p ==> #[trigger] dst@[j] == rgb_as_yuy2(src@, j),
            forall|j: int| 2 * p <= j < before.len() ==> #[trigger] dst@[j] == before[j],
        decreases h - row,
    {
        proof {
            lemma_mul_inequality(row + 1, h as int, w as int);
            lemma_mul_is_distributive_add_other_way(w as int, row as int, 1);
        }
        let mut col: usize = 0;
        while col < w
            invariant
                col <= w,
                col % 2 == 0,
                row < h,
                w == width,
                h == height,
                w % 2 == 0,
                npix == pixels(width, height),
                (row + 1) * w == row * w + w,
                (row + 1) * w <= npix,
                p == row * w + col,
                p % 2 == 0,
                src@.len() == src.len(),
                src@.len() >= npix * 3,
                dst@.len() == before.len(),
                dst@.len() >= npix * 2,
                dst@.len() <= usize::MAX,
                forall|j: int| 0 <= j < 2 * p ==> #[trigger] dst@[j] == rgb_as_yuy2(src@, j),
                forall|j: int| 2 * p <= j < before.len() ==> #[trigger] dst@[j] == before[j],
            decreases w - col,
        {
            let (r0, g0, b0) = rgb_at(src, p);
            let (r1, g1, b1) = rgb_at(src, p + 1);
            let r: i32 = (r0 + r1) / 2;
            let g: i32 = (g0 + g1) / 2;
            let b: i32 = (b0 + b1) / 2;
            let (u, v) = chroma_of(r, g, b);
            let d: usize = p * 2;
            dst[d] = luma_of(r0, g0, b0);
            dst[d + 1] = u;
            dst[d + 2] = luma_of(r1, g1, b1);
            dst[d + 3] = v;
            proof {
                assert(d as int / 4 * 2 == p);
                assert(r == pair_mean(src@, p as int, 0));
                assert(g == pair_mean(src@, p as int, 1));
                assert(b == pair_mean(src@, p as int, 2));
            }
            col += 2;
            p += 2;
        }
        row += 1;
    }
    assert(h * w == w * h) by (nonlinear_arith);
    true
}

// ---------------------------------------------------------------------------
// Whole pictures
// ---------------------------------------------------------------------------

/// The RGB24 form of a YUY2 picture.
pub open spec fn yuy2_rgb_picture(src: Seq<u8>, width: u32, height: u32) -> Seq<u8> {
    Seq::new(
        (pixels(width, height) * 3) as nat,
        |j: int| yuy2_as_rgb(src, pixels(width, height), j),
    )
}

/// The RGB24 form of an NV12 picture.
pub open spec fn nv12_rgb_picture(src: Seq<u8>, width: u32, height: u32) -> Seq<u8> {
    Seq::new((pixels(width, height) * 3) as nat, |j: int| nv12_as_rgb(src, width, height, j))
}

/// The NV12 form of an RGB24 picture.
pub open spec fn rgb_nv12_picture(rgb: Seq<u8>, width: u32, height: u32) -> Seq<u8> {
    Seq::new((pixels(width, height) * 3 / 2) as nat, |j: int| rgb_as_nv12(rgb, width, height, j))
}

/// The YUY2 form of an RGB24 picture.
pub open spec fn rgb_yuy2_picture(rgb: Seq<u8>, width: u32, height: u32) -> Seq<u8> {
    Seq::new((pixels(width, height) * 2) as nat, |j: int| rgb_as_yuy2(rgb, j))
}

/// Coordinate `x` of a line of `dst` pixels, mapped to a line of `src` pixels.
pub open spec fn nearest(x: int, src: int, dst: int) -> int {
    x * src / dst
}

/// A mapped coordinate lies on the source line.
pub proof fn lemma_nearest_bound(x: int, src: int, dst: int)
    requires
        0 <= x < dst,
        0 < src,
    ensures
        0 <= nearest(x, src, dst) < src,
{
    assert(0 <= x * src / dst < src) by (nonlinear_arith)
        requires
            0 <= x < dst,
            0 < src,
    ;
}

// ---------------------------------------------------------------------------
// Laws of whole pictures
// ---------------------------------------------------------------------------

/// Whether pixel `p` of an RGB24 picture is a gray.
pub open spec fn is_gray(rgb: Seq<u8>, p: int) -> bool {
    rgb[3 * p] == rgb[3 * p + 1] && rgb[3 * p + 1] == rgb[3 * p + 2]
}

/// A gray picture packed as NV12 and unpacked again differs from itself by at
/// most one in every byte.
pub proof fn law_gray_survives_nv12(rgb: Seq<u8>, nv12: Seq<u8>, width: u32, height: u32, j: int)
    requires
        rgb24_to_nv12_fits(rgb.len(), nv12.len(), width, height),
        forall|p: int| 0 <= p < pixels(width, height) ==> #[trigger] is_gray(rgb, p),
        forall|i: int|
            0 <= i < pixels(width, height) * 3 / 2 ==> #[trigger] nv12[i] == rgb_as_nv12(
                rgb,
                width,
                height,
                i,
            ),
        0 <= j < pixels(width, height) * 3,
    ensures
        rgb[j] - 1 <= nv12_as_rgb(nv12, width, height, j) <= rgb[j] + 1,
{
    let w = width as int;
    let h = height as int;
    let n = pixels(width, height);
    let p = j / 3;
    let row = p / w;
    let col = p % w;
    lemma_fundamental_div_mod(p, w);
    vstd::arithmetic::div_mod::lemma_mod_bound(p, w);
    assert(w * row == row * w) by (nonlinear_arith);
    assert(0 <= row < h) by (nonlinear_arith)
        requires
            0 <= p < w * h,
            p == row * w + col,
            0 <= col < w,
    ;
    lemma_nv12_chroma_bound(width, height, row, col);
    assert(n == 2 * ((h / 2) * w)) by (nonlinear_arith)
        requires
            n == w * h,
            h % 2 == 0,
    ;
    lemma_mul_inequality(row / 2 + 1, h / 2, w);
    lemma_mul_is_distributive_add_other_way(w, row / 2, 1);
    lemma_mul_inequality(0, row / 2, w);
    let m = (row / 2) * w + col / 2 * 2;
    lemma_fundamental_div_mod_converse(m, w, row / 2, col / 2 * 2);
    lemma_fundamental_div_mod_converse(m + 1, w, row / 2, col / 2 * 2 + 1);
    let top = (2 * (row / 2)) * w + col / 2 * 2;
    assert((2 * (row / 2)) * w == 2 * ((row / 2) * w)) by (nonlinear_arith);
    assert(top + w + 1 < n);
    assert(is_gray(rgb, top) && is_gray(rgb, top + 1) && is_gray(rgb, top + w) && is_gray(
        rgb,
        top + w + 1,
    ));
    let g = block_mean(rgb, w, top, 0);
    law_gray_is_neutral(g as u8);
    assert(nv12[n + m] == 128 && nv12[n + m + 1] == 128);
    assert(is_gray(rgb, p));
    law_gray_round_trip(rgb[3 * p], j % 3);
}

/// A gray picture packed as YUY2 and unpacked again differs from itself by at
/// most one in every byte.
pub proof fn law_gray_survives_yuy2(rgb: Seq<u8>, yuy2: Seq<u8>, width: u32, height: u32, j: int)
    requires
        rgb24_to_yuy2_fits(rgb.len(), yuy2.len(), width, height),
        forall|p: int| 0 <= p < pixels(width, height) ==> #[trigger] is_gray(rgb, p),
        forall|i: int|
            0 <= i < pixels(width, height) * 2 ==> #[trigger] yuy2[i] == rgb_as_yuy2(rgb, i),
        0 <= j < pixels(width, height) * 3,
    ensures
        rgb[j] - 1 <= yuy2_as_rgb(yuy2, pixels(width, height), j) <= rgb[j] + 1,
{
    let n = pixels(width, height);
    assert(n == 2 * ((width / 2) * height)) by (nonlinear_arith)
        requires
            n == width * height,
            width % 2 == 0,
    ;
    let p = j / 3;
    let q = 2 * (p / 2);
    assert(is_gray(rgb, p) && is_gray(rgb, q) && is_gray(rgb, q + 1));
    law_gray_is_neutral(pair_mean(rgb, q, 0) as u8);
    assert((2 * p) / 4 == p / 2 && (4 * (p / 2) + 1) / 4 == p / 2);
    assert(yuy2[2 * p] == rgb_luma(rgb, p));
    assert(yuy2[4 * (p / 2) + 1] == 128 && yuy2[4 * (p / 2) + 3] == 128);
    law_gray_round_trip(rgb[3 * p], j % 3);
}

// ---------------------------------------------------------------------------
// Laws of the picture layouts
// ---------------------------------------------------------------------------

/// Channel `c` (0 red, 1 green, 2 blue) of the pixel in column `x` and row `y` of
/// an RGB24 picture that is `w` pixels wide.
pub open spec fn rgb_at_xy(rgb: Seq<u8>, w: int, x: int, y: int, c: int) -> u8 {
    rgb[(y * w + x) * 3 + c]
}

/// The pixel in column `x` and row `y` has this color.
pub open spec fn has_color(rgb: Seq<u8>, w: int, x: int, y: int, r: u8, g: u8, b: u8) -> bool {
    rgb_at_xy(rgb, w, x, y, 0) == r && rgb_at_xy(rgb, w, x, y, 1) == g && rgb_at_xy(rgb, w, x, y, 2)
        == b
}

/// Where the pixel in column `x` and row `y` stands, and that it is in the picture.
proof fn lemma_pixel_index(w: int, h: int, x: int, y: int)
    requires
        0 <= x < w,
        0 <= y < h,
    ensures
        0 <= y * w + x < w * h,
        (y * w + x) / w == y,
        (y * w + x) % w == x,
{
    lemma_fundamental_div_mod_converse(y * w + x, w, y, x);
    lemma_mul_inequality(y + 1, h, w);
    lemma_mul_is_distributive_add_other_way(w, y, 1);
    assert(0 <= y * w) by (nonlinear_arith)
        requires
            0 <= y,
            0 < w,
    ;
    assert(h * w == w * h) by (nonlinear_arith);
}

/// Where the chroma pair of the block in column `x` and row `y` stands, and that
/// it is in the chroma plane of the picture.
proof fn lemma_chroma_index(w: int, h: int, x: int, y: int)
    requires
        0 <= x < w,
        0 <= y < h,
        w % 2 == 0,
        h % 2 == 0,
        x % 2 == 0,
        y % 2 == 0,
    ensures
        0 <= (y / 2) * w + x,
        ((y / 2) * w + x) / w == y / 2,
        ((y / 2) * w + x) % w == x,
        ((y / 2) * w + x + 1) / w == y / 2,
        ((y / 2) * w + x + 1) % w == x + 1,
        (2 * (y / 2)) * w + x / 2 * 2 == y * w + x,
        w * h + (y / 2) * w + x + 1 < w * h * 3 / 2,
{
    lemma_pixel_index(w, h / 2, x, y / 2);
    lemma_pixel_index(w, h / 2, x + 1, y / 2);
    assert(w * h == 2 * (w * (h / 2))) by (nonlinear_arith)
        requires
            h % 2 == 0,
    ;
}

/// A picture of each format has the bytes that the format's kernel writes, and as
/// many of them as the format packs: three per pixel of RGB24, two per pixel of
/// YUY2, and three for every two pixels of NV12.
pub proof fn law_picture_sizes(data: Seq<u8>, width: u32, height: u32)
    ensures
        yuy2_rgb_picture(data, width, height).len() == width * height * 3,
        nv12_rgb_picture(data, width, height).len() == width * height * 3,
        rgb_yuy2_picture(data, width, height).len() == width * height * 2,
        rgb_nv12_picture(data, width, height).len() == width * height * 3 / 2,
        forall|j: int|
            0 <= j < width * height * 3 ==> #[trigger] yuy2_rgb_picture(data, width, height)[j]
                == yuy2_as_rgb(data, width * height, j),
        forall|j: int|
            0 <= j < width * height * 3 ==> #[trigger] nv12_rgb_picture(data, width, height)[j]
                == nv12_as_rgb(data, width, height, j),
        forall|j: int|
            0 <= j < width * height * 2 ==> #[trigger] rgb_yuy2_picture(data, width, height)[j]
                == rgb_as_yuy2(data, j),
        forall|j: int|
            0 <= j < width * height * 3 / 2 ==> #[trigger] rgb_nv12_picture(
                data,
                width,
                height,
            )[j] == rgb_as_nv12(data, width, height, j),
{
    assert(0 <= width * height) by (nonlinear_arith);
}

/// The kernels accept buffers of exactly the size that the geometry needs and any
/// larger ones, and refuse every smaller one. The encoders also refuse a picture
/// without pixels and an odd width, and the NV12 encoder an odd height.
pub proof fn law_buffers_are_checked(src_len: nat, dst_len: nat, width: u32, height: u32)
    ensures
        yuy2_to_rgb24_fits(src_len, dst_len, width, height) <==> (src_len >= 2 * (width * height)
            && dst_len >= 3 * (width * height)),
        rgb24_to_yuy2_fits(src_len, dst_len, width, height) <==> (width >= 1 && height >= 1
            && width % 2 == 0 && src_len >= 3 * (width * height) && dst_len >= 2 * (width * height)),
        rgb24_to_nv12_fits(src_len, dst_len, width, height) <==> (width >= 1 && height >= 1
            && width % 2 == 0 && height % 2 == 0 && src_len >= 3 * (width * height) && 2 * dst_len
            >= 3 * (width * height)),
        width % 2 == 0 && height % 2 == 0 ==> (nv12_to_rgb24_fits(src_len, dst_len, width, height)
            <==> 2 * src_len >= 3 * (width * height) && dst_len >= 3 * (width * height)),
        nv12_to_rgb24_fits(src_len, dst_len, width, height) ==> 2 * src_len + 1 >= 3 * (width
            * height) && dst_len >= 3 * (width * height),
{
    let w = width as int;
    let h = height as int;
    if width % 2 == 0 && height % 2 == 0 {
        assert(w * h == 2 * (w * (h / 2))) by (nonlinear_arith)
            requires
                h % 2 == 0,
        ;
        if width > 0 && height > 0 {
            assert((h - 1) / 2 == h / 2 - 1);
            assert((h / 2 - 1) * w + w == w * (h / 2)) by (nonlinear_arith);
            assert(nv12_chroma_span(width, height) == w * (h / 2));
        } else {
            assert(w * (h / 2) == 0) by (nonlinear_arith)
                requires
                    w == 0 || h == 0,
            ;
        }
    }
}

/// Every chroma pair of an NV12 picture is found where a reader looks for it: a
/// buffer that the decoder accepts holds the pair of each pixel, whatever the
/// parity of the geometry.
pub proof fn law_nv12_chroma_is_inside(
    src_len: nat,
    dst_len: nat,
    width: u32,
    height: u32,
    x: int,
    y: int,
)
    requires
        nv12_to_rgb24_fits(src_len, dst_len, width, height),
        0 <= x < width,
        0 <= y < height,
    ensures
        width * height + (y / 2) * width + (x - x % 2) + 1 < src_len,
{
    lemma_nv12_chroma_bound(width, height, y, x);
}

/// The luma plane of NV12 comes first and is in the order of the pixels: the byte
/// for a pixel is the luma of that pixel, whatever the rest of the picture holds.
pub proof fn law_nv12_luma_plane(rgb: Seq<u8>, width: u32, height: u32, x: int, y: int)
    requires
        0 <= x < width,
        0 <= y < height,
    ensures
        rgb_as_nv12(rgb, width, height, y * width + x) == luma(
            rgb_at_xy(rgb, width as int, x, y, 0) as int,
            rgb_at_xy(rgb, width as int, x, y, 1) as int,
            rgb_at_xy(rgb, width as int, x, y, 2) as int,
        ),
{
    lemma_pixel_index(width as int, height as int, x, y);
}

/// The chroma plane of NV12 follows the luma plane, with one pair for each block
/// of two by two pixels, in the order of the blocks. The pair is the chroma of
/// the mean color of the four pixels, rounded down: where `r`, `g` and `b` are the
/// means, the pair is `(chroma_u, chroma_v)` of them, whatever the rest of the
/// picture holds.
pub proof fn law_nv12_block_chroma(
    rgb: Seq<u8>,
    width: u32,
    height: u32,
    x: int,
    y: int,
    r: int,
    g: int,
    b: int,
)
    requires
        width % 2 == 0,
        height % 2 == 0,
        0 <= x < width,
        0 <= y < height,
        x % 2 == 0,
        y % 2 == 0,
        ({
            let w = width as int;
            let total = |c: int|
                rgb_at_xy(rgb, w, x, y, c) + rgb_at_xy(rgb, w, x + 1, y, c) + rgb_at_xy(
                    rgb,
                    w,
                    x,
                    y + 1,
                    c,
                ) + rgb_at_xy(rgb, w, x + 1, y + 1, c);
            &&& 4 * r <= total(0) < 4 * (r + 1)
            &&& 4 * g <= total(1) < 4 * (g + 1)
            &&& 4 * b <= total(2) < 4 * (b + 1)
        }),
    ensures
        rgb_as_nv12(rgb, width, height, width * height + (y / 2) * width + x) == chroma_u(r, g, b),
        rgb_as_nv12(rgb, width, height, width * height + (y / 2) * width + x + 1) == chroma_v(
            r,
            g,
            b,
        ),
{
    let w = width as int;
    let h = height as int;
    lemma_chroma_index(w, h, x, y);
    let top = y * w + x;
    lemma_mul_is_distributive_add_other_way(w, y, 1);
    assert((y + 1) * w == y * w + w);
    assert(block_mean(rgb, w, top, 0) == r);
    assert(block_mean(rgb, w, top, 1) == g);
    assert(block_mean(rgb, w, top, 2) == b);
}

/// A block of NV12 whose four pixels have one color carries the chroma of that
/// color, in every block row and whatever the rest of the picture holds.
pub proof fn law_nv12_block_color(
    rgb: Seq<u8>,
    width: u32,
    height: u32,
    x: int,
    y: int,
    r: u8,
    g: u8,
    b: u8,
)
    requires
        width % 2 == 0,
        height % 2 == 0,
        0 <= x < width,
        0 <= y < height,
        x % 2 == 0,
        y % 2 == 0,
        has_color(rgb, width as int, x, y, r, g, b),
        has_color(rgb, width as int, x + 1, y, r, g, b),
        has_color(rgb, width as int, x, y + 1, r, g, b),
        has_color(rgb, width as int, x + 1, y + 1, r, g, b),
    ensures
        rgb_as_nv12(rgb, width, height, width * height + (y / 2) * width + x) == chroma_u(
            r as int,
            g as int,
            b as int,
        ),
        rgb_as_nv12(rgb, width, height, width * height + (y / 2) * width + x + 1) == chroma_v(
            r as int,
            g as int,
            b as int,
        ),
{
    law_nv12_block_chroma(rgb, width, height, x, y, r as int, g as int, b as int);
}

/// The chroma pair of a block of NV12 is a function of its four pixels alone: two
/// pictures, even of different sizes, that agree on the four pixels of a block each
/// have the same pair there.
pub proof fn law_nv12_blocks_are_local(
    rgb1: Seq<u8>,
    width1: u32,
    height1: u32,
    x1: int,
    y1: int,
    rgb2: Seq<u8>,
    width2: u32,
    height2: u32,
    x2: int,
    y2: int,
    k: int,
)
    requires
        width1 % 2 == 0,
        height1 % 2 == 0,
        width2 % 2 == 0,
        height2 % 2 == 0,
        0 <= x1 < width1,
        0 <= y1 < height1,
        0 <= x2 < width2,
        0 <= y2 < height2,
        x1 % 2 == 0,
        y1 % 2 == 0,
        x2 % 2 == 0,
        y2 % 2 == 0,
        forall|dx: int, dy: int, c: int|
            0 <= dx < 2 && 0 <= dy < 2 && 0 <= c < 3 ==> #[trigger] rgb_at_xy(
                rgb1,
                width1 as int,
                x1 + dx,
                y1 + dy,
                c,
            ) == rgb_at_xy(rgb2, width2 as int, x2 + dx, y2 + dy, c),
        0 <= k < 2,
    ensures
        rgb_as_nv12(rgb1, width1, height1, width1 * height1 + (y1 / 2) * width1 + x1 + k)
            == rgb_as_nv12(rgb2, width2, height2, width2 * height2 + (y2 / 2) * width2 + x2 + k),
{
    let total = |c: int|
        rgb_at_xy(rgb1, width1 as int, x1 + 0, y1 + 0, c) + rgb_at_xy(
            rgb1,
            width1 as int,
            x1 + 1,
            y1 + 0,
            c,
        ) + rgb_at_xy(rgb1, width1 as int, x1 + 0, y1 + 1, c) + rgb_at_xy(
            rgb1,
            width1 as int,
            x1 + 1,
            y1 + 1,
            c,
        );
    let r = total(0) / 4;
    let g = total(1) / 4;
    let b = total(2) / 4;
    law_nv12_block_chroma(rgb1, width1, height1, x1, y1, r, g, b);
    law_nv12_block_chroma(rgb2, width2, height2, x2, y2, r, g, b);
}

/// A pixel of NV12 decodes from its own luma byte and from the pair of the block
/// of two by two pixels that it is in, and from nothing else.
pub proof fn law_nv12_pixel_sources(src: Seq<u8>, width: u32, height: u32, x: int, y: int, c: int)
    requires
        0 <= x < width,
        0 <= y < height,
        0 <= c < 3,
    ensures
        nv12_as_rgb(src, width, height, (y * width + x) * 3 + c) == channel(
            c,
            src[y * width + x],
            src[width * height + (y / 2) * width + (x - x % 2)],
            src[width * height + (y / 2) * width + (x - x % 2) + 1],
        ),
{
    lemma_pixel_index(width as int, height as int, x, y);
    let p = y * width + x;
    assert(((p * 3) + c) / 3 == p && ((p * 3) + c) % 3 == c);
}

/// A color survives the way through NV12 wherever its block has only that color:
/// each of the four pixels comes back within three steps, whatever the rest of the
/// picture holds.
pub proof fn law_color_survives_nv12(
    rgb: Seq<u8>,
    width: u32,
    height: u32,
    x: int,
    y: int,
    r: u8,
    g: u8,
    b: u8,
    dx: int,
    dy: int,
    c: int,
)
    requires
        width % 2 == 0,
        height % 2 == 0,
        0 <= x < width,
        0 <= y < height,
        x % 2 == 0,
        y % 2 == 0,
        has_color(rgb, width as int, x, y, r, g, b),
        has_color(rgb, width as int, x + 1, y, r, g, b),
        has_color(rgb, width as int, x, y + 1, r, g, b),
        has_color(rgb, width as int, x + 1, y + 1, r, g, b),
        0 <= dx < 2,
        0 <= dy < 2,
        0 <= c < 3,
    ensures
        ({
            let j = ((y + dy) * width + x + dx) * 3 + c;
            rgb[j] - 3 <= nv12_rgb_picture(
                rgb_nv12_picture(rgb, width, height),
                width,
                height,
            )[j] <= rgb[j] + 3
        }),
{
    let w = width as int;
    let h = height as int;
    let nv12 = rgb_nv12_picture(rgb, width, height);
    let j = ((y + dy) * w + x + dx) * 3 + c;
    lemma_pixel_index(w, h, x + dx, y + dy);
    lemma_chroma_index(w, h, x, y);
    law_picture_sizes(rgb, width, height);
    law_picture_sizes(nv12, width, height);
    law_nv12_luma_plane(rgb, width, height, x + dx, y + dy);
    law_nv12_block_color(rgb, width, height, x, y, r, g, b);
    law_nv12_pixel_sources(nv12, width, height, x + dx, y + dy, c);
    law_color_round_trip(r, g, b);
    assert((y + dy) / 2 == y / 2);
    assert((x + dx) - (x + dx) % 2 == x);
    let p = (y + dy) * w + x + dx;
    assert(nv12[p] == rgb_as_nv12(rgb, width, height, p));
    let q = w * h + (y / 2) * w + x;
    assert(nv12[q] == rgb_as_nv12(rgb, width, height, q));
    assert(nv12[q + 1] == rgb_as_nv12(rgb, width, height, q + 1));
    assert(rgb_at_xy(rgb, w, x + dx, y + dy, c) == rgb[j]);
    assert(has_color(rgb, w, x + dx, y + dy, r, g, b));
}

/// Two neighbouring pixels of YUY2 are four bytes: the luma of the first, the U
/// that they share, the luma of the second, and the V that they share. The chroma
/// is that of their mean color, rounded down: where `r`, `g` and `b` are the means,
/// it is `chroma_u` and `chroma_v` of them, whatever the rest of the picture holds.
pub proof fn law_yuy2_pair(rgb: Seq<u8>, k: int, r: int, g: int, b: int)
    requires
        0 <= k,
        2 * r <= rgb[6 * k] + rgb[6 * k + 3] < 2 * (r + 1),
        2 * g <= rgb[6 * k + 1] + rgb[6 * k + 4] < 2 * (g + 1),
        2 * b <= rgb[6 * k + 2] + rgb[6 * k + 5] < 2 * (b + 1),
    ensures
        rgb_as_yuy2(rgb, 4 * k) == luma(
            rgb[6 * k] as int,
            rgb[6 * k + 1] as int,
            rgb[6 * k + 2] as int,
        ),
        rgb_as_yuy2(rgb, 4 * k + 1) == chroma_u(r, g, b),
        rgb_as_yuy2(rgb, 4 * k + 2) == luma(
            rgb[6 * k + 3] as int,
            rgb[6 * k + 4] as int,
            rgb[6 * k + 5] as int,
        ),
        rgb_as_yuy2(rgb, 4 * k + 3) == chroma_v(r, g, b),
{
    assert(pair_mean(rgb, 2 * k, 0) == r);
    assert(pair_mean(rgb, 2 * k, 1) == g);
    assert(pair_mean(rgb, 2 * k, 2) == b);
}

/// The four bytes of a pair of YUY2 are a function of its two pixels alone: two
/// pictures that agree on the six bytes of a pair each have the same four bytes
/// there.
pub proof fn law_yuy2_pairs_are_local(
    rgb1: Seq<u8>,
    k1: int,
    rgb2: Seq<u8>,
    k2: int,
    i: int,
)
    requires
        0 <= k1,
        0 <= k2,
        forall|d: int| 0 <= d < 6 ==> #[trigger] rgb1[6 * k1 + d] == rgb2[6 * k2 + d],
        0 <= i < 4,
    ensures
        rgb_as_yuy2(rgb1, 4 * k1 + i) == rgb_as_yuy2(rgb2, 4 * k2 + i),
{
    let r = (rgb1[6 * k1 + 0] + rgb1[6 * k1 + 3]) / 2;
    let g = (rgb1[6 * k1 + 1] + rgb1[6 * k1 + 4]) / 2;
    let b = (rgb1[6 * k1 + 2] + rgb1[6 * k1 + 5]) / 2;
    law_yuy2_pair(rgb1, k1, r, g, b);
    law_yuy2_pair(rgb2, k2, r, g, b);
}

/// A pixel of YUY2 decodes from its own luma byte and from the chroma that it
/// shares with its neighbour, and from nothing else. A last pixel that has no
/// neighbour decodes as a gray.
pub proof fn law_yuy2_pixel_sources(src: Seq<u8>, npix: int, k: int, c: int)
    requires
        0 <= k,
        0 <= c < 3,
    ensures
        2 * k + 1 < npix ==> yuy2_as_rgb(src, npix, 6 * k + c) == channel(
            c,
            src[4 * k],
            src[4 * k + 1],
            src[4 * k + 3],
        ),
        2 * k + 1 < npix ==> yuy2_as_rgb(src, npix, 6 * k + 3 + c) == channel(
            c,
            src[4 * k + 2],
            src[4 * k + 1],
            src[4 * k + 3],
        ),
        npix == 2 * k + 1 ==> yuy2_as_rgb(src, npix, 6 * k + c) == channel(
            c,
            src[4 * k],
            128,
            128,
        ),
{
    assert((6 * k + c) / 3 == 2 * k && (6 * k + 3 + c) / 3 == 2 * k + 1);
    assert((6 * k + c) % 3 == c && (6 * k + 3 + c) % 3 == c);
}

/// A color survives the way through YUY2 wherever both pixels of its pair have
/// it: each comes back within three steps, whatever the rest of the picture holds.
pub proof fn law_color_survives_yuy2(
    rgb: Seq<u8>,
    width: u32,
    height: u32,
    k: int,
    r: u8,
    g: u8,
    b: u8,
    d: int,
)
    requires
        width % 2 == 0,
        0 <= k,
        2 * k + 1 < width * height,
        rgb[6 * k] == r && rgb[6 * k + 1] == g && rgb[6 * k + 2] == b,
        rgb[6 * k + 3] == r && rgb[6 * k + 4] == g && rgb[6 * k + 5] == b,
        0 <= d < 6,
    ensures
        ({
            let j = 6 * k + d;
            rgb[j] - 3 <= yuy2_rgb_picture(
                rgb_yuy2_picture(rgb, width, height),
                width,
                height,
            )[j] <= rgb[j] + 3
        }),
{
    let n = width * height;
    let yuy2 = rgb_yuy2_picture(rgb, width, height);
    law_picture_sizes(rgb, width, height);
    law_picture_sizes(yuy2, width, height);
    law_yuy2_pair(rgb, k, r as int, g as int, b as int);
    law_color_round_trip(r, g, b);
    assert(yuy2[4 * k] == rgb_as_yuy2(rgb, 4 * k));
    assert(yuy2[4 * k + 1] == rgb_as_yuy2(rgb, 4 * k + 1));
    assert(yuy2[4 * k + 2] == rgb_as_yuy2(rgb, 4 * k + 2));
    assert(yuy2[4 * k + 3] == rgb_as_yuy2(rgb, 4 * k + 3));
    if d < 3 {
        law_yuy2_pixel_sources(yuy2, n, k, d);
    } else {
        law_yuy2_pixel_sources(yuy2, n, k, d - 3);
    }
}

/// The nearest source position of `x` is the one whose share of the target holds
/// `x`: of `dst` targets for `src` sources, source `s` has those from `s * dst / src`
/// up to `(s + 1) * dst / src`. It is the only such position.
pub proof fn law_nearest_is_proportional(x: int, src: int, dst: int, s: int)
    requires
        0 <= x < dst,
        0 < src,
    ensures
        s == nearest(x, src, dst) <==> s * dst <= x * src < (s + 1) * dst,
{
    lemma_fundamental_div_mod(x * src, dst);
    vstd::arithmetic::div_mod::lemma_mod_bound(x * src, dst);
    let q = nearest(x, src, dst);
    assert(q * dst <= x * src < (q + 1) * dst) by (nonlinear_arith)
        requires
            x * src == dst * q + (x * src) % dst,
            0 <= (x * src) % dst < dst,
    ;
    if s * dst <= x * src < (s + 1) * dst {
        assert(s == q) by (nonlinear_arith)
            requires
                s * dst <= x * src < (s + 1) * dst,
                q * dst <= x * src < (q + 1) * dst,
                0 < dst,
        ;
    }
}

/// Scaling shows the whole source in its order: the first target position shows
/// the first source position and the last one stops less than a target step short
/// of the end; later targets never show earlier sources; and where there are at
/// least as many targets as sources, no source is left out.
pub proof fn law_nearest_covers_the_source(x1: int, x2: int, src: int, dst: int, s: int)
    requires
        0 <= x1 <= x2 < dst,
        0 < src,
        0 <= s < src,
    ensures
        nearest(0, src, dst) == 0,
        (src - nearest(dst - 1, src, dst) - 1) * dst < src,
        nearest(x1, src, dst) <= nearest(x2, src, dst) < src,
        src <= dst ==> exists|x: int| 0 <= x < dst && #[trigger] nearest(x, src, dst) == s,
        src == 2 * dst ==> nearest(x1, src, dst) == 2 * x1,
        dst == 2 * src ==> nearest(x1, src, dst) == x1 / 2,
        src == dst ==> nearest(x1, src, dst) == x1,
{
    let n1 = nearest(x1, src, dst);
    let n2 = nearest(x2, src, dst);
    let last = nearest(dst - 1, src, dst);
    law_nearest_is_proportional(0, src, dst, 0);
    assert(0 * dst <= 0 * src < (0 + 1) * dst);
    law_nearest_is_proportional(dst - 1, src, dst, last);
    assert((src - last - 1) * dst < src) by (nonlinear_arith)
        requires
            (dst - 1) * src < (last + 1) * dst,
    ;
    law_nearest_is_proportional(x1, src, dst, n1);
    law_nearest_is_proportional(x2, src, dst, n2);
    lemma_nearest_bound(x2, src, dst);
    assert(n1 <= n2) by (nonlinear_arith)
        requires
            n1 * dst <= x1 * src,
            x2 * src < (n2 + 1) * dst,
            x1 <= x2,
            0 < src,
            0 < dst,
    ;
    if src <= dst {
        // The first target at or after the start of the source's share.
        let x = (s * dst + src - 1) / src;
        lemma_fundamental_div_mod(s * dst + src - 1, src);
        vstd::arithmetic::div_mod::lemma_mod_bound(s * dst + src - 1, src);
        let m = (s * dst + src - 1) % src;
        assert(s * dst <= x * src < (s + 1) * dst && 0 <= x) by (nonlinear_arith)
            requires
                s * dst + src - 1 == src * x + m,
                0 <= m < src,
                src <= dst,
                0 <= s,
        ;
        assert(x < dst) by (nonlinear_arith)
            requires
                x * src < (s + 1) * dst,
                s < src,
                0 < dst,
                0 < src,
        ;
        law_nearest_is_proportional(x, src, dst, s);
        assert(nearest(x, src, dst) == s);
    }
    if src == 2 * dst {
        law_nearest_is_proportional(x1, src, dst, 2 * x1);
        assert((2 * x1) * dst <= x1 * src < (2 * x1 + 1) * dst) by (nonlinear_arith)
            requires
                src == 2 * dst,
                0 < dst,
        ;
    }
    if dst == 2 * src {
        law_nearest_is_proportional(x1, src, dst, x1 / 2);
        assert((x1 / 2) * dst <= x1 * src < (x1 / 2 + 1) * dst) by (nonlinear_arith)
            requires
                dst == 2 * src,
                0 < src,
        ;
    }
    if src == dst {
        law_nearest_is_proportional(x1, src, dst, x1);
        assert(x1 * dst <= x1 * src < (x1 + 1) * dst) by (nonlinear_arith)
            requires
                src == dst,
                0 < src,
        ;
    }
}

/// A decoder of NV12 accepts a buffer exactly when it holds the whole picture, three bytes
/// for every two pixels, and the chroma pair of the last pixel; for odd sizes the pair can
/// reach beyond the former.
pub proof fn law_nv12_accepts_what_it_reads(src_len: nat, dst_len: nat, width: u32, height: u32)
    requires
        width > 0,
        height > 0,
    ensures
        ({
            let x = width - 1;
            let y = height - 1;
            let last = width * height + (y / 2) * width + (x - x % 2) + 1;
            nv12_to_rgb24_fits(src_len, dst_len, width, height) <==> last < src_len && (3 * (width
                * height)) / 2 <= src_len && 3 * (width * height) <= dst_len
        }),
        nv12_complete(src_len, width, height) <==> ({
            let x = width - 1;
            let y = height - 1;
            width * height + (y / 2) * width + (x - x % 2) + 1 < src_len
        }),
{
}

} // verus!
