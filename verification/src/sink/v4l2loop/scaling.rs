//! Resolution scaling support for v4l2loopback output.

use vstd::arithmetic::div_mod::lemma_div_multiples_vanish;
use vstd::arithmetic::div_mod::lemma_fundamental_div_mod;
use vstd::arithmetic::div_mod::lemma_fundamental_div_mod_converse;
use vstd::arithmetic::div_mod::lemma_mod_bound;
use vstd::arithmetic::mul::lemma_mul_inequality;
use vstd::arithmetic::mul::lemma_mul_is_distributive_add_other_way;
use vstd::prelude::*;

use crate::convert::lemma_nearest_bound;
use crate::convert::nearest;
use crate::convert::pixel_count;
use crate::frame::PixelFormat;

verus! {

/// The table that maps `dst` positions to `src` positions.
pub open spec fn line_map(src: u32, dst: u32) -> Seq<usize> {
    Seq::new(dst as nat, |x: int| nearest(x, src as int, dst as int) as usize)
}

/// Pre-computed index LUT for fast nearest-neighbor scaling.
pub struct ScaleLUT {
    /// Maps dst x -> src x for Y plane
    x_lut: Vec<usize>,
    /// Maps dst y -> src y for Y plane
    y_lut: Vec<usize>,
    /// Maps dst uv byte -> src uv byte within a row of the UV plane
    uv_x_lut: Vec<usize>,
    /// Maps dst uv y -> src uv y for UV plane
    uv_y_lut: Vec<usize>,
}

/// Builds the table that maps `dst` positions to `src` positions.
pub fn map_line(src: u32, dst: u32) -> (lut: Vec<usize>)
    ensures
        lut@ == line_map(src, dst),
{
    let mut lut: Vec<usize> = Vec::new();
    let mut x: u32 = 0;
    while x < dst
        invariant
            x <= dst,
            lut@.len() == x,
            forall|i: int|
                0 <= i < x ==> #[trigger] lut@[i] == nearest(i, src as int, dst as int) as usize,
        decreases dst - x,
    {
        assert(x * src <= u32::MAX * u32::MAX) by (nonlinear_arith)
            requires
                x <= u32::MAX,
                src <= u32::MAX,
        ;
        assert(0 <= x * src) by (nonlinear_arith);
        let at: u64 = x as u64 * src as u64 / dst as u64;
        lut.push(at as usize);
        x += 1;
    }
    assert(lut@ =~= line_map(src, dst));
    lut
}

/// The byte of a `sw` bytes wide chroma row that byte `c` of a `dw` bytes wide one
/// is taken from. U and V alternate, so whole pairs are mapped: U comes from U and
/// V from V. A U without a V, at the end of an odd row, is the last U of the source
/// row. A source row of one byte has only that one to take.
pub open spec fn chroma_column(c: int, sw: u32, dw: u32) -> int {
    if sw < 2 {
        0
    } else if c / 2 < dw / 2 {
        2 * nearest(c / 2, (sw / 2) as int, (dw / 2) as int) + c % 2
    } else {
        2 * ((sw - 1) / 2)
    }
}

/// The table that maps the bytes of a chroma row.
pub open spec fn chroma_map(sw: u32, dw: u32) -> Seq<usize>
    recommends
        sw > 0,
{
    Seq::new(dw as nat, |c: int| chroma_column(c, sw, dw) as usize)
}

/// A byte of a chroma row is taken from within the source row.
proof fn lemma_chroma_column(c: int, sw: u32, dw: u32)
    requires
        0 <= c < dw,
        0 < sw,
    ensures
        0 <= chroma_column(c, sw, dw) < sw,
        sw >= 2 ==> chroma_column(c, sw, dw) % 2 == c % 2,
        0 <= (sw - 1) / 2,
{
    if sw >= 2 && c / 2 < dw / 2 {
        lemma_nearest_bound(c / 2, (sw / 2) as int, (dw / 2) as int);
    }
}

/// A mapped coordinate is never larger than the source line, which may be empty.
proof fn lemma_nearest_small(x: int, src: int, dst: int)
    requires
        0 <= x < dst,
        0 <= src,
    ensures
        0 <= nearest(x, src, dst) <= src,
{
    if src == 0 {
        assert(x * src == 0) by (nonlinear_arith)
            requires
                src == 0,
        ;
    } else {
        lemma_nearest_bound(x, src, dst);
    }
}

/// Builds the table that maps the bytes of a chroma row.
fn map_chroma(sw: u32, dw: u32) -> (lut: Vec<usize>)
    ensures
        sw > 0 ==> lut@ == chroma_map(sw, dw),
{
    if sw == 0 {
        return Vec::new();
    }
    let pairs = map_line(sw / 2, dw / 2);
    let mut lut: Vec<usize> = Vec::new();
    let mut c: u32 = 0;
    while c < dw
        invariant
            c <= dw,
            sw > 0,
            pairs@ == line_map(sw / 2, dw / 2),
            lut@.len() == c,
            forall|i: int|
                0 <= i < c ==> #[trigger] lut@[i] == chroma_column(i, sw, dw) as usize,
        decreases dw - c,
    {
        proof {
            lemma_chroma_column(c as int, sw, dw);
        }
        let at: usize = if sw < 2 {
            0
        } else if c / 2 < dw / 2 {
            proof {
                assert(pairs@[c as int / 2] == nearest(
                    c as int / 2,
                    (sw / 2) as int,
                    (dw / 2) as int,
                ) as usize);
            }
            pairs[(c / 2) as usize] * 2 + (c % 2) as usize
        } else {
            ((sw - 1) / 2 * 2) as usize
        };
        lut.push(at);
        c += 1;
    }
    assert(lut@ =~= chroma_map(sw, dw));
    lut
}

/// The largest number of a table that is not empty.
fn largest(table: &Vec<usize>) -> (r: usize)
    requires
        table@.len() > 0,
    ensures
        table@.contains(r),
        forall|i: int| 0 <= i < table@.len() ==> #[trigger] table@[i] <= r,
{
    let mut r: usize = table[0];
    for i in 1..table.len()
        invariant
            table@.contains(r),
            forall|k: int| 0 <= k < i ==> #[trigger] table@[k] <= r,
    {
        if table[i] > r {
            r = table[i];
        }
    }
    r
}

impl ScaleLUT {
    /// These are the tables for scaling `src_w`×`src_h` to `dst_w`×`dst_h`.
    pub closed spec fn is_for(self, src_w: u32, src_h: u32, dst_w: u32, dst_h: u32) -> bool {
        &&& self.x_lut@ == line_map(src_w, dst_w)
        &&& self.y_lut@ == line_map(src_h, dst_h)
        &&& src_w > 0 ==> self.uv_x_lut@ == chroma_map(src_w, dst_w)
        &&& self.uv_y_lut@ == line_map(src_h / 2, dst_h / 2)
    }

    /// Computes the tables. NV12 chroma is at half vertical resolution.
    pub fn new(src_w: u32, src_h: u32, dst_w: u32, dst_h: u32) -> (lut: Self)
        ensures
            lut.is_for(src_w, src_h, dst_w, dst_h),
    {
        ScaleLUT {
            x_lut: map_line(src_w, dst_w),
            y_lut: map_line(src_h, dst_h),
            uv_x_lut: map_chroma(src_w, dst_w),
            uv_y_lut: map_line(src_h / 2, dst_h / 2),
        }
    }
}

/// Byte `p` of the luma plane of an NV12 picture scaled from `sw`×`sh` to
/// `dw`×`dh`.
pub open spec fn scaled_luma(src: Seq<u8>, sw: u32, sh: u32, dw: u32, dh: u32, p: int) -> u8 {
    let sx = nearest(p % dw as int, sw as int, dw as int);
    let sy = nearest(p / dw as int, sh as int, dh as int);
    src[sy * sw + sx]
}

/// Where byte `m` of the chroma plane of an NV12 picture scaled from `sw`×`sh` to
/// `dw`×`dh` is taken from. The plane is interleaved UV at half resolution, and
/// stays so.
pub open spec fn chroma_index(sw: u32, sh: u32, dw: u32, dh: u32, m: int) -> int {
    let sy = nearest(m / dw as int, (sh / 2) as int, (dh / 2) as int);
    sw * sh + sy * sw + chroma_column(m % dw as int, sw, dw)
}

/// Byte `m` of the chroma plane of an NV12 picture scaled from `sw`×`sh` to
/// `dw`×`dh`.
pub open spec fn scaled_chroma(src: Seq<u8>, sw: u32, sh: u32, dw: u32, dh: u32, m: int) -> u8 {
    src[chroma_index(sw, sh, dw, dh, m)]
}

/// Number of bytes that scaling to `dw`×`dh` writes.
pub open spec fn scaled_len(dw: u32, dh: u32) -> int {
    dw * dh + (dh / 2) * dw
}

/// Byte `j` of an NV12 picture scaled from `sw`×`sh` to `dw`×`dh`.
pub open spec fn scaled_byte(src: Seq<u8>, sw: u32, sh: u32, dw: u32, dh: u32, j: int) -> u8 {
    if j < dw * dh {
        scaled_luma(src, sw, sh, dw, dh, j)
    } else {
        scaled_chroma(src, sw, sh, dw, dh, j - dw * dh)
    }
}

/// Whether every chroma byte that is read lies within `src_len` bytes.
pub open spec fn chroma_inside(src_len: nat, sw: u32, sh: u32, dw: u32, dh: u32) -> bool {
    forall|m: int|
        0 <= m < (dh / 2) * dw ==> #[trigger] chroma_index(sw, sh, dw, dh, m) < src_len
}

/// Whether the buffers are large enough to scale, and the source holds every byte
/// that is read.
pub open spec fn scale_fits(
    src_len: nat,
    dst_len: nat,
    sw: u32,
    sh: u32,
    dw: u32,
    dh: u32,
) -> bool {
    &&& src_len >= sw * sh * 3 / 2
    &&& dst_len >= dw * dh * 3 / 2
    &&& dw == 0 || dh == 0 || {
        &&& sw > 0
        &&& sh > 0
        &&& chroma_inside(src_len, sw, sh, dw, dh)
    }
}

/// Scaling context with pre-computed LUTs and reusable buffers.
/// Eliminates per-frame allocations and division operations.
pub struct ScaleContext {
    lut: ScaleLUT,
    src_w: u32,
    src_h: u32,
    dst_w: u32,
    dst_h: u32,
}

impl ScaleContext {
    #[verifier::type_invariant]
    spec fn inv(self) -> bool {
        self.lut.is_for(self.src_w, self.src_h, self.dst_w, self.dst_h)
    }

    /// The geometry that is scaled from and to.
    pub closed spec fn geometry(self) -> (u32, u32, u32, u32) {
        (self.src_w, self.src_h, self.dst_w, self.dst_h)
    }

    /// A context for scaling `src_w`×`src_h` to `dst_w`×`dst_h`.
    pub fn new(src_w: u32, src_h: u32, dst_w: u32, dst_h: u32) -> (r: Self)
        ensures
            r.geometry() == (src_w, src_h, dst_w, dst_h),
    {
        ScaleContext {
            lut: ScaleLUT::new(src_w, src_h, dst_w, dst_h),
            src_w,
            src_h,
            dst_w,
            dst_h,
        }
    }

    /// Whether every chroma byte that is read lies within `src_len` bytes.
    fn reads_inside(&self, src_len: usize) -> (r: bool)
        requires
            self.geometry().0 > 0,
            self.geometry().2 > 0,
        ensures
            r == chroma_inside(
                src_len as nat,
                self.geometry().0,
                self.geometry().1,
                self.geometry().2,
                self.geometry().3,
            ),
    {
        proof {
            use_type_invariant(self);
        }
        let (sw, sh, dw, dh) = (self.src_w, self.src_h, self.dst_w, self.dst_h);
        let rows: u32 = dh / 2;
        if rows == 0 {
            assert((dh / 2) * dw == 0) by (nonlinear_arith)
                requires
                    dh / 2 == 0,
            ;
            return true;
        }
        let row: usize = largest(&self.lut.uv_y_lut);
        let col: usize = largest(&self.lut.uv_x_lut);
        assert(row * sw <= usize::MAX * u32::MAX && 0 <= row * sw) by (nonlinear_arith)
            requires
                row <= usize::MAX,
                sw <= u32::MAX,
        ;
        let last: u128 = pixel_count(sw, sh) as u128 + row as u128 * sw as u128 + col as u128;
        let ok = last < src_len as u128;
        proof {
            let ys = self.lut.uv_y_lut@;
            let xs = self.lut.uv_x_lut@;
            assert forall|m: int| 0 <= m < (dh / 2) * dw implies #[trigger] chroma_index(
                sw,
                sh,
                dw,
                dh,
                m,
            ) <= last by {
                let y = m / dw as int;
                let c = m % dw as int;
                lemma_fundamental_div_mod(m, dw as int);
                lemma_mod_bound(m, dw as int);
                assert(0 <= y < rows) by (nonlinear_arith)
                    requires
                        0 <= m < rows * dw,
                        m == dw * y + c,
                        0 <= c < dw,
                ;
                lemma_chroma_column(c, sw, dw);
                lemma_nearest_small(y, (sh / 2) as int, rows as int);
                assert(ys[y] == nearest(y, (sh / 2) as int, rows as int));
                assert(xs[c] == chroma_column(c, sw, dw));
                lemma_mul_inequality(ys[y] as int, row as int, sw as int);
            }
            let y = choose|y: int| 0 <= y < ys.len() && ys[y] == row;
            let c = choose|c: int| 0 <= c < xs.len() && xs[c] == col;
            let m = y * dw + c;
            lemma_fundamental_div_mod_converse(m, dw as int, y, c);
            lemma_chroma_column(c, sw, dw);
            lemma_nearest_small(y, (sh / 2) as int, rows as int);
            lemma_mul_inequality(y + 1, rows as int, dw as int);
            lemma_mul_is_distributive_add_other_way(dw as int, y, 1);
            lemma_mul_inequality(0, y, dw as int);
            assert(chroma_index(sw, sh, dw, dh, m) == last);
        }
        ok
    }

    /// Scale NV12 frame using pre-computed LUTs.
    /// Returns false if buffer sizes are insufficient.
    pub fn scale_nv12(&self, src: &[u8], dst: &mut [u8]) -> (ok: bool)
        ensures
            ({
                let (sw, sh, dw, dh) = self.geometry();
                &&& ok == scale_fits(src@.len(), old(dst)@.len(), sw, sh, dw, dh)
                &&& final(dst)@.len() == old(dst)@.len()
                &&& !ok ==> final(dst)@ == old(dst)@
                &&& ok ==> forall|j: int|
                    0 <= j < scaled_len(dw, dh) ==> #[trigger] final(dst)@[j] == scaled_byte(
                        src@,
                        sw,
                        sh,
                        dw,
                        dh,
                        j,
                    )
                &&& ok ==> forall|j: int|
                    scaled_len(dw, dh) <= j < old(dst)@.len() ==> #[trigger] final(dst)@[j] == old(
                        dst,
                    )@[j]
            }),
    {
        proof {
            use_type_invariant(self);
        }
        let (sw, sh, dw, dh) = (self.src_w, self.src_h, self.dst_w, self.dst_h);
        let src_px: u64 = pixel_count(sw, sh);
        let dst_px: u64 = pixel_count(dw, dh);
        if (src.len() as u128) < src_px as u128 * 3 / 2 || (dst.len() as u128) < dst_px as u128 * 3
            / 2 {
            return false;
        }
        if dw == 0 || dh == 0 {
            assert(dw * dh == 0) by (nonlinear_arith)
                requires
                    dw == 0 || dh == 0,
            ;
            assert((dh / 2) * dw == 0) by (nonlinear_arith)
                requires
                    dw == 0 || dh == 0,
            ;
            return true;
        }
        if sw == 0 || sh == 0 || !self.reads_inside(src.len()) {
            return false;
        }
        assert(src@.len() == src.len() && dst@.len() == dst.len());
        let ghost before = dst@;
        let src_y_size: usize = src_px as usize;
        let dst_y_size: usize = dst_px as usize;
        proof {
            assert(dw * dh == dh * dw) by (nonlinear_arith);
            assert(sw * sh == sh * sw) by (nonlinear_arith);
            assert(2 * ((dh / 2) * dw) <= dh * dw) by (nonlinear_arith);
            assert(2 * ((sh / 2) * sw) <= sh * sw) by (nonlinear_arith);
        }

        // Scale Y plane (luma) - uses LUT for O(1) coordinate lookup
        let mut p: usize = 0;
        let mut dy: u32 = 0;
        while dy < dh
            invariant
                dy <= dh,
                p == dy * dw,
                sw > 0,
                sh > 0,
                dst_y_size == dw * dh,
                dw * dh == dh * dw,
                src@.len() >= sh * sw,
                src@.len() <= usize::MAX,
                self.lut.is_for(sw, sh, dw, dh),
                dst@.len() == before.len(),
                dst@.len() >= dst_y_size,
                forall|j: int|
                    0 <= j < p ==> #[trigger] dst@[j] == scaled_luma(src@, sw, sh, dw, dh, j),
                forall|j: int| p <= j < before.len() ==> #[trigger] dst@[j] == before[j],
            decreases dh - dy,
        {
            proof {
                lemma_mul_inequality(dy + 1, dh as int, dw as int);
                lemma_mul_is_distributive_add_other_way(dw as int, dy as int, 1);
                lemma_nearest_bound(dy as int, sh as int, dh as int);
                assert(self.lut.y_lut@[dy as int] == nearest(dy as int, sh as int, dh as int));
            }
            let sy: usize = self.lut.y_lut[dy as usize];
            proof {
                lemma_mul_inequality(sy + 1, sh as int, sw as int);
                lemma_mul_is_distributive_add_other_way(sw as int, sy as int, 1);
                lemma_mul_inequality(0, sy as int, sw as int);
            }
            let src_row: usize = sy * sw as usize;
            let mut dx: u32 = 0;
            while dx < dw
                invariant
                    dx <= dw,
                    dy < dh,
                    p == dy * dw + dx,
                    (dy + 1) * dw == dy * dw + dw,
                    (dy + 1) * dw <= dst_y_size,
                    sw > 0,
                    sh > 0,
                    sy == nearest(dy as int, sh as int, dh as int),
                    src_row == sy * sw,
                    src_row + sw <= src@.len(),
                    src@.len() <= usize::MAX,
                    self.lut.is_for(sw, sh, dw, dh),
                    dst@.len() == before.len(),
                    dst@.len() >= dst_y_size,
                    forall|j: int|
                        0 <= j < p ==> #[trigger] dst@[j] == scaled_luma(src@, sw, sh, dw, dh, j),
                    forall|j: int| p <= j < before.len() ==> #[trigger] dst@[j] == before[j],
                decreases dw - dx,
            {
                proof {
                    lemma_nearest_bound(dx as int, sw as int, dw as int);
                    lemma_fundamental_div_mod_converse(p as int, dw as int, dy as int, dx as int);
                    assert(self.lut.x_lut@[dx as int] == nearest(dx as int, sw as int, dw as int));
                }
                let sx: usize = self.lut.x_lut[dx as usize];
                dst[p] = src[src_row + sx];
                dx += 1;
                p += 1;
            }
            dy += 1;
        }

        // Scale UV plane (chroma) - NV12 has interleaved UV at half resolution
        let dst_uv_h: u32 = dh / 2;
        let ghost luma = dst@;
        let mut m: usize = 0;
        let mut dy: u32 = 0;
        assert((dh / 2) * dw <= dst_px * 3 / 2 - dst_px);
        while dy < dst_uv_h
            invariant
                dy <= dst_uv_h,
                dst_uv_h == dh / 2,
                m == dy * dw,
                sw > 0,
                dw > 0,
                src_y_size == sw * sh,
                dst_y_size == dw * dh,
                src@.len() >= src_y_size,
                src@.len() <= usize::MAX,
                chroma_inside(src@.len(), sw, sh, dw, dh),
                self.lut.is_for(sw, sh, dw, dh),
                dst@.len() == before.len(),
                luma.len() == before.len(),
                dst@.len() >= dst_y_size + dst_uv_h * dw,
                dst@.len() <= usize::MAX,
                forall|j: int| 0 <= j < dst_y_size ==> #[trigger] dst@[j] == luma[j],
                forall|j: int|
                    dst_y_size <= j < dst_y_size + m ==> #[trigger] dst@[j] == scaled_chroma(
                        src@,
                        sw,
                        sh,
                        dw,
                        dh,
                        j - dst_y_size,
                    ),
                forall|j: int|
                    dst_y_size + m <= j < before.len() ==> #[trigger] dst@[j] == before[j],
            decreases dst_uv_h - dy,
        {
            proof {
                lemma_mul_inequality(dy + 1, dst_uv_h as int, dw as int);
                lemma_mul_is_distributive_add_other_way(dw as int, dy as int, 1);
                lemma_nearest_small(dy as int, (sh / 2) as int, dst_uv_h as int);
                assert(self.lut.uv_y_lut@[dy as int] == nearest(
                    dy as int,
                    (sh / 2) as int,
                    (dh / 2) as int,
                ));
            }
            let sy: usize = self.lut.uv_y_lut[dy as usize];
            proof {
                // The first byte of the row is read, or one behind it.
                lemma_fundamental_div_mod_converse(m as int, dw as int, dy as int, 0);
                lemma_chroma_column(0, sw, dw);
                lemma_mul_inequality(0, sy as int, sw as int);
                lemma_mul_inequality(0, dy as int, dw as int);
                assert(chroma_index(sw, sh, dw, dh, m as int) < src@.len());
            }
            let src_row: usize = src_y_size + sy * sw as usize;
            let mut dx: u32 = 0;
            while dx < dw
                invariant
                    dx <= dw,
                    dy < dst_uv_h,
                    dst_uv_h == dh / 2,
                    m == dy * dw + dx,
                    (dy + 1) * dw == dy * dw + dw,
                    (dy + 1) * dw <= dst_uv_h * dw,
                    sw > 0,
                    src_y_size == sw * sh,
                    dst_y_size == dw * dh,
                    sy == nearest(dy as int, (sh / 2) as int, (dh / 2) as int),
                    src_row == src_y_size + sy * sw,
                    src@.len() <= usize::MAX,
                    0 <= dy * dw,
                    chroma_inside(src@.len(), sw, sh, dw, dh),
                    self.lut.is_for(sw, sh, dw, dh),
                    dst@.len() == before.len(),
                    luma.len() == before.len(),
                    dst@.len() >= dst_y_size + dst_uv_h * dw,
                    dst@.len() <= usize::MAX,
                    forall|j: int| 0 <= j < dst_y_size ==> #[trigger] dst@[j] == luma[j],
                    forall|j: int|
                        dst_y_size <= j < dst_y_size + m ==> #[trigger] dst@[j] == scaled_chroma(
                            src@,
                            sw,
                            sh,
                            dw,
                            dh,
                            j - dst_y_size,
                        ),
                    forall|j: int|
                        dst_y_size + m <= j < before.len() ==> #[trigger] dst@[j] == before[j],
                decreases dw - dx,
            {
                proof {
                    lemma_chroma_column(dx as int, sw, dw);
                    lemma_fundamental_div_mod_converse(m as int, dw as int, dy as int, dx as int);
                    assert(self.lut.uv_x_lut@[dx as int] == chroma_column(dx as int, sw, dw));
                    assert(chroma_index(sw, sh, dw, dh, m as int) < src@.len());
                }
                let sx: usize = self.lut.uv_x_lut[dx as usize];
                dst[dst_y_size + m] = src[src_row + sx];
                dx += 1;
                m += 1;
            }
            dy += 1;
        }
        true
    }
}

/// Every place that is written is copied from a place inside the source
/// picture.
pub proof fn law_scale_stays_inside(sw: u32, sh: u32, dw: u32, dh: u32, x: int, y: int)
    requires
        0 <= x < dw,
        0 <= y < dh,
        0 < sw,
        0 < sh,
    ensures
        0 <= nearest(x, sw as int, dw as int) < sw,
        0 <= nearest(y, sh as int, dh as int) < sh,
{
    lemma_nearest_bound(x, sw as int, dw as int);
    lemma_nearest_bound(y, sh as int, dh as int);
}

/// The chroma plane stays interleaved: a U is taken from a U and a V from a V, so a
/// picture of one color keeps that color.
pub proof fn law_color_survives_scaling(
    src: Seq<u8>,
    sw: u32,
    sh: u32,
    dw: u32,
    dh: u32,
    u: u8,
    v: u8,
    m: int,
)
    requires
        scale_fits(src.len(), (dw * dh * 3 / 2) as nat, sw, sh, dw, dh),
        sw % 2 == 0,
        forall|k: int|
            sw * sh <= k < src.len() ==> #[trigger] src[k] == if (k - sw * sh) % 2 == 0 {
                u
            } else {
                v
            },
        0 <= m < (dh / 2) * dw,
    ensures
        scaled_chroma(src, sw, sh, dw, dh, m) == if (m % dw as int) % 2 == 0 {
            u
        } else {
            v
        },
{
    let y = m / dw as int;
    let c = m % dw as int;
    let rows = (dh / 2) as int;
    assert(dw > 0 && rows > 0) by (nonlinear_arith)
        requires
            0 <= m < rows * dw,
            0 <= rows,
    ;
    lemma_fundamental_div_mod(m, dw as int);
    lemma_mod_bound(m, dw as int);
    assert(0 <= y < rows) by (nonlinear_arith)
        requires
            0 <= m < rows * dw,
            m == dw * y + c,
            0 <= c < dw,
    ;
    lemma_chroma_column(c, sw, dw);
    lemma_nearest_small(y, (sh / 2) as int, rows);
    let sy = nearest(y, (sh / 2) as int, rows);
    lemma_mul_inequality(0, sy, sw as int);
    assert(sy * sw == 2 * (sy * (sw / 2))) by (nonlinear_arith)
        requires
            sw == 2 * (sw / 2),
    ;
    let k = chroma_index(sw, sh, dw, dh, m);
    assert((k - sw * sh) % 2 == c % 2);
    assert(src[k] == if (k - sw * sh) % 2 == 0 {
        u
    } else {
        v
    });
}

/// A buffer that holds a whole picture of at least two rows can always be scaled.
pub proof fn law_whole_pictures_scale(src_len: nat, sw: u32, sh: u32, dw: u32, dh: u32)
    requires
        sw >= 1,
        sh >= 2,
        src_len >= sw * sh * 3 / 2,
    ensures
        scale_fits(src_len, (dw * dh * 3 / 2) as nat, sw, sh, dw, dh),
{
    assert(0 <= dw * dh) by (nonlinear_arith);
    assert(2 * ((sh / 2) * sw) <= sh * sw) by (nonlinear_arith);
    assert(sw * sh == sh * sw) by (nonlinear_arith);
    if dw > 0 && dh > 0 {
        assert forall|m: int| 0 <= m < (dh / 2) * dw implies #[trigger] chroma_index(
            sw,
            sh,
            dw,
            dh,
            m,
        ) < src_len by {
            let y = m / dw as int;
            let c = m % dw as int;
            let rows = (dh / 2) as int;
            lemma_fundamental_div_mod(m, dw as int);
            lemma_mod_bound(m, dw as int);
            assert(0 <= y < rows) by (nonlinear_arith)
                requires
                    0 <= m < rows * dw,
                    m == dw * y + c,
                    0 <= c < dw,
            ;
            lemma_chroma_column(c, sw, dw);
            lemma_nearest_bound(y, (sh / 2) as int, rows);
            let sy = nearest(y, (sh / 2) as int, rows);
            lemma_mul_inequality(sy + 1, (sh / 2) as int, sw as int);
            lemma_mul_is_distributive_add_other_way(sw as int, sy, 1);
        }
    }
}

/// Scaling to the same size copies the picture.
pub proof fn law_scale_identity(src: Seq<u8>, w: u32, h: u32, j: int)
    requires
        w > 0,
        h > 0,
        0 <= j < scaled_len(w, h),
    ensures
        scaled_byte(src, w, h, w, h, j) == src[j],
{
    let base = if j < w * h {
        0int
    } else {
        w * h
    };
    let lines = if j < w * h {
        h as int
    } else {
        (h / 2) as int
    };
    let p = j - base;
    let x = p % w as int;
    let y = p / w as int;
    lemma_fundamental_div_mod(p, w as int);
    lemma_mod_bound(p, w as int);
    assert(w * y == y * w) by (nonlinear_arith);
    assert(w * h == h * w) by (nonlinear_arith);
    assert(0 < lines) by (nonlinear_arith)
        requires
            p < lines * w,
            0 <= p,
            w > 0,
    ;
    assert(w * x == x * w) by (nonlinear_arith);
    assert(lines * y == y * lines) by (nonlinear_arith);
    lemma_div_multiples_vanish(x, w as int);
    lemma_div_multiples_vanish(y, lines);
    if x / 2 < w / 2 {
        let half = (w / 2) as int;
        assert(half * (x / 2) == x / 2 * half) by (nonlinear_arith);
        lemma_div_multiples_vanish(x / 2, half);
    }
}

/// Convert a V4L2 FourCC byte array to our PixelFormat.
/// Returns None for formats we don't support.
pub fn fourcc_to_pixel_format(fourcc: &[u8; 4]) -> (r: Option<PixelFormat>)
    ensures
        match r {
            Some(format) => fourcc@ == format.code(),
            None => forall|format: PixelFormat| fourcc@ != #[trigger] format.code(),
        },
{
    let (a, b, c, d) = (fourcc[0], fourcc[1], fourcc[2], fourcc[3]);
    if a == 89 && b == 85 && c == 89 && d == 86 {
        assert(fourcc@ =~= PixelFormat::Yuy2.code());
        Some(PixelFormat::Yuy2)
    } else if a == 82 && b == 71 && c == 66 && d == 51 {
        assert(fourcc@ =~= PixelFormat::Rgb24.code());
        Some(PixelFormat::Rgb24)
    } else if a == 78 && b == 86 && c == 49 && d == 50 {
        assert(fourcc@ =~= PixelFormat::Nv12.code());
        Some(PixelFormat::Nv12)
    } else if a == 77 && b == 74 && c == 80 && d == 71 {
        assert(fourcc@ =~= PixelFormat::Mjpeg.code());
        Some(PixelFormat::Mjpeg)
    } else {
        assert forall|format: PixelFormat| fourcc@ != #[trigger] format.code() by {
            let code = format.code();
            assert(code.len() == 4);
            assert(!(fourcc@[0] == code[0] && fourcc@[1] == code[1] && fourcc@[2] == code[2]
                && fourcc@[3] == code[3]));
        }
        None
    }
}

/// The luma plane is scaled each axis on its own: the byte in column `x` and row
/// `y` of the target is the one in column `x * sw / dw` and row `y * sh / dh` of the
/// source.
pub proof fn law_luma_is_scaled(
    src: Seq<u8>,
    sw: u32,
    sh: u32,
    dw: u32,
    dh: u32,
    x: int,
    y: int,
)
    requires
        0 <= x < dw,
        0 <= y < dh,
    ensures
        scaled_byte(src, sw, sh, dw, dh, y * dw + x) == src[(y * sh / (dh as int)) * sw + x * sw / (
        dw as int)],
{
    lemma_mul_inequality(y + 1, dh as int, dw as int);
    lemma_mul_is_distributive_add_other_way(dw as int, y, 1);
    assert(dh * dw == dw * dh) by (nonlinear_arith);
    lemma_fundamental_div_mod_converse(y * dw + x, dw as int, y, x);
}

/// The chroma plane is scaled in whole pairs: component `k` (0 for U, 1 for V) of
/// the pair in column `x` and row `y` of the target's pairs is the same component of
/// the pair in column `x * (sw / 2) / (dw / 2)` and row `y * (sh / 2) / (dh / 2)` of
/// the source's pairs.
pub proof fn law_chroma_is_scaled_in_pairs(
    src: Seq<u8>,
    sw: u32,
    sh: u32,
    dw: u32,
    dh: u32,
    x: int,
    y: int,
    k: int,
)
    requires
        2 <= sw,
        0 <= x < dw / 2,
        0 <= y < dh / 2,
        0 <= k < 2,
    ensures
        scaled_byte(src, sw, sh, dw, dh, dw * dh + y * dw + 2 * x + k) == src[sw * sh + (y * ((sh
            / 2) as int) / ((dh / 2) as int)) * sw + 2 * (x * ((sw / 2) as int) / ((dw / 2) as int))
            + k],
{
    let c = 2 * x + k;
    assert(0 <= y * dw) by (nonlinear_arith)
        requires
            0 <= y,
    ;
    lemma_fundamental_div_mod_converse(y * dw + c, dw as int, y, c);
    assert(c / 2 == x && c % 2 == k);
}

/// In a row of odd length the last chroma byte has no partner: it is the U of the
/// last pair of the source row. A source one pixel wide has one chroma byte per row,
/// which every target byte of the row repeats.
pub proof fn law_unpaired_chroma(src: Seq<u8>, sw: u32, sh: u32, dw: u32, dh: u32, x: int, y: int)
    requires
        0 < sw,
        0 <= x < dw,
        0 <= y < dh / 2,
    ensures
        ({
            let row = sw * sh + (y * ((sh / 2) as int) / ((dh / 2) as int)) * sw;
            &&& sw >= 2 && dw % 2 == 1 ==> scaled_byte(
                src,
                sw,
                sh,
                dw,
                dh,
                dw * dh + y * dw + dw - 1,
            ) == src[row + if sw % 2 == 0 {
                sw - 2
            } else {
                sw - 1
            }]
            &&& sw == 1 ==> scaled_byte(src, sw, sh, dw, dh, dw * dh + y * dw + x) == src[row]
        }),
{
    assert(0 <= y * dw) by (nonlinear_arith)
        requires
            0 <= y,
    ;
    lemma_fundamental_div_mod_converse(y * dw + x, dw as int, y, x);
    lemma_fundamental_div_mod_converse(y * dw + (dw - 1), dw as int, y, dw - 1);
}

/// A buffer that is shorter than its picture is refused, on either side, and so is
/// a source without pixels unless the target has none. A source of two lines or more
/// is scaled whenever both buffers hold their pictures. What is written is one byte
/// of luma per pixel and one byte of chroma per pixel of every second row.
pub proof fn law_scale_checks_buffers(
    src_len: nat,
    dst_len: nat,
    sw: u32,
    sh: u32,
    dw: u32,
    dh: u32,
)
    ensures
        src_len < sw * sh * 3 / 2 ==> !scale_fits(src_len, dst_len, sw, sh, dw, dh),
        dst_len < dw * dh * 3 / 2 ==> !scale_fits(src_len, dst_len, sw, sh, dw, dh),
        (sw == 0 || sh == 0) && dw > 0 && dh > 0 ==> !scale_fits(src_len, dst_len, sw, sh, dw, dh),
        sw >= 1 && sh >= 2 && src_len >= sw * sh * 3 / 2 && dst_len >= dw * dh * 3 / 2
            ==> scale_fits(src_len, dst_len, sw, sh, dw, dh),
        dh % 2 == 0 ==> 2 * scaled_len(dw, dh) == 3 * (dw * dh),
        dh % 2 == 1 ==> 2 * scaled_len(dw, dh) == 3 * (dw * dh) - dw,
{
    if sw >= 1 && sh >= 2 && src_len >= sw * sh * 3 / 2 {
        law_whole_pictures_scale(src_len, sw, sh, dw, dh);
    }
    let rows = (dh / 2) as int;
    if dh % 2 == 0 {
        assert(2 * (rows * dw) == dw * dh) by (nonlinear_arith)
            requires
                dh == 2 * rows,
        ;
    } else {
        assert(2 * (rows * dw) == dw * dh - dw) by (nonlinear_arith)
            requires
                dh == 2 * rows + 1,
        ;
    }
}

} // verus!
