//! Static-image capture source for deterministic testing and demos.
//!
//! Converts an image file to the wire format (YUYV by default); the same frame
//! is then re-emitted at the configured FPS. Used by `--image` and by the
//! loopback pixel-integrity suite.

use std::time::Instant;
use vstd::arithmetic::div_mod::lemma_div_multiples_vanish;
use vstd::arithmetic::div_mod::lemma_fundamental_div_mod;
use vstd::arithmetic::div_mod::lemma_fundamental_div_mod_converse;
use vstd::arithmetic::div_mod::lemma_mod_bound;
use vstd::arithmetic::mul::lemma_mul_inequality;
use vstd::arithmetic::mul::lemma_mul_is_distributive_add_other_way;
use vstd::prelude::*;

use crate::config::FormatPref;
use crate::convert::law_nearest_covers_the_source;
use crate::convert::lemma_nearest_bound;
use crate::convert::nearest;
use crate::convert::pixel_count;
use crate::convert::rgb24_to_nv12;
use crate::convert::rgb24_to_yuy2;
use crate::frame::BufferPool;
use crate::frame::Frame;
use crate::frame::PixelFormat;

verus! {

/// A decoded picture, three bytes per pixel, row by row.
pub struct RgbPicture {
    pub width: u32,
    pub height: u32,
    pub data: Vec<u8>,
}

impl RgbPicture {
    /// The data holds every pixel.
    pub open spec fn wf(self) -> bool {
        self.data@.len() >= self.width * self.height * 3
    }

    /// There is a pixel.
    pub open spec fn has_pixels(self) -> bool {
        self.width > 0 && self.height > 0
    }
}

/// The width of a still image on the wire: YUYV needs an even one.
pub open spec fn still_width(width: u32) -> u32 {
    (width - width % 2) as u32
}

/// Byte `j` of a canvas `width` by `height` pixels that shows a picture of
/// `pic_w` by `pic_h` pixels, every canvas pixel taken from the nearest one. Of an
/// odd width, the last column is left out.
pub open spec fn canvas_byte(
    data: Seq<u8>,
    pic_w: u32,
    pic_h: u32,
    width: u32,
    height: u32,
    j: int,
) -> u8 {
    let p = j / 3;
    let w = still_width(width) as int;
    let sx = nearest(p % w, pic_w as int, width as int);
    let sy = nearest(p / w, pic_h as int, height as int);
    data[(sy * pic_w + sx) * 3 + j % 3]
}

/// The canvas.
pub open spec fn canvas(data: Seq<u8>, pic_w: u32, pic_h: u32, width: u32, height: u32) -> Seq<u8> {
    Seq::new(
        (crate::convert::pixels(still_width(width), height) * 3) as nat,
        |j: int| canvas_byte(data, pic_w, pic_h, width, height, j),
    )
}

/// Nearest-neighbor scale into the target canvas (deterministic, no deps), row by row
/// without the last column of an odd width.
fn paint(pic: &RgbPicture, width: u32, height: u32) -> (rgb: Vec<u8>)
    requires
        pic.wf(),
        pic.has_pixels(),
        (crate::convert::pixels(width, height) - 1) * 3 <= u32::MAX,
        crate::convert::pixels(width, height) * 3 <= usize::MAX,
    ensures
        rgb@ == canvas(pic.data@, pic.width, pic.height, width, height),
{
    let w: u32 = width - width % 2;
    assert(0 <= w * height <= width * height) by (nonlinear_arith)
        requires
            0 <= w <= width,
    ;
    let npix: usize = pixel_count(w, height) as usize;
    let mut rgb: Vec<u8> = vec![0; npix * 3];
    let mut y: u32 = 0;
    let mut p: usize = 0;
    while y < height
        invariant
            y <= height,
            p == y * w,
            w == still_width(width),
            npix == crate::convert::pixels(w, height),
            npix * 3 <= usize::MAX,
            rgb@.len() == npix * 3,
            pic.wf(),
            pic.has_pixels(),
            forall|j: int|
                0 <= j < p * 3 ==> #[trigger] rgb@[j] == canvas_byte(
                    pic.data@,
                    pic.width,
                    pic.height,
                    width,
                    height,
                    j,
                ),
        decreases height - y,
    {
        proof {
            lemma_mul_inequality(y + 1, height as int, w as int);
            lemma_mul_is_distributive_add_other_way(w as int, y as int, 1);
            assert(w * height == height * w) by (nonlinear_arith);
            lemma_nearest_bound(y as int, pic.height as int, height as int);
        }
        assert(y * pic.height <= u32::MAX * u32::MAX) by (nonlinear_arith)
            requires
                y <= u32::MAX,
                pic.height <= u32::MAX,
        ;
        let sy: u64 = y as u64 * pic.height as u64 / height as u64;
        let mut x: u32 = 0;
        while x < w
            invariant
                x <= w,
                y < height,
                p == y * w + x,
                w == still_width(width),
                npix == crate::convert::pixels(w, height),
                (y + 1) * w == y * w + w,
                (y + 1) * w <= npix,
                npix * 3 <= usize::MAX,
                rgb@.len() == npix * 3,
                pic.wf(),
                pic.has_pixels(),
                sy == nearest(y as int, pic.height as int, height as int),
                sy < pic.height,
                forall|j: int|
                    0 <= j < p * 3 ==> #[trigger] rgb@[j] == canvas_byte(
                        pic.data@,
                        pic.width,
                        pic.height,
                        width,
                        height,
                        j,
                    ),
            decreases w - x,
        {
            proof {
                lemma_nearest_bound(x as int, pic.width as int, width as int);
                lemma_fundamental_div_mod_converse(p as int, w as int, y as int, x as int);
                lemma_mul_inequality(sy + 1, pic.height as int, pic.width as int);
                lemma_mul_is_distributive_add_other_way(pic.width as int, sy as int, 1);
                assert(pic.width * pic.height == pic.height * pic.width) by (nonlinear_arith);
                assert(0 <= sy * pic.width) by (nonlinear_arith);
                assert(pic.data@.len() == pic.data.len());
            }
            assert(x * pic.width <= u32::MAX * u32::MAX) by (nonlinear_arith)
                requires
                    x <= u32::MAX,
                    pic.width <= u32::MAX,
            ;
            let sx: u64 = x as u64 * pic.width as u64 / width as u64;
            let from: usize = (sy as usize * pic.width as usize + sx as usize) * 3;
            let i: usize = p * 3;
            rgb[i] = pic.data[from];
            rgb[i + 1] = pic.data[from + 1];
            rgb[i + 2] = pic.data[from + 2];
            x += 1;
            p += 1;
        }
        y += 1;
    }
    assert(w * height == height * w) by (nonlinear_arith);
    assert(rgb@ =~= canvas(pic.data@, pic.width, pic.height, width, height));
    rgb
}

/// The wire format of a still image: YUYV (universally accepted) unless NV12 or
/// RGB24 is explicitly requested.
pub open spec fn still_format(pref: FormatPref) -> PixelFormat {
    match pref {
        FormatPref::Nv12 => PixelFormat::Nv12,
        FormatPref::Rgb24 => PixelFormat::Rgb24,
        FormatPref::Auto | FormatPref::Yuy2 | FormatPref::Mjpeg => PixelFormat::Yuy2,
    }
}

/// What a canvas that was painted for `width`×`height` goes out as, or why it cannot.
pub open spec fn still(rgb: Seq<u8>, width: u32, height: u32, pref: FormatPref) -> Result<
    Seq<u8>,
    Seq<char>,
> {
    let w = still_width(width);
    if w == 0 || height == 0 {
        Err("image output size must be non-zero (and width even for YUYV)"@)
    } else {
        match still_format(pref) {
            PixelFormat::Yuy2 => Ok(crate::convert::rgb_yuy2_picture(rgb, w, height)),
            PixelFormat::Nv12 => if height % 2 == 0 {
                Ok(crate::convert::rgb_nv12_picture(rgb, w, height))
            } else {
                Err("failed to pack image as Nv12"@)
            },
            _ => Ok(rgb),
        }
    }
}

/// Scales a picture into `width`×`height` and packs it as YUYV (or NV12 / RGB24
/// if explicitly requested).
pub fn compose(pic: &RgbPicture, width: u32, height: u32, pref: FormatPref) -> (r: Result<
    Frame,
    String,
>)
    requires
        pic.wf(),
        pic.has_pixels(),
        (crate::convert::pixels(width, height) - 1) * 3 <= u32::MAX,
        crate::convert::pixels(width, height) * 3 <= usize::MAX,
    ensures
        match still(
            canvas(pic.data@, pic.width, pic.height, width, height),
            width,
            height,
            pref,
        ) {
            Ok(bytes) => {
                &&& r matches Ok(frame)
                &&& frame.wf()
                &&& frame.bytes() == bytes
                &&& frame.width == still_width(width)
                &&& frame.height == height
                &&& frame.format == still_format(pref)
                &&& frame.seq == 0
            },
            Err(text) => r is Err && r->Err_0@ == text,
        },
{
    let rgb = paint(pic, width, height);
    // YUYV needs even width; bump down by 1 if needed so packing never fails.
    let w: u32 = width - width % 2;
    let h: u32 = height;
    if w == 0 || h == 0 {
        return Err("image output size must be non-zero (and width even for YUYV)".to_owned());
    }
    assert(0 < w * h <= width * height) by (nonlinear_arith)
        requires
            0 < w <= width,
            0 < h,
            h == height,
    ;
    let npix: usize = pixel_count(w, h) as usize;

    let (format, out_len): (PixelFormat, usize) = match pref {
        FormatPref::Nv12 => (PixelFormat::Nv12, npix * 3 / 2),
        FormatPref::Rgb24 => (PixelFormat::Rgb24, npix * 3),
        // Auto / Yuy2 / Mjpeg → YUYV (universally accepted wire format).
        FormatPref::Auto | FormatPref::Yuy2 | FormatPref::Mjpeg => (PixelFormat::Yuy2, npix * 2),
    };

    let mut frame = Frame::with_capacity(out_len);
    frame.width = w;
    frame.height = h;
    frame.format = format;

    let ok = match format {
        PixelFormat::Yuy2 => rgb24_to_yuy2(rgb.as_slice(), frame.payload_mut(out_len), w, h),
        PixelFormat::Nv12 => rgb24_to_nv12(rgb.as_slice(), frame.payload_mut(out_len), w, h),
        PixelFormat::Rgb24 => {
            frame.set_payload(rgb.as_slice());
            true
        },
        PixelFormat::Mjpeg => false,
    };
    if !ok {
        return Err("failed to pack image as Nv12".to_owned());
    }
    proof {
        if format == PixelFormat::Yuy2 {
            assert(frame.bytes() =~= crate::convert::rgb_yuy2_picture(rgb@, w, h));
        } else if format == PixelFormat::Nv12 {
            assert(frame.bytes() =~= crate::convert::rgb_nv12_picture(rgb@, w, h));
        } else {
            assert(frame.bytes() =~= rgb@);
        }
    }
    Ok(frame)
}

/// The message for an image file that cannot be opened.
pub open spec fn open_failure(path: Seq<char>, why: Seq<char>) -> Seq<char> {
    "failed to open image "@ + path + ": "@ + why
}

/// The message for an image file that cannot be opened.
pub fn open_error(path: &str, why: &str) -> (r: String)
    ensures
        r@ == open_failure(path@, why@),
{
    let mut r = "failed to open image ".to_owned();
    r.append(path);
    r.append(": ");
    r.append(why);
    r
}

/// Takes what reading and decoding the image file `path` came to, scales the picture
/// into `width`×`height`, and packs it as YUYV (or NV12 / RGB24 if explicitly
/// requested).
pub fn load_frame(
    path: &str,
    decoded: Result<RgbPicture, String>,
    width: u32,
    height: u32,
    pref: FormatPref,
) -> (r: Result<Frame, String>)
    requires
        decoded matches Ok(pic) ==> pic.wf(),
        (crate::convert::pixels(width, height) - 1) * 3 <= u32::MAX,
        crate::convert::pixels(width, height) * 3 <= usize::MAX,
    ensures
        match decoded {
            Err(why) => r is Err && r->Err_0@ == open_failure(path@, why@),
            Ok(pic) => if !pic.has_pixels() {
                r is Err && r->Err_0@ == open_failure(path@, "the image is empty"@)
            } else {
                match still(
                    canvas(pic.data@, pic.width, pic.height, width, height),
                    width,
                    height,
                    pref,
                ) {
                    Ok(packed) => {
                        &&& r matches Ok(frame)
                        &&& frame.wf()
                        &&& frame.bytes() == packed
                        &&& frame.width == still_width(width)
                        &&& frame.height == height
                        &&& frame.format == still_format(pref)
                        &&& frame.seq == 0
                    },
                    Err(text) => r is Err && r->Err_0@ == text,
                }
            },
        },
{
    match decoded {
        Err(why) => Err(open_error(path, why.as_str())),
        Ok(pic) => {
            if pic.width == 0 || pic.height == 0 {
                return Err(open_error(path, "the image is empty"));
            }
            compose(&pic, width, height, pref)
        },
    }
}

/// A picture that already has the canvas size is painted unchanged, pixel by pixel:
/// of an odd width only the last column is missing.
pub proof fn law_same_size_is_unchanged(data: Seq<u8>, width: u32, height: u32, j: int)
    requires
        0 <= j < crate::convert::pixels(still_width(width), height) * 3,
    ensures
        ({
            let x = j / 3 % still_width(width) as int;
            let y = j / 3 / still_width(width) as int;
            &&& 0 <= x < still_width(width)
            &&& 0 <= y < height
            &&& canvas(data, width, height, width, height)[j] == data[(y * width + x) * 3 + j % 3]
        }),
        width % 2 == 0 ==> canvas(data, width, height, width, height)[j] == data[j],
{
    let w = still_width(width) as int;
    let h = height as int;
    let p = j / 3;
    assert(0 < w && 0 < h) by (nonlinear_arith)
        requires
            0 <= j < w * h * 3,
            0 <= w,
            0 <= h,
    ;
    lemma_fundamental_div_mod(p, w);
    lemma_mod_bound(p, w);
    let x = p % w;
    let y = p / w;
    assert(0 <= y < h) by (nonlinear_arith)
        requires
            0 <= p < w * h,
            p == w * y + x,
            0 <= x < w,
    ;
    lemma_div_multiples_vanish(x, width as int);
    lemma_div_multiples_vanish(y, h);
    assert(x * width / width as int == x && y * h / h == y) by {
        assert(width * x == x * width) by (nonlinear_arith);
        assert(h * y == y * h) by (nonlinear_arith);
    }
    assert(w * y == y * w) by (nonlinear_arith);
}

/// The canvas shows the picture scaled to its size, each axis on its own: the
/// pixel in column `x` and row `y` of the canvas is the one in column
/// `x * pic_w / width` and row `y * pic_h / height` of the picture.
pub proof fn law_canvas_is_scaled(
    data: Seq<u8>,
    pic_w: u32,
    pic_h: u32,
    width: u32,
    height: u32,
    x: int,
    y: int,
    c: int,
)
    requires
        0 <= x < width - width % 2,
        0 <= y < height,
        0 <= c < 3,
    ensures
        canvas(data, pic_w, pic_h, width, height).len() == (width - width % 2) * height * 3,
        0 <= (y * (width - width % 2) + x) * 3 + c < canvas(data, pic_w, pic_h, width, height).len(),
        canvas(data, pic_w, pic_h, width, height)[(y * (width - width % 2) + x) * 3 + c] == data[((y
            * pic_h / (height as int)) * pic_w + x * pic_w / (width as int)) * 3 + c],
{
    let w = width - width % 2;
    let h = height as int;
    let p = y * w + x;
    lemma_fundamental_div_mod_converse(p, w, y, x);
    lemma_mul_inequality(y + 1, h, w);
    lemma_mul_is_distributive_add_other_way(w, y, 1);
    assert(0 <= y * w) by (nonlinear_arith)
        requires
            0 <= y,
            0 < w,
    ;
    assert(h * w == w * h) by (nonlinear_arith);
    assert((p * 3 + c) / 3 == p && (p * 3 + c) % 3 == c);
}

/// A picture of twice the height of the canvas shows every second row, a picture
/// of twice its width every second column, and a picture of half its height shows
/// every row twice.
pub proof fn law_canvas_halves_and_doubles(
    data: Seq<u8>,
    pic_w: u32,
    pic_h: u32,
    width: u32,
    height: u32,
    x: int,
    y: int,
    c: int,
)
    requires
        0 <= x < width - width % 2,
        0 <= y < height,
        0 <= c < 3,
    ensures
        ({
            let shown = canvas(data, pic_w, pic_h, width, height)[(y * (width - width % 2) + x) * 3
                + c];
            &&& pic_w == width && pic_h == 2 * height ==> shown == data[((2 * y) * pic_w + x) * 3
                + c]
            &&& pic_w == 2 * width && pic_h == height ==> shown == data[(y * pic_w + 2 * x) * 3 + c]
            &&& pic_w == width && height == 2 * pic_h ==> shown == data[((y / 2) * pic_w + x) * 3
                + c]
        }),
{
    law_canvas_is_scaled(data, pic_w, pic_h, width, height, x, y, c);
    if pic_w == width {
        law_nearest_covers_the_source(x, x, pic_w as int, width as int, 0);
        if pic_h == 2 * height || (height == 2 * pic_h && pic_h > 0) {
            law_nearest_covers_the_source(y, y, pic_h as int, height as int, 0);
        }
    } else if pic_w == 2 * width && pic_h == height {
        law_nearest_covers_the_source(x, x, pic_w as int, width as int, 0);
        law_nearest_covers_the_source(y, y, pic_h as int, height as int, 0);
    }
}

/// The whole picture is covered, from the first row to the last and from the first
/// column on: the canvas keeps the order of the rows and columns, starts with the
/// first of each, ends less than one canvas row short of the last row, and leaves no
/// row out when it has at least as many as the picture.
pub proof fn law_canvas_covers_the_picture(
    data: Seq<u8>,
    pic_w: u32,
    pic_h: u32,
    width: u32,
    height: u32,
    row: int,
    x: int,
    c: int,
)
    requires
        0 < pic_w,
        0 <= row < pic_h,
        0 <= x < width - width % 2,
        0 < height,
        0 <= c < 3,
    ensures
        ({
            let w = width - width % 2;
            let shown = canvas(data, pic_w, pic_h, width, height);
            let sx = x * pic_w / (width as int);
            let last = (height - 1) * pic_h / (height as int);
            &&& shown[x * 3 + c] == data[sx * 3 + c]
            &&& shown[c] == data[c]
            &&& shown[((height - 1) * w + x) * 3 + c] == data[(last * pic_w + sx) * 3 + c]
            &&& (pic_h - 1 - last) * height < pic_h
            &&& pic_h <= height ==> exists|y: int|
                0 <= y < height && #[trigger] shown[(y * w + x) * 3 + c] == data[(row * pic_w + sx)
                    * 3 + c]
        }),
{
    let w = width - width % 2;
    let shown = canvas(data, pic_w, pic_h, width, height);
    let sx = x * pic_w / (width as int);
    law_canvas_is_scaled(data, pic_w, pic_h, width, height, x, 0, c);
    law_canvas_is_scaled(data, pic_w, pic_h, width, height, 0, 0, c);
    law_canvas_is_scaled(data, pic_w, pic_h, width, height, x, height - 1, c);
    law_nearest_covers_the_source(0, 0, pic_h as int, height as int, row);
    law_nearest_covers_the_source(0, 0, pic_w as int, width as int, 0);
    assert(0 * w == 0 && 0 * pic_w == 0) by (nonlinear_arith);
    if pic_h <= height {
        let y = choose|y: int|
            0 <= y < height && #[trigger] nearest(y, pic_h as int, height as int) == row;
        law_canvas_is_scaled(data, pic_w, pic_h, width, height, x, y, c);
        assert(shown[(y * w + x) * 3 + c] == data[(row * pic_w + sx) * 3 + c]);
    }
}

/// A still image goes out as YUYV unless NV12 or RGB24 is asked for, in the canvas
/// width made even. It is refused exactly where no even-sized canvas is left, or
/// where NV12 is asked for with an odd height.
pub proof fn law_still_formats(rgb: Seq<u8>, width: u32, height: u32, pref: FormatPref)
    ensures
        pref == FormatPref::Nv12 <==> still_format(pref) == PixelFormat::Nv12,
        pref == FormatPref::Rgb24 <==> still_format(pref) == PixelFormat::Rgb24,
        pref != FormatPref::Nv12 && pref != FormatPref::Rgb24 ==> still_format(pref)
            == PixelFormat::Yuy2,
        still_width(width) % 2 == 0 && still_width(width) <= width < still_width(width) + 2,
        still(rgb, width, height, pref) is Ok <==> (width >= 2 && height >= 1 && (pref
            == FormatPref::Nv12 ==> height % 2 == 0)),
        pref == FormatPref::Rgb24 && width >= 2 && height >= 1 ==> still(rgb, width, height, pref)
            == Ok::<Seq<u8>, Seq<char>>(rgb),
        pref == FormatPref::Nv12 && still(rgb, width, height, pref) is Ok ==> still(
            rgb,
            width,
            height,
            pref,
        ) == Ok::<Seq<u8>, Seq<char>>(
            crate::convert::rgb_nv12_picture(rgb, (width - width % 2) as u32, height),
        ),
        pref != FormatPref::Nv12 && pref != FormatPref::Rgb24 && width >= 2 && height >= 1
            ==> still(rgb, width, height, pref) == Ok::<Seq<u8>, Seq<char>>(
            crate::convert::rgb_yuy2_picture(rgb, (width - width % 2) as u32, height),
        ),
        width < 2 || height == 0 ==> still(rgb, width, height, pref) == Err::<
            Seq<u8>,
            Seq<char>,
        >("image output size must be non-zero (and width even for YUYV)"@),
        pref == FormatPref::Nv12 && width >= 2 && height % 2 == 1 ==> still(
            rgb,
            width,
            height,
            pref,
        ) == Err::<Seq<u8>, Seq<char>>("failed to pack image as Nv12"@),
{
}

// ---------------------------------------------------------------------------
// Re-emitting the frame
// ---------------------------------------------------------------------------

/// Nanoseconds between two frames.
pub fn frame_period(fps: u32) -> (ns: u64)
    ensures
        ns == 1_000_000_000int / (if fps == 0 {
            1
        } else {
            fps as int
        }),
        ns == period_of(fps),
{
    let rate: u64 = if fps == 0 {
        1
    } else {
        fps as u64
    };
    1_000_000_000 / rate
}

/// How long to sleep before the next frame is due, in nanoseconds: at most 50
/// milliseconds at a time, to notice a shutdown promptly. `None` if it is due.
pub fn sleep_before(now: u64, next_tick: u64) -> (r: Option<u64>)
    ensures
        r == (if now < next_tick {
            Some(
                if next_tick - now < 50_000_000 {
                    (next_tick - now) as u64
                } else {
                    50_000_000u64
                },
            )
        } else {
            None
        }),
        r == nap(now, next_tick),
{
    if now < next_tick {
        let left: u64 = next_tick - now;
        if left < 50_000_000 {
            Some(left)
        } else {
            Some(50_000_000)
        }
    } else {
        None
    }
}

/// When the frame after the one that was due at `tick` is due.
pub open spec fn tick_after(tick: int, period: int, now: int) -> int {
    if tick + 2 * period < now {
        now + period
    } else {
        tick + period
    }
}

/// When the frame after the one that was due at `tick` is due. If we fell far
/// behind (debugger / heavy load), resync so we don't blast a backlog of
/// catch-up frames.
pub fn following_tick(tick: u64, period: u64, now: u64) -> (r: u64)
    requires
        tick + 2 * period <= u64::MAX,
        now + period <= u64::MAX,
    ensures
        r == tick_after(tick as int, period as int, now as int),
{
    let next: u64 = tick + period;
    if next + period < now {
        now + period
    } else {
        next
    }
}

/// The following frame is never due so early that two frames would be owed at
/// once. Frames keep the beat of the period as long as no more than two periods have
/// passed, so that a late frame does not shift the ones after it; otherwise the next
/// one is a full period away.
pub proof fn law_no_backlog(tick: int, period: int, now: int)
    requires
        0 <= period,
    ensures
        now <= tick + 2 * period ==> tick_after(tick, period, now) - tick == period,
        now > tick + 2 * period ==> tick_after(tick, period, now) - now == period,
        tick_after(tick, period, now) + period >= now,
        tick_after(tick, period, now) >= tick + period,
{
}

/// Copies the still image into a slot, if there is one. Only a frame that goes out
/// takes a number.
pub fn copy_still(slot: Option<Frame>, template: &Frame, seq: &mut u64) -> (r: Option<Frame>)
    requires
        template.wf(),
        *old(seq) < u64::MAX,
    ensures
        slot is Some ==> {
            &&& r matches Some(frame)
            &&& frame.wf()
            &&& frame.bytes() == template.bytes()
            &&& frame.width == template.width
            &&& frame.height == template.height
            &&& frame.format == template.format
            &&& frame.seq == *old(seq)
            &&& *final(seq) == *old(seq) + 1
        },
        slot is None ==> r is None && *final(seq) == *old(seq),
{
    match slot {
        None => None,
        Some(slot) => {
            let mut frame = slot;
            frame.set_payload(template.payload());
            frame.width = template.width;
            frame.height = template.height;
            frame.format = template.format;
            frame.seq = *seq;
            frame.ts = Instant::now();
            *seq = *seq + 1;
            Some(frame)
        },
    }
}

/// Takes a slot from the pool and copies the still image into it. `None` means
/// every slot is in flight; `copy_still` says what comes of a slot and of none.
/// Frames are numbered from zero.
pub fn emit_still(pool: &BufferPool, template: &Frame, seq: &mut u64) -> (r: Option<Frame>)
    requires
        template.wf(),
        *old(seq) < u64::MAX,
    ensures
        match r {
            Some(frame) => {
                &&& frame.wf()
                &&& frame.bytes() == template.bytes()
                &&& frame.width == template.width
                &&& frame.height == template.height
                &&& frame.format == template.format
                &&& frame.seq == *old(seq)
                &&& *final(seq) == *old(seq) + 1
            },
            None => *final(seq) == *old(seq),
        },
{
    copy_still(pool.try_acquire(), template, seq)
}

/// Nanoseconds between two frames at this rate.
pub open spec fn period_of(fps: u32) -> int {
    1_000_000_000int / (if fps == 0 {
        1
    } else {
        fps as int
    })
}

/// As many periods as there are frames in a second fill the second, up to less than a
/// nanosecond for each. A rate of zero counts as one, and a higher rate never has a longer
/// period.
pub proof fn law_frame_period(fps: u32, faster: u32)
    ensures
        fps > 0 ==> period_of(fps) * fps <= 1_000_000_000 < (period_of(fps) + 1) * fps,
        period_of(0) == 1_000_000_000,
        0 < fps <= faster ==> period_of(faster) <= period_of(fps),
{
    if fps > 0 {
        lemma_fundamental_div_mod(1_000_000_000, fps as int);
        lemma_mod_bound(1_000_000_000, fps as int);
        let q = period_of(fps);
        let m = 1_000_000_000int % (fps as int);
        assert(q * fps <= 1_000_000_000 < (q + 1) * fps) by (nonlinear_arith)
            requires
                1_000_000_000 == fps * q + m,
                0 <= m < fps,
        ;
        if fps <= faster {
            vstd::arithmetic::div_mod::lemma_div_is_ordered_by_denominator(
                1_000_000_000,
                fps as int,
                faster as int,
            );
        }
    }
}

/// How long to sleep before the next frame is due.
pub open spec fn nap(now: u64, next_tick: u64) -> Option<u64> {
    if now >= next_tick {
        None
    } else if next_tick - now >= 50_000_000 {
        Some(50_000_000)
    } else {
        Some((next_tick - now) as u64)
    }
}

/// A sleep never overshoots the tick and never lasts longer than 50 milliseconds, and it
/// ends at the tick as soon as that is near. A frame is due exactly when its tick has come.
pub proof fn law_naps_are_short(now: u64, next_tick: u64)
    ensures
        nap(now, next_tick) is None <==> now >= next_tick,
        nap(now, next_tick) matches Some(ns) ==> 0 < ns <= 50_000_000 && now + ns <= next_tick,
        now < next_tick <= now + 50_000_000 ==> (nap(now, next_tick) matches Some(ns) && now + ns
            == next_tick),
        now + 50_000_000 < next_tick ==> nap(now, next_tick) == Some(50_000_000u64),
{
}

/// A picture holds three bytes for each of its pixels, at least, and a picture without
/// width or height has none.
pub proof fn law_picture_bytes(pic: RgbPicture)
    ensures
        pic.wf() <==> pic.data@.len() >= 3 * (pic.width * pic.height),
        pic.has_pixels() <==> pic.width * pic.height >= 1,
{
    assert(pic.width > 0 && pic.height > 0 <==> pic.width * pic.height >= 1) by (nonlinear_arith);
    assert(pic.width * pic.height * 3 == 3 * (pic.width * pic.height));
}

/// A failure to open an image names the file, then the reason.
pub proof fn law_open_failure(path: Seq<char>, why: Seq<char>)
    ensures
        crate::text::has_prefix(open_failure(path, why), "failed to open image "@ + path),
        open_failure(path, why).skip(open_failure(path, why).len() - why.len()) == why,
{
    let text = open_failure(path, why);
    let head = "failed to open image "@ + path;
    assert(text =~= head + (": "@ + why));
    crate::text::law_prefix(head, ": "@ + why, text);
    assert(text.skip(text.len() - why.len()) =~= why);
}

} // verus!
