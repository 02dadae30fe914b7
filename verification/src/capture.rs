//! Capture-side rules: which camera formats to ask for, which camera mode to
//! pin, and how a raw camera buffer becomes a wire frame.
//!
//! On any stream error the camera is dropped and re-opened after a backoff, so
//! USB disconnects and driver hiccups are recovered automatically. Blocking
//! camera reads are the only suspension points; the shutdown flag is checked
//! between frames.

use nokhwa::pixel_format::RgbFormat;
use nokhwa::utils::FrameFormat;
use nokhwa::utils::Resolution;
use nokhwa::Buffer;
use std::time::Instant;
use vstd::prelude::*;

use crate::config::FormatPref;
use crate::config::ResolvedConfig;
use crate::convert::nv12_is_complete;
use crate::convert::nv12_to_rgb24;
use crate::convert::pixel_count;
use crate::convert::rgb24_to_yuy2;
use crate::convert::yuy2_to_rgb24;
use crate::frame::BufferPool;
use crate::frame::Frame;
use crate::frame::PixelFormat;

verus! {

/// On-the-wire formats of camera buffers.
#[derive(Clone, Copy, Debug, PartialEq, Eq, Structural)]
pub enum SourceFormat {
    Mjpeg,
    Yuyv,
    Nv12,
    Gray,
    RawRgb,
    RawBgr,
}

// ---------------------------------------------------------------------------
// Raw camera buffers -> RGB24
// ---------------------------------------------------------------------------

/// Why a gray or BGR buffer cannot be decoded, if it cannot.
pub open spec fn raw_failure(
    format: SourceFormat,
    width: u32,
    height: u32,
    src_len: nat,
    dst_len: nat,
) -> Option<Seq<char>> {
    let bytes = width * height * 3;
    match format {
        SourceFormat::Gray => if dst_len != src_len * 3 {
            Some("Could not process frame GRAY to Luma => RGB: Bad buffer length"@)
        } else {
            None
        },
        SourceFormat::RawBgr => if width % 2 != 0 || height % 2 != 0 {
            Some("Could not process frame RAWBGR to RGB: bad resolution"@)
        } else if src_len != bytes {
            Some("Could not process frame RAWBGR to RGB: bad input buffer size"@)
        } else if dst_len != bytes {
            Some("Could not process frame RAWBGR to RGB: bad output buffer size"@)
        } else {
            None
        },
        _ => None,
    }
}

/// Byte `j` of the RGB24 form of a gray, RGB or BGR buffer.
pub open spec fn raw_as_rgb(format: SourceFormat, src: Seq<u8>, j: int) -> u8 {
    match format {
        SourceFormat::Gray => src[j / 3],
        SourceFormat::RawBgr => src[j / 3 * 3 + (2 - j % 3)],
        _ => src[j],
    }
}

/// The RGB24 form of a gray, RGB or BGR buffer of `n` output bytes.
pub open spec fn raw_rgb_picture(format: SourceFormat, src: Seq<u8>, n: nat) -> Seq<u8> {
    Seq::new(n, |j: int| raw_as_rgb(format, src, j))
}

/// Whether a format holds uncompressed pixels other than YUV.
pub open spec fn is_raw(format: SourceFormat) -> bool {
    format == SourceFormat::Gray || format == SourceFormat::RawRgb || format
        == SourceFormat::RawBgr
}

/// `nokhwa::Buffer::decode_image_to_buffer::<RgbFormat>` on an uncompressed
/// buffer. Gray is tripled, BGR is swapped and RGB is copied; a size that does
/// not match is reported in the words of `nokhwa::NokhwaError`, with nothing
/// written. RGB of the wrong size makes the decoder panic, as does BGR geometry
/// beyond 32 bits, and both are left out.
#[verifier::external_body]
fn decode_raw(
    format: SourceFormat,
    src: &[u8],
    dst: &mut [u8],
    width: u32,
    height: u32,
) -> (r: Result<(), String>)
    requires
        is_raw(format),
        format == SourceFormat::Gray ==> src@.len() * 3 <= usize::MAX,
        format == SourceFormat::RawRgb ==> src@.len() == old(dst)@.len(),
        format == SourceFormat::RawBgr ==> width * height * 3 <= u32::MAX,
    ensures
        match raw_failure(format, width, height, src@.len(), old(dst)@.len()) {
            Some(text) => r is Err && r->Err_0@ == text && final(dst)@ == old(dst)@,
            None => r is Ok && final(dst)@ == raw_rgb_picture(format, src@, old(dst)@.len()),
        },
{
    let fcc = match format {
        SourceFormat::Mjpeg => FrameFormat::MJPEG,
        SourceFormat::Yuyv => FrameFormat::YUYV,
        SourceFormat::Nv12 => FrameFormat::NV12,
        SourceFormat::Gray => FrameFormat::GRAY,
        SourceFormat::RawRgb => FrameFormat::RAWRGB,
        SourceFormat::RawBgr => FrameFormat::RAWBGR,
    };
    Buffer::new(Resolution::new(width, height), src, fcc)
        .decode_image_to_buffer::<RgbFormat>(dst)
        .map_err(|e| e.to_string())
}

// ---------------------------------------------------------------------------
// Filling a frame
// ---------------------------------------------------------------------------

/// What an RGB24 picture goes out as: packed YUYV for `Auto`, which every app
/// accepts, and for a forced `Yuy2`; plain RGB24 otherwise. `None` where YUYV
/// cannot hold the geometry.
pub open spec fn rgb_wire(
    rgb: Seq<u8>,
    width: u32,
    height: u32,
    pref: FormatPref,
) -> Option<(PixelFormat, Seq<u8>)> {
    match pref {
        FormatPref::Auto | FormatPref::Yuy2 => if width > 0 && height > 0 && width % 2 == 0 {
            Some((PixelFormat::Yuy2, crate::convert::rgb_yuy2_picture(rgb, width, height)))
        } else {
            None
        },
        _ => Some((PixelFormat::Rgb24, rgb)),
    }
}

/// What a camera buffer goes out as: `Ok(None)` is a buffer that is skipped.
pub open spec fn wire(
    format: SourceFormat,
    src: Seq<u8>,
    width: u32,
    height: u32,
    pref: FormatPref,
) -> Result<Option<(PixelFormat, Seq<u8>)>, Seq<char>> {
    let n = crate::convert::pixels(width, height) * 3;
    match format {
        SourceFormat::Yuyv => match pref {
            FormatPref::Auto | FormatPref::Yuy2 => if PixelFormat::Yuy2.packed_bytes(width, height)
                == Some(src.len() as int) {
                Ok(Some((PixelFormat::Yuy2, src)))
            } else {
                Ok(None)
            },
            FormatPref::Rgb24 => if crate::convert::yuy2_to_rgb24_fits(
                src.len(),
                n as nat,
                width,
                height,
            ) {
                Ok(
                    Some(
                        (
                            PixelFormat::Rgb24,
                            crate::convert::yuy2_rgb_picture(src, width, height),
                        ),
                    ),
                )
            } else {
                Ok(None)
            },
            _ => Ok(None),
        },
        SourceFormat::Nv12 => match pref {
            FormatPref::Nv12 => Ok(Some((PixelFormat::Nv12, src))),
            FormatPref::Auto | FormatPref::Rgb24 => if n <= usize::MAX
                && crate::convert::nv12_to_rgb24_fits(src.len(), n as nat, width, height) {
                Ok(
                    rgb_wire(
                        crate::convert::nv12_rgb_picture(src, width, height),
                        width,
                        height,
                        pref,
                    ),
                )
            } else {
                Ok(None)
            },
            _ => Ok(None),
        },
        SourceFormat::Mjpeg => Ok(Some((PixelFormat::Mjpeg, src))),
        _ => match raw_failure(format, width, height, src.len(), n as nat) {
            Some(text) => Err(text),
            None => Ok(rgb_wire(raw_rgb_picture(format, src, n as nat), width, height, pref)),
        },
    }
}

/// Whether a buffer has to be decompressed before it can be wired.
pub open spec fn needs_jpeg(format: SourceFormat, pref: FormatPref) -> bool {
    format == SourceFormat::Mjpeg && pref != FormatPref::Mjpeg
}

/// Whether the sizes of a buffer stay within what the decoders can address. Of
/// raw RGB, the size has to be exact.
pub open spec fn decodable(
    format: SourceFormat,
    src_len: nat,
    width: u32,
    height: u32,
    pref: FormatPref,
) -> bool {
    let n = crate::convert::pixels(width, height) * 3;
    &&& format == SourceFormat::Yuyv && pref == FormatPref::Rgb24 ==> n <= usize::MAX
    &&& format == SourceFormat::Gray ==> n <= usize::MAX && src_len * 3 <= usize::MAX
    &&& format == SourceFormat::RawRgb ==> n == src_len
    &&& format == SourceFormat::RawBgr ==> n <= u32::MAX
}

/// Tests whether the sizes of a buffer stay within what the decoders can
/// address.
pub fn is_decodable(
    format: SourceFormat,
    src_len: usize,
    width: u32,
    height: u32,
    pref: FormatPref,
) -> (r: bool)
    ensures
        r == decodable(format, src_len as nat, width, height, pref),
{
    let n: u128 = pixel_count(width, height) as u128 * 3;
    match format {
        SourceFormat::Yuyv => pref != FormatPref::Rgb24 || n <= usize::MAX as u128,
        SourceFormat::Gray => n <= usize::MAX as u128 && src_len as u128 * 3 <= usize::MAX as u128,
        SourceFormat::RawRgb => n == src_len as u128,
        SourceFormat::RawBgr => n <= u32::MAX as u128,
        _ => true,
    }
}

/// Tests whether a buffer has to be decompressed before it can be wired.
pub fn is_jpeg_needed(format: SourceFormat, pref: FormatPref) -> (r: bool)
    ensures
        r == needs_jpeg(format, pref),
{
    format == SourceFormat::Mjpeg && pref != FormatPref::Mjpeg
}

/// Everything of a frame but its payload and format.
pub open spec fn same_stamp(a: Frame, b: Frame) -> bool {
    a.width == b.width && a.height == b.height && a.seq == b.seq && a.ts == b.ts
}

/// Stores an RGB24 picture in a pooled frame, packed as the preference asks.
/// Returns `false` for geometry that cannot be packed.
pub fn fill_rgb(frame: &mut Frame, rgb: &[u8], width: u32, height: u32, pref: FormatPref) -> (r:
    bool)
    requires
        rgb@.len() == crate::convert::pixels(width, height) * 3,
    ensures
        same_stamp(*final(frame), *old(frame)),
        match rgb_wire(rgb@, width, height, pref) {
            Some(w) => r && final(frame).wf() && final(frame).format == w.0
                && final(frame).bytes() == w.1,
            None => !r && final(frame).format == old(frame).format,
        },
{
    assert(rgb@.len() == rgb.len());
    match pref {
        FormatPref::Auto | FormatPref::Yuy2 => {
            let n: usize = pixel_count(width, height) as usize * 2;
            if !rgb24_to_yuy2(rgb, frame.payload_mut(n), width, height) {
                return false;
            }
            frame.format = PixelFormat::Yuy2;
            assert(frame.bytes() =~= crate::convert::rgb_yuy2_picture(rgb@, width, height));
            true
        },
        _ => {
            frame.set_payload(rgb);
            frame.format = PixelFormat::Rgb24;
            true
        },
    }
}

/// `scratch`, at least `n` bytes long.
fn grow_scratch(scratch: &mut Vec<u8>, n: usize)
    ensures
        final(scratch)@.len() == if old(scratch)@.len() < n {
            n as nat
        } else {
            old(scratch)@.len()
        },
{
    if scratch.len() < n {
        scratch.resize(n, 0);
    }
}

/// Convert/copy a raw camera buffer into a pooled frame.
/// Returns `Ok(false)` for source formats we cannot serve. `scratch` is reused
/// across frames, so that repacking allocates at most once per resolution
/// change.
pub fn fill(
    frame: &mut Frame,
    format: SourceFormat,
    src: &[u8],
    width: u32,
    height: u32,
    pref: FormatPref,
    scratch: &mut Vec<u8>,
) -> (r: Result<bool, String>)
    requires
        !needs_jpeg(format, pref),
        decodable(format, src@.len(), width, height, pref),
    ensures
        same_stamp(*final(frame), *old(frame)),
        match wire(format, src@, width, height, pref) {
            Ok(Some(w)) => r == Ok::<bool, String>(true) && final(frame).wf()
                && final(frame).format == w.0 && final(frame).bytes() == w.1,
            Ok(None) => r == Ok::<bool, String>(false) && final(frame).format == old(frame).format,
            Err(text) => r is Err && r->Err_0@ == text && final(frame).format == old(
                frame,
            ).format,
        },
{
    assert(src@.len() == src.len());
    let npix: u64 = pixel_count(width, height);
    match format {
        SourceFormat::Yuyv => match pref {
            // Zero-conversion fast path: copy YUY2 verbatim. YUYV is what Auto
            // puts on the wire, so it passes straight through.
            FormatPref::Auto | FormatPref::Yuy2 => {
                // Guard against malformed/strided buffers from quirky drivers.
                if !PixelFormat::Yuy2.is_packed_len(src.len(), width, height) {
                    return Ok(false);
                }
                frame.set_payload(src);
                frame.format = PixelFormat::Yuy2;
            },
            FormatPref::Rgb24 => {
                let n: usize = npix as usize * 3;
                if !yuy2_to_rgb24(src, frame.payload_mut(n), width, height) {
                    return Ok(false);
                }
                frame.format = PixelFormat::Rgb24;
                assert(frame.bytes() =~= crate::convert::yuy2_rgb_picture(src@, width, height));
            },
            _ => {
                return Ok(false);
            },
        },
        SourceFormat::Nv12 => match pref {
            FormatPref::Nv12 => {
                frame.set_payload(src);
                frame.format = PixelFormat::Nv12;
            },
            FormatPref::Auto | FormatPref::Rgb24 => {
                if npix as u128 * 3 > usize::MAX as u128 || !nv12_is_complete(
                    src.len(),
                    width,
                    height,
                ) {
                    return Ok(false);
                }
                let n: usize = npix as usize * 3;
                grow_scratch(scratch, n);
                let (rgb, _rest) = scratch.as_mut_slice().split_at_mut(n);
                if !nv12_to_rgb24(src, rgb, width, height) {
                    return Ok(false);
                }
                assert(rgb@ =~= crate::convert::nv12_rgb_picture(src@, width, height));
                return Ok(fill_rgb(frame, rgb, width, height, pref));
            },
            _ => {
                return Ok(false);
            },
        },
        SourceFormat::Mjpeg => {
            frame.set_payload(src);
            frame.format = PixelFormat::Mjpeg;
        },
        // Uncommon source formats: decode to RGB.
        _ => {
            let n: usize = npix as usize * 3;
            grow_scratch(scratch, n);
            let (rgb, _rest) = scratch.as_mut_slice().split_at_mut(n);
            match decode_raw(format, src, rgb, width, height) {
                Ok(()) => {
                    return Ok(fill_rgb(frame, rgb, width, height, pref));
                },
                Err(text) => {
                    return Err(text);
                },
            }
        },
    }
    Ok(true)
}

/// Whatever the camera delivers, `Auto` puts YUYV on the wire, of exactly the
/// packed size.
pub proof fn law_auto_wires_yuyv(format: SourceFormat, src: Seq<u8>, width: u32, height: u32)
    requires
        !needs_jpeg(format, FormatPref::Auto),
    ensures
        wire(format, src, width, height, FormatPref::Auto) matches Ok(Some(w)) ==> w.0
            == PixelFormat::Yuy2 && PixelFormat::Yuy2.packed_bytes(width, height) == Some(
            w.1.len() as int,
        ),
        forall|rgb: Seq<u8>|
            (#[trigger] rgb_wire(rgb, width, height, FormatPref::Auto)) matches Some(w) ==> w.0
                == PixelFormat::Yuy2 && PixelFormat::Yuy2.packed_bytes(width, height) == Some(
                w.1.len() as int,
            ),
{
    assert(0 <= width as int * height as int) by (nonlinear_arith);
}

// ---------------------------------------------------------------------------
// Opening the camera
// ---------------------------------------------------------------------------

/// Acceptable on-the-wire source formats for a given preference, ordered by
/// desirability.
pub open spec fn accepted(pref: FormatPref) -> Seq<SourceFormat> {
    match pref {
        FormatPref::Auto => seq![SourceFormat::Yuyv, SourceFormat::Mjpeg, SourceFormat::Nv12],
        FormatPref::Yuy2 => seq![SourceFormat::Yuyv],
        FormatPref::Rgb24 => seq![SourceFormat::Mjpeg, SourceFormat::Yuyv, SourceFormat::Nv12],
        FormatPref::Nv12 => seq![SourceFormat::Nv12],
        FormatPref::Mjpeg => seq![SourceFormat::Mjpeg],
    }
}

/// Acceptable on-the-wire source formats for a given preference, ordered by
/// desirability. The first entry is the negotiation bias.
pub fn accept_formats(pref: FormatPref) -> (r: Vec<SourceFormat>)
    ensures
        r@ == accepted(pref),
{
    match pref {
        FormatPref::Auto => vec![SourceFormat::Yuyv, SourceFormat::Mjpeg, SourceFormat::Nv12],
        FormatPref::Yuy2 => vec![SourceFormat::Yuyv],
        FormatPref::Rgb24 => vec![SourceFormat::Mjpeg, SourceFormat::Yuyv, SourceFormat::Nv12],
        FormatPref::Nv12 => vec![SourceFormat::Nv12],
        FormatPref::Mjpeg => vec![SourceFormat::Mjpeg],
    }
}

/// A camera that delivers a format we ask for, in whole pictures with even
/// dimensions, is always served. (Compressed pictures are served once they are
/// decompressed.)
pub proof fn law_accepted_formats_are_served(
    pref: FormatPref,
    format: SourceFormat,
    src: Seq<u8>,
    width: u32,
    height: u32,
)
    requires
        accepted(pref).contains(format),
        width > 0,
        height > 0,
        width % 2 == 0,
        height % 2 == 0,
        width * height * 3 <= usize::MAX,
        format == SourceFormat::Yuyv ==> src.len() == width * height * 2,
        format == SourceFormat::Nv12 ==> src.len() == width * height * 3 / 2,
    ensures
        needs_jpeg(format, pref) || wire(format, src, width, height, pref) matches Ok(Some(_w)),
        forall|rgb: Seq<u8>| (#[trigger] rgb_wire(rgb, width, height, pref)) is Some,
{
    crate::frame::law_packed_buffers_convert(width, height);
    assert(0 < width as int * height as int) by (nonlinear_arith)
        requires
            width > 0,
            height > 0,
    ;
}

/// A mode that a camera offers.
#[derive(Clone, Copy, Debug, PartialEq, Eq, Structural)]
pub struct CameraMode {
    pub width: u32,
    pub height: u32,
    pub fps: u32,
    pub format: SourceFormat,
}

impl CameraMode {
    /// At least as large a picture, and among equals at least as fast.
    pub open spec fn at_least(self, other: CameraMode) -> bool {
        let a = self.width * self.height;
        let b = other.width * other.height;
        a > b || (a == b && self.fps >= other.fps)
    }
}

/// Whether mode `i` is the one to pin: acceptable, at least as good as every
/// acceptable mode, and the last of those that tie.
pub open spec fn is_best_mode(modes: Seq<CameraMode>, accept: Seq<SourceFormat>, i: int) -> bool {
    &&& 0 <= i < modes.len()
    &&& accept.contains(modes[i].format)
    &&& forall|j: int|
        #![trigger modes[j]]
        0 <= j < modes.len() && accept.contains(modes[j].format) ==> modes[i].at_least(modes[j])
    &&& forall|j: int|
        #![trigger modes[j]]
        i < j < modes.len() && accept.contains(modes[j].format) ==> !modes[j].at_least(modes[i])
}

/// Whether a format is in a list.
fn is_accepted(accept: &[SourceFormat], format: SourceFormat) -> (r: bool)
    ensures
        r == accept@.contains(format),
{
    for i in 0..accept.len()
        invariant
            forall|j: int| 0 <= j < i ==> accept@[j] != format,
    {
        if accept[i] == format {
            return true;
        }
    }
    false
}

/// Whether one mode is at least as good as another.
fn mode_at_least(a: &CameraMode, b: &CameraMode) -> (r: bool)
    ensures
        r == a.at_least(*b),
{
    let area_a: u64 = pixel_count(a.width, a.height);
    let area_b: u64 = pixel_count(b.width, b.height);
    area_a > area_b || (area_a == area_b && a.fps >= b.fps)
}

/// Picks the highest-resolution mode among the acceptable formats, breaking
/// ties by the highest frame rate. `None` if no mode is acceptable.
pub fn max_mode(modes: &[CameraMode], accept: &[SourceFormat]) -> (r: Option<CameraMode>)
    ensures
        match r {
            Some(mode) => exists|i: int| is_best_mode(modes@, accept@, i) && mode == modes@[i],
            None => forall|i: int|
                0 <= i < modes@.len() ==> !accept@.contains(#[trigger] modes@[i].format),
        },
{
    let mut best: Option<CameraMode> = None;
    let ghost mut at: int = 0;
    for i in 0..modes.len()
        invariant
            match best {
                Some(mode) => is_best_mode(modes@.take(i as int), accept@, at) && mode
                    == modes@[at],
                None => forall|j: int|
                    0 <= j < i ==> !accept@.contains(#[trigger] modes@[j].format),
            },
    {
        let mode = modes[i];
        let ghost seen = modes@.take(i as int);
        let ghost more = modes@.take(i + 1);
        assert(forall|j: int| 0 <= j < i ==> #[trigger] more[j] == seen[j]);
        assert(more[i as int] == mode);
        if is_accepted(accept, mode.format) {
            let better = match &best {
                Some(b) => mode_at_least(&mode, b),
                None => true,
            };
            if better {
                proof {
                    assert forall|j: int|
                        #![trigger more[j]]
                        0 <= j < more.len() && accept@.contains(
                            more[j].format,
                        ) implies mode.at_least(more[j]) by {
                        if j < i {
                            assert(seen[j] == more[j]);
                        }
                    }
                    at = i as int;
                }
                best = Some(mode);
                assert(is_best_mode(more, accept@, at));
            } else {
                assert(is_best_mode(more, accept@, at)) by {
                    assert forall|j: int|
                        #![trigger more[j]]
                        0 <= j < more.len() && accept@.contains(
                            more[j].format,
                        ) implies more[at].at_least(more[j]) by {
                        if j < i {
                            assert(seen[j] == more[j]);
                        }
                    }
                    assert forall|j: int|
                        #![trigger more[j]]
                        at < j < more.len() && accept@.contains(
                            more[j].format,
                        ) implies !more[j].at_least(more[at]) by {
                        if j < i {
                            assert(seen[j] == more[j]);
                        }
                    }
                }
            }
        } else if best.is_some() {
            assert(is_best_mode(more, accept@, at)) by {
                assert forall|j: int|
                    #![trigger more[j]]
                    0 <= j < more.len() && accept@.contains(more[j].format) implies more[at].at_least(
                    more[j],
                ) by {
                    if j < i {
                        assert(seen[j] == more[j]);
                    }
                }
                assert forall|j: int|
                    #![trigger more[j]]
                    at < j < more.len() && accept@.contains(
                        more[j].format,
                    ) implies !more[j].at_least(more[at]) by {
                    if j < i {
                        assert(seen[j] == more[j]);
                    }
                }
            }
        }
    }
    assert(modes@.take(modes@.len() as int) =~= modes@);
    best
}

/// How the camera is asked for a stream.
#[derive(Clone, Copy, Debug, PartialEq, Eq, Structural)]
pub enum OpenPlan {
    /// Exactly this mode.
    Exact(CameraMode),
    /// The mode that comes closest to this one.
    Closest(CameraMode),
}

/// Decides how to open the camera. With auto-resolution the best mode that the
/// camera offers is pinned exactly, since a closest match could pick a smaller
/// one. Without it, or where the camera names no acceptable mode (`modes` is
/// empty when the capability query failed), the configured geometry is asked
/// for, biased to the first acceptable format.
pub fn open_plan(cfg: &ResolvedConfig, modes: &[CameraMode]) -> (r: OpenPlan)
    ensures
        match r {
            OpenPlan::Exact(mode) => cfg.auto_resolution && exists|i: int|
                is_best_mode(modes@, accepted(cfg.format), i) && mode == modes@[i],
            OpenPlan::Closest(wanted) => {
                &&& !cfg.auto_resolution || forall|i: int|
                    0 <= i < modes@.len() ==> !accepted(cfg.format).contains(
                        #[trigger] modes@[i].format,
                    )
                &&& wanted.width == cfg.width
                &&& wanted.height == cfg.height
                &&& wanted.fps == cfg.fps
                &&& wanted.format == accepted(cfg.format)[0]
            },
        },
        is_plan(*cfg, modes@, r),
{
    let accept = accept_formats(cfg.format);
    if cfg.auto_resolution {
        if let Some(best) = max_mode(modes, accept.as_slice()) {
            return OpenPlan::Exact(best);
        }
    }
    OpenPlan::Closest(
        CameraMode {
            width: cfg.width,
            height: cfg.height,
            fps: cfg.fps,
            format: accept[0],
        },
    )
}

// ---------------------------------------------------------------------------
// Re-opening the camera
// ---------------------------------------------------------------------------

/// What happened since the last decision about the camera.
#[derive(Clone, Copy, Debug, PartialEq, Eq, Structural)]
pub enum CameraEvent {
    /// The capture thread started.
    Started,
    /// The camera could not be opened, or its stream ended.
    Ended,
    /// This many milliseconds passed since the camera could not be opened or its
    /// stream ended.
    Waited { elapsed_ms: u64 },
}

/// What to do about the camera next.
#[derive(Clone, Copy, Debug, PartialEq, Eq, Structural)]
pub enum CameraStep {
    /// Open it.
    Open,
    /// Sleep this many milliseconds, then look again.
    Wait(u64),
    /// Leave the thread: shutdown was requested.
    Stop,
}

/// What to do about the camera after an event. The backoff of `retry_ms` is slept in
/// short steps, so that shutdown interrupts it.
pub open spec fn camera_step(event: CameraEvent, shutdown: bool, retry_ms: u64) -> CameraStep {
    let rested = match event {
        CameraEvent::Started => true,
        CameraEvent::Ended => retry_ms == 0,
        CameraEvent::Waited { elapsed_ms } => elapsed_ms >= retry_ms,
    };
    if shutdown {
        CameraStep::Stop
    } else if rested {
        CameraStep::Open
    } else {
        CameraStep::Wait(20)
    }
}

/// Decides whether to open the camera, to wait on or to stop. Whatever ended the
/// stream, the camera is opened again after the backoff, so USB disconnects and
/// driver hiccups are recovered automatically.
pub fn next_camera_step(event: CameraEvent, shutdown: bool, retry_ms: u64) -> (r: CameraStep)
    ensures
        r == camera_step(event, shutdown, retry_ms),
{
    if shutdown {
        return CameraStep::Stop;
    }
    let rested = match event {
        CameraEvent::Started => true,
        CameraEvent::Ended => retry_ms == 0,
        CameraEvent::Waited { elapsed_ms } => elapsed_ms >= retry_ms,
    };
    if rested {
        CameraStep::Open
    } else {
        CameraStep::Wait(20)
    }
}

/// A camera that ended is always opened again once the backoff is over, never before,
/// and only shutdown ends the thread.
pub proof fn law_camera_is_reopened(event: CameraEvent, shutdown: bool, retry_ms: u64)
    ensures
        camera_step(event, shutdown, retry_ms) is Stop <==> shutdown,
        event matches CameraEvent::Waited { elapsed_ms } ==> (camera_step(
            event,
            shutdown,
            retry_ms,
        ) is Open <==> !shutdown && elapsed_ms >= retry_ms),
        camera_step(event, shutdown, retry_ms) matches CameraStep::Wait(ms) ==> 0 < ms <= 20,
        camera_step(CameraEvent::Ended, shutdown, retry_ms) == camera_step(
            CameraEvent::Waited { elapsed_ms: 0 },
            shutdown,
            retry_ms,
        ),
{
}

// ---------------------------------------------------------------------------
// The capture loop
// ---------------------------------------------------------------------------

/// How a camera read came out.
#[derive(Clone, Copy, Debug, PartialEq, Eq, Structural)]
pub enum ReadOutcome {
    /// A buffer arrived.
    Buffer,
    /// A transient read error.
    Transient,
    /// Any other error: the stream is lost.
    Lost,
}

/// What the capture loop does after a camera read.
#[derive(Clone, Copy, Debug, PartialEq, Eq, Structural)]
pub enum ReadStep {
    /// Hand the buffer on.
    Process,
    /// Sleep this many milliseconds, then read again.
    RetryAfter(u64),
    /// Leave the loop and re-open the camera.
    Reopen,
    /// Leave the loop: shutdown was requested.
    Stop,
}

/// Decides what follows a camera read. A buffer that arrives after shutdown was
/// requested is not processed.
pub fn after_read(outcome: ReadOutcome, shutdown: bool) -> (r: ReadStep)
    ensures
        r == (match outcome {
            ReadOutcome::Transient => ReadStep::RetryAfter(5),
            ReadOutcome::Lost => ReadStep::Reopen,
            ReadOutcome::Buffer => if shutdown {
                ReadStep::Stop
            } else {
                ReadStep::Process
            },
        }),
        r == read_step(outcome, shutdown),
{
    match outcome {
        // The sleep is short so shutdown stays responsive.
        ReadOutcome::Transient => ReadStep::RetryAfter(5),
        ReadOutcome::Lost => ReadStep::Reopen,
        ReadOutcome::Buffer => if shutdown {
            ReadStep::Stop
        } else {
            ReadStep::Process
        },
    }
}

/// What becomes of a pooled frame after it was filled.
pub enum FrameStep {
    /// Send it to the sink, and count it as captured.
    Send(Frame),
    /// Return it to the pool: the buffer was skipped.
    Release(Frame),
    /// Return it to the pool, and leave the loop with this error.
    Abort(Frame, String),
}

/// Stamps a filled frame with its geometry, its number and the time, or says
/// why it goes back to the pool. Numbers count up from one and skip nothing.
pub fn finish_frame(
    frame: Frame,
    filled: Result<bool, String>,
    width: u32,
    height: u32,
    seq: &mut u64,
) -> (r: FrameStep)
    requires
        *old(seq) < u64::MAX,
    ensures
        match filled {
            Ok(true) => {
                &&& r matches FrameStep::Send(sent)
                &&& sent == (Frame { width, height, seq: *final(seq), ts: sent.ts, ..frame })
                &&& *final(seq) == *old(seq) + 1
            },
            Ok(false) => r == FrameStep::Release(frame) && *final(seq) == *old(seq),
            Err(e) => r == FrameStep::Abort(frame, e) && *final(seq) == *old(seq),
        },
        is_finished(frame, filled, width, height, *old(seq), *final(seq), r),
{
    match filled {
        Ok(true) => {
            let mut frame = frame;
            frame.width = width;
            frame.height = height;
            *seq = *seq + 1;
            frame.seq = *seq;
            frame.ts = Instant::now();
            FrameStep::Send(frame)
        },
        Ok(false) => FrameStep::Release(frame),
        Err(e) => FrameStep::Abort(frame, e),
    }
}

/// What a camera buffer came to.
pub enum Captured {
    /// Every slot is in flight: the buffer is dropped at the source, so that
    /// the queue never grows.
    NoSlot,
    /// The buffer's fate.
    Done(FrameStep),
}

/// What a buffer comes to, from the slot there is for it and from what it goes out
/// as. A frame that is sent takes the next number, and one that goes back to the
/// pool keeps its stamp.
pub open spec fn served(
    slot: Option<Frame>,
    wired: Result<Option<(PixelFormat, Seq<u8>)>, Seq<char>>,
    width: u32,
    height: u32,
    before: u64,
    after: u64,
    r: Captured,
) -> bool {
    match (slot, wired) {
        (None, _) => r is NoSlot && after == before,
        (Some(_), Ok(Some(w))) => {
            &&& r matches Captured::Done(FrameStep::Send(sent))
            &&& sent.wf()
            &&& sent.format == w.0
            &&& sent.bytes() == w.1
            &&& sent.width == width
            &&& sent.height == height
            &&& sent.seq == after
            &&& after == before + 1
        },
        (Some(frame), Ok(None)) => {
            &&& r matches Captured::Done(FrameStep::Release(back))
            &&& same_stamp(back, frame)
            &&& back.format == frame.format
            &&& after == before
        },
        (Some(frame), Err(text)) => {
            &&& r matches Captured::Done(FrameStep::Abort(back, e))
            &&& e@ == text
            &&& same_stamp(back, frame)
            &&& back.format == frame.format
            &&& after == before
        },
    }
}

/// Fills a slot from a camera buffer, if there is one.
pub fn fill_slot(
    slot: Option<Frame>,
    format: SourceFormat,
    src: &[u8],
    width: u32,
    height: u32,
    pref: FormatPref,
    scratch: &mut Vec<u8>,
    seq: &mut u64,
) -> (r: Captured)
    requires
        *old(seq) < u64::MAX,
        !needs_jpeg(format, pref),
        decodable(format, src@.len(), width, height, pref),
    ensures
        served(
            slot,
            wire(format, src@, width, height, pref),
            width,
            height,
            *old(seq),
            *final(seq),
            r,
        ),
{
    match slot {
        None => Captured::NoSlot,
        Some(slot) => {
            let mut frame = slot;
            let filled = fill(&mut frame, format, src, width, height, pref, scratch);
            Captured::Done(finish_frame(frame, filled, width, height, seq))
        },
    }
}

/// What a decompressed picture goes out as: a failure to decompress it stays one.
pub open spec fn decoded_wire(
    decoded: Result<(), String>,
    rgb: Seq<u8>,
    width: u32,
    height: u32,
    pref: FormatPref,
) -> Result<Option<(PixelFormat, Seq<u8>)>, Seq<char>> {
    match decoded {
        Ok(()) => Ok(rgb_wire(rgb, width, height, pref)),
        Err(e) => Err(e@),
    }
}

/// Fills a slot from the decompressed picture `rgb`, if there is one. `decoded`
/// says how decompressing it came out; a failure only matters where there is a
/// slot, and is passed on as it is.
pub fn fill_slot_decoded(
    slot: Option<Frame>,
    decoded: Result<(), String>,
    rgb: &[u8],
    width: u32,
    height: u32,
    pref: FormatPref,
    seq: &mut u64,
) -> (r: Captured)
    requires
        *old(seq) < u64::MAX,
        rgb@.len() == crate::convert::pixels(width, height) * 3,
    ensures
        served(
            slot,
            decoded_wire(decoded, rgb@, width, height, pref),
            width,
            height,
            *old(seq),
            *final(seq),
            r,
        ),
        r matches Captured::Done(FrameStep::Abort(_, e)) ==> decoded == Err::<(), String>(e),
{
    match slot {
        None => Captured::NoSlot,
        Some(slot) => {
            let mut frame = slot;
            let filled = match decoded {
                Ok(()) => Ok(fill_rgb(&mut frame, rgb, width, height, pref)),
                Err(e) => Err(e),
            };
            Captured::Done(finish_frame(frame, filled, width, height, seq))
        },
    }
}

/// Takes a slot from the pool and fills it from a camera buffer; `fill_slot` says
/// what comes of a slot and of none.
pub fn capture_buffer(
    pool: &BufferPool,
    format: SourceFormat,
    src: &[u8],
    width: u32,
    height: u32,
    pref: FormatPref,
    scratch: &mut Vec<u8>,
    seq: &mut u64,
) -> (r: Captured)
    requires
        *old(seq) < u64::MAX,
        !needs_jpeg(format, pref),
        decodable(format, src@.len(), width, height, pref),
    ensures
        match r {
            Captured::NoSlot => *final(seq) == *old(seq),
            Captured::Done(FrameStep::Send(sent)) => {
                &&& wire(format, src@, width, height, pref) == Ok::<_, Seq<char>>(
                    Some((sent.format, sent.bytes())),
                )
                &&& sent.wf()
                &&& sent.width == width
                &&& sent.height == height
                &&& sent.seq == *final(seq)
                &&& *final(seq) == *old(seq) + 1
            },
            Captured::Done(FrameStep::Release(_)) => {
                &&& wire(format, src@, width, height, pref) matches Ok(None)
                &&& *final(seq) == *old(seq)
            },
            Captured::Done(FrameStep::Abort(_, e)) => {
                &&& wire(format, src@, width, height, pref) == Err::<
                    Option<(PixelFormat, Seq<u8>)>,
                    Seq<char>,
                >(e@)
                &&& *final(seq) == *old(seq)
            },
        },
{
    fill_slot(pool.try_acquire(), format, src, width, height, pref, scratch, seq)
}

/// Takes a slot from the pool and fills it from the decompressed picture `rgb`.
/// `decoded` says how decompressing it came out; a failure only matters where
/// there is a slot. `fill_slot_decoded` says what comes of a slot and of none.
pub fn capture_decoded(
    pool: &BufferPool,
    decoded: Result<(), String>,
    rgb: &[u8],
    width: u32,
    height: u32,
    pref: FormatPref,
    seq: &mut u64,
) -> (r: Captured)
    requires
        *old(seq) < u64::MAX,
        rgb@.len() == crate::convert::pixels(width, height) * 3,
    ensures
        match r {
            Captured::NoSlot => *final(seq) == *old(seq),
            Captured::Done(FrameStep::Send(sent)) => {
                &&& decoded is Ok
                &&& rgb_wire(rgb@, width, height, pref) == Some((sent.format, sent.bytes()))
                &&& sent.wf()
                &&& sent.width == width
                &&& sent.height == height
                &&& sent.seq == *final(seq)
                &&& *final(seq) == *old(seq) + 1
            },
            Captured::Done(FrameStep::Release(_)) => {
                &&& decoded is Ok
                &&& rgb_wire(rgb@, width, height, pref) is None
                &&& *final(seq) == *old(seq)
            },
            Captured::Done(FrameStep::Abort(_, e)) => {
                &&& decoded == Err::<(), String>(e)
                &&& *final(seq) == *old(seq)
            },
        },
{
    fill_slot_decoded(pool.try_acquire(), decoded, rgb, width, height, pref, seq)
}

/// How handing a frame to the sink came out.
#[derive(Clone, Copy, Debug, PartialEq, Eq, Structural)]
pub enum SendOutcome {
    Sent,
    /// The queue is full.
    Full,
    /// The sink is gone.
    Disconnected,
}

/// What follows handing a frame to the sink.
#[derive(Clone, Copy, Debug, PartialEq, Eq, Structural)]
pub enum SendStep {
    Continue,
    /// Count the frame as dropped and return it to the pool.
    DropFrame,
    /// Leave the loop.
    Stop,
}

/// Decides what follows handing a frame to the sink: a full queue costs the
/// frame, never time.
pub fn after_send(outcome: SendOutcome) -> (r: SendStep)
    ensures
        r == (match outcome {
            SendOutcome::Sent => SendStep::Continue,
            SendOutcome::Full => SendStep::DropFrame,
            SendOutcome::Disconnected => SendStep::Stop,
        }),
        r == send_step(outcome),
{
    match outcome {
        SendOutcome::Sent => SendStep::Continue,
        SendOutcome::Full => SendStep::DropFrame,
        SendOutcome::Disconnected => SendStep::Stop,
    }
}

// ---------------------------------------------------------------------------
// Laws of the capture side
// ---------------------------------------------------------------------------

/// Gray is tripled, BGR is read backwards within a pixel, and RGB is taken as it is:
/// channel `c` of pixel `p` comes from the byte that holds it. Reading BGR twice
/// gives the bytes back.
pub proof fn law_raw_channel_order(src: Seq<u8>, n: nat, p: int, c: int)
    requires
        0 <= p,
        0 <= c < 3,
        3 * p + 2 < n,
    ensures
        raw_rgb_picture(SourceFormat::Gray, src, n)[3 * p + c] == src[p],
        raw_rgb_picture(SourceFormat::RawRgb, src, n)[3 * p + c] == src[3 * p + c],
        raw_rgb_picture(SourceFormat::RawBgr, src, n)[3 * p] == src[3 * p + 2],
        raw_rgb_picture(SourceFormat::RawBgr, src, n)[3 * p + 1] == src[3 * p + 1],
        raw_rgb_picture(SourceFormat::RawBgr, src, n)[3 * p + 2] == src[3 * p],
        raw_rgb_picture(
            SourceFormat::RawBgr,
            raw_rgb_picture(SourceFormat::RawBgr, src, n),
            n,
        )[3 * p + c] == src[3 * p + c],
{
    assert((3 * p + c) / 3 == p && (3 * p + c) % 3 == c);
    assert((3 * p) / 3 == p && (3 * p + 1) / 3 == p && (3 * p + 2) / 3 == p);
}

/// A raw buffer is decoded exactly when its size is right: a third of the output for
/// gray, and the exact picture with even dimensions for BGR.
pub proof fn law_raw_sizes(width: u32, height: u32, src_len: nat, dst_len: nat)
    ensures
        raw_failure(SourceFormat::Gray, width, height, src_len, dst_len) is None <==> dst_len == 3
            * src_len,
        raw_failure(SourceFormat::RawBgr, width, height, src_len, dst_len) is None <==> (width % 2
            == 0 && height % 2 == 0 && src_len == 3 * (width * height) && dst_len == 3 * (width
            * height)),
        raw_failure(SourceFormat::RawRgb, width, height, src_len, dst_len) is None,
{
}

/// A buffer that the camera already delivers in the format that is asked for goes
/// out byte for byte: YUYV of the exact packed size, NV12, and MJPEG.
pub proof fn law_wanted_formats_pass_through(src: Seq<u8>, width: u32, height: u32)
    ensures
        src.len() == 2 * (width * height) ==> wire(
            SourceFormat::Yuyv,
            src,
            width,
            height,
            FormatPref::Auto,
        ) == Ok::<_, Seq<char>>(Some((PixelFormat::Yuy2, src))),
        src.len() == 2 * (width * height) ==> wire(
            SourceFormat::Yuyv,
            src,
            width,
            height,
            FormatPref::Yuy2,
        ) == Ok::<_, Seq<char>>(Some((PixelFormat::Yuy2, src))),
        wire(SourceFormat::Nv12, src, width, height, FormatPref::Nv12) == Ok::<_, Seq<char>>(
            Some((PixelFormat::Nv12, src)),
        ),
        wire(SourceFormat::Mjpeg, src, width, height, FormatPref::Mjpeg) == Ok::<_, Seq<char>>(
            Some((PixelFormat::Mjpeg, src)),
        ),
{
}

/// A forced format is never replaced by another one, except that raw pictures go out
/// as RGB24 where YUYV is not asked for: a YUV buffer goes out in the format that is
/// asked for or not at all, and a YUYV buffer of another size than the packed one is
/// never taken for YUYV.
pub proof fn law_forced_formats_are_kept(
    format: SourceFormat,
    src: Seq<u8>,
    width: u32,
    height: u32,
    pref: FormatPref,
)
    requires
        !needs_jpeg(format, pref),
    ensures
        wire(format, src, width, height, pref) matches Ok(Some(w)) ==> {
            &&& pref == FormatPref::Auto || pref == FormatPref::Yuy2 ==> w.0 == PixelFormat::Yuy2
            &&& pref == FormatPref::Rgb24 ==> w.0 == PixelFormat::Rgb24
            &&& pref == FormatPref::Nv12 ==> w.0 == if is_raw(format) {
                PixelFormat::Rgb24
            } else {
                PixelFormat::Nv12
            }
            &&& pref == FormatPref::Mjpeg ==> w.0 == if is_raw(format) {
                PixelFormat::Rgb24
            } else {
                PixelFormat::Mjpeg
            }
        },
        format == SourceFormat::Yuyv && (pref == FormatPref::Nv12 || pref == FormatPref::Mjpeg)
            ==> (wire(format, src, width, height, pref) matches Ok(None)),
        format == SourceFormat::Nv12 && (pref == FormatPref::Yuy2 || pref == FormatPref::Mjpeg)
            ==> (wire(format, src, width, height, pref) matches Ok(None)),
        format == SourceFormat::Yuyv && (pref == FormatPref::Auto || pref == FormatPref::Yuy2)
            && src.len() != 2 * (width * height) ==> (wire(
            format,
            src,
            width,
            height,
            pref,
        ) matches Ok(None)),
        !is_raw(format) ==> wire(format, src, width, height, pref) is Ok,
{
}

/// A converted picture goes out with the colors that the converters give it: YUYV
/// and NV12 as RGB24 where RGB24 is asked for, NV12 repacked as YUYV for `Auto`, and
/// a raw picture likewise, in its own channel order.
pub proof fn law_conversions_on_the_wire(src: Seq<u8>, width: u32, height: u32)
    requires
        width > 0,
        height > 0,
        width % 2 == 0,
        height % 2 == 0,
        width * height * 3 <= usize::MAX,
    ensures
        src.len() >= 2 * (width * height) ==> wire(
            SourceFormat::Yuyv,
            src,
            width,
            height,
            FormatPref::Rgb24,
        ) == Ok::<_, Seq<char>>(
            Some((PixelFormat::Rgb24, crate::convert::yuy2_rgb_picture(src, width, height))),
        ),
        src.len() < 2 * (width * height) ==> (wire(
            SourceFormat::Yuyv,
            src,
            width,
            height,
            FormatPref::Rgb24,
        ) matches Ok(None)),
        2 * src.len() >= 3 * (width * height) ==> wire(
            SourceFormat::Nv12,
            src,
            width,
            height,
            FormatPref::Rgb24,
        ) == Ok::<_, Seq<char>>(
            Some((PixelFormat::Rgb24, crate::convert::nv12_rgb_picture(src, width, height))),
        ),
        2 * src.len() >= 3 * (width * height) ==> wire(
            SourceFormat::Nv12,
            src,
            width,
            height,
            FormatPref::Auto,
        ) == Ok::<_, Seq<char>>(
            Some(
                (
                    PixelFormat::Yuy2,
                    crate::convert::rgb_yuy2_picture(
                        crate::convert::nv12_rgb_picture(src, width, height),
                        width,
                        height,
                    ),
                ),
            ),
        ),
        2 * src.len() < 3 * (width * height) ==> (wire(
            SourceFormat::Nv12,
            src,
            width,
            height,
            FormatPref::Auto,
        ) matches Ok(None)) && (wire(
            SourceFormat::Nv12,
            src,
            width,
            height,
            FormatPref::Rgb24,
        ) matches Ok(None)),
        forall|format: SourceFormat|
            is_raw(format) && (format == SourceFormat::Gray ==> src.len() == width * height) && (
            format == SourceFormat::RawBgr ==> src.len() == 3 * (width * height)) ==> {
                let rgb = raw_rgb_picture(format, src, (3 * (width * height)) as nat);
                &&& #[trigger] wire(format, src, width, height, FormatPref::Rgb24) == Ok::<
                    _,
                    Seq<char>,
                >(Some((PixelFormat::Rgb24, rgb)))
                &&& wire(format, src, width, height, FormatPref::Auto) == Ok::<_, Seq<char>>(
                    Some(
                        (PixelFormat::Yuy2, crate::convert::rgb_yuy2_picture(rgb, width, height)),
                    ),
                )
            },
{
    assert(0 < width as int * height as int) by (nonlinear_arith)
        requires
            width > 0,
            height > 0,
    ;
    crate::convert::law_buffers_are_checked(
        src.len(),
        (width * height * 3) as nat,
        width,
        height,
    );
}

/// An RGB24 picture is packed as YUYV for `Auto` and for a forced `Yuy2`, where the
/// width is even and there is a pixel, and goes out unchanged for every other
/// preference.
pub proof fn law_rgb_on_the_wire(rgb: Seq<u8>, width: u32, height: u32, pref: FormatPref)
    ensures
        pref != FormatPref::Auto && pref != FormatPref::Yuy2 ==> rgb_wire(rgb, width, height, pref)
            == Some((PixelFormat::Rgb24, rgb)),
        pref == FormatPref::Auto || pref == FormatPref::Yuy2 ==> {
            &&& rgb_wire(rgb, width, height, pref) is None <==> width % 2 == 1 || width == 0
                || height == 0
            &&& rgb_wire(rgb, width, height, pref) matches Some(w) ==> w == (
                PixelFormat::Yuy2,
                crate::convert::rgb_yuy2_picture(rgb, width, height),
            )
        },
        decoded_wire(Ok(()), rgb, width, height, pref) == Ok::<_, Seq<char>>(
            rgb_wire(rgb, width, height, pref),
        ),
        forall|e: String| #[trigger]
            decoded_wire(Err(e), rgb, width, height, pref) == Err::<
                Option<(PixelFormat, Seq<u8>)>,
                Seq<char>,
            >(e@),
{
}

/// Only a compressed buffer is decompressed, and only where it does not go out
/// compressed.
pub proof fn law_when_decompression_is_needed(format: SourceFormat, pref: FormatPref)
    ensures
        needs_jpeg(format, FormatPref::Mjpeg) == false,
        needs_jpeg(SourceFormat::Mjpeg, pref) || pref == FormatPref::Mjpeg,
        format != SourceFormat::Mjpeg ==> !needs_jpeg(format, pref),
{
}

/// Every format we ask a camera for is named once. A forced format is the only one
/// asked for. `Auto` asks first for YUYV, which needs no conversion, and RGB24 for
/// MJPEG; NV12 comes last for both.
pub proof fn law_format_wishes(pref: FormatPref, i: int, j: int)
    ensures
        0 <= i < j < accepted(pref).len() ==> accepted(pref)[i] != accepted(pref)[j],
        accepted(FormatPref::Yuy2) == seq![SourceFormat::Yuyv],
        accepted(FormatPref::Nv12) == seq![SourceFormat::Nv12],
        accepted(FormatPref::Mjpeg) == seq![SourceFormat::Mjpeg],
        accepted(FormatPref::Auto).len() == 3,
        accepted(FormatPref::Auto).first() == SourceFormat::Yuyv,
        accepted(FormatPref::Auto).last() == SourceFormat::Nv12,
        accepted(FormatPref::Rgb24).len() == 3,
        accepted(FormatPref::Rgb24).first() == SourceFormat::Mjpeg,
        accepted(FormatPref::Rgb24).last() == SourceFormat::Nv12,
        accepted(pref).len() >= 1,
        0 <= i < accepted(pref).len() ==> !is_raw(accepted(pref)[i]),
{
}

/// A YUV format that we do not ask for is never served: whatever the buffer, it is
/// skipped.
pub proof fn law_only_wished_formats_are_served(
    pref: FormatPref,
    format: SourceFormat,
    src: Seq<u8>,
    width: u32,
    height: u32,
)
    requires
        format == SourceFormat::Yuyv || format == SourceFormat::Nv12,
        !accepted(pref).contains(format),
    ensures
        wire(format, src, width, height, pref) matches Ok(None),
{
    assert(accepted(FormatPref::Auto)[0] == SourceFormat::Yuyv);
    assert(accepted(FormatPref::Auto)[2] == SourceFormat::Nv12);
    assert(accepted(FormatPref::Rgb24)[1] == SourceFormat::Yuyv);
    assert(accepted(FormatPref::Rgb24)[2] == SourceFormat::Nv12);
    assert(accepted(FormatPref::Yuy2)[0] == SourceFormat::Yuyv);
    assert(accepted(FormatPref::Nv12)[0] == SourceFormat::Nv12);
}

/// The mode that is pinned has the largest picture of all acceptable modes, and the
/// highest rate among those of its size, and of equals it is the last. So there is
/// only one.
pub proof fn law_best_mode_is_largest(
    modes: Seq<CameraMode>,
    accept: Seq<SourceFormat>,
    i: int,
    j: int,
)
    requires
        is_best_mode(modes, accept, i),
        0 <= j < modes.len(),
        accept.contains(modes[j].format),
    ensures
        accept.contains(modes[i].format),
        modes[j].width * modes[j].height <= modes[i].width * modes[i].height,
        modes[j].width * modes[j].height == modes[i].width * modes[i].height ==> modes[j].fps
            <= modes[i].fps,
        modes[j].width * modes[j].height == modes[i].width * modes[i].height && modes[j].fps
            == modes[i].fps ==> j <= i,
        is_best_mode(modes, accept, j) ==> i == j,
{
}

/// A camera is opened at the start at once, and every wait is for 20 milliseconds, so
/// that shutdown is noticed within that time. Nothing but the time since the end of the
/// stream decides when it is opened again: a longer wait never opens it later.
pub proof fn law_backoff_is_monotone(t1: u64, t2: u64, retry_ms: u64)
    requires
        t1 <= t2,
    ensures
        camera_step(CameraEvent::Started, false, retry_ms) is Open,
        camera_step(CameraEvent::Ended, false, retry_ms) is Open <==> retry_ms == 0,
        camera_step(CameraEvent::Waited { elapsed_ms: t1 }, false, retry_ms) is Open
            ==> camera_step(CameraEvent::Waited { elapsed_ms: t2 }, false, retry_ms) is Open,
        camera_step(CameraEvent::Waited { elapsed_ms: retry_ms }, false, retry_ms) is Open,
        t1 < retry_ms ==> camera_step(CameraEvent::Waited { elapsed_ms: t1 }, false, retry_ms)
            == CameraStep::Wait(20),
{
}

/// Numbers are given out without a gap: a buffer takes the next number exactly when it
/// is sent, a missing slot costs only the buffer, and whatever is not sent goes back to
/// the pool.
pub proof fn law_numbers_have_no_gaps(
    slot: Option<Frame>,
    wired: Result<Option<(PixelFormat, Seq<u8>)>, Seq<char>>,
    width: u32,
    height: u32,
    before: u64,
    after: u64,
    r: Captured,
)
    requires
        served(slot, wired, width, height, before, after, r),
    ensures
        r is NoSlot <==> slot is None,
        r matches Captured::Done(FrameStep::Send(sent)) ==> {
            &&& after == before + 1
            &&& sent.seq == after
            &&& sent.width == width && sent.height == height
            &&& wired == Ok::<_, Seq<char>>(Some((sent.format, sent.bytes())))
        },
        !(r matches Captured::Done(FrameStep::Send(_))) ==> after == before,
        slot is Some && (wired matches Ok(Some(_))) ==> (r matches Captured::Done(
            FrameStep::Send(_),
        )),
        slot is Some && (wired matches Ok(None)) ==> (r matches Captured::Done(
            FrameStep::Release(_),
        )),
        slot is Some && wired is Err ==> (r matches Captured::Done(FrameStep::Abort(_, e)) && e@
            == wired->Err_0),
        r matches Captured::Done(FrameStep::Release(back)) ==> same_stamp(back, slot->Some_0),
        r matches Captured::Done(FrameStep::Abort(back, _)) ==> same_stamp(back, slot->Some_0),
{
}

/// What follows a camera read.
pub open spec fn read_step(outcome: ReadOutcome, shutdown: bool) -> ReadStep {
    match (outcome, shutdown) {
        (ReadOutcome::Buffer, false) => ReadStep::Process,
        (ReadOutcome::Buffer, true) => ReadStep::Stop,
        (ReadOutcome::Transient, _) => ReadStep::RetryAfter(5),
        (ReadOutcome::Lost, _) => ReadStep::Reopen,
    }
}

/// What follows handing a frame to the sink.
pub open spec fn send_step(outcome: SendOutcome) -> SendStep {
    match outcome {
        SendOutcome::Sent => SendStep::Continue,
        SendOutcome::Full => SendStep::DropFrame,
        SendOutcome::Disconnected => SendStep::Stop,
    }
}

/// Only a buffer that arrived is processed, and none after shutdown was requested. A lost
/// stream is always opened again, a transient error only costs five milliseconds, and a
/// full queue only the frame: the loop ends by shutdown or when the sink is gone.
pub proof fn law_capture_loop_decisions(outcome: ReadOutcome, shutdown: bool, sent: SendOutcome)
    ensures
        read_step(outcome, shutdown) is Process <==> outcome == ReadOutcome::Buffer && !shutdown,
        read_step(outcome, shutdown) is Stop <==> outcome == ReadOutcome::Buffer && shutdown,
        read_step(outcome, shutdown) is Reopen <==> outcome == ReadOutcome::Lost,
        outcome == ReadOutcome::Transient ==> read_step(outcome, shutdown) == ReadStep::RetryAfter(
            5,
        ),
        send_step(sent) is Stop <==> sent == SendOutcome::Disconnected,
        send_step(sent) is DropFrame <==> sent == SendOutcome::Full,
        send_step(sent) is Continue <==> sent == SendOutcome::Sent,
{
}

/// This is what becomes of a filled frame, from the number before it to the number after
/// it.
pub open spec fn is_finished(
    frame: Frame,
    filled: Result<bool, String>,
    width: u32,
    height: u32,
    before: u64,
    after: u64,
    r: FrameStep,
) -> bool {
    match r {
        FrameStep::Send(sent) => {
            &&& filled == Ok::<bool, String>(true)
            &&& after == before + 1
            &&& sent == (Frame { width, height, seq: after, ts: sent.ts, ..frame })
        },
        FrameStep::Release(back) => filled == Ok::<bool, String>(false) && back == frame && after
            == before,
        FrameStep::Abort(back, e) => filled == Err::<bool, String>(e) && back == frame && after
            == before,
    }
}

/// A frame that is sent has its payload and format as they were filled, the geometry of
/// the buffer, and the next number; a frame that is not sent comes back as it was, and
/// uses no number up.
pub proof fn law_finished_frames(
    frame: Frame,
    filled: Result<bool, String>,
    width: u32,
    height: u32,
    before: u64,
    after: u64,
    r: FrameStep,
)
    requires
        is_finished(frame, filled, width, height, before, after, r),
    ensures
        r is Send <==> (filled matches Ok(sent) && sent),
        r is Abort <==> filled is Err,
        r matches FrameStep::Send(sent) ==> sent.bytes() == frame.bytes() && sent.format
            == frame.format && sent.width == width && sent.height == height && sent.seq == before
            + 1 && after == before + 1,
        r matches FrameStep::Release(back) ==> back == frame && after == before,
        r matches FrameStep::Abort(back, e) ==> back == frame && after == before && filled == Err::<
            bool,
            String,
        >(e),
{
}

/// This is how the camera is opened.
pub open spec fn is_plan(cfg: ResolvedConfig, modes: Seq<CameraMode>, r: OpenPlan) -> bool {
    match r {
        OpenPlan::Exact(mode) => cfg.auto_resolution && exists|i: int| #[trigger]
            is_best_mode(modes, accepted(cfg.format), i) && mode == modes[i],
        OpenPlan::Closest(wanted) => {
            &&& !cfg.auto_resolution || forall|i: int|
                0 <= i < modes.len() ==> !accepted(cfg.format).contains(#[trigger] modes[i].format)
            &&& wanted == (CameraMode {
                width: cfg.width,
                height: cfg.height,
                fps: cfg.fps,
                format: accepted(cfg.format)[0],
            })
        },
    }
}

/// A pinned size is asked for as it is, in the format that is liked best. Where the
/// camera decides, its largest acceptable mode is taken as soon as it names one, whatever
/// the configured size.
pub proof fn law_open_plans(cfg: ResolvedConfig, modes: Seq<CameraMode>, r: OpenPlan, j: int)
    requires
        is_plan(cfg, modes, r),
        0 <= j < modes.len(),
    ensures
        !cfg.auto_resolution ==> (r matches OpenPlan::Closest(wanted) && wanted.width == cfg.width
            && wanted.height == cfg.height && wanted.fps == cfg.fps && wanted.format == accepted(
            cfg.format,
        ).first()),
        cfg.auto_resolution && accepted(cfg.format).contains(modes[j].format) ==> (r matches
            OpenPlan::Exact(mode) && mode.width * mode.height >= modes[j].width * modes[j].height
            && accepted(cfg.format).contains(mode.format) && modes.contains(mode)),
        r matches OpenPlan::Exact(mode) ==> cfg.auto_resolution,
{
    if r is Exact {
        let i = choose|i: int| #[trigger]
            is_best_mode(modes, accepted(cfg.format), i) && r->Exact_0 == modes[i];
        assert(modes[i] == r->Exact_0);
        if accepted(cfg.format).contains(modes[j].format) {
            law_best_mode_is_largest(modes, accepted(cfg.format), i, j);
        }
    }
}

/// Only sizes keep a buffer from being decoded: raw RGB has to have exactly three bytes
/// per pixel, and the output of the other conversions has to be addressable.
pub proof fn law_what_can_be_decoded(
    format: SourceFormat,
    src_len: nat,
    width: u32,
    height: u32,
    pref: FormatPref,
)
    ensures
        format == SourceFormat::RawRgb ==> (decodable(format, src_len, width, height, pref)
            <==> src_len == 3 * (width * height)),
        format == SourceFormat::RawBgr ==> (decodable(format, src_len, width, height, pref) <==> 3
            * (width * height) <= u32::MAX),
        format == SourceFormat::Gray ==> (decodable(format, src_len, width, height, pref) <==> 3
            * (width * height) <= usize::MAX && 3 * src_len <= usize::MAX),
        format == SourceFormat::Yuyv && pref == FormatPref::Rgb24 ==> (decodable(
            format,
            src_len,
            width,
            height,
            pref,
        ) <==> 3 * (width * height) <= usize::MAX),
        format == SourceFormat::Nv12 || format == SourceFormat::Mjpeg ==> decodable(
            format,
            src_len,
            width,
            height,
            pref,
        ),
        format == SourceFormat::Yuyv && pref != FormatPref::Rgb24 ==> decodable(
            format,
            src_len,
            width,
            height,
            pref,
        ),
{
}

/// A stamp is the geometry, the number and the time of a frame.
pub proof fn law_stamps(a: Frame, b: Frame)
    ensures
        same_stamp(a, b) <==> a.width == b.width && a.height == b.height && a.seq == b.seq && a.ts
            == b.ts,
{
}

} // verus!
