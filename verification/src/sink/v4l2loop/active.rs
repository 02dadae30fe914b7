//! Rules for the streaming state of a v4l2loopback device: what the driver has
//! to agree to before frames flow, and which frames may be copied into its
//! buffers.

use vstd::prelude::*;

use crate::convert::pixel_count;
use crate::frame::copy_bytes;
use crate::frame::PixelFormat;
use crate::sink::v4l2loop::discovery::is_loopback_driver;
use crate::sink::v4l2loop::discovery::loopback_name;
use crate::sink::SinkError;
use crate::sink::SinkErrorKind;
use crate::text::decimal;

verus! {

/// Kernel buffers requested from the loopback driver. More buffers help when
/// multiple readers (OBS + browser) drain at slightly different rates.
pub const NUM_KBUF: u32 = 4;

/// v4l2loopback control IDs for keep_format, sustain_framerate, timeout.
pub const CID_KEEP_FORMAT: u32 = 0x00982001;

pub const CID_SUSTAIN_FRAMERATE: u32 = 0x00982002;

pub const CID_TIMEOUT: u32 = 0x00982003;

/// The geometry and format that the driver applied.
#[derive(Clone, Copy, Debug, PartialEq, Eq, Structural)]
pub struct Negotiated {
    pub width: u32,
    pub height: u32,
    pub format: PixelFormat,
}

impl Negotiated {
    /// A picture of this geometry, to which a frame may have to be scaled, is addressed
    /// with 32 bits.
    pub open spec fn fits(self) -> bool {
        self.width * self.height * 3 <= u32::MAX
    }

    /// Tests whether a picture of this geometry is addressed with 32 bits.
    pub fn is_addressable(&self) -> (r: bool)
        ensures
            r == self.fits(),
    {
        pixel_count(self.width, self.height) as u128 * 3 <= u32::MAX as u128
    }

    /// The size of a picture can be computed.
    pub open spec fn is_sized(self) -> bool {
        self.format.packed_peak(self.width, self.height) <= usize::MAX
    }

    /// Tests whether the size of a picture can be computed.
    pub fn has_size(&self) -> (r: bool)
        ensures
            r == self.is_sized(),
    {
        let px: u128 = pixel_count(self.width, self.height) as u128;
        match self.format {
            PixelFormat::Yuy2 => px * 2 <= usize::MAX as u128,
            PixelFormat::Rgb24 | PixelFormat::Nv12 => px * 3 <= usize::MAX as u128,
            PixelFormat::Mjpeg => px <= usize::MAX as u128,
        }
    }
}

/// The message for a node that belongs to another driver.
pub open spec fn foreign_driver_text(path: Seq<char>, driver: Seq<char>) -> Seq<char> {
    path + " is driven by '"@ + driver
        + "' (not v4l2loopback); refusing to use it as a virtual camera"@
}

/// Refuses a device that answers the capability query with another driver than
/// v4l2loopback: streaming into it would fail or disturb a real camera. `None`
/// stands for a device that does not answer.
pub fn check_driver(path: &str, driver: Option<&str>) -> (r: Result<(), SinkError>)
    ensures
        match driver {
            Some(name) => if loopback_name(name@) {
                r is Ok
            } else {
                r is Err && r->Err_0.says(
                    SinkErrorKind::InvalidInput,
                    foreign_driver_text(path@, name@),
                )
            },
            None => r is Ok,
        },
{
    match driver {
        Some(name) => {
            if is_loopback_driver(name) {
                Ok(())
            } else {
                let mut m = path.to_owned();
                m.append(" is driven by '");
                m.append(name);
                m.append("' (not v4l2loopback); refusing to use it as a virtual camera");
                Err(SinkError { kind: SinkErrorKind::InvalidInput, message: m })
            }
        },
        None => Ok(()),
    }
}

/// The message for a driver that insists on another pixel format.
pub open spec fn rejected_format_text(want: PixelFormat, selected: Seq<char>) -> Seq<char> {
    "driver rejected pixel format "@ + want.label() + " (selected "@ + selected + " instead)"@
}

/// Takes the driver's answer to a format request. The pixel format has to be the
/// one asked for; the geometry is whatever the driver applied, so that size
/// checks and scaling target what is really on the wire. `selected` names the
/// driver's format for the error message.
pub fn accept_format(
    want: PixelFormat,
    actual_width: u32,
    actual_height: u32,
    actual_fourcc: [u8; 4],
    selected: &str,
) -> (r: Result<Negotiated, SinkError>)
    ensures
        if actual_fourcc@ == want.code() {
            r == Ok::<Negotiated, SinkError>(
                Negotiated { width: actual_width, height: actual_height, format: want },
            )
        } else {
            r is Err && r->Err_0.says(
                SinkErrorKind::InvalidInput,
                rejected_format_text(want, selected@),
            )
        },
        match answered(want, actual_width, actual_height, actual_fourcc@) {
            Some(n) => r == Ok::<Negotiated, SinkError>(n),
            None => r is Err,
        },
{
    let code = want.fourcc();
    let same = actual_fourcc[0] == code[0] && actual_fourcc[1] == code[1] && actual_fourcc[2]
        == code[2] && actual_fourcc[3] == code[3];
    assert(same == (actual_fourcc@ == code@)) by {
        if same {
            assert(actual_fourcc@ =~= code@);
        }
    }
    if same {
        Ok(Negotiated { width: actual_width, height: actual_height, format: want })
    } else {
        let mut m = "driver rejected pixel format ".to_owned();
        m.append(want.name());
        m.append(" (selected ");
        m.append(selected);
        m.append(" instead)");
        Err(SinkError { kind: SinkErrorKind::InvalidInput, message: m })
    }
}

/// A control of the loopback driver and its value.
#[derive(Clone, Copy, Debug, PartialEq, Eq, Structural)]
pub enum LoopbackControl {
    Switch { id: u32, on: bool },
    Number { id: u32, value: u32 },
}

/// The control to set before a format request: without it the driver would keep
/// its format and ignore the requested geometry.
pub fn control_before_format() -> (r: LoopbackControl)
    ensures
        r == (LoopbackControl::Switch { id: CID_KEEP_FORMAT, on: false }),
{
    LoopbackControl::Switch { id: CID_KEEP_FORMAT, on: false }
}

/// The controls to set once the format is agreed: the virtual camera keeps
/// advertising a fixed format to CAPTURE clients (Chrome, Firefox, Zoom) between
/// attaches, and keeps its last frame for the configured time.
pub fn controls_after_format(timeout_ms: u32) -> (r: Vec<LoopbackControl>)
    ensures
        r@ == seq![
            LoopbackControl::Switch { id: CID_KEEP_FORMAT, on: true },
            LoopbackControl::Switch { id: CID_SUSTAIN_FRAMERATE, on: true },
            LoopbackControl::Number { id: CID_TIMEOUT, value: timeout_ms },
        ],
{
    vec![
        LoopbackControl::Switch { id: CID_KEEP_FORMAT, on: true },
        LoopbackControl::Switch { id: CID_SUSTAIN_FRAMERATE, on: true },
        LoopbackControl::Number { id: CID_TIMEOUT, value: timeout_ms },
    ]
}

/// The error for an output buffer that could not be had. Waiting in vain for one
/// is back-pressure: nobody drains the device.
pub fn buffer_error(e: &SinkError) -> (r: SinkError)
    ensures
        if e.is_back_pressure() {
            r.says(SinkErrorKind::WouldBlock, "no consumer attached to virtual device"@)
        } else {
            r.says(SinkErrorKind::Other, "failed to get output buffer: "@ + e.message@)
        },
        r.kind == kind_without_buffer(*e),
{
    if e.kind == SinkErrorKind::WouldBlock || e.kind == SinkErrorKind::TimedOut {
        SinkError::new(SinkErrorKind::WouldBlock, "no consumer attached to virtual device")
    } else {
        let mut m = "failed to get output buffer: ".to_owned();
        m.append(e.message.as_str());
        SinkError { kind: SinkErrorKind::Other, message: m }
    }
}

/// Why a payload may not be copied into an output buffer, if it may not: the
/// buffer is still held by the kernel, the payload is not exactly one frame of a
/// packed format, or it overruns the buffer.
pub open spec fn refusal(
    negotiated: Negotiated,
    payload: nat,
    bytesused: u32,
    buffer: nat,
) -> Option<(SinkErrorKind, Seq<char>)> {
    let packed = negotiated.format.packed_bytes(negotiated.width, negotiated.height);
    if bytesused != 0 {
        Some((SinkErrorKind::WouldBlock, "no consumer attached to virtual device"@))
    } else if packed is Some && packed != Some(payload as int) {
        Some(
            (
                SinkErrorKind::InvalidData,
                "frame ("@ + crate::text::decimal_digits(payload)
                    + " B) != negotiated frame size ("@ + crate::text::decimal_digits(
                    packed.unwrap() as nat,
                ) + " B)"@,
            ),
        )
    } else if payload > buffer {
        Some(
            (
                SinkErrorKind::InvalidData,
                "frame ("@ + crate::text::decimal_digits(payload)
                    + " B) exceeds kernel output buffer ("@ + crate::text::decimal_digits(buffer)
                    + " B)"@,
            ),
        )
    } else {
        None
    }
}

/// Decides whether a payload may be copied into an output buffer.
pub fn check_output(
    negotiated: &Negotiated,
    payload: usize,
    bytesused: u32,
    buffer: usize,
) -> (r: Result<(), SinkError>)
    requires
        negotiated.is_sized(),
    ensures
        match refusal(*negotiated, payload as nat, bytesused, buffer as nat) {
            Some(why) => r is Err && r->Err_0.says(why.0, why.1),
            None => r is Ok,
        },
{
    if bytesused != 0 {
        // Buffer still held by kernel (no reader drained it yet). Drop this
        // frame rather than block — the sink thread stays responsive.
        return Err(
            SinkError::new(SinkErrorKind::WouldBlock, "no consumer attached to virtual device"),
        );
    }
    // Packed formats must exactly fill one video frame; a mismatch would
    // corrupt the loopback stream, so reject instead of writing partials.
    if let Some(expected) = negotiated.format.packed_size(negotiated.width, negotiated.height) {
        if payload != expected {
            let mut m = "frame (".to_owned();
            m.append(decimal(payload as u64).as_str());
            m.append(" B) != negotiated frame size (");
            m.append(decimal(expected as u64).as_str());
            m.append(" B)");
            return Err(SinkError { kind: SinkErrorKind::InvalidData, message: m });
        }
    }
    // Never overrun the kernel-mapped buffer (e.g. if the driver handed
    // back a smaller sizeimage than the frame needs).
    if payload > buffer {
        let mut m = "frame (".to_owned();
        m.append(decimal(payload as u64).as_str());
        m.append(" B) exceeds kernel output buffer (");
        m.append(decimal(buffer as u64).as_str());
        m.append(" B)");
        return Err(SinkError { kind: SinkErrorKind::InvalidData, message: m });
    }
    Ok(())
}

/// Copies a payload into an output buffer, if it may be. Otherwise no byte of the
/// buffer changes: there are no partial frames.
pub fn write_output(
    negotiated: &Negotiated,
    payload: &[u8],
    bytesused: u32,
    buffer: &mut [u8],
) -> (r: Result<(), SinkError>)
    requires
        negotiated.is_sized(),
    ensures
        match refusal(*negotiated, payload@.len(), bytesused, old(buffer)@.len()) {
            Some(why) => r is Err && r->Err_0.says(why.0, why.1) && final(buffer)@ == old(buffer)@,
            None => r is Ok && final(buffer)@ == payload@ + old(buffer)@.skip(
                payload@.len() as int,
            ),
        },
{
    assert(payload@.len() == payload.len() && buffer@.len() == buffer.len());
    check_output(negotiated, payload.len(), bytesused, buffer.len())?;
    copy_bytes(payload, buffer);
    Ok(())
}

/// A payload that is let through never overruns the buffer, and is exactly one
/// picture of a packed format.
pub proof fn law_output_is_exact(
    negotiated: Negotiated,
    payload: nat,
    bytesused: u32,
    buffer: nat,
)
    requires
        refusal(negotiated, payload, bytesused, buffer) is None,
    ensures
        payload <= buffer,
        bytesused == 0,
        negotiated.format != PixelFormat::Mjpeg ==> negotiated.format.packed_bytes(
            negotiated.width,
            negotiated.height,
        ) == Some(payload as int),
{
}

/// A payload is let through exactly when the buffer is free, holds it, and the payload
/// is one whole picture of a packed format: two bytes per pixel of YUYV, three of RGB24,
/// three for every two pixels of NV12. A buffer that is still held is back-pressure
/// before anything else; a wrong size is a fault of the data.
pub proof fn law_what_is_let_through(
    negotiated: Negotiated,
    payload: nat,
    bytesused: u32,
    buffer: nat,
)
    ensures
        ({
            let px = negotiated.width * negotiated.height;
            let whole = match negotiated.format {
                PixelFormat::Yuy2 => payload == 2 * px,
                PixelFormat::Rgb24 => payload == 3 * px,
                PixelFormat::Nv12 => payload == (3 * px) / 2,
                PixelFormat::Mjpeg => true,
            };
            let why = refusal(negotiated, payload, bytesused, buffer);
            &&& why is None <==> bytesused == 0 && whole && payload <= buffer
            &&& bytesused != 0 ==> (why matches Some(w) && w.0 == SinkErrorKind::WouldBlock)
            &&& bytesused == 0 && !(whole && payload <= buffer) ==> (why matches Some(w) && w.0
                == SinkErrorKind::InvalidData)
        }),
{
}

/// The sizes that are computed stay within the machine's limits: a scaled picture takes
/// three bytes per pixel of 32-bit addresses at most, and a picture's own size one, two
/// or three bytes per pixel on the way.
pub proof fn law_negotiated_limits(n: Negotiated)
    ensures
        n.fits() <==> 3 * (n.width * n.height) <= 0xffff_ffff,
        n.is_sized() <==> (match n.format {
            PixelFormat::Yuy2 => 2 * (n.width * n.height),
            PixelFormat::Rgb24 => 3 * (n.width * n.height),
            PixelFormat::Nv12 => 3 * (n.width * n.height),
            PixelFormat::Mjpeg => n.width * n.height,
        }) <= usize::MAX,
        n.fits() ==> n.is_sized(),
{
    assert(0 <= n.width as int * n.height as int) by (nonlinear_arith);
}

/// The driver's private controls have consecutive numbers, and no two are the same.
pub proof fn law_control_numbers()
    ensures
        CID_KEEP_FORMAT == 0x0098_2001,
        CID_SUSTAIN_FRAMERATE == CID_KEEP_FORMAT + 1,
        CID_TIMEOUT == CID_KEEP_FORMAT + 2,
        NUM_KBUF >= 2,
{
}

/// What a driver's answer to a format request comes to.
pub open spec fn answered(want: PixelFormat, width: u32, height: u32, code: Seq<u8>) -> Option<
    Negotiated,
> {
    if code == want.code() {
        Some(Negotiated { width, height, format: want })
    } else {
        None
    }
}

/// The driver decides the geometry but not the format: its size is taken whatever it is,
/// and another format than the one asked for is never accepted.
pub proof fn law_format_answers(
    want: PixelFormat,
    other: PixelFormat,
    width: u32,
    height: u32,
    code: Seq<u8>,
)
    ensures
        answered(want, width, height, code) matches Some(n) ==> n.format == want && n.width == width
            && n.height == height && code == want.code(),
        answered(want, width, height, want.code()) is Some,
        other != want ==> answered(want, width, height, other.code()) is None,
{
    if other != want && other.code() == want.code() {
        crate::frame::law_fourcc_injective(other, want);
    }
}

/// The kind of error for an output buffer that could not be had.
pub open spec fn kind_without_buffer(e: SinkError) -> SinkErrorKind {
    if e.is_back_pressure() {
        SinkErrorKind::WouldBlock
    } else {
        SinkErrorKind::Other
    }
}

/// Waiting in vain for a buffer is back-pressure and no fault; every other failure is a
/// fault and no back-pressure.
pub proof fn law_missing_buffers(e: SinkError, r: SinkError)
    requires
        r.kind == kind_without_buffer(e),
    ensures
        r.is_back_pressure() <==> (e.kind == SinkErrorKind::WouldBlock || e.kind
            == SinkErrorKind::TimedOut),
{
}

/// A refusal of a foreign device names the device first, and of a format the one that
/// was asked for.
pub proof fn law_refusals_name_their_cause(
    path: Seq<char>,
    driver: Seq<char>,
    want: PixelFormat,
    selected: Seq<char>,
)
    ensures
        crate::text::has_prefix(
            foreign_driver_text(path, driver),
            path + " is driven by '"@ + driver,
        ),
        crate::text::has_prefix(
            rejected_format_text(want, selected),
            "driver rejected pixel format "@ + want.label() + " (selected "@ + selected,
        ),
{
    let a = path + " is driven by '"@ + driver;
    crate::text::law_prefix(
        a,
        "' (not v4l2loopback); refusing to use it as a virtual camera"@,
        a,
    );
    let b = "driver rejected pixel format "@ + want.label() + " (selected "@ + selected;
    crate::text::law_prefix(b, " instead)"@, b);
}

} // verus!
