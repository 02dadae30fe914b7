//! Single-device v4l2loopback sink.
//!
//! The OUTPUT device is opened on the first frame and kept: re-opening it calls
//! `VIDIOC_S_FMT` and toggles `keep_format`, which tears down every attached
//! CAPTURE client. Only a long run of failed writes, which means that the device
//! is truly gone, makes the next frame open it again.

use vstd::prelude::*;

use crate::frame::Frame;
use crate::frame::PixelFormat;
use crate::sink::v4l2loop::active::Negotiated;
use crate::sink::v4l2loop::scaling::ScaleContext;
use crate::sink::SinkError;
use crate::sink::SinkErrorKind;

verus! {

/// Consecutive failed writes (~2 s at 30 fps) after which the device is given up
/// and opened again.
pub const REOPEN_AFTER: u32 = 60;

/// Which bytes go out for a frame.
#[derive(Clone, Copy, Debug, PartialEq, Eq, Structural)]
pub enum Outgoing {
    /// The payload of the frame.
    Direct,
    /// The first bytes of the scale buffer.
    Scaled(usize),
}

/// Writes frames to a single v4l2loopback device node.
pub struct V4l2LoopSink {
    pub path: String,
    /// What the open device negotiated; `None` while no device is open.
    pub active: Option<Negotiated>,
    /// Failed writes since the last good one.
    pub failures: u32,
    /// Pre-allocated scaling context with LUTs (reused across frames).
    pub scale_ctx: Option<ScaleContext>,
    /// Pre-allocated output buffer for scaled frames (reused across frames).
    pub scale_buf: Vec<u8>,
}

/// Whether a frame is scaled for the device: both are NV12 and the sizes differ.
/// Frames of other formats go out as they are.
pub open spec fn is_scaled(negotiated: Negotiated, frame: Frame) -> bool {
    &&& negotiated.format == PixelFormat::Nv12
    &&& frame.format == PixelFormat::Nv12
    &&& negotiated.width != frame.width || negotiated.height != frame.height
}

/// Tests whether a frame is scaled for the device.
fn needs_scaling(negotiated: &Negotiated, frame: &Frame) -> (r: bool)
    ensures
        r == is_scaled(*negotiated, *frame),
{
    negotiated.format == PixelFormat::Nv12 && frame.format == PixelFormat::Nv12 && (
    negotiated.width != frame.width || negotiated.height != frame.height)
}

/// The failure count after a write, and whether the device is kept.
pub open spec fn after_write(failures: nat, outcome: Result<(), SinkError>) -> (nat, bool) {
    match outcome {
        Ok(()) => (0, true),
        Err(e) => if e.is_back_pressure() {
            (failures, true)
        } else if failures + 1 >= REOPEN_AFTER {
            (0, false)
        } else {
            (failures + 1, true)
        },
    }
}

impl V4l2LoopSink {
    /// The device has not failed too often.
    pub open spec fn wf(self) -> bool {
        self.failures < REOPEN_AFTER
    }

    /// A device is open, and a frame that has to be scaled for it is scaled to a size
    /// that 32 bits hold.
    pub open spec fn serves(self, frame: Frame) -> bool {
        self.active matches Some(n) && (is_scaled(n, frame) ==> n.fits())
    }

    /// Tests whether a device is open that this frame can be made ready for.
    pub fn can_serve(&self, frame: &Frame) -> (r: bool)
        ensures
            r == self.serves(*frame),
    {
        match &self.active {
            Some(n) => !needs_scaling(n, frame) || n.is_addressable(),
            None => false,
        }
    }

    /// No device was opened yet, and nothing was scaled.
    pub open spec fn is_fresh(self) -> bool {
        &&& self.wf()
        &&& self.active is None
        &&& self.failures == 0
        &&& self.scale_ctx is None
        &&& self.scale_buf@.len() == 0
    }

    /// A sink for a device that is not open yet.
    pub fn new(path: &str) -> (r: Self)
        ensures
            r.is_fresh(),
            r.path@ == path@,
    {
        V4l2LoopSink {
            path: path.to_owned(),
            active: None,
            failures: 0,
            scale_ctx: None,
            scale_buf: Vec::new(),
        }
    }

    /// What the device is asked for before this frame can be written, if it has to be
    /// opened.
    pub open spec fn request(self, frame: Frame) -> Option<Negotiated> {
        if self.active is None {
            Some(Negotiated { width: frame.width, height: frame.height, format: frame.format })
        } else {
            None
        }
    }

    /// The sink after a write.
    pub open spec fn after(self, outcome: Result<(), SinkError>) -> V4l2LoopSink {
        let (failures, kept) = after_write(self.failures as nat, outcome);
        V4l2LoopSink {
            active: if kept {
                self.active
            } else {
                None
            },
            failures: failures as u32,
            ..self
        }
    }

    /// What to ask the device for before this frame can be written, if it has to
    /// be opened. A device that is open stays open, whatever the frame's format.
    pub fn open_request(&self, frame: &Frame) -> (r: Option<Negotiated>)
        ensures
            r == self.request(*frame),
    {
        match self.active {
            None => Some(
                Negotiated { width: frame.width, height: frame.height, format: frame.format },
            ),
            Some(_) => None,
        }
    }

    /// Records how opening the device came out.
    pub fn opened(&mut self, outcome: Result<Negotiated, SinkError>) -> (r: Result<(), SinkError>)
        requires
            old(self).wf(),
        ensures
            final(self).wf(),
            match outcome {
                Ok(n) => r is Ok && *final(self) == (V4l2LoopSink {
                    active: Some(n),
                    failures: 0,
                    ..*old(self)
                }),
                Err(e) => r == Err::<(), SinkError>(e) && *final(self) == *old(self),
            },
    {
        match outcome {
            Ok(n) => {
                self.active = Some(n);
                self.failures = 0;
                Ok(())
            },
            Err(e) => Err(e),
        }
    }

    /// Gets the bytes of a frame ready for the open device, scaling an NV12
    /// picture to the size that the driver applied. The scaling context is
    /// computed once and kept.
    pub fn prepare(&mut self, frame: &Frame) -> (r: Result<Outgoing, SinkError>)
        requires
            old(self).wf(),
            old(self).serves(*frame),
            frame.wf(),
        ensures
            final(self).wf(),
            final(self).path == old(self).path,
            final(self).active == old(self).active,
            final(self).failures == old(self).failures,
            ({
                let n = old(self).active.unwrap();
                let size = n.width * n.height * 3 / 2;
                if !is_scaled(n, *frame) {
                    &&& r == Ok::<Outgoing, SinkError>(Outgoing::Direct)
                    &&& final(self).scale_ctx == old(self).scale_ctx
                    &&& final(self).scale_buf == old(self).scale_buf
                } else {
                    &&& final(self).scale_ctx matches Some(ctx)
                    &&& old(self).scale_ctx is Some ==> final(self).scale_ctx == old(
                        self,
                    ).scale_ctx
                    &&& old(self).scale_ctx is None ==> ctx.geometry() == (
                        frame.width,
                        frame.height,
                        n.width,
                        n.height,
                    )
                    &&& final(self).scale_buf@.len() >= size
                    &&& final(self).scale_buf@.len() == if old(self).scale_buf@.len() < size {
                        size
                    } else {
                        old(self).scale_buf@.len() as int
                    }
                    &&& ({
                        let (sw, sh, dw, dh) = ctx.geometry();
                        if crate::sink::v4l2loop::scaling::scale_fits(
                            frame.bytes().len(),
                            final(self).scale_buf@.len(),
                            sw,
                            sh,
                            dw,
                            dh,
                        ) {
                            &&& r == Ok::<Outgoing, SinkError>(Outgoing::Scaled(size as usize))
                            &&& forall|j: int|
                                0 <= j < crate::sink::v4l2loop::scaling::scaled_len(dw, dh)
                                    ==> #[trigger] final(self).scale_buf@[j]
                                    == crate::sink::v4l2loop::scaling::scaled_byte(
                                    frame.bytes(),
                                    sw,
                                    sh,
                                    dw,
                                    dh,
                                    j,
                                )
                        } else {
                            r is Err && r->Err_0.says(
                                SinkErrorKind::Other,
                                "failed to scale frame to driver resolution"@,
                            )
                        }
                    })
                }
            }),
    {
        let n: Negotiated = match self.active {
            Some(n) => n,
            None => {
                return Ok(Outgoing::Direct);
            },
        };
        if !needs_scaling(&n, frame) {
            // Fast path: write the payload directly.
            return Ok(Outgoing::Direct);
        }
        // Initialize scale context if needed (LUTs are pre-computed once)
        if self.scale_ctx.is_none() {
            self.scale_ctx = Some(ScaleContext::new(frame.width, frame.height, n.width, n.height));
        }
        // Grow output buffer if needed (usually only on first frame)

        let size: usize = (crate::convert::pixel_count(n.width, n.height) * 3 / 2) as usize;
        if self.scale_buf.len() < size {
            self.scale_buf.resize(size, 0);
        }
        // Scale using pre-computed LUTs (no allocations in hot path)

        let ok = match &self.scale_ctx {
            Some(ctx) => ctx.scale_nv12(frame.payload(), self.scale_buf.as_mut_slice()),
            None => false,
        };
        if ok {
            Ok(Outgoing::Scaled(size))
        } else {
            Err(SinkError::new(SinkErrorKind::Other, "failed to scale frame to driver resolution"))
        }
    }

    /// Records how a write came out. The device is kept across transient errors
    /// and given up after `REOPEN_AFTER` failures in a row; back-pressure is no
    /// failure, and is always reported as `WouldBlock`.
    pub fn written(&mut self, outcome: Result<(), SinkError>) -> (r: Result<(), SinkError>)
        requires
            old(self).wf(),
        ensures
            final(self).wf(),
            *final(self) == old(self).after(outcome),
            match outcome {
                Ok(()) => r is Ok,
                Err(e) => r is Err && r->Err_0 == (SinkError {
                    kind: if e.is_back_pressure() {
                        SinkErrorKind::WouldBlock
                    } else {
                        e.kind
                    },
                    ..e
                }),
            },
            r == reported(outcome),
    {
        match outcome {
            Ok(()) => {
                self.failures = 0;
                Ok(())
            },
            Err(e) => {
                if e.kind == SinkErrorKind::WouldBlock || e.kind == SinkErrorKind::TimedOut {
                    return Err(SinkError { kind: SinkErrorKind::WouldBlock, message: e.message });
                }
                if self.failures + 1 >= REOPEN_AFTER {
                    // Drop the device so the next frame triggers a clean re-open.
                    self.active = None;
                    self.failures = 0;
                } else {
                    self.failures = self.failures + 1;
                }
                Err(e)
            },
        }
    }

    /// A short text that names the sink.
    pub fn describe(&self) -> (r: String)
        ensures
            r@ == "v4l2loopback:"@ + self.path@,
    {
        let mut r = "v4l2loopback:".to_owned();
        r.append(self.path.as_str());
        r
    }
}

// ---------------------------------------------------------------------------
// When the device is opened again
// ---------------------------------------------------------------------------

/// Failed writes since the last good one, back-pressure aside.
pub open spec fn streak(outcomes: Seq<Result<(), SinkError>>) -> nat
    decreases outcomes.len(),
{
    if outcomes.len() == 0 {
        0
    } else {
        match outcomes.last() {
            Ok(()) => 0,
            Err(e) => if e.is_back_pressure() {
                streak(outcomes.drop_last())
            } else {
                streak(outcomes.drop_last()) + 1
            },
        }
    }
}

/// The failure count of a device that was just opened, after these writes, and
/// whether it is still open.
pub open spec fn after_writes(outcomes: Seq<Result<(), SinkError>>) -> (nat, bool)
    decreases outcomes.len(),
{
    if outcomes.len() == 0 {
        (0, true)
    } else {
        let before = after_writes(outcomes.drop_last());
        if before.1 {
            after_write(before.0, outcomes.last())
        } else {
            before
        }
    }
}

/// The device stays open exactly as long as no run of failures without a good
/// write in between has reached the limit.
pub proof fn law_reopen_only_after_a_long_streak(outcomes: Seq<Result<(), SinkError>>)
    ensures
        after_writes(outcomes).1 <==> forall|n: int|
            0 <= n <= outcomes.len() ==> streak(#[trigger] outcomes.take(n)) < REOPEN_AFTER,
        after_writes(outcomes).1 ==> after_writes(outcomes).0 == streak(outcomes),
    decreases outcomes.len(),
{
    if outcomes.len() == 0 {
        assert forall|n: int| 0 <= n <= outcomes.len() implies streak(
            #[trigger] outcomes.take(n),
        ) < REOPEN_AFTER by {
            assert(outcomes.take(n) =~= outcomes);
        }
    } else {
        let rest = outcomes.drop_last();
        law_reopen_only_after_a_long_streak(rest);
        assert(outcomes.take(outcomes.len() as int) =~= outcomes);
        assert(rest.take(rest.len() as int) =~= rest);
        assert forall|n: int| 0 <= n <= rest.len() implies #[trigger] outcomes.take(n)
            == rest.take(n) by {
            assert(outcomes.take(n) =~= rest.take(n));
        }
        if after_writes(outcomes).1 {
            assert forall|n: int| 0 <= n <= outcomes.len() implies streak(
                #[trigger] outcomes.take(n),
            ) < REOPEN_AFTER by {
                if n <= rest.len() {
                    assert(outcomes.take(n) == rest.take(n));
                }
            }
        } else if after_writes(rest).1 {
            assert(streak(outcomes.take(outcomes.len() as int)) >= REOPEN_AFTER);
        } else {
            let n = choose|n: int|
                0 <= n <= rest.len() && streak(#[trigger] rest.take(n)) >= REOPEN_AFTER;
            assert(outcomes.take(n) == rest.take(n));
        }
    }
}

/// A sink after a row of writes.
pub open spec fn sink_after(sink: V4l2LoopSink, outcomes: Seq<Result<(), SinkError>>) -> V4l2LoopSink
    decreases outcomes.len(),
{
    if outcomes.len() == 0 {
        sink
    } else {
        sink_after(sink, outcomes.drop_last()).after(outcomes.last())
    }
}

/// An open device is not opened again, so that attached readers are not torn down,
/// while no run of failures without a good write in between has reached the limit.
/// Neither the number of writes that met back-pressure nor the format and the size of
/// the next frame matter.
pub proof fn law_open_device_is_kept(
    sink: V4l2LoopSink,
    outcomes: Seq<Result<(), SinkError>>,
    frame: Frame,
)
    requires
        sink.active is Some,
        sink.failures == 0,
        forall|n: int|
            0 <= n <= outcomes.len() ==> streak(#[trigger] outcomes.take(n)) < REOPEN_AFTER,
    ensures
        sink_after(sink, outcomes).active == sink.active,
        sink_after(sink, outcomes).failures == streak(outcomes),
        sink_after(sink, outcomes).request(frame) is None,
    decreases outcomes.len(),
{
    if outcomes.len() > 0 {
        let rest = outcomes.drop_last();
        assert forall|n: int| 0 <= n <= rest.len() implies streak(#[trigger] rest.take(n))
            < REOPEN_AFTER by {
            assert(rest.take(n) =~= outcomes.take(n));
        }
        law_open_device_is_kept(sink, rest, frame);
        assert(outcomes.take(outcomes.len() as int) =~= outcomes);
    }
}

/// No number of writes that only run into back-pressure makes the device be
/// opened again.
pub proof fn law_back_pressure_never_reopens(outcomes: Seq<Result<(), SinkError>>)
    requires
        forall|i: int|
            0 <= i < outcomes.len() ==> ((#[trigger] outcomes[i]) matches Err(e)
                && e.is_back_pressure()),
    ensures
        after_writes(outcomes) == (0nat, true),
    decreases outcomes.len(),
{
    if outcomes.len() > 0 {
        assert forall|i: int| 0 <= i < outcomes.drop_last().len() implies (
        (#[trigger] outcomes.drop_last()[i]) matches Err(e) && e.is_back_pressure()) by {
            assert(outcomes.drop_last()[i] == outcomes[i]);
        }
        law_back_pressure_never_reopens(outcomes.drop_last());
    }
}

/// Back-pressure is a missing reader or a buffer that did not come free in time, and
/// nothing else.
pub proof fn law_back_pressure(e: SinkError)
    ensures
        e.is_back_pressure() <==> (e.kind == SinkErrorKind::WouldBlock || e.kind
            == SinkErrorKind::TimedOut),
{
}

/// The sixtieth failure in a row, and no earlier one, gives the device up. A good write
/// starts the count anew, and back-pressure leaves it as it is.
pub proof fn law_sixty_failures_reopen(failures: nat, e: SinkError)
    requires
        failures < 60,
    ensures
        after_write(failures, Ok(())) == (0nat, true),
        e.is_back_pressure() ==> after_write(failures, Err(e)) == (failures, true),
        !e.is_back_pressure() && failures + 1 < 60 ==> after_write(failures, Err(e)) == (
            failures + 1,
            true,
        ),
        !e.is_back_pressure() && failures + 1 == 60 ==> after_write(failures, Err(e)) == (
            0nat,
            false,
        ),
{
}

/// Only NV12 is scaled, only for a device that takes NV12, and only where the sizes
/// differ.
pub proof fn law_only_nv12_is_scaled(negotiated: Negotiated, frame: Frame)
    ensures
        is_scaled(negotiated, frame) ==> frame.format == PixelFormat::Nv12 && negotiated.format
            == PixelFormat::Nv12,
        negotiated.width == frame.width && negotiated.height == frame.height ==> !is_scaled(
            negotiated,
            frame,
        ),
        frame.format == PixelFormat::Nv12 && negotiated.format == PixelFormat::Nv12 && (
        negotiated.width != frame.width || negotiated.height != frame.height) ==> is_scaled(
            negotiated,
            frame,
        ),
{
}

/// A device that is not open is asked for exactly the frame's size and format. After a
/// write the sink differs only in its count and in whether the device is still open; a
/// device that is given up is asked for again with the next frame.
pub proof fn law_what_a_write_changes(
    sink: V4l2LoopSink,
    outcome: Result<(), SinkError>,
    frame: Frame,
)
    requires
        sink.wf(),
    ensures
        sink.active is None ==> sink.request(frame) == Some(
            Negotiated { width: frame.width, height: frame.height, format: frame.format },
        ),
        sink.active is Some ==> sink.request(frame) is None,
        sink.wf() <==> sink.failures < 60,
        sink.after(outcome).path == sink.path,
        sink.after(outcome).scale_ctx == sink.scale_ctx,
        sink.after(outcome).scale_buf == sink.scale_buf,
        sink.after(outcome).wf(),
        outcome is Ok ==> sink.after(outcome).failures == 0 && sink.after(outcome).active
            == sink.active,
        sink.after(outcome).active == sink.active || sink.after(outcome).request(frame) is Some,
        outcome matches Err(e) ==> (!e.is_back_pressure() && sink.failures == 59 ==> sink.after(
            outcome,
        ).active is None && sink.after(outcome).failures == 0),
{
}

/// A frame can be made ready exactly when a device is open and, where the frame has to
/// be scaled, the device's picture is addressed with 32 bits. A new sink has no device.
pub proof fn law_what_can_be_served(sink: V4l2LoopSink, frame: Frame)
    ensures
        sink.active is None ==> !sink.serves(frame),
        sink.active matches Some(n) ==> (sink.serves(frame) <==> !is_scaled(n, frame) || n.fits()),
        sink.is_fresh() ==> sink.wf() && sink.active is None && sink.failures == 0 && sink.scale_ctx
            is None && sink.scale_buf@.len() == 0,
{
}

/// What is reported of a write.
pub open spec fn reported(outcome: Result<(), SinkError>) -> Result<(), SinkError> {
    match outcome {
        Ok(()) => Ok(()),
        Err(e) => Err(
            SinkError {
                kind: if e.is_back_pressure() {
                    SinkErrorKind::WouldBlock
                } else {
                    e.kind
                },
                message: e.message,
            },
        ),
    }
}

/// A write is reported as it came out, with its own message. Back-pressure of either kind
/// is reported as a missing reader, and nothing else is; so a sink of several devices
/// never takes it for a failure.
pub proof fn law_writes_are_reported(outcome: Result<(), SinkError>)
    ensures
        reported(outcome) is Ok <==> outcome is Ok,
        outcome matches Err(e) ==> {
            &&& reported(outcome)->Err_0.message == e.message
            &&& reported(outcome)->Err_0.kind == SinkErrorKind::WouldBlock <==> (e.kind
                == SinkErrorKind::WouldBlock || e.kind == SinkErrorKind::TimedOut)
            &&& !e.is_back_pressure() ==> reported(outcome)->Err_0 == e
        },
        reported(reported(outcome)) == reported(outcome),
{
}

} // verus!
