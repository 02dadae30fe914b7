//! Virtual-camera sink backends.
//!
//! - Linux: `v4l2loop` — mmap streaming into a v4l2loopback device node.
//! - Windows: `winpipe` — overlapped named-pipe IPC to a virtual-camera
//!   driver/filter (wire protocol documented at the top of `winpipe.rs`).
//! - Anywhere: `null` — discards frames (benchmarking / dry runs).

use vstd::prelude::*;

use crate::config::ResolvedConfig;
use crate::config::SinkKind;
use crate::frame::Frame;

pub mod null;
pub mod v4l2loop;
pub mod winpipe;

verus! {

/// How a write failed.
#[derive(Clone, Copy, Debug, PartialEq, Eq, Structural)]
pub enum SinkErrorKind {
    /// No consumer attached, or the reader is behind.
    WouldBlock,
    /// No buffer came free in time.
    TimedOut,
    /// The device cannot be used.
    InvalidInput,
    /// The frame does not fit the negotiated format.
    InvalidData,
    /// The consumer vanished.
    BrokenPipe,
    Other,
}

/// Why a frame could not be written.
#[derive(Debug)]
pub struct SinkError {
    pub kind: SinkErrorKind,
    pub message: String,
}

impl SinkError {
    /// This is an error of the given kind with the given text.
    pub open spec fn says(self, kind: SinkErrorKind, text: Seq<char>) -> bool {
        self.kind == kind && self.message@ == text
    }

    /// Nobody is draining the virtual device right now. This is the designed
    /// escape hatch for a slow or absent reader, not a fault of the device.
    pub open spec fn is_back_pressure(self) -> bool {
        self.kind == SinkErrorKind::WouldBlock || self.kind == SinkErrorKind::TimedOut
    }

    /// An error with this text.
    pub fn new(kind: SinkErrorKind, message: &str) -> (r: Self)
        ensures
            r.says(kind, message@),
    {
        SinkError { kind, message: message.to_owned() }
    }
}

impl Clone for SinkError {
    fn clone(&self) -> (r: Self)
        ensures
            r == *self,
    {
        SinkError { kind: self.kind, message: self.message.clone() }
    }
}

/// Where frames go.
pub trait Sink {
    /// Whether the sink has room to account for this frame.
    spec fn accepts(&self, frame: &Frame) -> bool;

    /// Write one frame. `WouldBlock` signals "no consumer attached / reader
    /// behind" and is counted as a graceful drop by the caller.
    fn write(&mut self, frame: &Frame) -> (r: Result<(), SinkError>)
        requires
            old(self).accepts(frame),
            frame.wf(),
    ;

    /// A short text that names the sink.
    fn describe(&self) -> (r: String);
}

/// The operating systems that have a backend of their own.
#[derive(Clone, Copy, Debug, PartialEq, Eq, Structural)]
pub enum Platform {
    Linux,
    Windows,
    Other,
}

/// The backend to build.
pub enum Backend {
    /// Discard frames. With `substituted`, another backend was asked for that
    /// this platform does not have.
    Null { substituted: bool },
    /// Stream into this v4l2loopback node.
    V4l2 { path: String },
    /// Serve this named pipe.
    Pipe { name: String },
}

/// The backend kind that `Auto` stands for.
pub open spec fn resolved_kind(kind: SinkKind, platform: Platform) -> SinkKind {
    match kind {
        SinkKind::Auto => match platform {
            Platform::Linux => SinkKind::V4l2,
            Platform::Windows => SinkKind::Pipe,
            Platform::Other => SinkKind::Null,
        },
        k => k,
    }
}

/// Picks the sink backend: the configured one, or the platform's own for
/// `Auto`. A backend that the platform does not have is replaced by the null
/// sink.
pub fn build_with_path(cfg: &ResolvedConfig, path: &str, platform: Platform) -> (r: Backend)
    ensures
        match resolved_kind(cfg.sink, platform) {
            SinkKind::V4l2 => if platform == Platform::Linux {
                r matches Backend::V4l2 { path: p } && p@ == path@
            } else {
                r == (Backend::Null { substituted: true })
            },
            SinkKind::Pipe => if platform == Platform::Windows {
                r == (Backend::Pipe { name: cfg.pipe_name })
            } else {
                r == (Backend::Null { substituted: true })
            },
            _ => r == (Backend::Null { substituted: false }),
        },
        crate::controller::is_backend_for(r, *cfg, path@, platform),
{
    let kind = match cfg.sink {
        SinkKind::Auto => match platform {
            Platform::Linux => SinkKind::V4l2,
            Platform::Windows => SinkKind::Pipe,
            Platform::Other => SinkKind::Null,
        },
        k => k,
    };
    match kind {
        SinkKind::V4l2 => if platform == Platform::Linux {
            Backend::V4l2 { path: path.to_owned() }
        } else {
            Backend::Null { substituted: true }
        },
        SinkKind::Pipe => if platform == Platform::Windows {
            Backend::Pipe { name: cfg.pipe_name.clone() }
        } else {
            Backend::Null { substituted: true }
        },
        _ => Backend::Null { substituted: false },
    }
}

/// `Auto` always finds a backend that the platform has, its own where it has one: a
/// loopback device on Linux, a pipe on Windows, and nothing else elsewhere. A backend
/// that is asked for by name is never replaced by another kind.
pub proof fn law_auto_is_never_substituted(platform: Platform, kind: SinkKind)
    ensures
        resolved_kind(SinkKind::Auto, Platform::Linux) == SinkKind::V4l2,
        resolved_kind(SinkKind::Auto, Platform::Windows) == SinkKind::Pipe,
        resolved_kind(SinkKind::Auto, Platform::Other) == SinkKind::Null,
        kind != SinkKind::Auto ==> resolved_kind(kind, platform) == kind,
        resolved_kind(SinkKind::Auto, platform) == SinkKind::V4l2 ==> platform == Platform::Linux,
        resolved_kind(SinkKind::Auto, platform) == SinkKind::Pipe ==> platform
            == Platform::Windows,
        resolved_kind(SinkKind::Auto, platform) != SinkKind::Auto,
{
}

/// An error says what it is told to say and nothing else.
pub proof fn law_errors_say_their_text(e: SinkError, kind: SinkErrorKind, text: Seq<char>)
    ensures
        e.says(kind, text) <==> e.kind == kind && e.message@ == text,
        e.says(e.kind, e.message@),
{
}

} // verus!
