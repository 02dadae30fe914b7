//! Sink that discards frames after counting them. Useful for benchmarking
//! capture/conversion in isolation and for CI smoke tests without kernel
//! modules loaded.

use vstd::prelude::*;

use crate::frame::Frame;
use crate::sink::Sink;
use crate::sink::SinkError;

verus! {

/// Discards frames after counting them.
pub struct NullSink {
    pub bytes: u64,
    pub frames: u64,
}

impl Default for NullSink {
    fn default() -> (r: Self)
        ensures
            r.bytes == 0,
            r.frames == 0,
    {
        NullSink { bytes: 0, frames: 0 }
    }
}

impl Sink for NullSink {
    /// The counters have room.
    open spec fn accepts(&self, frame: &Frame) -> bool {
        self.frames < u64::MAX && self.bytes + frame.len <= u64::MAX
    }

    fn write(&mut self, frame: &Frame) -> (r: Result<(), SinkError>)
        ensures
            r is Ok,
            final(self).frames == old(self).frames + 1,
            final(self).bytes == old(self).bytes + frame.len,
    {
        self.frames = self.frames + 1;
        self.bytes = self.bytes + frame.len as u64;
        Ok(())
    }

    fn describe(&self) -> (r: String)
        ensures
            r@ == "null"@,
    {
        "null".to_owned()
    }
}

} // verus!
