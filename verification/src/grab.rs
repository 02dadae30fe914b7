//! Rules of the tiny helper that grabs N YUYV frames from a V4L2 capture device
//! via `read()`.
//!
//! Used by the pixel-integrity suite so each reader is a real OS process (not
//! just a thread sharing one address space).
//!
//! ```text
//! vcam-grab <device> <width> <height> <n_frames> <out_dir>
//! ```

use vstd::prelude::*;

use crate::frame::PixelFormat;
use crate::text::decimal_padded;

verus! {

/// How a read from the device came out.
#[derive(Clone, Copy, Debug, PartialEq, Eq, Structural)]
pub enum GrabRead {
    /// This many bytes arrived.
    Bytes(usize),
    /// Nothing to read right now.
    WouldBlock,
    /// Any other error.
    Failed,
}

/// What to do after a read.
#[derive(Clone, Copy, Debug, PartialEq, Eq, Structural)]
pub enum GrabStep {
    /// Sleep this many milliseconds, then read again.
    Sleep(u64),
    /// Read again at once: this was a blank frame.
    Skip,
    /// Save the frame.
    Save,
    /// Give up.
    Fail,
}

/// Every byte is zero: the classic green flash.
pub open spec fn is_blank(bytes: Seq<u8>) -> bool {
    forall|i: int| 0 <= i < bytes.len() ==> #[trigger] bytes[i] == 0
}

/// Tests whether every byte is zero.
pub fn blank(bytes: &[u8]) -> (r: bool)
    ensures
        r == is_blank(bytes@),
{
    for i in 0..bytes.len()
        invariant
            forall|j: int| 0 <= j < i ==> #[trigger] bytes@[j] == 0,
    {
        if bytes[i] != 0 {
            return false;
        }
    }
    true
}

/// Decides what to do after a read into `buf`, which is one frame long: whole
/// frames are saved unless they are blank, and partial ones are ignored.
pub fn grab_step(read: GrabRead, buf: &[u8]) -> (r: GrabStep)
    ensures
        r == (match read {
            GrabRead::Bytes(n) => if n == 0 {
                GrabStep::Sleep(10)
            } else if n != buf@.len() {
                GrabStep::Sleep(5)
            } else if is_blank(buf@) {
                GrabStep::Skip
            } else {
                GrabStep::Save
            },
            GrabRead::WouldBlock => GrabStep::Sleep(5),
            GrabRead::Failed => GrabStep::Fail,
        }),
        r == grabbed(read, buf@),
{
    match read {
        GrabRead::Bytes(n) => if n == 0 {
            GrabStep::Sleep(10)
        } else if n != buf.len() {
            GrabStep::Sleep(5)
        } else if blank(buf) {
            // Skip classic green-flash all-zero frames.
            GrabStep::Skip
        } else {
            GrabStep::Save
        },
        GrabRead::WouldBlock => GrabStep::Sleep(5),
        GrabRead::Failed => GrabStep::Fail,
    }
}

/// The size of a YUYV frame.
pub fn frame_len(width: u32, height: u32) -> (n: usize)
    requires
        width * height * 2 <= usize::MAX,
    ensures
        n == width * height * 2,
{
    match PixelFormat::Yuy2.packed_size(width, height) {
        Some(n) => n,
        None => 0,
    }
}

/// The name of the file for the `got`-th frame.
pub fn frame_file(got: usize) -> (r: String)
    ensures
        r@ == "frame_"@ + crate::text::zero_padded(got as nat, 4) + ".yuyv"@,
{
    let mut r = "frame_".to_owned();
    r.append(decimal_padded(got as u64, 4).as_str());
    r.append(".yuyv");
    r
}

/// A frame is blank exactly when each of its bytes is zero, wherever the others are.
pub proof fn law_blank_frames(a: Seq<u8>, b: Seq<u8>, byte: u8)
    ensures
        is_blank(Seq::<u8>::empty()),
        is_blank(seq![byte]) <==> byte == 0,
        is_blank(a + b) <==> is_blank(a) && is_blank(b),
{
    assert(seq![byte][0] == byte);
    if is_blank(a) && is_blank(b) {
        assert forall|i: int| 0 <= i < (a + b).len() implies #[trigger] (a + b)[i] == 0 by {
            if i < a.len() {
                assert((a + b)[i] == a[i]);
            } else {
                assert((a + b)[i] == b[i - a.len()]);
            }
        }
    }
    if is_blank(a + b) {
        assert forall|i: int| 0 <= i < a.len() implies #[trigger] a[i] == 0 by {
            assert((a + b)[i] == a[i]);
        }
        assert forall|i: int| 0 <= i < b.len() implies #[trigger] b[i] == 0 by {
            assert((a + b)[a.len() + i] == b[i]);
        }
    }
}

/// What to do after a read into a buffer of one frame.
pub open spec fn grabbed(read: GrabRead, buf: Seq<u8>) -> GrabStep {
    match read {
        GrabRead::Failed => GrabStep::Fail,
        GrabRead::WouldBlock => GrabStep::Sleep(5),
        GrabRead::Bytes(0) => GrabStep::Sleep(10),
        GrabRead::Bytes(n) => if n != buf.len() {
            GrabStep::Sleep(5)
        } else if is_blank(buf) {
            GrabStep::Skip
        } else {
            GrabStep::Save
        },
    }
}

/// A frame is saved exactly when it is whole and some byte of it is not zero; a whole
/// blank one is skipped, a read that brought too little is tried again after a short
/// sleep, and only an error ends it.
pub proof fn law_what_is_grabbed(read: GrabRead, buf: Seq<u8>)
    ensures
        grabbed(read, buf) is Save <==> (read matches GrabRead::Bytes(n) && n > 0 && n == buf.len()
            && !is_blank(buf)),
        grabbed(read, buf) is Skip <==> (read matches GrabRead::Bytes(n) && n > 0 && n == buf.len()
            && is_blank(buf)),
        grabbed(read, buf) is Fail <==> read is Failed,
        grabbed(read, buf) matches GrabStep::Sleep(ms) ==> 5 <= ms <= 10,
        grabbed(read, buf) == GrabStep::Sleep(10) <==> read == GrabRead::Bytes(0),
        read is WouldBlock ==> grabbed(read, buf) == GrabStep::Sleep(5),
{
}

} // verus!
