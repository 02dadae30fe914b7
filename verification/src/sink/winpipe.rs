//! Wire protocol of the Windows sink, which streams frames over a Win32 named
//! pipe to a virtual-camera driver component (DirectShow source filter / MF
//! virtual camera), in the spirit of the OBS Virtual Camera IPC design.
//!
//! # Wire protocol
//!
//! Every frame is sent as a fixed 40-byte little-endian header followed by
//! the raw pixel payload:
//!
//! ```text
//! offset  size  field
//!      0     4  magic        = "VCAM" (0x5643_414D)
//!      4     4  version      = 1
//!      8     4  width
//!     12     4  height
//!     16     4  fourcc       = "YUYV" | "RGB3" | "NV12" | "MJPG"
//!     20     4  payload_len  (bytes following this header)
//!     24     8  sequence number
//!     32     8  timestamp    (µs since sink start)
//!     40     *  payload      (payload_len bytes)
//! ```
//!
//! Connect and write waits are bounded (`WAIT_MS`) so the sink thread remains
//! responsive to shutdown and a slow/absent consumer degrades to graceful frame
//! drops.

use vstd::prelude::*;

use crate::frame::Frame;
use crate::sink::SinkError;
use crate::sink::SinkErrorKind;

verus! {

pub const MAGIC: u32 = 0x5643_414D;

pub const VERSION: u32 = 1;

pub const HEADER_LEN: usize = 40;

/// Bounded wait for client connect / write completion.
pub const WAIT_MS: u32 = 200;

/// Kernel-side output buffering for the pipe.
pub const OUT_BUF: u32 = 0x40_0000;

/// The `width` lowest bytes of a number, the lowest first.
pub open spec fn le_bytes(n: nat, width: nat) -> Seq<u8>
    decreases width,
{
    if width == 0 {
        Seq::empty()
    } else {
        seq![(n % 256) as u8] + le_bytes(n / 256, (width - 1) as nat)
    }
}

/// The number that little-endian bytes stand for.
pub open spec fn le_value(bytes: Seq<u8>) -> nat
    decreases bytes.len(),
{
    if bytes.len() == 0 {
        0
    } else {
        bytes[0] as nat + 256 * le_value(bytes.drop_first())
    }
}

/// `256` to the power of `width`.
pub open spec fn byte_range(width: nat) -> nat
    decreases width,
{
    if width == 0 {
        1
    } else {
        256 * byte_range((width - 1) as nat)
    }
}

/// Appends the `width` lowest bytes of a number, the lowest first.
fn push_le(out: &mut Vec<u8>, n: u64, width: u32)
    ensures
        final(out)@ == old(out)@ + le_bytes(n as nat, width as nat),
    decreases width,
{
    if width > 0 {
        let low: u8 = (n % 256) as u8;
        out.push(low);
        push_le(out, n / 256, width - 1);
        assert(out@ =~= old(out)@ + le_bytes(n as nat, width as nat));
    } else {
        assert(out@ =~= old(out)@ + le_bytes(n as nat, width as nat));
    }
}

/// The header of a frame, sent `timestamp_us` after the sink started.
pub open spec fn header(frame: Frame, timestamp_us: u64) -> Seq<u8> {
    le_bytes(MAGIC as nat, 4) + le_bytes(VERSION as nat, 4) + le_bytes(frame.width as nat, 4)
        + le_bytes(frame.height as nat, 4) + frame.format.code() + le_bytes(frame.len as nat, 4)
        + le_bytes(frame.seq as nat, 8) + le_bytes(timestamp_us as nat, 8)
}

/// Encodes the header of a frame, sent `timestamp_us` after the sink started.
pub fn encode_header(frame: &Frame, timestamp_us: u64) -> (r: Vec<u8>)
    ensures
        r@ == header(*frame, timestamp_us),
{
    let mut out: Vec<u8> = Vec::new();
    push_le(&mut out, MAGIC as u64, 4);
    assert(out@ =~= le_bytes(MAGIC as nat, 4));
    push_le(&mut out, VERSION as u64, 4);
    push_le(&mut out, frame.width as u64, 4);
    push_le(&mut out, frame.height as u64, 4);
    let code = frame.format.fourcc();
    let ghost before = out@;
    out.push(code[0]);
    out.push(code[1]);
    out.push(code[2]);
    out.push(code[3]);
    assert(out@ =~= before + frame.format.code());
    push_le(&mut out, frame.len as u64, 4);
    push_le(&mut out, frame.seq, 8);
    push_le(&mut out, timestamp_us, 8);
    out
}

/// A number that has `width` bytes is read back from them.
pub proof fn lemma_le_round_trip(n: nat, width: nat)
    ensures
        le_bytes(n, width).len() == width,
        n < byte_range(width) ==> le_value(le_bytes(n, width)) == n,
    decreases width,
{
    if width > 0 {
        lemma_le_round_trip(n / 256, (width - 1) as nat);
        let b = le_bytes(n, width);
        assert(b.drop_first() =~= le_bytes(n / 256, (width - 1) as nat));
    }
}

/// The header is 40 bytes long, and a reader finds every field at its offset.
pub proof fn law_header_layout(frame: Frame, timestamp_us: u64)
    requires
        frame.len <= u32::MAX,
    ensures
        header(frame, timestamp_us).len() == HEADER_LEN,
        le_value(header(frame, timestamp_us).subrange(0, 4)) == MAGIC,
        le_value(header(frame, timestamp_us).subrange(4, 8)) == VERSION,
        le_value(header(frame, timestamp_us).subrange(8, 12)) == frame.width,
        le_value(header(frame, timestamp_us).subrange(12, 16)) == frame.height,
        header(frame, timestamp_us).subrange(16, 20) == frame.format.code(),
        le_value(header(frame, timestamp_us).subrange(20, 24)) == frame.len,
        le_value(header(frame, timestamp_us).subrange(24, 32)) == frame.seq,
        le_value(header(frame, timestamp_us).subrange(32, 40)) == timestamp_us,
{
    reveal_with_fuel(byte_range, 9);
    lemma_le_round_trip(MAGIC as nat, 4);
    lemma_le_round_trip(VERSION as nat, 4);
    lemma_le_round_trip(frame.width as nat, 4);
    lemma_le_round_trip(frame.height as nat, 4);
    lemma_le_round_trip(frame.len as nat, 4);
    lemma_le_round_trip(frame.seq as nat, 8);
    lemma_le_round_trip(timestamp_us as nat, 8);
    let h = header(frame, timestamp_us);
    assert(h.subrange(0, 4) =~= le_bytes(MAGIC as nat, 4));
    assert(h.subrange(4, 8) =~= le_bytes(VERSION as nat, 4));
    assert(h.subrange(8, 12) =~= le_bytes(frame.width as nat, 4));
    assert(h.subrange(12, 16) =~= le_bytes(frame.height as nat, 4));
    assert(h.subrange(16, 20) =~= frame.format.code());
    assert(h.subrange(20, 24) =~= le_bytes(frame.len as nat, 4));
    assert(h.subrange(24, 32) =~= le_bytes(frame.seq as nat, 8));
    assert(h.subrange(32, 40) =~= le_bytes(timestamp_us as nat, 8));
}

/// The kind of error that a Win32 error code stands for: the consumer vanished
/// (`ERROR_BROKEN_PIPE`, `ERROR_NO_DATA`, `ERROR_PIPE_NOT_CONNECTED`), or
/// something else.
pub fn pipe_error_kind(code: u32) -> (r: SinkErrorKind)
    ensures
        r == (if code == 109 || code == 232 || code == 233 {
            SinkErrorKind::BrokenPipe
        } else {
            SinkErrorKind::Other
        }),
        r == kind_of_code(code),
{
    if code == 109 || code == 232 || code == 233 {
        SinkErrorKind::BrokenPipe
    } else {
        SinkErrorKind::Other
    }
}

/// The error for a wait that ended without the consumer having done its part.
pub fn wait_error(connecting: bool) -> (r: SinkError)
    ensures
        r.says(
            SinkErrorKind::WouldBlock,
            if connecting {
                "waiting for a pipe consumer"@
            } else {
                "pipe consumer is not reading"@
            },
        ),
{
    if connecting {
        SinkError::new(SinkErrorKind::WouldBlock, "waiting for a pipe consumer")
    } else {
        SinkError::new(SinkErrorKind::WouldBlock, "pipe consumer is not reading")
    }
}

/// Whether the pipe is reset after a write, so that the next frame triggers a
/// fresh connect: the client vanished or the pipe broke. A consumer that is not
/// reading is left connected.
pub fn resets_pipe(outcome: &Result<(), SinkError>) -> (r: bool)
    ensures
        r == (outcome matches Err(e) && e.kind != SinkErrorKind::WouldBlock),
        r == loses_pipe(*outcome),
{
    match outcome {
        Ok(()) => false,
        Err(e) => e.kind != SinkErrorKind::WouldBlock,
    }
}

/// The path of the pipe with this name.
pub fn pipe_path(name: &str) -> (r: String)
    ensures
        r@ == "\\\\.\\pipe\\"@ + name@,
{
    let mut r = "\\\\.\\pipe\\".to_owned();
    r.append(name);
    r
}

/// A short text that names the sink.
pub fn describe_pipe(name: &str) -> (r: String)
    ensures
        r@ == "named-pipe:\\\\.\\pipe\\"@ + name@,
{
    let mut r = "named-pipe:\\\\.\\pipe\\".to_owned();
    r.append(name);
    r
}

/// The constants of the protocol: the magic number is `VCAM`, read as one 32-bit
/// number, and this is version one.
pub proof fn law_protocol_constants()
    ensures
        MAGIC == 'V' as int * 0x100_0000 + 'C' as int * 0x1_0000 + 'A' as int * 0x100 + 'M' as int,
        VERSION == 1,
        HEADER_LEN == 40,
{
}

/// The four bytes of a 32-bit number, the lowest first.
#[verifier::opaque]
pub open spec fn four_bytes(n: int) -> Seq<u8> {
    seq![
        (n % 256) as u8,
        (n / 0x100 % 256) as u8,
        (n / 0x1_0000 % 256) as u8,
        (n / 0x100_0000 % 256) as u8,
    ]
}

/// Every number in the header is little-endian, the lowest byte first, and stands at its
/// place: after magic number and version the width, the height, the fourcc, the payload
/// size, the frame number and the time.
pub proof fn law_header_bytes(frame: Frame, timestamp_us: u64)
    ensures
        ({
            let h = header(frame, timestamp_us);
            &&& h.subrange(0, 4) == seq!['M' as u8, 'A' as u8, 'C' as u8, 'V' as u8]
            &&& h.subrange(4, 8) == seq![1u8, 0u8, 0u8, 0u8]
            &&& h.subrange(8, 12) == four_bytes(frame.width as int)
            &&& h.subrange(12, 16) == four_bytes(frame.height as int)
            &&& h.subrange(16, 20) == frame.format.code()
            &&& h.subrange(20, 24) == four_bytes(frame.len as int)
            &&& h.subrange(24, 28) == four_bytes(frame.seq as int)
            &&& h.subrange(28, 32) == four_bytes(frame.seq as int / 0x1_0000_0000)
            &&& h.subrange(32, 36) == four_bytes(timestamp_us as int)
            &&& h.subrange(36, 40) == four_bytes(timestamp_us as int / 0x1_0000_0000)
        }),
{
    lemma_four_bytes(MAGIC as nat);
    lemma_four_bytes(VERSION as nat);
    lemma_four_bytes(frame.width as nat);
    lemma_four_bytes(frame.height as nat);
    lemma_four_bytes(frame.len as nat);
    lemma_eight_bytes(frame.seq as nat);
    lemma_eight_bytes(timestamp_us as nat);
    lemma_parts(
        le_bytes(MAGIC as nat, 4),
        le_bytes(VERSION as nat, 4),
        le_bytes(frame.width as nat, 4),
        le_bytes(frame.height as nat, 4),
        frame.format.code(),
        le_bytes(frame.len as nat, 4),
        le_bytes(frame.seq as nat, 8),
        le_bytes(timestamp_us as nat, 8),
    );
    assert(four_bytes(MAGIC as int) == seq!['M' as u8, 'A' as u8, 'C' as u8, 'V' as u8]) by {
        reveal(four_bytes);
    }
    assert(four_bytes(VERSION as int) == seq![1u8, 0u8, 0u8, 0u8]) by {
        reveal(four_bytes);
    }
}

/// Where the parts of a header stand.
proof fn lemma_parts(
    a: Seq<u8>,
    b: Seq<u8>,
    c: Seq<u8>,
    d: Seq<u8>,
    e: Seq<u8>,
    f: Seq<u8>,
    g: Seq<u8>,
    k: Seq<u8>,
)
    requires
        a.len() == 4 && b.len() == 4 && c.len() == 4 && d.len() == 4 && e.len() == 4 && f.len() == 4,
        g.len() == 8 && k.len() == 8,
    ensures
        ({
            let h = a + b + c + d + e + f + g + k;
            &&& h.subrange(0, 4) == a && h.subrange(4, 8) == b && h.subrange(8, 12) == c
            &&& h.subrange(12, 16) == d && h.subrange(16, 20) == e && h.subrange(20, 24) == f
            &&& h.subrange(24, 28) == g.subrange(0, 4) && h.subrange(28, 32) == g.subrange(4, 8)
            &&& h.subrange(32, 36) == k.subrange(0, 4) && h.subrange(36, 40) == k.subrange(4, 8)
        }),
{
    let h = a + b + c + d + e + f + g + k;
    assert(h.subrange(0, 4) =~= a);
    assert(h.subrange(4, 8) =~= b);
    assert(h.subrange(8, 12) =~= c);
    assert(h.subrange(12, 16) =~= d);
    assert(h.subrange(16, 20) =~= e);
    assert(h.subrange(20, 24) =~= f);
    assert(h.subrange(24, 28) =~= g.subrange(0, 4));
    assert(h.subrange(28, 32) =~= g.subrange(4, 8));
    assert(h.subrange(32, 36) =~= k.subrange(0, 4));
    assert(h.subrange(36, 40) =~= k.subrange(4, 8));
}

/// The four lowest bytes of a number.
proof fn lemma_four_bytes(n: nat)
    ensures
        le_bytes(n, 4).len() == 4,
        le_bytes(n, 4) == four_bytes(n as int),
{
    lemma_le_round_trip(n, 4);
    reveal_with_fuel(le_bytes, 5);
    assert(n / 256 / 256 == n / 0x1_0000);
    assert(n / 256 / 256 / 256 == n / 0x100_0000);
    reveal(four_bytes);
    assert(le_bytes(n, 4) =~= four_bytes(n as int));
}

/// Eight bytes are twice four bytes.
proof fn lemma_eight_bytes(n: nat)
    ensures
        le_bytes(n, 8).len() == 8,
        le_bytes(n, 8).subrange(0, 4) == four_bytes(n as int),
        le_bytes(n, 8).subrange(4, 8) == four_bytes(n as int / 0x1_0000_0000),
{
    lemma_le_round_trip(n, 8);
    lemma_four_bytes(n);
    let high = n / 256 / 256 / 256 / 256;
    assert(high == n / 0x1_0000_0000);
    lemma_four_bytes(high);
    lemma_low_bytes_first(n);
}

/// The bytes of a number are its four lowest ones and then those of the rest.
proof fn lemma_low_bytes_first(n: nat)
    ensures
        le_bytes(n, 8).len() == 8,
        le_bytes(n, 8).subrange(0, 4) == le_bytes(n, 4),
        le_bytes(n, 8).subrange(4, 8) == le_bytes(n / 256 / 256 / 256 / 256, 4),
{
    let n1 = n / 256;
    let n2 = n1 / 256;
    let n3 = n2 / 256;
    let n4 = n3 / 256;
    let rest = le_bytes(n4, 4);
    let e = Seq::<u8>::empty();
    lemma_le_round_trip(n4, 4);
    assert(le_bytes(n3, 5) == seq![(n3 % 256) as u8] + rest);
    assert(le_bytes(n2, 6) == seq![(n2 % 256) as u8] + le_bytes(n3, 5));
    assert(le_bytes(n1, 7) == seq![(n1 % 256) as u8] + le_bytes(n2, 6));
    assert(le_bytes(n, 8) == seq![(n % 256) as u8] + le_bytes(n1, 7));
    assert(le_bytes(n4, 0) == e);
    assert(le_bytes(n3, 1) == seq![(n3 % 256) as u8] + e);
    assert(le_bytes(n2, 2) == seq![(n2 % 256) as u8] + le_bytes(n3, 1));
    assert(le_bytes(n1, 3) == seq![(n1 % 256) as u8] + le_bytes(n2, 2));
    assert(le_bytes(n, 4) == seq![(n % 256) as u8] + le_bytes(n1, 3));
    assert(le_bytes(n, 8).subrange(0, 4) =~= le_bytes(n, 4));
    assert(le_bytes(n, 8).subrange(4, 8) =~= rest);
}

/// The kind of error of a Win32 error code.
pub open spec fn kind_of_code(code: u32) -> SinkErrorKind {
    if code == 109 || code == 232 || code == 233 {
        SinkErrorKind::BrokenPipe
    } else {
        SinkErrorKind::Other
    }
}

/// Whether the pipe is reset after a write.
pub open spec fn loses_pipe(outcome: Result<(), SinkError>) -> bool {
    outcome matches Err(e) && e.kind != SinkErrorKind::WouldBlock
}

/// A consumer that vanished resets the pipe, as does every other error that a code stands
/// for; a good write and a consumer that is not reading leave it connected.
pub proof fn law_when_the_pipe_is_reset(code: u32, e: SinkError)
    ensures
        kind_of_code(code) == SinkErrorKind::BrokenPipe <==> (code == 109 || code == 232 || code
            == 233),
        e.kind == kind_of_code(code) ==> loses_pipe(Err(e)),
        !loses_pipe(Ok(())),
        e.kind == SinkErrorKind::WouldBlock ==> !loses_pipe(Err(e)),
        e.kind != SinkErrorKind::WouldBlock ==> loses_pipe(Err(e)),
{
}

} // verus!
