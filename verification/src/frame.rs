//! Frame representation and the pre-allocated buffer pool.
//!
//! Steady-state operation performs **zero heap allocations per frame**:
//! a fixed set of `Frame` slots circulates between the capture thread and the
//! sink thread through two bounded lock-free channels:
//!
//! ```text
//! capture thread                      sink thread
//!   pool.acquire()  <-- free slot --+   pool.release(frame) --+
//!   fill payload                    |                         |
//!   tx.try_send(frame) -------------+--> rx.recv_timeout() ---+
//! ```

use crossbeam_channel::Receiver;
use crossbeam_channel::Sender;
use std::time::Instant;
use vstd::prelude::*;

use crate::convert::pixel_count;

verus! {

/// A monotonic clock reading, `std::time::Instant`. Only carried along.
#[verifier::external_type_specification]
#[verifier::external_body]
pub struct ExInstant(Instant);

/// `std::time::Instant::now`: nothing is claimed of the reading.
pub assume_specification[ Instant::now ]() -> Instant;

/// The sending half of a bounded channel, `crossbeam_channel::Sender`.
#[verifier::external_type_specification]
#[verifier::external_body]
#[verifier::reject_recursive_types(T)]
pub struct ExSender<T>(Sender<T>);

/// The receiving half of a bounded channel, `crossbeam_channel::Receiver`.
#[verifier::external_type_specification]
#[verifier::external_body]
#[verifier::reject_recursive_types(T)]
pub struct ExReceiver<T>(Receiver<T>);

/// Pixel formats the pipeline can carry on the wire.
#[derive(Clone, Copy, Debug, PartialEq, Eq, Structural)]
pub enum PixelFormat {
    /// Packed YUV 4:2:2 `Y0 U0 Y1 V0` (V4L2 fourcc `YUYV`).
    Yuy2,
    /// Packed 24-bit RGB (V4L2 fourcc `RGB3`).
    Rgb24,
    /// Semi-planar YUV 4:2:0 (V4L2 fourcc `NV12`).
    Nv12,
    /// Baseline JPEG bitstream, one frame per buffer (`MJPG`).
    Mjpeg,
}

impl PixelFormat {
    /// The four characters that name the format to V4L2.
    pub open spec fn code(self) -> Seq<u8> {
        match self {
            PixelFormat::Yuy2 => seq![89u8, 85u8, 89u8, 86u8],
            PixelFormat::Rgb24 => seq![82u8, 71u8, 66u8, 51u8],
            PixelFormat::Nv12 => seq![78u8, 86u8, 49u8, 50u8],
            PixelFormat::Mjpeg => seq![77u8, 74u8, 80u8, 71u8],
        }
    }

    /// The name of the variant.
    pub open spec fn label(self) -> Seq<char> {
        match self {
            PixelFormat::Yuy2 => "Yuy2"@,
            PixelFormat::Rgb24 => "Rgb24"@,
            PixelFormat::Nv12 => "Nv12"@,
            PixelFormat::Mjpeg => "Mjpeg"@,
        }
    }

    /// Exact number of bytes of a picture, `None` for a compressed format.
    pub open spec fn packed_bytes(self, width: u32, height: u32) -> Option<int> {
        let px = width as int * height as int;
        match self {
            PixelFormat::Yuy2 => Some(px * 2),
            PixelFormat::Rgb24 => Some(px * 3),
            PixelFormat::Nv12 => Some(px * 3 / 2),
            PixelFormat::Mjpeg => None,
        }
    }

    /// The largest number that computing the packed size goes through.
    pub open spec fn packed_peak(self, width: u32, height: u32) -> int {
        let px = width as int * height as int;
        match self {
            PixelFormat::Yuy2 => px * 2,
            PixelFormat::Rgb24 => px * 3,
            PixelFormat::Nv12 => px * 3,
            PixelFormat::Mjpeg => px,
        }
    }

    /// The V4L2 fourcc: `YUYV`, `RGB3`, `NV12` or `MJPG`.
    pub fn fourcc(self) -> (code: [u8; 4])
        ensures
            code@ == self.code(),
    {
        match self {
            PixelFormat::Yuy2 => [89, 85, 89, 86],
            PixelFormat::Rgb24 => [82, 71, 66, 51],
            PixelFormat::Nv12 => [78, 86, 49, 50],
            PixelFormat::Mjpeg => [77, 74, 80, 71],
        }
    }

    /// The name of the variant, as text.
    pub fn name(self) -> (r: &'static str)
        ensures
            r@ == self.label(),
    {
        match self {
            PixelFormat::Yuy2 => "Yuy2",
            PixelFormat::Rgb24 => "Rgb24",
            PixelFormat::Nv12 => "Nv12",
            PixelFormat::Mjpeg => "Mjpeg",
        }
    }

    /// Exact buffer size for packed formats, `None` for variable-size (MJPEG).
    pub fn packed_size(self, width: u32, height: u32) -> (size: Option<usize>)
        requires
            self.packed_peak(width, height) <= usize::MAX,
        ensures
            match self.packed_bytes(width, height) {
                Some(n) => size == Some(n as usize) && n == n as usize,
                None => size is None,
            },
    {
        assert(0 <= width as int * height as int) by (nonlinear_arith);
        let px: usize = pixel_count(width, height) as usize;
        match self {
            PixelFormat::Yuy2 => Some(px * 2),
            PixelFormat::Rgb24 => Some(px * 3),
            PixelFormat::Nv12 => Some(px * 3 / 2),
            PixelFormat::Mjpeg => None,
        }
    }

    /// Whether `len` is the exact buffer size of a packed format. Never true of
    /// a compressed format.
    pub fn is_packed_len(self, len: usize, width: u32, height: u32) -> (r: bool)
        ensures
            r == (self.packed_bytes(width, height) == Some(len as int)),
    {
        let px: u128 = pixel_count(width, height) as u128;
        match self {
            PixelFormat::Yuy2 => len as u128 == px * 2,
            PixelFormat::Rgb24 => len as u128 == px * 3,
            PixelFormat::Nv12 => len as u128 == px * 3 / 2,
            PixelFormat::Mjpeg => false,
        }
    }
}

/// No two formats share a fourcc.
pub proof fn law_fourcc_injective(a: PixelFormat, b: PixelFormat)
    requires
        a.code() == b.code(),
    ensures
        a == b,
{
    assert(a.code()[0] == b.code()[0]);
}

/// Buffers of exactly the packed size are accepted by every converter, for
/// every picture with even, non-zero dimensions.
pub proof fn law_packed_buffers_convert(width: u32, height: u32)
    requires
        width > 0,
        height > 0,
        width % 2 == 0,
        height % 2 == 0,
    ensures
        ({
            let yuy2 = PixelFormat::Yuy2.packed_bytes(width, height).unwrap() as nat;
            let rgb = PixelFormat::Rgb24.packed_bytes(width, height).unwrap() as nat;
            let nv12 = PixelFormat::Nv12.packed_bytes(width, height).unwrap() as nat;
            &&& crate::convert::yuy2_to_rgb24_fits(yuy2, rgb, width, height)
            &&& crate::convert::nv12_to_rgb24_fits(nv12, rgb, width, height)
            &&& crate::convert::rgb24_to_nv12_fits(rgb, nv12, width, height)
            &&& crate::convert::rgb24_to_yuy2_fits(rgb, yuy2, width, height)
        }),
{
    assert(0 < width as int * height as int) by (nonlinear_arith)
        requires
            width > 0,
            height > 0,
    ;
    let w = width as int;
    let h = height as int;
    assert(w * h == 2 * ((h / 2 - 1) * w + w)) by (nonlinear_arith)
        requires
            h % 2 == 0,
    ;
    assert((h - 1) / 2 == h / 2 - 1);
    assert(crate::convert::nv12_chroma_span(width, height) == (h / 2 - 1) * w + w);
}

/// One video frame plus its reusable backing store.
pub struct Frame {
    /// Pre-allocated storage; reused across frames (never reallocated while
    /// the negotiated resolution is unchanged).
    pub buf: Vec<u8>,
    /// Valid bytes in `buf`.
    pub len: usize,
    pub width: u32,
    pub height: u32,
    pub format: PixelFormat,
    pub seq: u64,
    pub ts: Instant,
}

impl Frame {
    /// The valid bytes fit in the storage.
    pub open spec fn wf(self) -> bool {
        self.len <= self.buf@.len()
    }

    /// The valid bytes.
    pub open spec fn bytes(self) -> Seq<u8> {
        self.buf@.take(self.len as int)
    }

    /// `storage`, grown with zero bytes to at least `n` bytes.
    pub open spec fn grown(storage: Seq<u8>, n: nat) -> Seq<u8> {
        if storage.len() < n {
            storage + Seq::new((n - storage.len()) as nat, |i: int| 0u8)
        } else {
            storage
        }
    }

    /// An empty frame with `cap` bytes of zeroed storage.
    pub fn with_capacity(cap: usize) -> (frame: Self)
        ensures
            frame.wf(),
            frame.buf@ == Seq::new(cap as nat, |i: int| 0u8),
            frame.len == 0,
            frame.width == 0,
            frame.height == 0,
            frame.format == PixelFormat::Yuy2,
            frame.seq == 0,
    {
        Frame {
            buf: vec![0; cap],
            len: 0,
            width: 0,
            height: 0,
            format: PixelFormat::Yuy2,
            seq: 0,
            ts: Instant::now(),
        }
    }

    /// The valid bytes of the frame.
    pub fn payload(&self) -> (r: &[u8])
        requires
            self.wf(),
        ensures
            r@ == self.bytes(),
    {
        &self.buf[0..self.len]
    }

    /// Resize the slot if a newly negotiated format needs more room
    /// (allocation happens at most once per format change).
    pub fn reserve(&mut self, n: usize)
        ensures
            final(self).buf@ == Self::grown(old(self).buf@, n as nat),
            final(self).len == old(self).len,
            final(self).width == old(self).width,
            final(self).height == old(self).height,
            final(self).format == old(self).format,
            final(self).seq == old(self).seq,
            final(self).ts == old(self).ts,
    {
        if self.buf.len() < n {
            self.buf.resize(n, 0);
            assert(self.buf@ =~= Self::grown(old(self).buf@, n as nat));
        }
    }

    /// Grow if needed and set the valid length. Returns the writable payload.
    pub fn payload_mut(&mut self, n: usize) -> (r: &mut [u8])
        ensures
            r@ == Self::grown(old(self).buf@, n as nat).take(n as int),
            final(self).buf@ == final(r)@ + Self::grown(old(self).buf@, n as nat).skip(n as int),
            final(r)@.len() == r@.len() ==> final(self).wf(),
            final(self).len == n,
            final(self).width == old(self).width,
            final(self).height == old(self).height,
            final(self).format == old(self).format,
            final(self).seq == old(self).seq,
            final(self).ts == old(self).ts,
    {
        self.reserve(n);
        self.len = n;
        let (head, _tail) = self.buf.as_mut_slice().split_at_mut(n);
        head
    }

    /// Copies `src` in as the payload.
    pub fn set_payload(&mut self, src: &[u8])
        ensures
            final(self).wf(),
            final(self).bytes() == src@,
            final(self).len == src@.len(),
            final(self).width == old(self).width,
            final(self).height == old(self).height,
            final(self).format == old(self).format,
            final(self).seq == old(self).seq,
            final(self).ts == old(self).ts,
    {
        assert(src@.len() == src.len());
        copy_bytes(src, self.payload_mut(src.len()));
        assert(self.buf@.take(src@.len() as int) =~= src@);
    }
}

/// Copies `src` over the start of `dst`.
pub fn copy_bytes(src: &[u8], dst: &mut [u8])
    requires
        src@.len() <= old(dst)@.len(),
    ensures
        final(dst)@ == src@ + old(dst)@.skip(src@.len() as int),
        final(dst)@.len() == old(dst)@.len(),
{
    let n: usize = src.len();
    let ghost before = dst@;
    for i in 0..n
        invariant
            n == src@.len(),
            n <= before.len(),
            dst@ == src@.take(i as int) + before.skip(i as int),
    {
        assert(dst@.len() == before.len());
        dst[i] = src[i];
        assert(dst@ =~= src@.take(i + 1) + before.skip(i + 1));
    }
    assert(src@.take(n as int) =~= src@);
}

/// A slot that waits in the pool: a frame without valid bytes.
pub struct FreeSlot {
    frame: Frame,
}

impl FreeSlot {
    #[verifier::type_invariant]
    spec fn empty(self) -> bool {
        self.frame.len == 0
    }

    /// The frame in the slot.
    pub closed spec fn held(self) -> Frame {
        self.frame
    }

    /// A slot with this frame in it, its payload emptied.
    pub fn emptied(frame: Frame) -> (r: Self)
        ensures
            r.held() == (Frame { len: 0, ..frame }),
    {
        let mut frame = frame;
        frame.len = 0;
        FreeSlot { frame }
    }
}

/// The frame of a slot that was received from the pool, if one was. It has no
/// payload.
pub fn acquired(received: Option<FreeSlot>) -> (r: Option<Frame>)
    ensures
        match received {
            Some(slot) => {
                &&& r == Some(slot.held())
                &&& slot.held().wf()
                &&& slot.held().len == 0
                &&& slot.held().bytes() == Seq::<u8>::empty()
            },
            None => r is None,
        },
{
    match received {
        Some(slot) => {
            proof {
                use_type_invariant(&slot);
            }
            assert(slot.frame.bytes() =~= Seq::<u8>::empty());
            Some(slot.frame)
        },
        None => None,
    }
}

/// The frame that is left over after its slot was sent to the pool: that of the
/// slot, if it was not taken.
pub fn left_over(sent: Result<(), FreeSlot>) -> (r: Option<Frame>)
    ensures
        match sent {
            Ok(()) => r is None,
            Err(slot) => r == Some(slot.held()),
        },
{
    match sent {
        Ok(()) => None,
        Err(slot) => Some(slot.frame),
    }
}

/// The frames of slots.
pub open spec fn frames_of(slots: Seq<FreeSlot>) -> Seq<Frame> {
    slots.map_values(|s: FreeSlot| s.held())
}

/// Both ends of a bounded channel that nobody else has an end of. Its contents can
/// only change through the one owner; those of a channel whose ends are shared can
/// change at any time.
#[verifier::external_body]
pub struct OwnChannel {
    tx: Sender<FreeSlot>,
    rx: Receiver<FreeSlot>,
}

/// What waits in a channel, in the order in which it was sent.
pub uninterp spec fn waiting(channel: OwnChannel) -> Seq<FreeSlot>;

/// The number of messages that a channel was made for.
pub uninterp spec fn slot_limit(channel: OwnChannel) -> nat;

/// What waited in the channel of a sender when its ends were handed out.
pub uninterp spec fn sender_stock(tx: Sender<FreeSlot>) -> Seq<FreeSlot>;

/// What waited in the channel of a receiver when its ends were handed out.
pub uninterp spec fn receiver_stock(rx: Receiver<FreeSlot>) -> Seq<FreeSlot>;

/// The number of messages that the channel of a sender was made for.
pub uninterp spec fn sender_limit(tx: Sender<FreeSlot>) -> nat;

/// `crossbeam_channel::bounded`: an empty channel that holds at most `slots`
/// messages. The bound on `slots` keeps the array that the channel allocates within
/// what can be addressed.
#[verifier::external_body]
fn bounded_slots(slots: usize) -> (channel: OwnChannel)
    requires
        slots * 128 <= isize::MAX,
    ensures
        slot_limit(channel) == slots,
        waiting(channel) == Seq::<FreeSlot>::empty(),
{
    let (tx, rx) = crossbeam_channel::bounded(slots);
    OwnChannel { tx, rx }
}

/// `Sender::try_send`, on a channel of one's own: a message is taken, behind those
/// that wait, if there is room for it, and comes back unchanged if there is none.
#[verifier::external_body]
fn send_own(channel: &mut OwnChannel, slot: FreeSlot) -> (r: Result<(), FreeSlot>)
    ensures
        slot_limit(*final(channel)) == slot_limit(*old(channel)),
        if waiting(*old(channel)).len() < slot_limit(*old(channel)) {
            r is Ok && waiting(*final(channel)) == waiting(*old(channel)).push(slot)
        } else {
            r == Err::<(), FreeSlot>(slot) && waiting(*final(channel)) == waiting(*old(channel))
        },
{
    channel.tx.try_send(slot).map_err(|e| e.into_inner())
}

/// `Receiver::try_recv`, on a channel of one's own: the message that waits longest,
/// if there is one.
#[verifier::external_body]
fn recv_own(channel: &mut OwnChannel) -> (r: Option<FreeSlot>)
    ensures
        slot_limit(*final(channel)) == slot_limit(*old(channel)),
        if waiting(*old(channel)).len() > 0 {
            r == Some(waiting(*old(channel))[0]) && waiting(*final(channel)) == waiting(
                *old(channel),
            ).drop_first()
        } else {
            r is None && waiting(*final(channel)) == waiting(*old(channel))
        },
{
    channel.rx.try_recv().ok()
}

/// The two ends of a `crossbeam_channel` channel, to be shared from here on. Both
/// lead to what waits in it now.
#[verifier::external_body]
fn hand_out(channel: OwnChannel) -> (ends: (Sender<FreeSlot>, Receiver<FreeSlot>))
    ensures
        sender_stock(ends.0) == waiting(channel),
        receiver_stock(ends.1) == waiting(channel),
        sender_limit(ends.0) == slot_limit(channel),
{
    (channel.tx, channel.rx)
}

/// `Sender::try_send`: sends without waiting; a message that is not taken comes
/// back unchanged. Whether it is taken depends on what other threads did with
/// the channel, and is left open.
#[verifier::external_body]
fn try_send_slot(tx: &Sender<FreeSlot>, slot: FreeSlot) -> (r: Result<(), FreeSlot>)
    ensures
        r matches Err(back) ==> back == slot,
{
    tx.try_send(slot).map_err(|e| e.into_inner())
}

/// `Receiver::try_recv`: takes a message without waiting, if there is one. Which
/// one, and whether there is one, depends on what other threads did with the
/// channel, and is left open.
#[verifier::external_body]
fn try_recv_slot(rx: &Receiver<FreeSlot>) -> (r: Option<FreeSlot>) {
    rx.try_recv().ok()
}

/// `Sender::clone`: another sender of the same channel.
#[verifier::external_body]
fn clone_sender(tx: &Sender<FreeSlot>) -> (r: Sender<FreeSlot>)
    ensures
        sender_stock(r) == sender_stock(*tx),
        sender_limit(r) == sender_limit(*tx),
{
    tx.clone()
}

/// `Receiver::clone`: another receiver of the same channel.
#[verifier::external_body]
fn clone_receiver(rx: &Receiver<FreeSlot>) -> (r: Receiver<FreeSlot>)
    ensures
        receiver_stock(r) == receiver_stock(*rx),
{
    rx.clone()
}

/// What an acquisition gives, and the free frames after it: the frame that was free
/// for longest.
pub open spec fn after_acquire(free: Seq<Frame>) -> (Option<Frame>, Seq<Frame>) {
    if free.len() > 0 {
        (Some(free[0]), free.drop_first())
    } else {
        (None, free)
    }
}

/// What is left over of a release, and the free frames after it: the frame waits
/// behind the others, without its payload, if the pool has room for it.
pub open spec fn after_release(free: Seq<Frame>, capacity: nat, frame: Frame) -> (
    Option<Frame>,
    Seq<Frame>,
) {
    let slot = Frame { len: 0, ..frame };
    if free.len() < capacity {
        (None, free.push(slot))
    } else {
        (Some(slot), free)
    }
}

/// A pool that one caller has to itself: nobody else takes or returns slots.
pub struct OwnPool {
    channel: OwnChannel,
}

impl OwnPool {
    /// The free frames, in the order in which they are handed out.
    pub closed spec fn free(self) -> Seq<Frame> {
        frames_of(waiting(self.channel))
    }

    /// The number of slots that the pool has room for.
    pub closed spec fn capacity(self) -> nat {
        slot_limit(self.channel)
    }

    /// A pool of `slots` free slots with `slot_bytes` bytes of storage each.
    pub fn new(slots: usize, slot_bytes: usize) -> (pool: Self)
        requires
            slots * 128 <= isize::MAX,
        ensures
            pool.capacity() == slots,
            pool.free().len() == slots,
            forall|i: int| 0 <= i < slots ==> is_blank(#[trigger] pool.free()[i], slot_bytes as nat),
    {
        let mut channel = bounded_slots(slots);
        for i in 0..slots
            invariant
                slot_limit(channel) == slots,
                waiting(channel).len() == i,
                forall|k: int|
                    0 <= k < i ==> is_blank(
                        (#[trigger] waiting(channel)[k]).held(),
                        slot_bytes as nat,
                    ),
        {
            let _ = send_own(&mut channel, FreeSlot::emptied(Frame::with_capacity(slot_bytes)));
        }
        OwnPool { channel }
    }

    /// Takes the slot that was free for longest; `None` if every slot is in flight.
    pub fn try_acquire(&mut self) -> (r: Option<Frame>)
        ensures
            (r, final(self).free()) == after_acquire(old(self).free()),
            final(self).capacity() == old(self).capacity(),
    {
        let ghost before = waiting(self.channel);
        let received = recv_own(&mut self.channel);
        assert(frames_of(before.drop_first()) =~= frames_of(before).drop_first() || before.len()
            == 0);
        acquired(received)
    }

    /// Returns a slot to the pool, its payload emptied.
    pub fn release(&mut self, frame: Frame) -> (left: Option<Frame>)
        ensures
            (left, final(self).free()) == after_release(
                old(self).free(),
                old(self).capacity(),
                frame,
            ),
            final(self).capacity() == old(self).capacity(),
    {
        let ghost before = waiting(self.channel);
        let slot = FreeSlot::emptied(frame);
        assert(frames_of(before.push(slot)) =~= frames_of(before).push(slot.held()));
        left_over(send_own(&mut self.channel, slot))
    }

    /// The same pool, to be shared between threads.
    pub fn share(self) -> (pool: BufferPool)
        ensures
            pool.capacity() == self.capacity(),
            frames_of(pool.stock()) == self.free(),
    {
        let (free_tx, free_rx) = hand_out(self.channel);
        BufferPool { free_tx, free_rx }
    }
}

/// A frame with `bytes` zero bytes of storage and no payload.
pub open spec fn is_blank(frame: Frame, bytes: nat) -> bool {
    &&& frame.len == 0
    &&& frame.buf@ == Seq::new(bytes, |k: int| 0u8)
}

/// The free frames after `n` acquisitions in a row.
pub open spec fn after_acquires(free: Seq<Frame>, n: nat) -> Seq<Frame>
    decreases n,
{
    if n == 0 {
        free
    } else {
        after_acquire(after_acquires(free, (n - 1) as nat)).1
    }
}

/// A pool hands out exactly the slots that are free, each once and in order: the
/// `n`-th acquisition in a row, counted from zero, gives the `n`-th of them, and
/// gives nothing exactly when all of them are in flight.
pub proof fn law_every_slot_is_handed_out_once(free: Seq<Frame>, n: nat)
    ensures
        after_acquires(free, n) == if n <= free.len() {
            free.skip(n as int)
        } else {
            Seq::<Frame>::empty()
        },
        after_acquire(after_acquires(free, n)).0 == if n < free.len() {
            Some(free[n as int])
        } else {
            None
        },
    decreases n,
{
    if n > 0 {
        law_every_slot_is_handed_out_once(free, (n - 1) as nat);
        if n <= free.len() {
            assert(free.skip(n - 1).drop_first() =~= free.skip(n as int));
        }
    }
    if n >= free.len() {
        assert(after_acquires(free, n) =~= Seq::<Frame>::empty());
    } else {
        assert(after_acquires(free, n) =~= free.skip(n as int));
    }
}

/// Slots are conserved: where the free slots and those in flight make up the pool,
/// an acquisition moves one over exactly when one is free, and the release of one in
/// flight never fails and moves it back. The released frame is the last that a row
/// of acquisitions gives, with its storage and stamp, and without its payload.
pub proof fn law_slots_are_conserved(
    free: Seq<Frame>,
    in_flight: nat,
    capacity: nat,
    frame: Frame,
)
    requires
        free.len() + in_flight == capacity,
    ensures
        after_acquire(free).0 is None <==> in_flight == capacity,
        after_acquire(free).0 is Some ==> after_acquire(free).1.len() + (in_flight + 1) == capacity,
        in_flight > 0 ==> {
            let (left, after) = after_release(free, capacity, frame);
            &&& left is None
            &&& after.len() + (in_flight - 1) == capacity
            &&& after_acquire(after_acquires(after, free.len())).0 == Some(
                Frame { len: 0, ..frame },
            )
            &&& after_acquire(after_acquires(after, free.len() + 1)).0 is None
        },
{
    if in_flight > 0 {
        let after = after_release(free, capacity, frame).1;
        law_every_slot_is_handed_out_once(after, free.len());
        law_every_slot_is_handed_out_once(after, free.len() + 1);
    }
}

/// Fixed-size pool of reusable `Frame` slots.
///
/// `release` never blocks and never fails: the channel capacity equals the
/// number of slots ever created, so there is always room to return a slot.
pub struct BufferPool {
    free_tx: Sender<FreeSlot>,
    free_rx: Receiver<FreeSlot>,
}

impl BufferPool {
    #[verifier::type_invariant]
    spec fn one_channel(self) -> bool {
        sender_stock(self.free_tx) == receiver_stock(self.free_rx)
    }

    /// The number of slots that the pool has room for.
    pub closed spec fn capacity(self) -> nat {
        sender_limit(self.free_tx)
    }

    /// The slots that the pool was made with. Every handle on a pool has the same.
    pub closed spec fn stock(self) -> Seq<FreeSlot> {
        receiver_stock(self.free_rx)
    }

    /// A pool of `slots` free slots with `slot_bytes` bytes of storage each.
    pub fn new(slots: usize, slot_bytes: usize) -> (pool: Self)
        requires
            slots * 128 <= isize::MAX,
        ensures
            pool.capacity() == slots,
            pool.stock().len() == slots,
            forall|i: int|
                0 <= i < slots ==> is_blank(
                    (#[trigger] pool.stock()[i]).held(),
                    slot_bytes as nat,
                ),
    {
        let own = OwnPool::new(slots, slot_bytes);
        let pool = own.share();
        assert forall|i: int| 0 <= i < slots implies is_blank(
            (#[trigger] pool.stock()[i]).held(),
            slot_bytes as nat,
        ) by {
            assert(frames_of(pool.stock())[i] == own.free()[i]);
        }
        pool
    }

    /// Non-blocking acquisition; `None` means every slot is in flight
    /// (the sink is behind) and the caller should drop the frame. An acquired
    /// slot never holds bytes of an earlier frame as its payload. Whether a slot is
    /// free depends on the other threads that share the pool, and is left open;
    /// `acquired` says what comes of either case.
    pub fn try_acquire(&self) -> (r: Option<Frame>)
        ensures
            r matches Some(frame) ==> frame.wf() && frame.len == 0 && frame.bytes() == Seq::<
                u8,
            >::empty(),
    {
        acquired(try_recv_slot(&self.free_rx))
    }

    /// Returns a slot to the pool, its payload emptied. A frame that the pool
    /// has no room for is handed back to be dropped: the pool is sized to hold
    /// every slot, so this takes a frame that the pool never handed out. What other
    /// threads returned is left open here; `left_over` says what comes of either
    /// case.
    pub fn release(&self, frame: Frame) -> (dropped: Option<Frame>)
        ensures
            dropped matches Some(back) ==> back == (Frame { len: 0, ..frame }),
    {
        left_over(try_send_slot(&self.free_tx, FreeSlot::emptied(frame)))
    }
}

impl Clone for BufferPool {
    /// A handle on the same pool.
    fn clone(&self) -> (r: Self)
        ensures
            r.capacity() == self.capacity(),
            r.stock() == self.stock(),
    {
        proof {
            use_type_invariant(self);
        }
        BufferPool {
            free_tx: clone_sender(&self.free_tx),
            free_rx: clone_receiver(&self.free_rx),
        }
    }
}

// ---------------------------------------------------------------------------
// Laws of formats and storage
// ---------------------------------------------------------------------------

/// A fourcc is the four letters that V4L2 knows the format by.
pub proof fn law_fourcc_letters()
    ensures
        PixelFormat::Yuy2.code() == seq!['Y' as u8, 'U' as u8, 'Y' as u8, 'V' as u8],
        PixelFormat::Rgb24.code() == seq!['R' as u8, 'G' as u8, 'B' as u8, '3' as u8],
        PixelFormat::Nv12.code() == seq!['N' as u8, 'V' as u8, '1' as u8, '2' as u8],
        PixelFormat::Mjpeg.code() == seq!['M' as u8, 'J' as u8, 'P' as u8, 'G' as u8],
{
}

/// Every format has a name of its own, and a wire format has the name of the
/// preference that asks for it.
pub proof fn law_format_names(a: PixelFormat, b: PixelFormat)
    ensures
        a.label() == b.label() ==> a == b,
        PixelFormat::Yuy2.label() == crate::config::FormatPref::Yuy2.label(),
        PixelFormat::Rgb24.label() == crate::config::FormatPref::Rgb24.label(),
        PixelFormat::Nv12.label() == crate::config::FormatPref::Nv12.label(),
        PixelFormat::Mjpeg.label() == crate::config::FormatPref::Mjpeg.label(),
        PixelFormat::Yuy2.label() == "Yuy2"@,
        PixelFormat::Rgb24.label() == "Rgb24"@,
        PixelFormat::Nv12.label() == "Nv12"@,
        PixelFormat::Mjpeg.label() == "Mjpeg"@,
        crate::config::FormatPref::Auto.label() == "Auto"@,
{
    reveal_strlit("Yuy2");
    reveal_strlit("Rgb24");
    reveal_strlit("Nv12");
    reveal_strlit("Mjpeg");
    assert("Yuy2"@[0] == 'Y' && "Rgb24"@[0] == 'R' && "Nv12"@[0] == 'N' && "Mjpeg"@[0] == 'M');
}

/// A packed picture has the size of what the converters produce, two bytes per pixel
/// of YUY2, three of RGB24 and three for every two pixels of NV12. A compressed
/// picture has no fixed size. Sizes grow with the picture, row by row.
pub proof fn law_packed_sizes(width: u32, height: u32, more: u32, data: Seq<u8>)
    requires
        height + more <= u32::MAX,
    ensures
        PixelFormat::Yuy2.packed_bytes(width, height) == Some(2 * (width * height)),
        PixelFormat::Rgb24.packed_bytes(width, height) == Some(3 * (width * height)),
        PixelFormat::Nv12.packed_bytes(width, height) == Some((3 * (width * height)) / 2),
        PixelFormat::Mjpeg.packed_bytes(width, height) is None,
        PixelFormat::Yuy2.packed_bytes(width, height) == Some(
            crate::convert::rgb_yuy2_picture(data, width, height).len() as int,
        ),
        PixelFormat::Nv12.packed_bytes(width, height) == Some(
            crate::convert::rgb_nv12_picture(data, width, height).len() as int,
        ),
        PixelFormat::Rgb24.packed_bytes(width, height) == Some(
            crate::convert::yuy2_rgb_picture(data, width, height).len() as int,
        ),
        PixelFormat::Yuy2.packed_bytes(width, (height + more) as u32)->Some_0
            == PixelFormat::Yuy2.packed_bytes(width, height)->Some_0 + 2 * (width * more),
        PixelFormat::Rgb24.packed_bytes(width, (height + more) as u32)->Some_0
            == PixelFormat::Rgb24.packed_bytes(width, height)->Some_0 + 3 * (width * more),
{
    assert(0 <= width as int * height as int) by (nonlinear_arith);
    assert(width as int * (height + more) == width as int * height as int + width as int
        * more as int) by (nonlinear_arith);
    crate::convert::law_picture_sizes(data, width, height);
}

/// Computing the packed size never goes through a number above three bytes per
/// pixel, nor below the size itself.
pub proof fn law_packed_peak(format: PixelFormat, width: u32, height: u32)
    ensures
        width * height <= format.packed_peak(width, height) <= 3 * (width * height),
        format.packed_bytes(width, height) matches Some(n) ==> 0 <= n <= format.packed_peak(
            width,
            height,
        ),
{
    assert(0 <= width as int * height as int) by (nonlinear_arith);
}

/// Growing storage keeps what is in it and adds zero bytes, up to the size that was
/// asked for; it never shrinks, and growing again to no more changes nothing.
pub proof fn law_storage_only_grows(storage: Seq<u8>, n: nat, m: nat)
    ensures
        ({
            let after = Frame::grown(storage, n);
            &&& after.len() >= storage.len()
            &&& after.len() >= n
            &&& after.len() == storage.len() || after.len() == n
            &&& after.take(storage.len() as int) == storage
            &&& forall|i: int| storage.len() <= i < after.len() ==> #[trigger] after[i] == 0
            &&& m <= n ==> Frame::grown(after, m) == after
            &&& m >= n ==> Frame::grown(after, m) == Frame::grown(storage, m)
        }),
{
    let after = Frame::grown(storage, n);
    assert(after.take(storage.len() as int) =~= storage);
    assert(Frame::grown(after, m) =~= if m <= n {
        after
    } else {
        Frame::grown(storage, m)
    });
}

/// The payload is the first `len` bytes of the storage.
pub proof fn law_payload_is_a_prefix(frame: Frame, i: int)
    requires
        frame.wf(),
    ensures
        frame.bytes().len() == frame.len,
        0 <= i < frame.len ==> frame.bytes()[i] == frame.buf@[i],
{
}

/// A pool that is full hands a foreign frame back emptied and stays as it is; with
/// room, the frames that were free keep their places before the new one.
pub proof fn law_release_keeps_the_order(free: Seq<Frame>, capacity: nat, frame: Frame, i: int)
    ensures
        free.len() >= capacity ==> after_release(free, capacity, frame) == (
            Some(Frame { len: 0, ..frame }),
            free,
        ),
        free.len() < capacity ==> {
            let (left, after) = after_release(free, capacity, frame);
            &&& left is None
            &&& after.len() == free.len() + 1
            &&& after.last() == (Frame { len: 0, ..frame })
            &&& 0 <= i < free.len() ==> after[i] == free[i]
        },
{
}

/// A blank slot has no payload, and storage of the given size that holds only zero
/// bytes.
pub proof fn law_blank_slots_are_zeroed(frame: Frame, bytes: nat, i: int)
    requires
        is_blank(frame, bytes),
    ensures
        frame.wf(),
        frame.bytes().len() == 0,
        frame.buf@.len() == bytes,
        0 <= i < bytes ==> frame.buf@[i] == 0,
{
}

} // verus!
