use vcam_proxy::capture::{
    accept_formats, after_read, after_send, capture_buffer, capture_decoded, fill, fill_rgb,
    fill_slot, fill_slot_decoded, finish_frame, is_decodable, is_jpeg_needed, max_mode, next_camera_step, open_plan,
    CameraEvent, CameraMode, CameraStep, Captured,
    FrameStep, OpenPlan, ReadOutcome, ReadStep, SendOutcome, SendStep, SourceFormat,
};
use vcam_proxy::config::{FormatPref, ResolvedConfig};
use vcam_proxy::frame::{
    acquired, left_over, BufferPool, Frame, FreeSlot, OwnPool, PixelFormat,
};
use vcam_proxy::settings::Settings;

#[test]
fn fourcc_codes() {
    assert_eq!(&PixelFormat::Yuy2.fourcc(), b"YUYV");
    assert_eq!(&PixelFormat::Rgb24.fourcc(), b"RGB3");
    assert_eq!(&PixelFormat::Nv12.fourcc(), b"NV12");
    assert_eq!(&PixelFormat::Mjpeg.fourcc(), b"MJPG");
}

#[test]
fn packed_sizes() {
    assert_eq!(PixelFormat::Yuy2.packed_size(1280, 720), Some(1_843_200));
    assert_eq!(PixelFormat::Rgb24.packed_size(1280, 720), Some(2_764_800));
    assert_eq!(PixelFormat::Nv12.packed_size(1280, 720), Some(1_382_400));
    assert_eq!(PixelFormat::Nv12.packed_size(3, 3), Some(13));
    assert_eq!(PixelFormat::Mjpeg.packed_size(1280, 720), None);
    assert!(PixelFormat::Yuy2.is_packed_len(8, 2, 2));
    assert!(!PixelFormat::Yuy2.is_packed_len(9, 2, 2));
    assert!(!PixelFormat::Mjpeg.is_packed_len(0, 0, 0));
    assert!(!PixelFormat::Rgb24.is_packed_len(1, u32::MAX, u32::MAX));
}

#[test]
fn frames_grow_but_never_shrink() {
    let mut frame = Frame::with_capacity(4);
    assert_eq!((frame.buf.len(), frame.len), (4, 0));
    assert!(frame.payload().is_empty());
    frame.reserve(2);
    assert_eq!(frame.buf.len(), 4);
    frame.payload_mut(6).copy_from_slice(&[1, 2, 3, 4, 5, 6]);
    assert_eq!(frame.payload(), [1, 2, 3, 4, 5, 6]);
    frame.payload_mut(2)[0] = 9;
    assert_eq!(frame.payload(), [9, 2]);
    assert_eq!(frame.buf, [9, 2, 3, 4, 5, 6]);
    frame.set_payload(&[7]);
    assert_eq!(frame.payload(), [7]);
    assert_eq!(frame.buf.len(), 6);
}

#[test]
fn the_pool_hands_out_every_slot_once() {
    let pool = BufferPool::new(2, 16);
    let other = pool.clone();
    let a = pool.try_acquire().unwrap();
    let mut b = other.try_acquire().unwrap();
    assert_eq!((a.buf.len(), b.buf.len()), (16, 16));
    assert!(pool.try_acquire().is_none());
    b.set_payload(&[1, 2, 3]);
    assert!(other.release(b).is_none());
    let b = pool.try_acquire().unwrap();
    assert_eq!(b.len, 0);
    assert!(pool.try_acquire().is_none());
    assert!(pool.release(a).is_none());
    assert!(pool.release(b).is_none());
    // A frame that the pool never handed out comes back emptied.
    let mut stray = Frame::with_capacity(1);
    stray.set_payload(&[5]);
    let back = pool.release(stray).unwrap();
    assert_eq!((back.len, back.buf.len()), (0, 1));
}

#[test]
fn an_empty_pool_has_no_slot() {
    let pool = BufferPool::new(0, 16);
    assert!(pool.try_acquire().is_none());
}

fn filled(
    format: SourceFormat,
    src: &[u8],
    w: u32,
    h: u32,
    pref: FormatPref,
) -> Result<Option<(PixelFormat, Vec<u8>)>, String> {
    let mut frame = Frame::with_capacity(0);
    let mut scratch = Vec::new();
    let ok = fill(&mut frame, format, src, w, h, pref, &mut scratch)?;
    Ok(if ok { Some((frame.format, frame.payload().to_vec())) } else { None })
}

#[test]
fn yuyv_passes_through_exactly() {
    let src = [16, 128, 235, 128];
    for pref in [FormatPref::Auto, FormatPref::Yuy2] {
        assert_eq!(
            filled(SourceFormat::Yuyv, &src, 2, 1, pref),
            Ok(Some((PixelFormat::Yuy2, src.to_vec())))
        );
        // Strided or short buffers are skipped.
        assert_eq!(filled(SourceFormat::Yuyv, &src, 2, 2, pref), Ok(None));
        assert_eq!(filled(SourceFormat::Yuyv, &[0; 5], 2, 1, pref), Ok(None));
    }
    assert_eq!(
        filled(SourceFormat::Yuyv, &src, 2, 1, FormatPref::Rgb24),
        Ok(Some((PixelFormat::Rgb24, vec![0, 0, 0, 255, 255, 255])))
    );
    assert_eq!(filled(SourceFormat::Yuyv, &[0], 2, 1, FormatPref::Rgb24), Ok(None));
    assert_eq!(filled(SourceFormat::Yuyv, &src, 2, 1, FormatPref::Nv12), Ok(None));
    assert_eq!(filled(SourceFormat::Yuyv, &src, 2, 1, FormatPref::Mjpeg), Ok(None));
}

#[test]
fn nv12_is_repacked_for_auto() {
    let src = [126, 126, 126, 126, 128, 128];
    assert_eq!(
        filled(SourceFormat::Nv12, &src, 2, 2, FormatPref::Nv12),
        Ok(Some((PixelFormat::Nv12, src.to_vec())))
    );
    assert_eq!(
        filled(SourceFormat::Nv12, &src, 2, 2, FormatPref::Rgb24),
        Ok(Some((PixelFormat::Rgb24, vec![128; 12])))
    );
    assert_eq!(
        filled(SourceFormat::Nv12, &src, 2, 2, FormatPref::Auto),
        Ok(Some((PixelFormat::Yuy2, vec![126, 128, 126, 128, 126, 128, 126, 128])))
    );
    assert_eq!(filled(SourceFormat::Nv12, &src[..5], 2, 2, FormatPref::Auto), Ok(None));
    assert_eq!(filled(SourceFormat::Nv12, &src, 2, 2, FormatPref::Yuy2), Ok(None));
    assert_eq!(filled(SourceFormat::Nv12, &src, 2, 2, FormatPref::Mjpeg), Ok(None));
}

#[test]
fn mjpeg_passes_through_when_asked_for() {
    assert_eq!(
        filled(SourceFormat::Mjpeg, &[1, 2, 3], 2, 2, FormatPref::Mjpeg),
        Ok(Some((PixelFormat::Mjpeg, vec![1, 2, 3])))
    );
    assert!(!is_jpeg_needed(SourceFormat::Mjpeg, FormatPref::Mjpeg));
    assert!(is_jpeg_needed(SourceFormat::Mjpeg, FormatPref::Auto));
    assert!(!is_jpeg_needed(SourceFormat::Yuyv, FormatPref::Auto));
}

#[test]
fn gray_is_tripled() {
    assert_eq!(
        filled(SourceFormat::Gray, &[1, 2, 3, 4], 2, 2, FormatPref::Rgb24),
        Ok(Some((PixelFormat::Rgb24, vec![1, 1, 1, 2, 2, 2, 3, 3, 3, 4, 4, 4])))
    );
    assert_eq!(
        filled(SourceFormat::Gray, &[128; 4], 2, 2, FormatPref::Auto),
        Ok(Some((PixelFormat::Yuy2, vec![126, 128, 126, 128, 126, 128, 126, 128])))
    );
    assert_eq!(
        filled(SourceFormat::Gray, &[1, 2, 3], 2, 2, FormatPref::Rgb24),
        Err("Could not process frame GRAY to Luma => RGB: Bad buffer length".to_string())
    );
}

#[test]
fn raw_rgb_and_bgr_are_decoded() {
    let src = [1, 2, 3, 4, 5, 6, 7, 8, 9, 10, 11, 12];
    assert_eq!(
        filled(SourceFormat::RawRgb, &src, 2, 2, FormatPref::Rgb24),
        Ok(Some((PixelFormat::Rgb24, src.to_vec())))
    );
    assert_eq!(
        filled(SourceFormat::RawBgr, &src, 2, 2, FormatPref::Rgb24),
        Ok(Some((PixelFormat::Rgb24, vec![3, 2, 1, 6, 5, 4, 9, 8, 7, 12, 11, 10])))
    );
    assert_eq!(
        filled(SourceFormat::RawBgr, &src, 4, 1, FormatPref::Rgb24),
        Err("Could not process frame RAWBGR to RGB: bad resolution".to_string())
    );
    assert_eq!(
        filled(SourceFormat::RawBgr, &src[..6], 2, 2, FormatPref::Rgb24),
        Err("Could not process frame RAWBGR to RGB: bad input buffer size".to_string())
    );
    assert!(!is_decodable(SourceFormat::RawRgb, 11, 2, 2, FormatPref::Rgb24));
    assert!(is_decodable(SourceFormat::RawRgb, 12, 2, 2, FormatPref::Rgb24));
    assert!(!is_decodable(SourceFormat::RawBgr, 12, u32::MAX, 2, FormatPref::Rgb24));
    assert!(!is_decodable(SourceFormat::Yuyv, 4, u32::MAX, u32::MAX, FormatPref::Rgb24));
    assert!(is_decodable(SourceFormat::Yuyv, 4, u32::MAX, u32::MAX, FormatPref::Auto));
}

#[test]
fn decoded_pictures_are_packed() {
    let mut frame = Frame::with_capacity(0);
    let rgb = [128u8; 6];
    assert!(fill_rgb(&mut frame, &rgb, 2, 1, FormatPref::Auto));
    assert_eq!((frame.format, frame.payload()), (PixelFormat::Yuy2, &[126u8, 128, 126, 128][..]));
    assert!(fill_rgb(&mut frame, &rgb, 2, 1, FormatPref::Rgb24));
    assert_eq!((frame.format, frame.payload()), (PixelFormat::Rgb24, &rgb[..]));
    assert!(!fill_rgb(&mut frame, &rgb, 1, 2, FormatPref::Auto));
    assert_eq!(frame.format, PixelFormat::Rgb24);
}

#[test]
fn formats_are_asked_for_in_order() {
    assert_eq!(
        accept_formats(FormatPref::Auto),
        [SourceFormat::Yuyv, SourceFormat::Mjpeg, SourceFormat::Nv12]
    );
    assert_eq!(accept_formats(FormatPref::Yuy2), [SourceFormat::Yuyv]);
    assert_eq!(
        accept_formats(FormatPref::Rgb24),
        [SourceFormat::Mjpeg, SourceFormat::Yuyv, SourceFormat::Nv12]
    );
    assert_eq!(accept_formats(FormatPref::Nv12), [SourceFormat::Nv12]);
    assert_eq!(accept_formats(FormatPref::Mjpeg), [SourceFormat::Mjpeg]);
}

fn mode(width: u32, height: u32, fps: u32, format: SourceFormat) -> CameraMode {
    CameraMode { width, height, fps, format }
}

#[test]
fn the_largest_acceptable_mode_wins() {
    let modes = [
        mode(640, 480, 60, SourceFormat::Yuyv),
        mode(1280, 720, 10, SourceFormat::Yuyv),
        mode(1280, 720, 30, SourceFormat::Mjpeg),
        mode(720, 1280, 30, SourceFormat::Yuyv),
        mode(4096, 2160, 30, SourceFormat::Gray),
    ];
    let accept = accept_formats(FormatPref::Auto);
    // The last of those that tie.
    assert_eq!(max_mode(&modes, &accept), Some(modes[3]));
    assert_eq!(max_mode(&modes, &[SourceFormat::Mjpeg]), Some(modes[2]));
    assert_eq!(max_mode(&modes, &[SourceFormat::Nv12]), None);
    assert_eq!(max_mode(&[], &accept), None);
}

#[test]
fn cameras_are_opened_by_plan() {
    let mut cfg = ResolvedConfig::from_settings(&Settings::default());
    let best = mode(1920, 1080, 30, SourceFormat::Mjpeg);
    assert_eq!(open_plan(&cfg, &[best]), OpenPlan::Exact(best));
    let wanted = mode(1280, 720, 30, SourceFormat::Yuyv);
    assert_eq!(open_plan(&cfg, &[]), OpenPlan::Closest(wanted));
    cfg.auto_resolution = false;
    assert_eq!(open_plan(&cfg, &[best]), OpenPlan::Closest(wanted));
    cfg.format = FormatPref::Rgb24;
    assert_eq!(
        open_plan(&cfg, &[best]),
        OpenPlan::Closest(mode(1280, 720, 30, SourceFormat::Mjpeg))
    );
}

#[test]
fn reads_and_sends_decide_the_loop() {
    assert_eq!(after_read(ReadOutcome::Buffer, false), ReadStep::Process);
    assert_eq!(after_read(ReadOutcome::Buffer, true), ReadStep::Stop);
    assert_eq!(after_read(ReadOutcome::Transient, true), ReadStep::RetryAfter(5));
    assert_eq!(after_read(ReadOutcome::Lost, false), ReadStep::Reopen);
    assert_eq!(after_send(SendOutcome::Sent), SendStep::Continue);
    assert_eq!(after_send(SendOutcome::Full), SendStep::DropFrame);
    assert_eq!(after_send(SendOutcome::Disconnected), SendStep::Stop);
}

#[test]
fn captured_frames_are_numbered_from_one() {
    let pool = BufferPool::new(1, 4);
    let mut seq = 0u64;
    let mut scratch = Vec::new();
    let src = [16, 128, 235, 128];
    let step = capture_buffer(
        &pool,
        SourceFormat::Yuyv,
        &src,
        2,
        1,
        FormatPref::Auto,
        &mut scratch,
        &mut seq,
    );
    let frame = match step {
        Captured::Done(FrameStep::Send(frame)) => frame,
        _ => panic!("expected a frame"),
    };
    assert_eq!((frame.seq, seq), (1, 1));
    assert_eq!((frame.width, frame.height), (2, 1));
    assert_eq!(frame.payload(), src);
    assert!(matches!(
        capture_decoded(&pool, Err("bad".to_string()), &[0; 6], 2, 1, FormatPref::Auto, &mut seq),
        Captured::NoSlot
    ));
    pool.release(frame);
    match capture_decoded(
        &pool,
        Err("bad".to_string()),
        &[128; 6],
        2,
        1,
        FormatPref::Auto,
        &mut seq,
    ) {
        Captured::Done(FrameStep::Abort(frame, e)) => {
            assert_eq!((e.as_str(), seq), ("bad", 1));
            pool.release(frame);
        }
        _ => panic!("expected the failure"),
    }
    match capture_decoded(&pool, Ok(()), &[128; 6], 2, 1, FormatPref::Auto, &mut seq) {
        Captured::Done(FrameStep::Send(frame)) => {
            assert_eq!((frame.seq, frame.payload()), (2, &[126u8, 128, 126, 128][..]));
            pool.release(frame);
        }
        _ => panic!("expected a frame"),
    }
    let skipped = capture_buffer(
        &pool,
        SourceFormat::Yuyv,
        &src,
        2,
        1,
        FormatPref::Nv12,
        &mut scratch,
        &mut seq,
    );
    match skipped {
        Captured::Done(FrameStep::Release(frame)) => {
            pool.release(frame);
        }
        _ => panic!("expected a skip"),
    }
    assert_eq!(seq, 2);
    let failed = finish_frame(
        pool.try_acquire().unwrap(),
        Err("lost".to_string()),
        2,
        1,
        &mut seq,
    );
    assert!(matches!(failed, FrameStep::Abort(_, e) if e == "lost"));
    assert_eq!(seq, 2);
}

#[test]
fn a_pool_of_ones_own_conserves_its_slots() {
    let mut pool = OwnPool::new(2, 3);
    let mut a = pool.try_acquire().unwrap();
    let b = pool.try_acquire().unwrap();
    assert_eq!((&a.buf[..], a.len, &b.buf[..], b.len), (&[0; 3][..], 0, &[0; 3][..], 0));
    assert!(pool.try_acquire().is_none());
    a.set_payload(&[4, 5]);
    a.seq = 8;
    assert!(pool.release(a).is_none());
    assert!(pool.release(b).is_none());
    // There is no room for more than the pool was made for.
    let stray = pool.release(Frame::with_capacity(1)).unwrap();
    assert_eq!((stray.len, stray.buf.len()), (0, 1));
    // First in, first out; the storage and the stamp stay.
    let a = pool.try_acquire().unwrap();
    assert_eq!((a.len, a.seq, &a.buf[..]), (0, 8, &[4, 5, 0][..]));
    let shared = pool.share();
    assert!(shared.try_acquire().is_some());
    assert!(shared.try_acquire().is_none());
    assert!(OwnPool::new(0, 1).try_acquire().is_none());
    assert!(OwnPool::new(0, 1).release(a).is_some());
}

#[test]
fn the_camera_is_reopened_after_the_backoff() {
    let step = next_camera_step;
    assert_eq!(step(CameraEvent::Started, false, 1000), CameraStep::Open);
    assert_eq!(step(CameraEvent::Started, true, 1000), CameraStep::Stop);
    assert_eq!(step(CameraEvent::Ended, false, 1000), CameraStep::Wait(20));
    assert_eq!(step(CameraEvent::Ended, false, 0), CameraStep::Open);
    let waited = |elapsed_ms| CameraEvent::Waited { elapsed_ms };
    assert_eq!(step(waited(999), false, 1000), CameraStep::Wait(20));
    assert_eq!(step(waited(1000), false, 1000), CameraStep::Open);
    assert_eq!(step(waited(999), true, 1000), CameraStep::Stop);
}

#[test]
fn slots_wait_empty() {
    let slot = || {
        let mut frame = Frame::with_capacity(4);
        frame.set_payload(&[1, 2, 3]);
        frame.seq = 7;
        FreeSlot::emptied(frame)
    };
    let frame = acquired(Some(slot())).unwrap();
    assert_eq!((frame.len, frame.seq, frame.buf.len()), (0, 7, 4));
    assert!(acquired(None).is_none());
    let frame = left_over(Err(slot())).unwrap();
    assert_eq!((frame.len, frame.seq), (0, 7));
    assert!(left_over(Ok(())).is_none());
}

#[test]
fn a_slot_decides_whether_a_buffer_is_served() {
    let src = [10, 20, 30, 40];
    let mut scratch = Vec::new();
    let mut seq = 4u64;
    let mut wired = |slot, pref, seq: &mut u64| {
        fill_slot(slot, SourceFormat::Yuyv, &src, 2, 1, pref, &mut scratch, seq)
    };
    assert!(matches!(wired(None, FormatPref::Auto, &mut seq), Captured::NoSlot));
    assert_eq!(seq, 4);
    match wired(Some(Frame::with_capacity(0)), FormatPref::Auto, &mut seq) {
        Captured::Done(FrameStep::Send(frame)) => {
            assert_eq!((frame.seq, seq, frame.payload()), (5, 5, &src[..]));
            assert_eq!((frame.width, frame.height), (2, 1));
        }
        _ => panic!("expected a frame"),
    }
    let mut slot = Frame::with_capacity(0);
    slot.seq = 9;
    match wired(Some(slot), FormatPref::Nv12, &mut seq) {
        Captured::Done(FrameStep::Release(frame)) => assert_eq!((frame.seq, seq), (9, 5)),
        _ => panic!("expected a skip"),
    }
    let mut decoded = |slot, outcome| {
        fill_slot_decoded(slot, outcome, &[128; 6], 2, 1, FormatPref::Auto, &mut seq)
    };
    assert!(matches!(decoded(None, Err("bad".to_string())), Captured::NoSlot));
    match decoded(Some(Frame::with_capacity(0)), Err("bad".to_string())) {
        Captured::Done(FrameStep::Abort(_, e)) => assert_eq!(e, "bad"),
        _ => panic!("expected the failure"),
    }
    match decoded(Some(Frame::with_capacity(0)), Ok(())) {
        Captured::Done(FrameStep::Send(frame)) => {
            assert_eq!((frame.seq, frame.payload()), (6, &[126u8, 128, 126, 128][..]));
        }
        _ => panic!("expected a frame"),
    }
}
