use vcam_proxy::config::{ResolvedConfig, SinkKind};
use vcam_proxy::frame::{Frame, PixelFormat};
use vcam_proxy::pipeline::{
    on_received, on_written, report, sink_is_done, Received, Report, ReportMark, SinkStep, Stats,
    WriteTally,
};
use vcam_proxy::settings::Settings;
use vcam_proxy::sink::null::NullSink;
use vcam_proxy::sink::v4l2loop::active::{
    accept_format, buffer_error, check_driver, check_output, control_before_format,
    controls_after_format, write_output, LoopbackControl, Negotiated,
};
use vcam_proxy::sink::v4l2loop::multi_sink::V4l2LoopMultiSink;
use vcam_proxy::sink::v4l2loop::scaling::{fourcc_to_pixel_format, map_line, ScaleContext};
use vcam_proxy::sink::v4l2loop::sink::{Outgoing, V4l2LoopSink};
use vcam_proxy::sink::winpipe;
use vcam_proxy::sink::{build_with_path, Backend, Platform, Sink, SinkError, SinkErrorKind};

fn frame(width: u32, height: u32, format: PixelFormat, payload: &[u8]) -> Frame {
    let mut f = Frame::with_capacity(0);
    f.width = width;
    f.height = height;
    f.format = format;
    f.set_payload(payload);
    f
}

fn err(kind: SinkErrorKind) -> Result<(), SinkError> {
    Err(SinkError::new(kind, "x"))
}

#[test]
fn null_sink_counts() {
    let mut sink = NullSink::default();
    assert!(sink.write(&frame(1, 1, PixelFormat::Rgb24, &[1, 2, 3])).is_ok());
    assert!(sink.write(&frame(1, 1, PixelFormat::Rgb24, &[1, 2])).is_ok());
    assert_eq!((sink.frames, sink.bytes), (2, 5));
    assert_eq!(sink.describe(), "null");
}

#[test]
fn backends_depend_on_the_platform() {
    let mut cfg = ResolvedConfig::from_settings(&Settings::default());
    let build = |cfg: &ResolvedConfig, p| build_with_path(cfg, "/dev/video10", p);
    assert!(matches!(build(&cfg, Platform::Linux), Backend::V4l2 { path } if path == "/dev/video10"));
    assert!(matches!(build(&cfg, Platform::Windows), Backend::Pipe { name } if name == "vcam_proxy_0"));
    assert!(matches!(build(&cfg, Platform::Other), Backend::Null { substituted: false }));
    cfg.sink = SinkKind::V4l2;
    assert!(matches!(build(&cfg, Platform::Windows), Backend::Null { substituted: true }));
    cfg.sink = SinkKind::Pipe;
    assert!(matches!(build(&cfg, Platform::Linux), Backend::Null { substituted: true }));
    cfg.sink = SinkKind::Null;
    assert!(matches!(build(&cfg, Platform::Linux), Backend::Null { substituted: false }));
}

#[test]
fn lines_are_mapped_to_the_nearest() {
    assert_eq!(map_line(4, 8), [0, 0, 1, 1, 2, 2, 3, 3]);
    assert_eq!(map_line(6, 4), [0, 1, 3, 4]);
    assert!(map_line(4, 0).is_empty());
}

#[test]
fn nv12_is_scaled_plane_by_plane() {
    let src = [1, 2, 3, 4, 128, 129];
    let ctx = ScaleContext::new(2, 2, 4, 2);
    let mut dst = [0u8; 13];
    assert!(ctx.scale_nv12(&src, &mut dst));
    assert_eq!(dst, [1, 1, 2, 2, 3, 3, 4, 4, 128, 129, 128, 129, 0]);
    let same = ScaleContext::new(2, 2, 2, 2);
    let mut copy = [0u8; 6];
    assert!(same.scale_nv12(&src, &mut copy));
    assert_eq!(copy, src);
    assert!(!ctx.scale_nv12(&src[..5], &mut dst));
    assert!(!ctx.scale_nv12(&src, &mut copy));
    assert!(!ScaleContext::new(0, 0, 2, 2).scale_nv12(&src, &mut copy));
}

#[test]
fn a_solid_color_stays_that_color() {
    let red = [82, 82, 82, 82, 90, 240];
    let mut dst = [0u8; 12];
    assert!(ScaleContext::new(2, 2, 4, 2).scale_nv12(&red, &mut dst));
    assert_eq!(dst, [82, 82, 82, 82, 82, 82, 82, 82, 90, 240, 90, 240]);
    // Down again.
    let mut back = [0u8; 6];
    assert!(ScaleContext::new(4, 2, 2, 2).scale_nv12(&dst, &mut back));
    assert_eq!(back, red);
}

#[test]
fn odd_pictures_scale_within_their_bytes() {
    // One row has no chroma row of its own, but the buffer may hold one.
    let mut dst = [0u8; 6];
    let ctx = ScaleContext::new(2, 1, 2, 2);
    assert!(ctx.scale_nv12(&[7, 8, 90, 240], &mut dst));
    assert_eq!(dst, [7, 8, 7, 8, 90, 240]);
    assert!(!ctx.scale_nv12(&[7, 8, 90], &mut dst));
    // One column has no V of its own.
    assert!(ScaleContext::new(1, 2, 2, 2).scale_nv12(&[7, 8, 90], &mut dst));
    assert_eq!(dst, [7, 7, 8, 8, 90, 90]);
    // An odd row ends in a U without a V.
    let src = [1, 2, 3, 4, 5, 6, 90, 240, 91];
    let mut same = [0u8; 9];
    assert!(ScaleContext::new(3, 2, 3, 2).scale_nv12(&src, &mut same));
    assert_eq!(same, src);
}

#[test]
fn fourccs_are_recognised() {
    for f in [PixelFormat::Yuy2, PixelFormat::Rgb24, PixelFormat::Nv12, PixelFormat::Mjpeg] {
        assert_eq!(fourcc_to_pixel_format(&f.fourcc()), Some(f));
    }
    assert_eq!(fourcc_to_pixel_format(b"H264"), None);
}

#[test]
fn the_device_is_opened_once() {
    let mut sink = V4l2LoopSink::new("/dev/video10");
    assert_eq!(sink.describe(), "v4l2loopback:/dev/video10");
    let f = frame(2, 2, PixelFormat::Yuy2, &[0; 8]);
    let want = sink.open_request(&f).unwrap();
    assert_eq!((want.width, want.height, want.format), (2, 2, PixelFormat::Yuy2));
    assert!(sink.opened(Err(SinkError::new(SinkErrorKind::Other, "busy"))).is_err());
    assert!(sink.open_request(&f).is_some());
    assert!(sink.opened(Ok(want)).is_ok());
    // A change of format does not open it again.
    assert!(sink.open_request(&frame(4, 4, PixelFormat::Nv12, &[0; 24])).is_none());
}

#[test]
fn sixty_failures_in_a_row_reopen_the_device() {
    let mut sink = V4l2LoopSink::new("/dev/video10");
    let n = Negotiated { width: 2, height: 2, format: PixelFormat::Yuy2 };
    sink.opened(Ok(n)).unwrap();
    for _ in 0..59 {
        assert!(sink.written(err(SinkErrorKind::Other)).is_err());
    }
    assert!(sink.active.is_some());
    // Back-pressure neither counts nor resets.
    let r = sink.written(err(SinkErrorKind::TimedOut)).unwrap_err();
    assert_eq!(r.kind, SinkErrorKind::WouldBlock);
    assert_eq!(sink.failures, 59);
    assert!(sink.written(err(SinkErrorKind::InvalidData)).is_err());
    assert!(sink.active.is_none());
    assert_eq!(sink.failures, 0);
}

#[test]
fn a_good_write_ends_the_streak() {
    let mut sink = V4l2LoopSink::new("/dev/video10");
    let n = Negotiated { width: 2, height: 2, format: PixelFormat::Yuy2 };
    sink.opened(Ok(n)).unwrap();
    for _ in 0..10 {
        for _ in 0..59 {
            assert!(sink.written(err(SinkErrorKind::Other)).is_err());
        }
        assert!(sink.written(Ok(())).is_ok());
    }
    for _ in 0..1000 {
        assert!(sink.written(err(SinkErrorKind::WouldBlock)).is_err());
    }
    assert!(sink.active.is_some());
}

#[test]
fn only_nv12_is_scaled() {
    let mut sink = V4l2LoopSink::new("/dev/video10");
    let n = Negotiated { width: 4, height: 2, format: PixelFormat::Nv12 };
    sink.opened(Ok(n)).unwrap();
    let small = frame(2, 2, PixelFormat::Nv12, &[1, 2, 3, 4, 128, 129]);
    assert_eq!(sink.prepare(&small).unwrap(), Outgoing::Scaled(12));
    assert_eq!(sink.scale_buf[..12], [1, 1, 2, 2, 3, 3, 4, 4, 128, 129, 128, 129]);
    let same = frame(4, 2, PixelFormat::Nv12, &[0; 12]);
    assert_eq!(sink.prepare(&same).unwrap(), Outgoing::Direct);
    let other = frame(2, 2, PixelFormat::Yuy2, &[0; 8]);
    assert_eq!(sink.prepare(&other).unwrap(), Outgoing::Direct);
    assert!(sink.can_serve(&small) && sink.can_serve(&other));
    let mut huge = V4l2LoopSink::new("/dev/video10");
    assert!(!huge.can_serve(&small));
    let n = Negotiated { width: 65536, height: 65536, format: PixelFormat::Nv12 };
    huge.opened(Ok(n)).unwrap();
    assert!(!huge.can_serve(&small) && huge.can_serve(&other));
    let short = frame(2, 2, PixelFormat::Nv12, &[1, 2]);
    let e = sink.prepare(&short).unwrap_err();
    assert_eq!(e.kind, SinkErrorKind::Other);
    assert_eq!(e.message, "failed to scale frame to driver resolution");
}

#[test]
fn multi_sink_feeds_every_device() {
    let sink = V4l2LoopMultiSink::new(&vec!["/dev/video10".to_string(), "/dev/video11".to_string()]);
    assert_eq!(sink.describe(), "v4l2loopback:multi(/dev/video10, /dev/video11)");
    assert!(V4l2LoopMultiSink::settle(&vec![Ok(()), err(SinkErrorKind::WouldBlock)]).is_ok());
    let outcomes = vec![
        Err(SinkError::new(SinkErrorKind::Other, "first")),
        Err(SinkError::new(SinkErrorKind::InvalidData, "last")),
        err(SinkErrorKind::WouldBlock),
        Ok(()),
    ];
    let e = V4l2LoopMultiSink::settle(&outcomes).unwrap_err();
    assert_eq!((e.kind, e.message.as_str()), (SinkErrorKind::Other, "first"));
    let late = vec![err(SinkErrorKind::WouldBlock), Ok(()), err(SinkErrorKind::BrokenPipe)];
    assert_eq!(
        V4l2LoopMultiSink::settle(&late).unwrap_err().kind,
        SinkErrorKind::BrokenPipe
    );
    assert!(V4l2LoopMultiSink::settle(&Vec::new()).is_ok());
}

#[test]
fn foreign_drivers_are_refused() {
    assert!(check_driver("/dev/video0", None).is_ok());
    assert!(check_driver("/dev/video0", Some("v4l2 loopback")).is_ok());
    let e = check_driver("/dev/video0", Some("uvcvideo")).unwrap_err();
    assert_eq!(e.kind, SinkErrorKind::InvalidInput);
    assert_eq!(
        e.message,
        "/dev/video0 is driven by 'uvcvideo' (not v4l2loopback); refusing to use it as a virtual camera"
    );
}

#[test]
fn the_driver_may_change_the_size_only() {
    let n = accept_format(PixelFormat::Yuy2, 640, 480, *b"YUYV", "YUYV").unwrap();
    assert_eq!((n.width, n.height, n.format), (640, 480, PixelFormat::Yuy2));
    let e = accept_format(PixelFormat::Yuy2, 640, 480, *b"NV12", "NV12").unwrap_err();
    assert_eq!(e.message, "driver rejected pixel format Yuy2 (selected NV12 instead)");
    assert!(Negotiated { width: 1920, height: 1080, format: PixelFormat::Nv12 }.is_addressable());
    assert!(!Negotiated { width: 65536, height: 65536, format: PixelFormat::Nv12 }.is_addressable());
    assert!(Negotiated { width: 65536, height: 65536, format: PixelFormat::Yuy2 }.has_size());
    assert!(!Negotiated { width: u32::MAX, height: u32::MAX, format: PixelFormat::Rgb24 }.has_size());
}

#[test]
fn loopback_controls() {
    assert_eq!(
        control_before_format(),
        LoopbackControl::Switch { id: 0x0098_2001, on: false }
    );
    assert_eq!(
        controls_after_format(250),
        [
            LoopbackControl::Switch { id: 0x0098_2001, on: true },
            LoopbackControl::Switch { id: 0x0098_2002, on: true },
            LoopbackControl::Number { id: 0x0098_2003, value: 250 },
        ]
    );
}

#[test]
fn output_is_checked() {
    let n = Negotiated { width: 2, height: 2, format: PixelFormat::Yuy2 };
    assert!(check_output(&n, 8, 0, 8).is_ok());
    let e = check_output(&n, 8, 1, 8).unwrap_err();
    assert_eq!(e.kind, SinkErrorKind::WouldBlock);
    assert_eq!(e.message, "no consumer attached to virtual device");
    let e = check_output(&n, 7, 0, 8).unwrap_err();
    assert_eq!(e.message, "frame (7 B) != negotiated frame size (8 B)");
    let e = check_output(&n, 8, 0, 6).unwrap_err();
    assert_eq!(e.kind, SinkErrorKind::InvalidData);
    assert_eq!(e.message, "frame (8 B) exceeds kernel output buffer (6 B)");
    let jpeg = Negotiated { width: 2, height: 2, format: PixelFormat::Mjpeg };
    assert!(check_output(&jpeg, 3, 0, 6).is_ok());
    let e = buffer_error(&SinkError::new(SinkErrorKind::TimedOut, "t"));
    assert_eq!(e.kind, SinkErrorKind::WouldBlock);
    let e = buffer_error(&SinkError::new(SinkErrorKind::Other, "gone"));
    assert_eq!(e.message, "failed to get output buffer: gone");
}

#[test]
fn output_is_written_whole_or_not_at_all() {
    let n = Negotiated { width: 2, height: 1, format: PixelFormat::Yuy2 };
    let mut buf = [9u8; 6];
    assert!(write_output(&n, &[1, 2, 3, 4], 0, &mut buf).is_ok());
    assert_eq!(buf, [1, 2, 3, 4, 9, 9]);
    let e = write_output(&n, &[5, 5, 5], 0, &mut buf).unwrap_err();
    assert_eq!(e.kind, SinkErrorKind::InvalidData);
    let e = write_output(&n, &[5, 5, 5, 5], 4, &mut buf).unwrap_err();
    assert_eq!(e.kind, SinkErrorKind::WouldBlock);
    let e = write_output(&n, &[5, 5, 5, 5], 0, &mut buf[..3]).unwrap_err();
    assert_eq!(e.kind, SinkErrorKind::InvalidData);
    assert_eq!(buf, [1, 2, 3, 4, 9, 9]);
}

#[test]
fn pipe_header_layout() {
    let mut f = frame(0x0102_0304, 720, PixelFormat::Nv12, &[0; 300]);
    f.seq = 0x1122;
    let h = winpipe::encode_header(&f, 1_000_000);
    assert_eq!(h.len(), winpipe::HEADER_LEN);
    assert_eq!(h[0..4], 0x5643_414Du32.to_le_bytes());
    assert_eq!(h[4..8], [1, 0, 0, 0]);
    assert_eq!(h[8..12], [4, 3, 2, 1]);
    assert_eq!(h[12..16], 720u32.to_le_bytes());
    assert_eq!(&h[16..20], b"NV12");
    assert_eq!(h[20..24], 300u32.to_le_bytes());
    assert_eq!(h[24..32], 0x1122u64.to_le_bytes());
    assert_eq!(h[32..40], 1_000_000u64.to_le_bytes());
}

#[test]
fn pipe_errors() {
    assert_eq!(winpipe::pipe_error_kind(109), SinkErrorKind::BrokenPipe);
    assert_eq!(winpipe::pipe_error_kind(232), SinkErrorKind::BrokenPipe);
    assert_eq!(winpipe::pipe_error_kind(233), SinkErrorKind::BrokenPipe);
    assert_eq!(winpipe::pipe_error_kind(5), SinkErrorKind::Other);
    assert!(!winpipe::resets_pipe(&Ok(())));
    assert!(!winpipe::resets_pipe(&err(SinkErrorKind::WouldBlock)));
    assert!(winpipe::resets_pipe(&err(SinkErrorKind::BrokenPipe)));
    assert_eq!(winpipe::wait_error(true).message, "waiting for a pipe consumer");
    assert_eq!(winpipe::wait_error(false).message, "pipe consumer is not reading");
    assert_eq!(winpipe::pipe_path("a"), r"\\.\pipe\a");
    assert_eq!(winpipe::describe_pipe("a"), r"named-pipe:\\.\pipe\a");
}

#[test]
fn the_sink_loop_recycles_while_off() {
    assert_eq!(on_received(Received::Frame, true), SinkStep::Write);
    assert_eq!(on_received(Received::Frame, false), SinkStep::Recycle);
    assert_eq!(on_received(Received::Timeout, true), SinkStep::Report);
    assert_eq!(on_received(Received::Disconnected, true), SinkStep::Stop);
    assert!(sink_is_done(true, true));
    assert!(!sink_is_done(true, false));
    assert!(!sink_is_done(false, true));
}

#[test]
fn write_errors_are_logged_sparsely() {
    let mut errors = 0u64;
    let mut logged = Vec::new();
    for _ in 0..240 {
        if let WriteTally::Dropped { log: Some(n) } =
            on_written(&mut errors, &err(SinkErrorKind::Other))
        {
            logged.push(n);
        }
    }
    assert_eq!(logged, [1, 120, 240]);
    assert_eq!(
        on_written(&mut errors, &err(SinkErrorKind::WouldBlock)),
        WriteTally::Dropped { log: None }
    );
    assert_eq!(errors, 240);
    assert_eq!(on_written(&mut errors, &Ok(())), WriteTally::Written);
    assert_eq!(errors, 0);
}

#[test]
fn throughput_is_reported_every_five_seconds() {
    let mut mark = ReportMark { written: 10, dropped: 1 };
    assert_eq!(report(4999, 30, 20, 3, &mut mark), None);
    assert_eq!(
        report(5000, 30, 20, 3, &mut mark),
        Some(Report { written_delta: 10, captured: 30, written: 20, dropped_total: 3, dropped_delta: 2 })
    );
    assert_eq!(mark, ReportMark { written: 20, dropped: 3 });
}

#[test]
fn stats_count() {
    let stats = Stats::default();
    stats.count_captured();
    stats.count_captured();
    stats.count_written();
    stats.count_dropped();
    assert_eq!(stats.read(), (2, 1, 1));
}
