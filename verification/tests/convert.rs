use vcam_proxy::convert::{nv12_to_rgb24, rgb24_to_nv12, rgb24_to_yuy2, yuy2_to_rgb24};
use vcam_proxy::frame::PixelFormat;

#[test]
fn yuy2_black_white() {
    // BT.601 reference black (Y=16) and white (Y=235), neutral chroma.
    let src = [16, 128, 235, 128];
    let mut dst = [0u8; 6];
    assert!(yuy2_to_rgb24(&src, &mut dst, 2, 1));
    assert_eq!(&dst[0..3], &[0, 0, 0]);
    assert_eq!(&dst[3..6], &[255, 255, 255]);
}

#[test]
fn yuy2_saturated_red() {
    // 100% red, BT.601: Y=81, U=90, V=240 (two pixels).
    let src = [81, 90, 81, 240, 81, 90, 81, 240];
    // Note: YUY2 byte order is Y0 U Y1 V.
    let src = [
        src[0], src[1], src[2], src[3], src[4], src[5], src[6], src[7],
    ];
    let mut dst = [0u8; 12];
    assert!(yuy2_to_rgb24(&src, &mut dst, 2, 2));
    for px in dst.chunks_exact(3) {
        assert!(px[0] > 240, "R high: {px:?}");
        assert!(px[1] < 15, "G low: {px:?}");
        assert!(px[2] < 15, "B low: {px:?}");
    }
}

#[test]
fn nv12_gray() {
    // 2x2 gray block: Y=128 everywhere, neutral chroma.
    let src = [128, 128, 128, 128, 128, 128];
    let mut dst = [0u8; 12];
    assert!(nv12_to_rgb24(&src, &mut dst, 2, 2));
    for px in dst.chunks_exact(3) {
        let (r, g, b) = (px[0] as i32, px[1] as i32, px[2] as i32);
        assert!((r - 130).abs() <= 2, "{r}");
        assert!((g - 130).abs() <= 2, "{g}");
        assert!((b - 130).abs() <= 2, "{b}");
    }
}

#[test]
fn rejects_bad_sizes() {
    let src = [0u8; 8];
    let mut dst = [0u8; 6];
    assert!(!yuy2_to_rgb24(&src, &mut dst, 10, 10));
    assert!(!nv12_to_rgb24(&src, &mut dst, 10, 10));
}

#[test]
fn rgb24_to_nv12_gray() {
    // 2x2 mid-gray block -> Y ~= 126, chroma ~= neutral (128).
    let src = [128u8; 2 * 2 * 3];
    let mut dst = [0u8; 2 * 2 * 3 / 2];
    assert!(rgb24_to_nv12(&src, &mut dst, 2, 2));
    for &y in &dst[0..4] {
        assert!((y as i32 - 126).abs() <= 3, "Y={y}");
    }
    assert!((dst[4] as i32 - 128).abs() <= 2, "U={}", dst[4]);
    assert!((dst[5] as i32 - 128).abs() <= 2, "V={}", dst[5]);
}

#[test]
fn rgb24_to_nv12_red_roundtrip() {
    // Pure red -> NV12 -> back to RGB should stay red-ish.
    let src = [255u8, 0, 0].repeat(2 * 2);
    let mut nv12 = [0u8; 2 * 2 * 3 / 2];
    assert!(rgb24_to_nv12(&src, &mut nv12, 2, 2));
    let mut rgb = [0u8; 2 * 2 * 3];
    assert!(nv12_to_rgb24(&nv12, &mut rgb, 2, 2));
    for px in rgb.chunks_exact(3) {
        assert!(px[0] > 220, "R high: {px:?}");
        assert!(px[1] < 40, "G low: {px:?}");
        assert!(px[2] < 40, "B low: {px:?}");
    }
}

#[test]
fn rgb24_to_nv12_rejects_odd_dims() {
    let src = [0u8; 3 * 3 * 3];
    let mut dst = [0u8; 3 * 3 * 3 / 2 + 1];
    assert!(!rgb24_to_nv12(&src, &mut dst, 3, 3));
}

#[test]
fn rgb24_to_yuy2_gray() {
    let src = [128u8; 2 * 2 * 3];
    let mut dst = [0u8; 2 * 2 * 2];
    assert!(rgb24_to_yuy2(&src, &mut dst, 2, 2));
    // Y samples ~126, U/V ~128 for mid-gray.
    assert!((dst[0] as i32 - 126).abs() <= 3, "Y0={}", dst[0]);
    assert!((dst[1] as i32 - 128).abs() <= 2, "U={}", dst[1]);
    assert!((dst[2] as i32 - 126).abs() <= 3, "Y1={}", dst[2]);
    assert!((dst[3] as i32 - 128).abs() <= 2, "V={}", dst[3]);
}

#[test]
fn yuy2_exact_color() {
    let src = [81, 90, 41, 240];
    let mut dst = [0u8; 6];
    assert!(yuy2_to_rgb24(&src, &mut dst, 2, 1));
    assert_eq!(dst, [255, 0, 0, 208, 0, 0]);
}

#[test]
fn yuy2_odd_pixel_has_neutral_chroma() {
    let src = [16, 128, 235, 128, 126, 7];
    let mut dst = [9u8; 9];
    assert!(yuy2_to_rgb24(&src, &mut dst, 3, 1));
    assert_eq!(dst, [0, 0, 0, 255, 255, 255, 128, 128, 128]);
}

#[test]
fn rgb_primaries_encode_exactly() {
    let src = [255u8, 0, 0, 255, 0, 0, 0, 255, 0, 0, 0, 255];
    let mut yuy2 = [0u8; 8];
    assert!(rgb24_to_yuy2(&src, &mut yuy2, 4, 1));
    assert_eq!(yuy2[0..4], [82, 90, 82, 240]);
    // Green next to blue: the pair shares the chroma of its mean.
    assert_eq!(yuy2[4..8], [144, 147, 41, 72]);
}

#[test]
fn nv12_averages_each_block() {
    // Left block red, right block black.
    let mut src = Vec::new();
    for _ in 0..2 {
        src.extend_from_slice(&[255, 0, 0, 255, 0, 0, 0, 0, 0, 0, 0, 0]);
    }
    let mut dst = [0u8; 12];
    assert!(rgb24_to_nv12(&src, &mut dst, 4, 2));
    assert_eq!(dst[0..8], [82, 82, 16, 16, 82, 82, 16, 16]);
    assert_eq!(dst[8..12], [90, 240, 128, 128]);
}

#[test]
fn failing_kernels_write_nothing() {
    let src = [200u8; 12];
    let mut dst = [7u8; 5];
    assert!(!rgb24_to_nv12(&src, &mut dst, 2, 2));
    assert!(!rgb24_to_yuy2(&src, &mut dst, 2, 2));
    assert!(!yuy2_to_rgb24(&src, &mut dst, 2, 2));
    assert!(!nv12_to_rgb24(&src, &mut dst, 2, 2));
    assert_eq!(dst, [7u8; 5]);
}

#[test]
fn bytes_after_the_picture_are_kept() {
    let src = [128u8; 12];
    let mut dst = [3u8; 10];
    assert!(rgb24_to_yuy2(&src, &mut dst, 2, 2));
    assert_eq!(dst[8..10], [3, 3]);
}

#[test]
fn incomplete_odd_nv12_is_refused() {
    // 1x1: one luma byte and half a chroma pair is all that 3/2 bytes allow.
    let mut dst = [0u8; 3];
    assert!(!nv12_to_rgb24(&[128], &mut dst, 1, 1));
    assert!(nv12_to_rgb24(&[126, 128, 128], &mut dst, 1, 1));
    assert_eq!(dst, [128, 128, 128]);
}

#[test]
fn grays_survive_both_packings() {
    for g in 0..=255u8 {
        let src = [g; 12];
        let mut nv12 = [0u8; 6];
        let mut yuy2 = [0u8; 8];
        let mut rgb = [0u8; 12];
        assert!(rgb24_to_nv12(&src, &mut nv12, 2, 2));
        assert!(nv12_to_rgb24(&nv12, &mut rgb, 2, 2));
        assert!(rgb.iter().all(|&b| (b as i32 - g as i32).abs() <= 2), "{g}: {rgb:?}");
        assert!(rgb24_to_yuy2(&src, &mut yuy2, 2, 2));
        assert!(yuy2_to_rgb24(&yuy2, &mut rgb, 2, 2));
        assert!(rgb.iter().all(|&b| (b as i32 - g as i32).abs() <= 2), "{g}: {rgb:?}");
    }
}

#[test]
fn encoder_keeps_to_studio_swing() {
    for r in [0u8, 1, 127, 254, 255] {
        for g in [0u8, 1, 127, 254, 255] {
            for b in [0u8, 1, 127, 254, 255] {
                let src = [r, g, b].repeat(2);
                let mut dst = [0u8; 4];
                assert!(rgb24_to_yuy2(&src, &mut dst, 2, 1));
                assert!((16..=235).contains(&dst[0]));
                assert!((16..=240).contains(&dst[1]));
                assert!((16..=240).contains(&dst[3]));
            }
        }
    }
}

#[test]
fn packed_sizes_are_accepted() {
    let (w, h) = (4u32, 6u32);
    let size = |f: PixelFormat| f.packed_size(w, h).unwrap();
    let rgb = vec![50u8; size(PixelFormat::Rgb24)];
    let mut nv12 = vec![0u8; size(PixelFormat::Nv12)];
    let mut yuy2 = vec![0u8; size(PixelFormat::Yuy2)];
    let mut back = vec![0u8; size(PixelFormat::Rgb24)];
    assert!(rgb24_to_nv12(&rgb, &mut nv12, w, h));
    assert!(rgb24_to_yuy2(&rgb, &mut yuy2, w, h));
    assert!(nv12_to_rgb24(&nv12, &mut back, w, h));
    assert!(yuy2_to_rgb24(&yuy2, &mut back, w, h));
}
