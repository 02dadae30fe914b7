use image::{ImageFormat, Rgb, RgbImage};
use vcam_proxy::config::FormatPref;
use vcam_proxy::frame::{BufferPool, Frame, PixelFormat};
use vcam_proxy::image_source;
use vcam_proxy::image_source::RgbPicture;

const WIDTH: u32 = 320;
const HEIGHT: u32 = 240;

fn fixture() -> Vec<u8> {
    let mut img = RgbImage::new(WIDTH, HEIGHT);
    for y in 0..HEIGHT {
        for x in 0..WIDTH {
            let band = (x * 6) / WIDTH;
            let color = match band {
                0 => Rgb([255, 0, 0]),
                1 => Rgb([0, 255, 0]),
                2 => Rgb([0, 0, 255]),
                3 => Rgb([255, 255, 0]),
                4 => Rgb([0, 255, 255]),
                _ => Rgb([255, 0, 255]),
            };
            img.put_pixel(x, y, color);
        }
    }
    encode(&img)
}

fn encode(img: &RgbImage) -> Vec<u8> {
    let mut out = std::io::Cursor::new(Vec::new());
    img.write_to(&mut out, ImageFormat::Png).expect("write fixture png");
    out.into_inner()
}

fn decode(bytes: &[u8]) -> Result<RgbPicture, String> {
    let img = image::load_from_memory(bytes).map_err(|e| e.to_string())?.to_rgb8();
    let (width, height) = img.dimensions();
    Ok(RgbPicture { width, height, data: img.into_raw() })
}

#[test]
fn image_source_roundtrip_unit() {
    let png = decode(&fixture());
    let frame = image_source::load_frame("bars.png", png, WIDTH, HEIGHT, FormatPref::Yuy2).unwrap();
    assert_eq!(frame.width, WIDTH);
    assert_eq!(frame.height, HEIGHT);
    assert!(!frame.payload().iter().all(|&b| b == 0));
}

fn loaded(path: &str, bytes: &[u8], w: u32, h: u32, pref: FormatPref) -> Result<Vec<u8>, String> {
    image_source::load_frame(path, decode(bytes), w, h, pref).map(|f| f.payload().to_vec())
}

#[test]
fn decoded_pixels_reach_the_frame() {
    let mut img = RgbImage::new(2, 2);
    img.put_pixel(0, 0, Rgb([1, 2, 3]));
    img.put_pixel(1, 0, Rgb([4, 5, 6]));
    img.put_pixel(0, 1, Rgb([7, 8, 9]));
    img.put_pixel(1, 1, Rgb([10, 11, 12]));
    let png = encode(&img);
    let rgb = loaded("a.png", &png, 2, 2, FormatPref::Rgb24).unwrap();
    assert_eq!(rgb, [1, 2, 3, 4, 5, 6, 7, 8, 9, 10, 11, 12]);
    // Twice as wide: every pixel is shown twice.
    let wide = loaded("a.png", &png, 4, 2, FormatPref::Rgb24).unwrap();
    assert_eq!(wide[0..12], [1, 2, 3, 1, 2, 3, 4, 5, 6, 4, 5, 6]);
    let half = loaded("a.png", &png, 2, 1, FormatPref::Rgb24).unwrap();
    assert_eq!(half, [1, 2, 3, 4, 5, 6]);
}

#[test]
fn unreadable_images_are_reported() {
    let e = loaded("x.png", &[1, 2, 3], 2, 2, FormatPref::Auto).unwrap_err();
    assert!(e.starts_with("failed to open image x.png: "), "{e}");
    let gone = image_source::load_frame("a", Err("gone".to_string()), 2, 2, FormatPref::Auto);
    assert_eq!(gone.err(), Some("failed to open image a: gone".to_string()));
    let empty = RgbPicture { width: 0, height: 3, data: Vec::new() };
    assert_eq!(
        image_source::load_frame("a", Ok(empty), 2, 2, FormatPref::Auto).err(),
        Some("failed to open image a: the image is empty".to_string())
    );
    assert_eq!(
        image_source::open_error("/a.png", "gone"),
        "failed to open image /a.png: gone"
    );
}

fn picture() -> RgbPicture {
    RgbPicture { width: 1, height: 1, data: vec![128, 128, 128] }
}

#[test]
fn still_formats_follow_the_preference() {
    for (pref, format, len) in [
        (FormatPref::Auto, PixelFormat::Yuy2, 16),
        (FormatPref::Yuy2, PixelFormat::Yuy2, 16),
        (FormatPref::Mjpeg, PixelFormat::Yuy2, 16),
        (FormatPref::Nv12, PixelFormat::Nv12, 12),
        (FormatPref::Rgb24, PixelFormat::Rgb24, 24),
    ] {
        let frame = image_source::compose(&picture(), 4, 2, pref).unwrap();
        assert_eq!(frame.format, format);
        assert_eq!(frame.len, len);
        assert_eq!(frame.seq, 0);
    }
    let frame = image_source::compose(&picture(), 2, 1, FormatPref::Auto).unwrap();
    assert_eq!(frame.payload(), [126, 128, 126, 128]);
}

#[test]
fn still_sizes_are_checked() {
    let odd = image_source::compose(&picture(), 5, 2, FormatPref::Auto).unwrap();
    assert_eq!((odd.width, odd.height, odd.len), (4, 2, 16));
    // An odd width loses its last column, and no row is shifted against another.
    let pic = RgbPicture { width: 3, height: 2, data: (1..19).collect() };
    let odd = image_source::compose(&pic, 3, 2, FormatPref::Rgb24).unwrap();
    assert_eq!((odd.width, odd.height), (2, 2));
    assert_eq!(odd.payload(), [1, 2, 3, 4, 5, 6, 10, 11, 12, 13, 14, 15]);
    for (w, h) in [(0, 2), (1, 2), (2, 0)] {
        assert_eq!(
            image_source::compose(&picture(), w, h, FormatPref::Auto).err(),
            Some("image output size must be non-zero (and width even for YUYV)".to_string())
        );
    }
    assert_eq!(
        image_source::compose(&picture(), 2, 3, FormatPref::Nv12).err(),
        Some("failed to pack image as Nv12".to_string())
    );
}

#[test]
fn frames_are_paced() {
    assert_eq!(image_source::frame_period(30), 33_333_333);
    assert_eq!(image_source::frame_period(0), 1_000_000_000);
    assert_eq!(image_source::sleep_before(10, 30), Some(20));
    assert_eq!(image_source::sleep_before(0, 1_000_000_000), Some(50_000_000));
    assert_eq!(image_source::sleep_before(30, 30), None);
    assert_eq!(image_source::following_tick(100, 10, 105), 110);
    assert_eq!(image_source::following_tick(100, 10, 120), 110);
    assert_eq!(image_source::following_tick(100, 10, 121), 131);
}

#[test]
fn still_frames_are_numbered_from_zero() {
    let template = image_source::compose(&picture(), 2, 2, FormatPref::Auto).unwrap();
    let pool = BufferPool::new(2, 1);
    let mut seq = 0u64;
    let a = image_source::emit_still(&pool, &template, &mut seq).unwrap();
    let b = image_source::emit_still(&pool, &template, &mut seq).unwrap();
    assert_eq!((a.seq, b.seq, seq), (0, 1, 2));
    assert_eq!(a.payload(), template.payload());
    assert_eq!(b.format, PixelFormat::Yuy2);
    // Every slot is in flight.
    assert!(image_source::emit_still(&pool, &template, &mut seq).is_none());
    assert_eq!(seq, 2);
    assert!(image_source::copy_still(None, &template, &mut seq).is_none());
    assert_eq!(seq, 2);
    let slot = Frame::with_capacity(0);
    let c = image_source::copy_still(Some(slot), &template, &mut seq).unwrap();
    assert_eq!((c.seq, seq, c.width, c.height), (2, 3, 2, 2));
    assert_eq!(c.payload(), template.payload());
}
