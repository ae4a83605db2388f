use wattle_core::color::{blend_colour, hex_to_rgba, rgba_to_hex};
use wattle_core::surface::{PixelFormat, Screen};

#[test]
fn hex_packing_exact() {
    assert_eq!(rgba_to_hex(0x12, 0x34, 0x56, 0x78), 0x12345678);
    assert_eq!(rgba_to_hex(0, 0, 0, 0), 0);
    assert_eq!(rgba_to_hex(255, 255, 255, 255), 0xFFFFFFFF);
}

#[test]
fn hex_round_trip() {
    for v in [0u32, 0x12345678, 0xFFFFFFFF, 0xAA0000FF, 0x00000001] {
        let (r, g, b, a) = hex_to_rgba(v);
        assert_eq!(rgba_to_hex(r, g, b, a), v);
    }
    assert_eq!(hex_to_rgba(rgba_to_hex(1, 2, 3, 4)), (1, 2, 3, 4));
}

#[test]
fn blend_truncates_downward() {
    // (10*128 + 200*127) / 255 = 26680 / 255 = 104 with remainder 160:
    // the scaled value is truncated, not rounded.
    let blended = blend_colour((10, 20, 30, 128), (200, 100, 50, 255));
    assert_eq!(blended.0, 104);
    // (20*128 + 100*127) / 255 = 15260 / 255 = 59 remainder 215.
    assert_eq!(blended.1, 59);
}

#[test]
fn blend_full_opacity_returns_new() {
    let new_rgba = (12, 34, 56, 255);
    assert_eq!(blend_colour(new_rgba, (200, 100, 50, 255)), new_rgba);
    assert_eq!(blend_colour(new_rgba, (0, 0, 0, 0)), new_rgba);
}

#[test]
fn blend_zero_opacity_returns_existing() {
    let existing = (200, 100, 50, 255);
    assert_eq!(blend_colour((12, 34, 56, 0), existing), existing);
}

#[test]
fn pack_unpack_round_trip_rgb_and_bgr() {
    // A stored four-byte pixel reads back every channel, alpha included.
    let rgb = Screen::init(2, 2, 2, 4, PixelFormat::Rgb);
    let packed = rgb.pack_colour(9, 8, 7, 6);
    assert_eq!(packed, [9, 8, 7, 6]);
    assert_eq!(rgb.unpack_colour(&packed), (9, 8, 7, 6));

    let bgr = Screen::init(2, 2, 2, 4, PixelFormat::Bgr);
    let packed = bgr.pack_colour(9, 8, 7, 6);
    assert_eq!(packed, [7, 8, 9, 6]);
    assert_eq!(bgr.unpack_colour(&packed), (9, 8, 7, 6));

    // A three-byte pixel has no stored alpha and reads back fully opaque.
    assert_eq!(rgb.unpack_colour(&packed[0..3]), (7, 8, 9, 255));
}

#[test]
fn pack_single_channel() {
    let grey = Screen::init(2, 2, 2, 1, PixelFormat::U8);
    assert_eq!(grey.pack_colour(201, 0, 0, 0), [0xf, 0, 0, 0]);
    assert_eq!(grey.pack_colour(200, 255, 255, 255), [0, 0, 0, 0]);
}

#[test]
fn blended_write_at_full_opacity_equals_opaque_write() {
    let mut a = Screen::init(8, 8, 8, 4, PixelFormat::Rgb);
    let mut b = Screen::init(8, 8, 8, 4, PixelFormat::Rgb);
    a.clear(0x10203040);
    b.clear(0x10203040);
    let colour = rgba_to_hex(50, 60, 70, 255);
    a.pixel(3, 5, colour);
    b.pixel_fast(3, 5, colour);
    assert_eq!(a.back, b.back);
}

#[test]
fn blended_write_at_zero_opacity_is_a_no_op() {
    let mut s = Screen::init(8, 8, 8, 4, PixelFormat::Bgr);
    s.clear(0xAABBCC00);
    let before = s.back.clone();
    s.pixel(2, 2, rgba_to_hex(1, 2, 3, 0));
    assert_eq!(s.back, before);

    // The no-op is byte-exact even on a pixel whose stored alpha byte is
    // not fully opaque, as the opaque write path can leave it.
    let mut s = Screen::init(8, 8, 8, 4, PixelFormat::Rgb);
    s.pixel_fast(1, 1, rgba_to_hex(1, 2, 3, 7));
    let before = s.back.clone();
    s.pixel(1, 1, rgba_to_hex(200, 100, 50, 0));
    assert_eq!(s.back, before);
}

#[test]
fn out_of_bounds_pixel_writes_change_nothing() {
    let mut s = Screen::init(4, 4, 6, 4, PixelFormat::Rgb);
    s.clear(0x11223344);
    let before = s.back.clone();
    s.pixel(4, 0, 0xFFFFFFFF);
    s.pixel(0, 4, 0xFFFFFFFF);
    s.pixel_fast(1000, 1000, 0xFFFFFFFF);
    assert_eq!(s.back, before);
    assert_eq!(s.front, vec![0u8; 6 * 4 * 4]);
}

#[test]
fn clear_writes_full_opacity_everywhere() {
    let mut s = Screen::init(2, 2, 3, 4, PixelFormat::Rgb);
    // The input alpha is discarded: every pixel is stored fully opaque.
    s.clear(rgba_to_hex(1, 2, 3, 7));
    for p in 0..6 {
        assert_eq!(&s.back[p * 4..p * 4 + 4], &[1, 2, 3, 255]);
    }
}

#[test]
fn flip_publishes_the_back_buffer() {
    let mut s = Screen::init(2, 2, 2, 4, PixelFormat::Rgb);
    s.clear(0x01020304);
    assert_eq!(s.front, vec![0u8; 16]);
    s.flip();
    assert_eq!(s.front, s.back);
}

#[test]
fn shift_y_moves_rows_up_and_zero_fills() {
    let mut s = Screen::init(2, 3, 2, 3, PixelFormat::Rgb);
    // Rows get distinct colours: row 0 red-ish, row 1 green-ish, row 2 blue-ish.
    s.pixel_fast(0, 0, rgba_to_hex(1, 0, 0, 9));
    s.pixel_fast(1, 0, rgba_to_hex(1, 0, 0, 9));
    s.pixel_fast(0, 1, rgba_to_hex(0, 2, 0, 9));
    s.pixel_fast(1, 1, rgba_to_hex(0, 2, 0, 9));
    s.pixel_fast(0, 2, rgba_to_hex(0, 0, 3, 9));
    s.pixel_fast(1, 2, rgba_to_hex(0, 0, 3, 9));
    s.shift_y(1);
    assert_eq!(&s.back[0..6], &[0, 2, 0, 0, 2, 0]);
    assert_eq!(&s.back[6..12], &[0, 0, 3, 0, 0, 3]);
    assert_eq!(&s.back[12..18], &[0, 0, 0, 0, 0, 0]);
}

#[test]
fn rect_blends_inside_and_clips_outside() {
    let mut s = Screen::init(4, 4, 4, 4, PixelFormat::Rgb);
    s.clear(rgba_to_hex(100, 100, 100, 0));
    let before = s.back.clone();
    // A rectangle hanging off the right and bottom edges, fully opaque red.
    s.rect(2, 2, 4, 4, rgba_to_hex(255, 0, 0, 255));
    for y in 0..4usize {
        for x in 0..4usize {
            let off = (y * 4 + x) * 4;
            if x >= 2 && y >= 2 {
                assert_eq!(&s.back[off..off + 4], &[255, 0, 0, 255]);
            } else {
                assert_eq!(&s.back[off..off + 4], &before[off..off + 4]);
            }
        }
    }
}

#[test]
fn rect_at_half_opacity_blends_with_existing() {
    let mut s = Screen::init(1, 1, 1, 4, PixelFormat::Rgb);
    s.clear(rgba_to_hex(100, 100, 100, 0));
    s.rectangle(0, 0, 1, 1, rgba_to_hex(255, 0, 0, 128));
    // (255*128 + 100*127) / 255 = 177; (0*128 + 100*127) / 255 = 49.
    // The alpha channel blends by itself: (128*128 + 255*127) / 255 = 191.
    assert_eq!(&s.back[0..4], &[177, 49, 49, 191]);
}
