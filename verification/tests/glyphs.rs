use wattle_core::color::rgba_to_hex;
use wattle_core::surface::{PixelFormat, Screen};

fn canvas() -> Screen {
    let mut s = Screen::init(16, 20, 16, 4, PixelFormat::Rgb);
    s.clear(rgba_to_hex(0, 0, 0, 0));
    s
}

#[test]
fn drawing_a_letter_inks_pixels() {
    let mut s = canvas();
    s.char(0, 0, rgba_to_hex(255, 255, 255, 255), rgba_to_hex(0, 0, 0, 255), 'A');
    // Some pixel in the glyph rectangle is brighter than the background.
    let mut inked = false;
    for y in 0..16 {
        for x in 0..7 {
            let off = (y * 16 + x) * 4;
            if s.back[off] > 0 {
                inked = true;
            }
        }
    }
    assert!(inked);
    // Pixels right of the glyph rectangle keep the cleared background.
    for y in 0..16 {
        let off = (y * 16 + 7) * 4;
        assert_eq!(&s.back[off..off + 4], &[0, 0, 0, 255]);
    }
}

#[test]
fn drawing_a_space_paints_the_background() {
    let mut s = canvas();
    s.char(2, 1, rgba_to_hex(255, 255, 255, 255), rgba_to_hex(9, 8, 7, 255), ' ');
    for y in 1..17 {
        for x in 2..9 {
            let off = (y * 16 + x) * 4;
            // A space has zero coverage everywhere, so each pixel holds the
            // background with the foreground's alpha.
            assert_eq!(&s.back[off..off + 4], &[9, 8, 7, 255]);
        }
    }
}

#[test]
fn char_slow_draws_the_same_bytes() {
    let mut a = canvas();
    let mut b = canvas();
    a.char(3, 2, 0xFFFFFFFF, 0x000000FF, 'g');
    b.char_slow(3, 2, 0xFFFFFFFF, 0x000000FF, 'g');
    assert_eq!(a.back, b.back);
}

#[test]
fn char_bitmap_at_scale_one_matches_char() {
    let mut a = canvas();
    let mut b = canvas();
    a.char(1, 1, 0xAA5500FF, 0x112233FF, 'W');
    b.char_bitmap(1, 1, 1, 0xAA5500FF, 0x112233FF, 'W');
    assert_eq!(a.back, b.back);
}

#[test]
fn char_bitmap_scales_cells_into_blocks() {
    let mut small = Screen::init(7, 16, 7, 4, PixelFormat::Rgb);
    small.clear(0);
    small.char_bitmap(0, 0, 1, 0xFFFFFFFF, 0x000000FF, '#');
    let mut big = Screen::init(14, 32, 14, 4, PixelFormat::Rgb);
    big.clear(0);
    big.char_bitmap(0, 0, 2, 0xFFFFFFFF, 0x000000FF, '#');
    // Every pixel of the scaled draw equals its cell's pixel in the
    // unscaled draw.
    for y in 0..32usize {
        for x in 0..14usize {
            let small_off = ((y / 2) * 7 + (x / 2)) * 4;
            let big_off = (y * 14 + x) * 4;
            assert_eq!(&big.back[big_off..big_off + 4], &small.back[small_off..small_off + 4]);
        }
    }
    // A scale of zero draws nothing.
    let mut untouched = canvas();
    let before = untouched.back.clone();
    untouched.char_bitmap(0, 0, 0, 0xFFFFFFFF, 0x000000FF, '#');
    assert_eq!(untouched.back, before);
}

#[test]
fn char_old_at_full_opacity_matches_char() {
    // With a fully opaque foreground the read-back blend stores the same
    // bytes as the opaque path.
    let mut a = canvas();
    let mut b = canvas();
    a.char(0, 0, rgba_to_hex(10, 200, 30, 255), rgba_to_hex(5, 5, 5, 255), 'Q');
    b.char_old(0, 0, rgba_to_hex(10, 200, 30, 255), rgba_to_hex(5, 5, 5, 255), 'Q');
    assert_eq!(a.back, b.back);
}

#[test]
fn glyphs_clip_at_the_surface_edge() {
    let mut s = canvas();
    let before = s.back.clone();
    // A glyph drawn at the far corner touches no visible pixel beyond the
    // surface and leaves everything on it unchanged except the overlap.
    s.char(14, 18, 0xFFFFFFFF, 0x000000FF, 'M');
    for y in 0..18 {
        for x in 0..14 {
            let off = (y * 16 + x) * 4;
            assert_eq!(&s.back[off..off + 4], &before[off..off + 4]);
        }
    }
}
