use wattle_core::console::{Console, EscapeMode};
use wattle_core::grid::{ScreenChar, TextBuffer};
use wattle_core::palette::{Colour, Palette};
use wattle_core::size::Size;
use wattle_core::surface::{PixelFormat, Screen};

fn small_console() -> Console {
    // 64x64 surface: a 9-column grid (64/7) of 5 rows (64/16 + 1).
    let surface = Screen::init(64, 64, 64, 4, PixelFormat::Rgb);
    Console::new(surface, Palette::flat())
}

#[test]
fn grid_get_set_round_trip() {
    let mut grid = TextBuffer::new(4, 3);
    let cell = ScreenChar { ascii_character: b'q', fg: 1, bg: 2 };
    grid.set_char(3, 2, cell);
    assert_eq!(grid.get_char(3, 2), Some(cell));
    assert_eq!(grid.get_char(0, 0).unwrap().ascii_character, b' ');
}

#[test]
fn grid_out_of_bounds_access_is_harmless() {
    let mut grid = TextBuffer::new(4, 3);
    let sentinel = ScreenChar { ascii_character: b'#', fg: 7, bg: 8 };
    for y in 0..3 {
        for x in 0..4 {
            grid.set_char(x, y, sentinel);
        }
    }
    let before = grid.buffer.clone();
    grid.set_char(4, 0, ScreenChar { ascii_character: b'!', fg: 0, bg: 0 });
    grid.set_char(0, 3, ScreenChar { ascii_character: b'!', fg: 0, bg: 0 });
    grid.set_char(usize::MAX, usize::MAX, ScreenChar { ascii_character: b'!', fg: 0, bg: 0 });
    assert_eq!(grid.buffer, before);
    assert_eq!(grid.get_char(4, 0), None);
    assert_eq!(grid.get_char(0, 3), None);
    assert!(grid.get_row(3).is_none());
}

#[test]
fn grid_rows_read_and_write() {
    let mut grid = TextBuffer::new(2, 2);
    let a = ScreenChar { ascii_character: b'a', fg: 1, bg: 2 };
    let b = ScreenChar { ascii_character: b'b', fg: 3, bg: 4 };
    grid.set_row(1, &[a, b]);
    assert_eq!(grid.get_row(1).unwrap(), &[a, b]);
    // A row of the wrong length changes nothing.
    let before = grid.buffer.clone();
    grid.set_row(0, &[a]);
    assert_eq!(grid.buffer, before);
}

#[test]
fn console_dimensions_derive_from_surface_and_glyph_cell() {
    let console = small_console();
    assert_eq!(console.buffer.width, 9);
    assert_eq!(console.buffer.height, 5);
    assert_eq!(console.col, 0);
    assert_eq!(console.row, 0);
    assert_eq!(console.fg, Palette::flat().white);
    assert_eq!(console.bg, Palette::flat().clear);
}

#[test]
fn wrap_after_full_line() {
    // Writing width + 5 printable characters wraps exactly once and leaves
    // the cursor at column 5 of the second row.
    let mut console = small_console();
    let width = console.buffer.width;
    let text: String = std::iter::repeat('x').take(width + 5).collect();
    console.write_str(&text);
    assert_eq!(console.row, 1);
    assert_eq!(console.col, 5);
    for x in 0..width {
        assert_eq!(console.buffer.get_char(x, 0).unwrap().ascii_character, b'x');
    }
    for x in 0..5 {
        assert_eq!(console.buffer.get_char(x, 1).unwrap().ascii_character, b'x');
    }
    assert_eq!(console.buffer.get_char(5, 1).unwrap().ascii_character, b' ');
}

#[test]
fn newline_resets_column() {
    let mut console = small_console();
    console.write_str("ab\ncd");
    assert_eq!(console.buffer.get_char(0, 0).unwrap().ascii_character, b'a');
    assert_eq!(console.buffer.get_char(1, 0).unwrap().ascii_character, b'b');
    assert_eq!(console.buffer.get_char(0, 1).unwrap().ascii_character, b'c');
    assert_eq!(console.buffer.get_char(1, 1).unwrap().ascii_character, b'd');
    assert_eq!(console.row, 1);
    assert_eq!(console.col, 2);
}

#[test]
fn scroll_moves_rows_up_and_blanks_the_last() {
    let mut console = small_console();
    let width = console.buffer.width;
    let height = console.buffer.height;
    // Tag every row with its index.
    for y in 0..height {
        for x in 0..width {
            console.buffer.set_char(
                x,
                y,
                ScreenChar { ascii_character: b'0' + y as u8, fg: y as u32, bg: 99 },
            );
        }
    }
    let old_rows: Vec<Vec<ScreenChar>> =
        (0..height).map(|y| console.buffer.get_row(y).unwrap().to_vec()).collect();
    // Park the cursor on the last full row, then a newline forces a scroll.
    console.set_position(height - 2, 0);
    console.write_str("\n");
    assert_eq!(console.row, height - 2);
    assert_eq!(console.col, 0);
    for y in 0..height - 1 {
        assert_eq!(console.buffer.get_row(y).unwrap(), &old_rows[y + 1][..]);
    }
    let blank = console.buffer.get_row(height - 1).unwrap();
    for cell in blank {
        assert_eq!(cell.ascii_character, b' ');
        assert_eq!(cell.fg, console.fg);
        assert_eq!(cell.bg, console.bg);
    }
}

#[test]
fn escape_sequence_sets_foreground_then_resets() {
    let mut console = small_console();
    let palette = console.get_palette();
    console.write_str("\x1b2;4mRED\x1b0m");
    let expected = [b'R', b'E', b'D'];
    for (x, ch) in expected.iter().enumerate() {
        let cell = console.buffer.get_char(x, 0).unwrap();
        assert_eq!(cell.ascii_character, *ch);
        assert_eq!(cell.fg, palette.red);
        // The background was never selected, so it stays the default.
        assert_eq!(cell.bg, palette.clear);
    }
    assert_eq!(console.col, 3);
    assert_eq!(console.fg, palette.white);
    assert_eq!(console.bg, palette.clear);
    assert_eq!(console.mode, EscapeMode::Normal);
}

#[test]
fn escape_sequence_sets_background() {
    let mut console = small_console();
    let palette = console.get_palette();
    console.write_str("\x1b1;2mG");
    let cell = console.buffer.get_char(0, 0).unwrap();
    assert_eq!(cell.ascii_character, b'G');
    assert_eq!(cell.bg, palette.green);
    assert_eq!(cell.fg, palette.white);
}

#[test]
fn malformed_escape_emits_the_byte_literally() {
    let mut console = small_console();
    console.write_str("\x1bzX");
    assert_eq!(console.buffer.get_char(0, 0).unwrap().ascii_character, b'z');
    assert_eq!(console.buffer.get_char(1, 0).unwrap().ascii_character, b'X');
    assert_eq!(console.mode, EscapeMode::Normal);

    let mut console = small_console();
    console.write_str("\x1b2;qY");
    assert_eq!(console.buffer.get_char(0, 0).unwrap().ascii_character, b'q');
    assert_eq!(console.buffer.get_char(1, 0).unwrap().ascii_character, b'Y');
}

#[test]
fn back_space_erases_one_column_and_stops_at_zero() {
    let mut console = small_console();
    console.write_str("hi");
    console.back_space();
    assert_eq!(console.col, 1);
    assert_eq!(console.buffer.get_char(1, 0).unwrap().ascii_character, b' ');
    assert_eq!(console.buffer.get_char(0, 0).unwrap().ascii_character, b'h');
    console.back_space();
    assert_eq!(console.col, 0);
    let before = console.buffer.buffer.clone();
    console.back_space();
    assert_eq!(console.col, 0);
    assert_eq!(console.buffer.buffer, before);
}

#[test]
fn write_presents_once_at_the_end() {
    let mut console = small_console();
    console.write_str("A");
    assert_eq!(console.surface.front, console.surface.back);
}

#[test]
fn clear_blanks_the_grid_and_resets_state() {
    let mut console = small_console();
    console.write_str("\x1b2;4mstuff");
    console.clear();
    let palette = console.get_palette();
    assert_eq!(console.col, 0);
    assert_eq!(console.row, 0);
    assert_eq!(console.fg, palette.white);
    assert_eq!(console.bg, palette.clear);
    for cell in &console.buffer.buffer {
        assert_eq!(cell.ascii_character, b' ');
        assert_eq!(cell.fg, palette.black);
        assert_eq!(cell.bg, palette.black);
    }
    assert_eq!(console.surface.front, console.surface.back);
}

#[test]
fn fill_sets_every_cell() {
    let mut console = small_console();
    console.fill('#', 5, 6);
    for cell in &console.buffer.buffer {
        assert_eq!(cell.ascii_character, b'#');
        assert_eq!(cell.fg, 5);
        assert_eq!(cell.bg, 6);
    }
    assert_eq!(console.col, 0);
    assert_eq!(console.row, 0);
}

#[test]
fn set_position_is_bounds_checked() {
    let mut console = small_console();
    console.set_position(2, 3);
    assert_eq!((console.row, console.col), (2, 3));
    console.set_position(100, 0);
    assert_eq!((console.row, console.col), (2, 3));
}

#[test]
fn init_replaces_grid_and_palette() {
    let mut console = small_console();
    console.write_str("junk");
    let palette = Palette { black: 42, ..Palette::flat() };
    console.init(palette);
    assert_eq!(console.get_palette().black, 42);
    assert_eq!(console.palette().black, 42);
    assert_eq!(console.col, 0);
    assert_eq!(console.row, 0);
    assert_eq!(console.buffer.get_char(0, 0).unwrap().ascii_character, b' ');
}

#[test]
fn named_colours_match_the_flat_palette() {
    assert_eq!(Colour::Red.value(), 0xAA0000FF);
    assert_eq!(Colour::White.value(), 0xFFFFFFFF);
    assert_eq!(Colour::Clear.value(), 0x00000000);
    let p = Palette::flat();
    assert_eq!(p.red, Colour::Red.value());
    assert_eq!(p.yellow, 0xFFFF55FF);
}

#[test]
fn size_bytes_exact() {
    assert_eq!(Size::KiB(3).bytes(), 3 * 1024);
    assert_eq!(Size::MiB(1).bytes(), 1024 * 1024);
    assert_eq!(Size::GiB(2).bytes(), 2 * 1024 * 1024 * 1024);
    assert_eq!(Size::TiB(1).bytes(), 1024usize * 1024 * 1024 * 1024);
}

#[test]
fn scrolled_row_renders_identically_to_its_source() {
    // After a scroll, the row that moved up must pixel-render exactly as
    // its source row did before the scroll.
    let mut console = small_console();
    let width = console.buffer.width;
    let height = console.buffer.height;
    for y in 0..height {
        for x in 0..width {
            console.buffer.set_char(
                x,
                y,
                ScreenChar {
                    ascii_character: b'A' + y as u8,
                    fg: 0xFFFFFFFF,
                    bg: 0x000000FF,
                },
            );
        }
    }
    let old_last_full: Vec<ScreenChar> = console.buffer.get_row(height - 1).unwrap().to_vec();
    console.set_position(height - 2, 0);
    console.write_str("\n");
    let new_row: Vec<ScreenChar> = console.buffer.get_row(height - 2).unwrap().to_vec();
    assert_eq!(new_row, old_last_full);

    let mut before = Screen::init(64, 16, 64, 4, PixelFormat::Rgb);
    let mut after = Screen::init(64, 16, 64, 4, PixelFormat::Rgb);
    for (x, cell) in old_last_full.iter().enumerate() {
        before.char(x * 7, 0, cell.fg, cell.bg, cell.ascii_character as char);
    }
    for (x, cell) in new_row.iter().enumerate() {
        after.char(x * 7, 0, cell.fg, cell.bg, cell.ascii_character as char);
    }
    assert_eq!(before.back, after.back);
}
