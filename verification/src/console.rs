//! The text console: a cursor over a character grid, glyph rendering onto
//! the pixel surface, newline / line-wrap / scroll policy, and the
//! escape-sequence colour language, driven one character at a time by an
//! explicit state machine.
//!
//! The escape language: an escape byte enters escape-start. There, `m`
//! resets both colours to the defaults (white on clear), `0` does the same
//! and stays, `1` selects the background as target, `2` the foreground,
//! and `;` enters escape-parameter mode; any other character is emitted
//! literally and the sequence is abandoned. In escape-parameter mode the
//! characters `0`-`9` and `a`-`f` set the selected target to the
//! corresponding palette entry and `r` to the transparent clear colour;
//! `m` returns to normal text, and any other character is emitted
//! literally.

use vstd::prelude::*;

use crate::font::{glyph_or_fallback, glyph_render, lemma_glyph_render_same_geometry,
    GLYPH_HEIGHT, GLYPH_WIDTH};
use crate::grid::{ScreenChar, TextBuffer};
use crate::palette::Palette;
use crate::surface::{clear_pattern, lemma_rect_blend_same_geometry, rect_blend, shift_bytes,
    PixelFormat, Screen};

verus! {

/// The parser state of the escape-sequence colour language.
#[derive(Debug, Clone, Copy, PartialEq, Eq, Structural)]
pub enum EscapeMode {
    /// Ordinary text.
    Normal,
    /// An escape byte has been seen.
    Start,
    /// Accumulating palette parameters after `;`.
    Param,
}

/// The mathematical state of the console's text layer: the cell grid, the
/// cursor, the active colours, and the escape-parser state.
pub struct TextModel {
    pub grid: Seq<ScreenChar>,
    pub width: int,
    pub height: int,
    pub col: int,
    pub row: int,
    pub fg: u32,
    pub bg: u32,
    pub mode: EscapeMode,
    pub target_fg: bool,
    pub palette: Palette,
}

/// The cell written into rows exposed by scrolling: a space in the current
/// colours.
pub open spec fn blank_cell(m: TextModel) -> ScreenChar {
    ScreenChar { ascii_character: 32, fg: m.fg, bg: m.bg }
}

/// The cells of row `r` of a model's grid.
pub open spec fn model_row(m: TextModel, r: int) -> Seq<ScreenChar> {
    m.grid.subrange(r * m.width, r * m.width + m.width)
}

/// Scrolling: every row moves one row up, row 0 is lost, the bottom row is
/// blanked, and the cursor row moves up with its line.
pub open spec fn model_scroll(m: TextModel) -> TextModel {
    TextModel {
        grid: m.grid.skip(m.width) + Seq::new(m.width as nat, |i: int| blank_cell(m)),
        row: m.row - 1,
        ..m
    }
}

/// A newline: the cursor moves to column 0 of the next row, and the
/// console scrolls when the cursor would enter the partial bottom row.
pub open spec fn model_new_line(m: TextModel) -> TextModel {
    let m1 = TextModel { col: 0, row: m.row + 1, ..m };
    if m1.row >= m.height - 1 {
        model_scroll(m1)
    } else {
        m1
    }
}

/// Placing a printable byte: the line wraps first if the cursor sits past
/// the last column, then the byte is stored at the cursor in the current
/// colours and the cursor advances. On a zero-width grid nothing is
/// placed.
pub open spec fn model_put(m: TextModel, byte: u8) -> TextModel {
    let m1 = if m.col >= m.width {
        model_new_line(m)
    } else {
        m
    };
    if m1.col < m1.width {
        let cell = ScreenChar { ascii_character: byte, fg: m1.fg, bg: m1.bg };
        TextModel { grid: m1.grid.update(m1.row * m1.width + m1.col, cell), col: m1.col + 1, ..m1 }
    } else {
        m1
    }
}

/// Emitting a byte in text position: a newline byte advances the line,
/// anything else is placed at the cursor.
pub open spec fn model_emit(m: TextModel, byte: u8) -> TextModel {
    if byte == 10 {
        model_new_line(m)
    } else {
        model_put(m, byte)
    }
}

/// One step of the console state machine on one input character.
pub open spec fn model_step(m: TextModel, c: char) -> TextModel {
    match m.mode {
        EscapeMode::Normal => {
            if c == '\u{1b}' {
                TextModel { mode: EscapeMode::Start, ..m }
            } else {
                model_emit(m, c as u8)
            }
        },
        EscapeMode::Start => {
            if c == ';' {
                TextModel { mode: EscapeMode::Param, ..m }
            } else if c == 'm' {
                TextModel {
                    mode: EscapeMode::Normal,
                    fg: m.palette.white,
                    bg: m.palette.clear,
                    ..m
                }
            } else if c == '0' {
                TextModel { fg: m.palette.white, bg: m.palette.clear, ..m }
            } else if c == '1' {
                TextModel { target_fg: false, ..m }
            } else if c == '2' {
                TextModel { target_fg: true, ..m }
            } else {
                model_emit(TextModel { mode: EscapeMode::Normal, ..m }, c as u8)
            }
        },
        EscapeMode::Param => {
            if c == 'm' {
                TextModel { mode: EscapeMode::Normal, ..m }
            } else if m.palette.spec_entry(c) is Some {
                if m.target_fg {
                    TextModel { fg: m.palette.spec_entry(c).unwrap(), ..m }
                } else {
                    TextModel { bg: m.palette.spec_entry(c).unwrap(), ..m }
                }
            } else {
                model_emit(TextModel { mode: EscapeMode::Normal, ..m }, c as u8)
            }
        },
    }
}

/// The console state after a whole character sequence has been written.
pub open spec fn write_model(m: TextModel, s: Seq<char>) -> TextModel
    decreases s.len(),
{
    if s.len() == 0 {
        m
    } else {
        write_model(model_step(m, s[0]), s.skip(1))
    }
}

/// Writing one more character steps the model once.
pub proof fn lemma_write_model_push(m: TextModel, t: Seq<char>, c: char)
    ensures
        write_model(m, t.push(c)) == model_step(write_model(m, t), c),
    decreases t.len(),
{
    if t.len() == 0 {
        assert(t.push(c)[0] == c);
        assert(t.push(c).skip(1) =~= Seq::<char>::empty());
        assert(write_model(model_step(m, c), Seq::<char>::empty()) == model_step(m, c));
        assert(write_model(m, t.push(c)) == write_model(model_step(m, t.push(c)[0]), t.push(
            c,
        ).skip(1)));
        assert(write_model(m, t) == m);
    } else {
        assert(t.push(c)[0] == t[0]);
        assert(t.push(c).skip(1) =~= t.skip(1).push(c));
        lemma_write_model_push(model_step(m, t[0]), t.skip(1), c);
        assert(write_model(m, t.push(c)) == write_model(model_step(m, t[0]), t.skip(1).push(c)));
        assert(write_model(m, t) == write_model(model_step(m, t[0]), t.skip(1)));
    }
}

/// The back buffer after the console's scroll repaint, on a surface with
/// the geometry of `geom`: the pixel rows move up one glyph height and the
/// top seam line and the newly exposed bottom band are repainted in the
/// background colour; a surface shorter than one glyph row is left
/// untouched.
pub open spec fn scroll_surface_bytes(geom: Screen, back: Seq<u8>, bg: u32) -> Seq<u8> {
    if geom.height >= GLYPH_HEIGHT {
        rect_blend(
            geom,
            rect_blend(
                geom,
                shift_bytes(geom, back, GLYPH_HEIGHT as int),
                bg,
                0,
                0,
                geom.width as int,
                1,
            ),
            bg,
            0,
            geom.height - GLYPH_HEIGHT,
            geom.width as int,
            GLYPH_HEIGHT as int,
        )
    } else {
        back
    }
}

/// The back buffer after a newline: repainted by the scroll exactly when
/// the cursor would enter the partial bottom row, untouched otherwise.
pub open spec fn new_line_surface_bytes(geom: Screen, m: TextModel, back: Seq<u8>) -> Seq<u8> {
    if m.row + 1 >= m.height - 1 {
        scroll_surface_bytes(geom, back, m.bg)
    } else {
        back
    }
}

/// The back buffer after one byte is emitted: a newline byte may scroll;
/// any other byte wraps the line first when the cursor rests past the last
/// column and then draws its glyph at the cursor's cell, in the current
/// colours, at pixel position (column by glyph width, row by glyph
/// height).
pub open spec fn emit_surface_bytes(geom: Screen, m: TextModel, back: Seq<u8>, byte: u8) -> Seq<
    u8,
> {
    if byte == 10 {
        new_line_surface_bytes(geom, m, back)
    } else {
        let m1 = if m.col >= m.width {
            model_new_line(m)
        } else {
            m
        };
        let base = if m.col >= m.width {
            new_line_surface_bytes(geom, m, back)
        } else {
            back
        };
        if m1.col < m1.width {
            glyph_render(
                geom,
                base,
                glyph_or_fallback(byte as char),
                GLYPH_WIDTH as int,
                m1.fg,
                m1.bg,
                m1.col * GLYPH_WIDTH,
                m1.row * GLYPH_HEIGHT,
            )
        } else {
            base
        }
    }
}

/// The back buffer after one state-machine step: escape transitions draw
/// nothing, and emitted bytes draw as `emit_surface_bytes`.
pub open spec fn step_surface_bytes(geom: Screen, m: TextModel, back: Seq<u8>, c: char) -> Seq<
    u8,
> {
    match m.mode {
        EscapeMode::Normal => {
            if c == '\u{1b}' {
                back
            } else {
                emit_surface_bytes(geom, m, back, c as u8)
            }
        },
        EscapeMode::Start => {
            if c == ';' || c == 'm' || c == '0' || c == '1' || c == '2' {
                back
            } else {
                emit_surface_bytes(geom, m, back, c as u8)
            }
        },
        EscapeMode::Param => {
            if c == 'm' || m.palette.spec_entry(c) is Some {
                back
            } else {
                emit_surface_bytes(geom, m, back, c as u8)
            }
        },
    }
}

/// The back buffer after a whole character sequence has been written,
/// before the final flip.
pub open spec fn write_surface_bytes(
    geom: Screen,
    m: TextModel,
    back: Seq<u8>,
    s: Seq<char>,
) -> Seq<u8>
    decreases s.len(),
{
    if s.len() == 0 {
        back
    } else {
        write_surface_bytes(
            geom,
            model_step(m, s[0]),
            step_surface_bytes(geom, m, back, s[0]),
            s.skip(1),
        )
    }
}

/// The emitted byte's surface effect does not depend on the parser mode.
proof fn lemma_emit_surface_mode_irrelevant(
    geom: Screen,
    m: TextModel,
    back: Seq<u8>,
    byte: u8,
)
    ensures
        emit_surface_bytes(geom, TextModel { mode: EscapeMode::Normal, ..m }, back, byte)
            == emit_surface_bytes(geom, m, back, byte),
{
}

/// The scroll repaint reads only the surface's geometry.
proof fn lemma_scroll_surface_same_geometry(ga: Screen, gb: Screen, back: Seq<u8>, bg: u32)
    requires
        ga.same_geometry(gb),
    ensures
        scroll_surface_bytes(ga, back, bg) == scroll_surface_bytes(gb, back, bg),
{
    if ga.height >= GLYPH_HEIGHT {
        let shifted = shift_bytes(ga, back, GLYPH_HEIGHT as int);
        assert(shifted =~= shift_bytes(gb, back, GLYPH_HEIGHT as int));
        lemma_rect_blend_same_geometry(ga, gb, shifted, bg, 0, 0, ga.width as int, 1);
        let seamed = rect_blend(ga, shifted, bg, 0, 0, ga.width as int, 1);
        lemma_rect_blend_same_geometry(
            ga,
            gb,
            seamed,
            bg,
            0,
            ga.height - GLYPH_HEIGHT,
            ga.width as int,
            GLYPH_HEIGHT as int,
        );
    }
}

/// One step's surface effect reads only the surface's geometry.
proof fn lemma_step_surface_same_geometry(
    ga: Screen,
    gb: Screen,
    m: TextModel,
    back: Seq<u8>,
    c: char,
)
    requires
        ga.same_geometry(gb),
    ensures
        step_surface_bytes(ga, m, back, c) == step_surface_bytes(gb, m, back, c),
{
    lemma_emit_surface_same_geometry(ga, gb, m, back, c as u8);
}

/// An emitted byte's surface effect reads only the surface's geometry.
proof fn lemma_emit_surface_same_geometry(
    ga: Screen,
    gb: Screen,
    m: TextModel,
    back: Seq<u8>,
    byte: u8,
)
    requires
        ga.same_geometry(gb),
    ensures
        emit_surface_bytes(ga, m, back, byte) == emit_surface_bytes(gb, m, back, byte),
{
    lemma_scroll_surface_same_geometry(ga, gb, back, m.bg);
    if byte != 10 {
        let m1 = if m.col >= m.width {
            model_new_line(m)
        } else {
            m
        };
        let base = if m.col >= m.width {
            new_line_surface_bytes(ga, m, back)
        } else {
            back
        };
        if m1.col < m1.width {
            lemma_glyph_render_same_geometry(
                ga,
                gb,
                base,
                glyph_or_fallback(byte as char),
                GLYPH_WIDTH as int,
                m1.fg,
                m1.bg,
                m1.col * GLYPH_WIDTH,
                m1.row * GLYPH_HEIGHT,
            );
        }
    }
}

/// Writing one more character steps the surface effect once.
pub proof fn lemma_write_surface_push(
    geom: Screen,
    m: TextModel,
    back: Seq<u8>,
    t: Seq<char>,
    c: char,
)
    ensures
        write_surface_bytes(geom, m, back, t.push(c)) == step_surface_bytes(
            geom,
            write_model(m, t),
            write_surface_bytes(geom, m, back, t),
            c,
        ),
    decreases t.len(),
{
    if t.len() == 0 {
        assert(t.push(c)[0] == c);
        assert(t.push(c).skip(1) =~= Seq::<char>::empty());
        assert(write_surface_bytes(
            geom,
            model_step(m, c),
            step_surface_bytes(geom, m, back, c),
            Seq::<char>::empty(),
        ) == step_surface_bytes(geom, m, back, c));
        assert(write_surface_bytes(geom, m, back, t.push(c)) == write_surface_bytes(
            geom,
            model_step(m, t.push(c)[0]),
            step_surface_bytes(geom, m, back, t.push(c)[0]),
            t.push(c).skip(1),
        ));
        assert(write_model(m, t) == m);
        assert(write_surface_bytes(geom, m, back, t) == back);
    } else {
        assert(t.push(c)[0] == t[0]);
        assert(t.push(c).skip(1) =~= t.skip(1).push(c));
        lemma_write_surface_push(
            geom,
            model_step(m, t[0]),
            step_surface_bytes(geom, m, back, t[0]),
            t.skip(1),
            c,
        );
        assert(write_surface_bytes(geom, m, back, t.push(c)) == write_surface_bytes(
            geom,
            model_step(m, t[0]),
            step_surface_bytes(geom, m, back, t[0]),
            t.skip(1).push(c),
        ));
        assert(write_surface_bytes(geom, m, back, t) == write_surface_bytes(
            geom,
            model_step(m, t[0]),
            step_surface_bytes(geom, m, back, t[0]),
            t.skip(1),
        ));
        assert(write_model(m, t) == write_model(model_step(m, t[0]), t.skip(1)));
    }
}

/// Scrolling moves every surviving row up by one and blanks the bottom
/// row: afterwards row `r` holds what row `r + 1` held, for every row but
/// the last, and the last row holds only blank cells in the current
/// colours.
pub proof fn lemma_scroll_rows(m: TextModel)
    requires
        m.grid.len() == m.width * m.height,
        m.width >= 0,
        m.height >= 1,
    ensures
        forall|r: int|
            0 <= r < m.height - 1 ==> model_row(model_scroll(m), r) == model_row(m, r + 1),
        model_row(model_scroll(m), m.height - 1) == Seq::new(m.width as nat, |i: int| blank_cell(m)),
{
    let sm = model_scroll(m);
    assert(m.width * m.height >= m.width * 1 && m.width * m.height >= 0) by (nonlinear_arith)
        requires
            m.height >= 1,
            m.width >= 0,
    ;
    assert(sm.grid.len() == m.grid.len());
    assert forall|r: int| 0 <= r < m.height - 1 implies model_row(sm, r) == model_row(m, r + 1) by {
        assert(0 <= r * m.width && (r + 1) * m.width + m.width <= m.width * m.height && (r + 1)
            * m.width == r * m.width + m.width) by (nonlinear_arith)
            requires
                0 <= r < m.height - 1,
                m.width >= 0,
        ;
        assert forall|j: int| 0 <= j < m.width implies model_row(sm, r)[j] == model_row(
            m,
            r + 1,
        )[j] by {
            assert(sm.grid[r * m.width + j] == m.grid[(r + 1) * m.width + j]);
        }
        assert(model_row(sm, r) =~= model_row(m, r + 1));
    }
    let last = m.height - 1;
    assert(0 <= last * m.width && last * m.width + m.width == m.width * m.height)
        by (nonlinear_arith)
        requires
            last == m.height - 1,
            m.height >= 1,
            m.width >= 0,
    ;
    assert forall|j: int| 0 <= j < m.width implies model_row(sm, last)[j] == blank_cell(m) by {
        assert(sm.grid[last * m.width + j] == (Seq::new(m.width as nat, |i: int| blank_cell(m)))[
            last * m.width + j - (m.width * m.height - m.width)]);
    }
    assert(model_row(sm, last) =~= Seq::new(m.width as nat, |i: int| blank_cell(m)));
}

/// The text console: the pixel surface it renders onto, its character
/// grid, the cursor, the palette, and the escape-parser state.
pub struct Console {
    pub surface: Screen,
    pub buffer: TextBuffer,
    pub col: usize,
    pub row: usize,
    pub colour_palette: Palette,
    pub fg: u32,
    pub bg: u32,
    pub mode: EscapeMode,
    pub target_fg: bool,
}

impl Console {
    /// The text-layer state of this console.
    pub open spec fn text_model(self) -> TextModel {
        TextModel {
            grid: self.buffer.buffer@,
            width: self.buffer.width as int,
            height: self.buffer.height as int,
            col: self.col as int,
            row: self.row as int,
            fg: self.fg,
            bg: self.bg,
            mode: self.mode,
            target_fg: self.target_fg,
            palette: self.colour_palette,
        }
    }

    /// The console's invariant: the surface is a well-formed colour
    /// surface, the grid is well-formed and sized so that every cell's
    /// glyph rectangle fits the arithmetic of the surface, and the cursor
    /// sits inside the grid (the column may rest one past the last cell).
    pub open spec fn wf(self) -> bool {
        &&& self.surface.wf()
        &&& self.surface.pixel_format != PixelFormat::U8
        &&& self.buffer.wf()
        &&& self.buffer.width * GLYPH_WIDTH <= self.surface.width
        &&& (self.buffer.height - 1) * GLYPH_HEIGHT <= self.surface.height
        &&& self.buffer.height >= 1
        &&& self.surface.height + GLYPH_HEIGHT <= usize::MAX
        &&& self.col <= self.buffer.width
        &&& self.row < self.buffer.height
    }

    /// The glyph rectangle of an in-grid cell stays inside machine bounds.
    proof fn lemma_cell_origin(self, x: int, y: int)
        requires
            self.wf(),
            0 <= x < self.buffer.width,
            0 <= y < self.buffer.height,
        ensures
            0 <= x * GLYPH_WIDTH,
            x * GLYPH_WIDTH + GLYPH_WIDTH <= self.surface.width,
            0 <= y * GLYPH_HEIGHT,
            y * GLYPH_HEIGHT + GLYPH_HEIGHT <= self.surface.height + GLYPH_HEIGHT,
    {
        assert(0 <= x * GLYPH_WIDTH && (x + 1) * GLYPH_WIDTH <= self.buffer.width * GLYPH_WIDTH
            && x * GLYPH_WIDTH + GLYPH_WIDTH == (x + 1) * GLYPH_WIDTH) by (nonlinear_arith)
            requires
                0 <= x < self.buffer.width,
        ;
        assert(0 <= y * GLYPH_HEIGHT && y * GLYPH_HEIGHT <= (self.buffer.height - 1)
            * GLYPH_HEIGHT) by (nonlinear_arith)
            requires
                0 <= y < self.buffer.height,
        ;
    }

    /// Builds a console over the given surface: the grid spans as many
    /// whole glyph columns as fit the surface width and one more row than
    /// whole glyph rows fit its height, so the bottom row may be partly
    /// covered; the cursor starts at the origin with the default colours,
    /// white on clear.
    pub fn new(surface: Screen, palette: Palette) -> (r: Console)
        requires
            surface.wf(),
            surface.pixel_format != PixelFormat::U8,
            surface.height + GLYPH_HEIGHT <= usize::MAX,
            (surface.width / GLYPH_WIDTH) * (surface.height / GLYPH_HEIGHT + 1) <= usize::MAX,
        ensures
            r.wf(),
            r.surface == surface,
            r.colour_palette == palette,
            r.text_model() == fresh_model(surface, palette),
    {
        let width = surface.width / GLYPH_WIDTH;
        let height = surface.height / GLYPH_HEIGHT + 1;
        proof {
            vstd::arithmetic::div_mod::lemma_fundamental_div_mod(surface.width as int,
                GLYPH_WIDTH as int);
            vstd::arithmetic::div_mod::lemma_mod_pos_bound(surface.width as int,
                GLYPH_WIDTH as int);
            vstd::arithmetic::div_mod::lemma_fundamental_div_mod(surface.height as int,
                GLYPH_HEIGHT as int);
            vstd::arithmetic::div_mod::lemma_mod_pos_bound(surface.height as int,
                GLYPH_HEIGHT as int);
        }
        let buffer = TextBuffer::new(width, height);
        let console = Console {
            surface,
            buffer,
            col: 0,
            row: 0,
            colour_palette: palette,
            fg: palette.white,
            bg: palette.clear,
            mode: EscapeMode::Normal,
            target_fg: true,
        };
        proof {
            assert(console.text_model().grid =~= fresh_model(surface, palette).grid);
        }
        console
    }

    /// Replaces the palette and grid and resets the cursor and colours, as
    /// building a fresh console over the same surface would.
    pub fn init(&mut self, palette: Palette)
        requires
            old(self).wf(),
            (old(self).surface.width / GLYPH_WIDTH) * (old(self).surface.height / GLYPH_HEIGHT
                + 1) <= usize::MAX,
        ensures
            final(self).wf(),
            final(self).surface == old(self).surface,
            final(self).colour_palette == palette,
            final(self).text_model() == fresh_model(old(self).surface, palette),
    {
        let width = self.surface.width / GLYPH_WIDTH;
        let height = self.surface.height / GLYPH_HEIGHT + 1;
        proof {
            vstd::arithmetic::div_mod::lemma_fundamental_div_mod(self.surface.width as int,
                GLYPH_WIDTH as int);
            vstd::arithmetic::div_mod::lemma_mod_pos_bound(self.surface.width as int,
                GLYPH_WIDTH as int);
            vstd::arithmetic::div_mod::lemma_fundamental_div_mod(self.surface.height as int,
                GLYPH_HEIGHT as int);
            vstd::arithmetic::div_mod::lemma_mod_pos_bound(self.surface.height as int,
                GLYPH_HEIGHT as int);
        }
        self.buffer = TextBuffer::new(width, height);
        self.colour_palette = palette;
        self.col = 0;
        self.row = 0;
        self.fg = palette.white;
        self.bg = palette.clear;
        self.mode = EscapeMode::Normal;
        self.target_fg = true;
        proof {
            assert(self.text_model().grid =~= fresh_model(old(self).surface, palette).grid);
        }
    }

    /// Returns the active palette.
    pub fn get_palette(&self) -> (r: Palette)
        ensures
            r == self.colour_palette,
    {
        self.colour_palette
    }

    /// Returns the active palette.
    pub fn palette(&self) -> (r: Palette)
        ensures
            r == self.colour_palette,
    {
        self.colour_palette
    }

    /// Moves the cursor; a position outside the grid changes nothing.
    pub fn set_position(&mut self, row: usize, col: usize)
        requires
            old(self).wf(),
        ensures
            final(self).wf(),
            row < old(self).buffer.height && col <= old(self).buffer.width ==> *final(self) == (
            Console { row, col, ..*old(self) }),
            !(row < old(self).buffer.height && col <= old(self).buffer.width) ==> *final(self)
                == *old(self),
    {
        if row < self.buffer.height && col <= self.buffer.width {
            self.row = row;
            self.col = col;
        }
    }
}

/// The text state of a console freshly built over `surface`: a grid of
/// default cells sized from the surface geometry, the cursor at the
/// origin, white on clear, in normal mode with the foreground targeted.
pub open spec fn fresh_model(surface: Screen, palette: Palette) -> TextModel {
    let width = surface.width as int / GLYPH_WIDTH as int;
    let height = surface.height as int / GLYPH_HEIGHT as int + 1;
    TextModel {
        grid: Seq::new((width * height) as nat, |i: int| ScreenChar::spec_default()),
        width: width,
        height: height,
        col: 0,
        row: 0,
        fg: palette.white,
        bg: palette.clear,
        mode: EscapeMode::Normal,
        target_fg: true,
        palette: palette,
    }
}


/// The cell that backspace writes: a space in the default colours.
pub open spec fn backspace_cell(p: Palette) -> ScreenChar {
    ScreenChar { ascii_character: 32, fg: p.white, bg: p.clear }
}

/// The text state after a backspace: when the cursor is not at column 0 it
/// moves one column left and that cell is blanked; at column 0 nothing
/// changes.
pub open spec fn model_backspace(m: TextModel) -> TextModel {
    if m.col > 0 {
        TextModel {
            col: m.col - 1,
            grid: m.grid.update(m.row * m.width + (m.col - 1), backspace_cell(m.palette)),
            ..m
        }
    } else {
        m
    }
}

impl Console {
    /// Renders the glyph of a cell at grid position `(x, y)` onto the back
    /// buffer at pixel position (x by glyph width, y by glyph height); the
    /// text state is untouched.
    fn write_char(&mut self, x: usize, y: usize, screen_char: ScreenChar)
        requires
            old(self).wf(),
            x < old(self).buffer.width,
            y < old(self).buffer.height,
        ensures
            final(self).wf(),
            final(self).surface.same_geometry(old(self).surface),
            final(self).surface.front == old(self).surface.front,
            final(self).buffer == old(self).buffer,
            final(self).col == old(self).col,
            final(self).row == old(self).row,
            final(self).fg == old(self).fg,
            final(self).bg == old(self).bg,
            final(self).mode == old(self).mode,
            final(self).target_fg == old(self).target_fg,
            final(self).colour_palette == old(self).colour_palette,
            final(self).text_model() == old(self).text_model(),
            final(self).surface.back@ == glyph_render(
                old(self).surface,
                old(self).surface.back@,
                glyph_or_fallback(screen_char.ascii_character as char),
                GLYPH_WIDTH as int,
                screen_char.fg,
                screen_char.bg,
                x * GLYPH_WIDTH,
                y * GLYPH_HEIGHT,
            ),
    {
        proof {
            self.lemma_cell_origin(x as int, y as int);
        }
        let x_pos = x * GLYPH_WIDTH;
        let y_pos = y * GLYPH_HEIGHT;
        self.surface.char(
            x_pos,
            y_pos,
            screen_char.fg,
            screen_char.bg,
            screen_char.ascii_character as char,
        );
    }

    /// Advances the cursor to column 0 of the next row; when the cursor
    /// would enter the partial bottom row, the grid scrolls up one row, the
    /// pixel rows scroll up one glyph height, and the seam rows are
    /// repainted in the current background colour.
    fn new_line(&mut self)
        requires
            old(self).wf(),
        ensures
            final(self).wf(),
            final(self).surface.same_geometry(old(self).surface),
            final(self).surface.front == old(self).surface.front,
            final(self).colour_palette == old(self).colour_palette,
            final(self).text_model() == model_new_line(old(self).text_model()),
            final(self).surface.back@ == new_line_surface_bytes(
                old(self).surface,
                old(self).text_model(),
                old(self).surface.back@,
            ),
            old(self).row + 1 < old(self).buffer.height - 1 ==> final(self).surface == old(
                self,
            ).surface,
    {
        let ghost geom = old(self).surface;
        let ghost back0 = old(self).surface.back@;
        self.row = self.row + 1;
        self.col = 0;
        if self.row >= self.buffer.height - 1 {
            let blank = ScreenChar { ascii_character: 32, fg: self.fg, bg: self.bg };
            self.buffer.scroll_up(blank);
            self.row = self.row - 1;
            if self.surface.height >= GLYPH_HEIGHT {
                let sw = self.surface.width;
                let sh = self.surface.height;
                let bg = self.bg;
                self.surface.shift_y(GLYPH_HEIGHT);
                let ghost shifted = *self;
                self.surface.rect(0, 0, sw, 1, bg);
                let ghost seamed = *self;
                proof {
                    lemma_rect_blend_same_geometry(
                        shifted.surface,
                        geom,
                        shift_bytes(geom, back0, GLYPH_HEIGHT as int),
                        bg,
                        0,
                        0,
                        sw as int,
                        1,
                    );
                }
                self.surface.rect(0, sh - GLYPH_HEIGHT, sw, GLYPH_HEIGHT, bg);
                proof {
                    lemma_rect_blend_same_geometry(
                        seamed.surface,
                        geom,
                        seamed.surface.back@,
                        bg,
                        0,
                        sh - GLYPH_HEIGHT,
                        sw as int,
                        GLYPH_HEIGHT as int,
                    );
                }
            }
        }
    }

    /// Emits one byte in text position: a newline byte advances the line;
    /// any other byte wraps the line if the cursor rests past the last
    /// column, is stored at the cursor in the current colours, is rendered,
    /// and advances the cursor.
    fn write_byte(&mut self, byte: u8)
        requires
            old(self).wf(),
        ensures
            final(self).wf(),
            final(self).surface.same_geometry(old(self).surface),
            final(self).surface.front == old(self).surface.front,
            final(self).colour_palette == old(self).colour_palette,
            final(self).text_model() == model_emit(old(self).text_model(), byte),
            final(self).surface.back@ == emit_surface_bytes(
                old(self).surface,
                old(self).text_model(),
                old(self).surface.back@,
                byte,
            ),
    {
        let ghost geom = old(self).surface;
        let ghost m0 = old(self).text_model();
        let ghost back0 = old(self).surface.back@;
        if byte == 10 {
            self.new_line();
        } else {
            if self.col >= self.buffer.width {
                self.new_line();
            }
            if self.col < self.buffer.width {
                let cell = ScreenChar { ascii_character: byte, fg: self.fg, bg: self.bg };
                self.buffer.set_char(self.col, self.row, cell);
                let c = self.col;
                let r = self.row;
                let ghost mid = *self;
                self.write_char(c, r, cell);
                proof {
                    lemma_glyph_render_same_geometry(
                        mid.surface,
                        geom,
                        mid.surface.back@,
                        glyph_or_fallback(byte as char),
                        GLYPH_WIDTH as int,
                        cell.fg,
                        cell.bg,
                        c * GLYPH_WIDTH,
                        r * GLYPH_HEIGHT,
                    );
                }
                self.col = self.col + 1;
            }
        }
    }

    /// Drives the state machine one input character forward, rendering any
    /// emitted byte.
    fn step_char(&mut self, c: char)
        requires
            old(self).wf(),
        ensures
            final(self).wf(),
            final(self).surface.same_geometry(old(self).surface),
            final(self).surface.front == old(self).surface.front,
            final(self).colour_palette == old(self).colour_palette,
            final(self).text_model() == model_step(old(self).text_model(), c),
            final(self).surface.back@ == step_surface_bytes(
                old(self).surface,
                old(self).text_model(),
                old(self).surface.back@,
                c,
            ),
    {
        proof {
            lemma_emit_surface_mode_irrelevant(
                old(self).surface,
                old(self).text_model(),
                old(self).surface.back@,
                c as u8,
            );
        }
        match self.mode {
            EscapeMode::Normal => {
                if c == '\u{1b}' {
                    self.mode = EscapeMode::Start;
                } else {
                    self.write_byte(c as u8);
                }
            },
            EscapeMode::Start => {
                if c == ';' {
                    self.mode = EscapeMode::Param;
                } else if c == 'm' {
                    self.mode = EscapeMode::Normal;
                    self.fg = self.colour_palette.white;
                    self.bg = self.colour_palette.clear;
                } else if c == '0' {
                    self.fg = self.colour_palette.white;
                    self.bg = self.colour_palette.clear;
                } else if c == '1' {
                    self.target_fg = false;
                } else if c == '2' {
                    self.target_fg = true;
                } else {
                    self.mode = EscapeMode::Normal;
                    self.write_byte(c as u8);
                }
            },
            EscapeMode::Param => {
                if c == 'm' {
                    self.mode = EscapeMode::Normal;
                } else {
                    match self.colour_palette.entry(c) {
                        Some(v) => {
                            if self.target_fg {
                                self.fg = v;
                            } else {
                                self.bg = v;
                            }
                        },
                        None => {
                            self.mode = EscapeMode::Normal;
                            self.write_byte(c as u8);
                        },
                    }
                }
            },
        }
    }

    /// Writes a text chunk: every character runs through the state machine
    /// in input order, and the batched result becomes visible through a
    /// single flip at the end.
    pub fn write_str(&mut self, s: &str)
        requires
            old(self).wf(),
        ensures
            final(self).wf(),
            final(self).surface.same_geometry(old(self).surface),
            final(self).colour_palette == old(self).colour_palette,
            final(self).text_model() == write_model(old(self).text_model(), s@),
            final(self).surface.back@ == write_surface_bytes(
                old(self).surface,
                old(self).text_model(),
                old(self).surface.back@,
                s@,
            ),
            final(self).surface.front@ == final(self).surface.back@,
    {
        let ghost geom = old(self).surface;
        let ghost m0 = old(self).text_model();
        let ghost back0 = old(self).surface.back@;
        let len = s.unicode_len();
        let mut i: usize = 0;
        proof {
            assert(s@.take(0) =~= Seq::<char>::empty());
        }
        while i < len
            invariant
                self.wf(),
                self.surface.same_geometry(geom),
                self.colour_palette == old(self).colour_palette,
                geom == old(self).surface,
                m0 == old(self).text_model(),
                back0 == old(self).surface.back@,
                i <= len,
                len == s@.len(),
                self.text_model() == write_model(m0, s@.take(i as int)),
                self.surface.back@ == write_surface_bytes(geom, m0, back0, s@.take(i as int)),
            decreases len - i,
        {
            let c = s.get_char(i);
            let ghost mid = *self;
            self.step_char(c);
            proof {
                lemma_step_surface_same_geometry(
                    mid.surface,
                    geom,
                    mid.text_model(),
                    mid.surface.back@,
                    c,
                );
                lemma_write_model_push(m0, s@.take(i as int), c);
                lemma_write_surface_push(geom, m0, back0, s@.take(i as int), c);
                assert(s@.take(i as int).push(c) =~= s@.take(i as int + 1));
            }
            i = i + 1;
        }
        proof {
            assert(s@.take(len as int) =~= s@);
        }
        self.surface.flip();
    }

    /// Moves the cursor one column left and blanks that cell with a space
    /// in the default colours, making the change visible at once; at column
    /// 0 nothing happens. The cursor never wraps to the previous row.
    pub fn back_space(&mut self)
        requires
            old(self).wf(),
        ensures
            final(self).wf(),
            final(self).surface.same_geometry(old(self).surface),
            final(self).colour_palette == old(self).colour_palette,
            final(self).text_model() == model_backspace(old(self).text_model()),
            old(self).col > 0 ==> final(self).surface.back@ == glyph_render(
                old(self).surface,
                old(self).surface.back@,
                glyph_or_fallback(' '),
                GLYPH_WIDTH as int,
                old(self).colour_palette.white,
                old(self).colour_palette.clear,
                (old(self).col - 1) * GLYPH_WIDTH,
                old(self).row * GLYPH_HEIGHT,
            ),
            old(self).col > 0 ==> final(self).surface.front@ == final(self).surface.back@,
            old(self).col == 0 ==> *final(self) == *old(self),
    {
        proof {
            assert(32u8 as char == ' ');
        }
        if self.col > 0 {
            self.col = self.col - 1;
            let blank = ScreenChar {
                ascii_character: 32,
                fg: self.colour_palette.white,
                bg: self.colour_palette.clear,
            };
            self.buffer.set_char(self.col, self.row, blank);
            let c = self.col;
            let r = self.row;
            self.write_char(c, r, blank);
            self.surface.flip();
        }
    }

    /// Fills every grid cell with the given character in the given colours,
    /// resets the cursor to the origin, overwrites the whole surface with
    /// the background colour, and makes the result visible.
    pub fn fill(&mut self, c: char, fg_colour: u32, bg_colour: u32)
        requires
            old(self).wf(),
        ensures
            final(self).wf(),
            final(self).surface.same_geometry(old(self).surface),
            final(self).colour_palette == old(self).colour_palette,
            final(self).text_model() == (TextModel {
                grid: Seq::new(
                    old(self).text_model().grid.len(),
                    |i: int|
                        ScreenChar { ascii_character: c as u8, fg: fg_colour, bg: bg_colour },
                ),
                col: 0,
                row: 0,
                ..old(self).text_model()
            }),
            final(self).surface.back@ == clear_pattern(old(self).surface, bg_colour),
            final(self).surface.front@ == final(self).surface.back@,
    {
        self.col = 0;
        self.row = 0;
        let cell = ScreenChar { ascii_character: c as u8, fg: fg_colour, bg: bg_colour };
        self.buffer.fill_cells(cell);
        self.surface.clear(bg_colour);
        self.surface.flip();
    }

    /// Clears the screen: every cell becomes a space on black, the cursor
    /// returns to the origin, and the colours and parser state return to
    /// their defaults.
    pub fn clear(&mut self)
        requires
            old(self).wf(),
        ensures
            final(self).wf(),
            final(self).surface.same_geometry(old(self).surface),
            final(self).colour_palette == old(self).colour_palette,
            final(self).text_model() == (TextModel {
                grid: Seq::new(
                    old(self).text_model().grid.len(),
                    |i: int|
                        ScreenChar {
                            ascii_character: 32,
                            fg: old(self).colour_palette.black,
                            bg: old(self).colour_palette.black,
                        },
                ),
                col: 0,
                row: 0,
                fg: old(self).colour_palette.white,
                bg: old(self).colour_palette.clear,
                mode: EscapeMode::Normal,
                ..old(self).text_model()
            }),
            final(self).surface.back@ == clear_pattern(
                old(self).surface,
                old(self).colour_palette.black,
            ),
            final(self).surface.front@ == final(self).surface.back@,
    {
        let black = self.colour_palette.black;
        self.fill(' ', black, black);
        self.fg = self.colour_palette.white;
        self.bg = self.colour_palette.clear;
        self.mode = EscapeMode::Normal;
    }
}


} // verus!
