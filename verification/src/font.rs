//! The glyph source: monochrome intensity rasters for single characters,
//! looked up in a pre-rendered monospace bitmap font, with a fixed
//! replacement glyph for characters the font lacks; and the renderer that
//! blends a glyph's foreground over its background onto the pixel surface.

use vstd::prelude::*;

use crate::color::{blend_channel, blend_colour, hex_of_rgba, hex_to_rgba, lemma_hex_round_trip,
    rgba_of_hex, rgba_to_hex};
use crate::surface::{pack_spec, write_pixel_spec, Screen};

verus! {

/// Width in pixels of every glyph raster.
pub const GLYPH_WIDTH: usize = 7;

/// Height in pixels of every glyph raster.
pub const GLYPH_HEIGHT: usize = 16;

/// The pixel geometry of the font's character cell.
#[derive(Debug, Clone, Copy, PartialEq, Eq, Structural)]
pub struct Config {
    pub width: usize,
    pub height: usize,
}

impl Config {
    /// The character cell of the built-in font.
    pub open spec fn spec_font() -> Config {
        Config { width: GLYPH_WIDTH as usize, height: GLYPH_HEIGHT as usize }
    }

    /// Returns the character cell of the built-in font.
    #[verifier::when_used_as_spec(spec_font)]
    pub fn font() -> (r: Config)
        ensures
            r == Config::spec_font(),
    {
        Config { width: GLYPH_WIDTH, height: GLYPH_HEIGHT }
    }
}

/// The intensity raster that the font holds for a character: a row-major
/// grid of per-pixel coverage values, or nothing when the font has no glyph
/// for the character.
pub uninterp spec fn glyph_raster(c: char) -> Option<Seq<Seq<u8>>>;

/// The rows of an owned raster, as mathematical sequences.
pub open spec fn raster_view(r: Vec<Vec<u8>>) -> Seq<Seq<u8>> {
    r@.map_values(|row: Vec<u8>| row@)
}

/// A raster has `GLYPH_HEIGHT` rows of `GLYPH_WIDTH` intensities each.
pub open spec fn raster_dims(r: Seq<Seq<u8>>) -> bool {
    r.len() == GLYPH_HEIGHT && forall|i: int| 0 <= i < r.len() ==> (#[trigger] r[i]).len()
        == GLYPH_WIDTH
}

/// Relies on noto_sans_mono_bitmap::get_raster: the raster of a character
/// depends on the character alone, and every raster of the chosen weight
/// and height has GLYPH_HEIGHT rows of GLYPH_WIDTH bytes.
#[verifier::external_body]
fn raster_lookup(c: char) -> (r: Option<Vec<Vec<u8>>>)
    ensures
        r is Some <==> glyph_raster(c) is Some,
        r matches Some(v) ==> raster_view(v) == glyph_raster(c).unwrap() && raster_dims(
            raster_view(v),
        ),
{
    noto_sans_mono_bitmap::get_raster(
        c,
        noto_sans_mono_bitmap::FontWeight::Regular,
        noto_sans_mono_bitmap::RasterHeight::Size16,
    ).map(|rc| rc.raster().iter().map(|row| row.to_vec()).collect())
}

/// Relies on noto_sans_mono_bitmap::get_raster: the font contains a glyph
/// for the replacement character, with the same raster geometry.
#[verifier::external_body]
fn raster_fallback() -> (r: Vec<Vec<u8>>)
    ensures
        glyph_raster('\u{FFFD}') == Some(raster_view(r)),
        raster_dims(raster_view(r)),
{
    let rc = noto_sans_mono_bitmap::get_raster(
        '\u{FFFD}',
        noto_sans_mono_bitmap::FontWeight::Regular,
        noto_sans_mono_bitmap::RasterHeight::Size16,
    ).expect("the font always contains the replacement glyph");
    rc.raster().iter().map(|row| row.to_vec()).collect()
}

/// The raster a character is drawn with: its own glyph when the font has
/// one, the replacement glyph otherwise.
pub open spec fn glyph_or_fallback(c: char) -> Seq<Seq<u8>> {
    if glyph_raster(c) is Some {
        glyph_raster(c).unwrap()
    } else {
        glyph_raster('\u{FFFD}').unwrap()
    }
}

/// Looks up the intensity raster a character is drawn with, falling back to
/// the replacement glyph for characters the font lacks. Never fails.
pub fn get_char_raster(c: char) -> (r: Vec<Vec<u8>>)
    ensures
        raster_view(r) == glyph_or_fallback(c),
        raster_dims(raster_view(r)),
{
    match raster_lookup(c) {
        Some(v) => v,
        None => raster_fallback(),
    }
}

/// The colour of one glyph cell: the foreground blended over the background
/// by the cell's intensity, keeping the foreground's alpha.
pub open spec fn glyph_cell_colour(fg: u32, bg: u32, t: u8) -> (u8, u8, u8, u8) {
    let f = rgba_of_hex(fg);
    let b = rgba_of_hex(bg);
    (blend_channel(f.0, b.0, t), blend_channel(f.1, b.1, t), blend_channel(f.2, b.2, t), f.3)
}

/// Whether pixel `(px, py)` lies in the part of a glyph drawn at `(x, y)`
/// that a row-major draw has reached after `rows_done` full rows and
/// `cols_done` cells of the next row.
pub open spec fn glyph_processed(
    x: int,
    y: int,
    cols: int,
    rows_done: int,
    cols_done: int,
    px: int,
    py: int,
) -> bool {
    (y <= py < y + rows_done && x <= px < x + cols) || (py == y + rows_done && x <= px < x
        + cols_done)
}

/// The byte at index `i` of a buffer holding `base` after the processed
/// part of a glyph has been drawn opaquely at `(x, y)`, on a surface with
/// the geometry of `s0`.
pub open spec fn glyph_fill_byte(
    s0: Screen,
    base: Seq<u8>,
    raster: Seq<Seq<u8>>,
    cols: int,
    fg: u32,
    bg: u32,
    x: int,
    y: int,
    rows_done: int,
    cols_done: int,
    i: int,
) -> u8 {
    let p = i / (s0.bytes_per_pixel as int);
    let px = p % (s0.stride as int);
    let py = p / (s0.stride as int);
    if s0.in_bounds(px, py) && glyph_processed(x, y, cols, rows_done, cols_done, px, py) {
        let cell = glyph_cell_colour(fg, bg, raster[py - y][px - x]);
        pack_spec(s0.pixel_format, cell.0, cell.1, cell.2, cell.3)[i - p * (s0.bytes_per_pixel
            as int)]
    } else {
        base[i]
    }
}

/// A buffer holding `base` after a row-major glyph draw at `(x, y)` has
/// written `rows_done` full rows and `cols_done` cells of the next row, on
/// a surface with the geometry of `s0`.
pub open spec fn glyph_fill(
    s0: Screen,
    base: Seq<u8>,
    raster: Seq<Seq<u8>>,
    cols: int,
    fg: u32,
    bg: u32,
    x: int,
    y: int,
    rows_done: int,
    cols_done: int,
) -> Seq<u8> {
    Seq::new(
        base.len(),
        |i: int| glyph_fill_byte(s0, base, raster, cols, fg, bg, x, y, rows_done, cols_done, i),
    )
}

/// A buffer holding `base` after a whole glyph raster has been drawn
/// opaquely at `(x, y)`, on a surface with the geometry of `s0`: every
/// visible pixel under the raster holds its cell's colour, packed in the
/// surface's format, and every other byte is unchanged.
pub open spec fn glyph_render(
    s0: Screen,
    base: Seq<u8>,
    raster: Seq<Seq<u8>>,
    cols: int,
    fg: u32,
    bg: u32,
    x: int,
    y: int,
) -> Seq<u8> {
    glyph_fill(s0, base, raster, cols, fg, bg, x, y, raster.len() as int, 0)
}

/// The glyph draw reads only the surface's geometry: two surfaces with the
/// same geometry draw a glyph onto a buffer identically.
pub proof fn lemma_glyph_render_same_geometry(
    ga: Screen,
    gb: Screen,
    base: Seq<u8>,
    raster: Seq<Seq<u8>>,
    cols: int,
    fg: u32,
    bg: u32,
    x: int,
    y: int,
)
    requires
        ga.same_geometry(gb),
    ensures
        glyph_render(ga, base, raster, cols, fg, bg, x, y) == glyph_render(
            gb,
            base,
            raster,
            cols,
            fg,
            bg,
            x,
            y,
        ),
{
    assert(glyph_render(ga, base, raster, cols, fg, bg, x, y) =~= glyph_render(
        gb,
        base,
        raster,
        cols,
        fg,
        bg,
        x,
        y,
    ));
}

/// Before any cell is drawn, the glyph draw has changed nothing.
proof fn lemma_glyph_fill_start(
    s0: Screen,
    base: Seq<u8>,
    raster: Seq<Seq<u8>>,
    cols: int,
    fg: u32,
    bg: u32,
    x: int,
    y: int,
)
    ensures
        glyph_fill(s0, base, raster, cols, fg, bg, x, y, 0, 0) == base,
{
    assert(glyph_fill(s0, base, raster, cols, fg, bg, x, y, 0, 0) =~= base);
}

/// Finishing a raster row reaches the same buffer as starting the next one.
proof fn lemma_glyph_fill_row(
    s0: Screen,
    base: Seq<u8>,
    raster: Seq<Seq<u8>>,
    cols: int,
    fg: u32,
    bg: u32,
    x: int,
    y: int,
    rows_done: int,
)
    requires
        0 <= rows_done,
        0 <= cols,
    ensures
        glyph_fill(s0, base, raster, cols, fg, bg, x, y, rows_done, cols) == glyph_fill(
            s0,
            base,
            raster,
            cols,
            fg,
            bg,
            x,
            y,
            rows_done + 1,
            0,
        ),
{
    assert(glyph_fill(s0, base, raster, cols, fg, bg, x, y, rows_done, cols) =~= glyph_fill(
        s0,
        base,
        raster,
        cols,
        fg,
        bg,
        x,
        y,
        rows_done + 1,
        0,
    ));
}

/// One opaque pixel write advances the glyph draw by one cell; a cell off
/// the visible surface advances it without a write.
proof fn lemma_glyph_fill_step(
    s0: Screen,
    base: Seq<u8>,
    mid: Screen,
    raster: Seq<Seq<u8>>,
    cols: int,
    fg: u32,
    bg: u32,
    x: int,
    y: int,
    rows_done: int,
    cols_done: int,
)
    requires
        s0.wf(),
        mid.wf(),
        mid.same_geometry(s0),
        base.len() == s0.byte_len(),
        0 <= x,
        0 <= y,
        0 <= rows_done < raster.len(),
        0 <= cols_done < cols,
        mid.back@ == glyph_fill(s0, base, raster, cols, fg, bg, x, y, rows_done, cols_done),
    ensures
        ({
            let cell = glyph_cell_colour(fg, bg, raster[rows_done][cols_done]);
            &&& (mid.in_bounds(x + cols_done, y + rows_done) ==> write_pixel_spec(
                mid.back@,
                mid.pixel_off(x + cols_done, y + rows_done),
                mid.bytes_per_pixel as int,
                pack_spec(mid.pixel_format, cell.0, cell.1, cell.2, cell.3),
            ) == glyph_fill(s0, base, raster, cols, fg, bg, x, y, rows_done, cols_done + 1))
            &&& (!mid.in_bounds(x + cols_done, y + rows_done) ==> mid.back@ == glyph_fill(
                s0,
                base,
                raster,
                cols,
                fg,
                bg,
                x,
                y,
                rows_done,
                cols_done + 1,
            ))
        }),
{
    let bpp = s0.bytes_per_pixel as int;
    let px0 = x + cols_done;
    let py0 = y + rows_done;
    let target = glyph_fill(s0, base, raster, cols, fg, bg, x, y, rows_done, cols_done + 1);
    if mid.in_bounds(px0, py0) {
        let p0 = py0 * s0.stride + px0;
        let off = s0.pixel_off(px0, py0);
        s0.lemma_pixel_off_in_bounds(px0, py0);
        let cell = glyph_cell_colour(fg, bg, raster[rows_done][cols_done]);
        let written = write_pixel_spec(
            mid.back@,
            off,
            bpp,
            pack_spec(mid.pixel_format, cell.0, cell.1, cell.2, cell.3),
        );
        assert forall|i: int| 0 <= i < base.len() implies written[i] == target[i] by {
            if off <= i < off + bpp {
                s0.lemma_byte_of_pixel(px0, py0, i);
            } else {
                s0.lemma_pixel_of_byte(i);
                let p = i / bpp;
                let px = p % (s0.stride as int);
                let py = p / (s0.stride as int);
                if px == px0 && py == py0 {
                    assert(p == p0);
                    assert(false);
                }
            }
        }
        assert(written =~= target);
    } else {
        assert forall|i: int| 0 <= i < base.len() implies mid.back@[i] == target[i] by {
            s0.lemma_pixel_of_byte(i);
        }
        assert(mid.back@ =~= target);
    }
}

impl Screen {
    /// Draws a character at pixel position `(x, y)`: each cell of its glyph
    /// raster is written opaquely as the foreground blended over the
    /// background by the cell's intensity. Cells off the visible surface
    /// are clipped pixel by pixel.
    pub fn char(&mut self, x: usize, y: usize, fg_colour: u32, bg_colour: u32, c: char)
        requires
            old(self).wf(),
            x + GLYPH_WIDTH <= usize::MAX,
            y + GLYPH_HEIGHT <= usize::MAX,
        ensures
            final(self).wf(),
            final(self).same_geometry(*old(self)),
            final(self).front == old(self).front,
            final(self).back@ == glyph_render(
                *old(self),
                old(self).back@,
                glyph_or_fallback(c),
                GLYPH_WIDTH as int,
                fg_colour,
                bg_colour,
                x as int,
                y as int,
            ),
    {
        let ghost s0 = *old(self);
        let ghost b0 = old(self).back@;
        let raster = get_char_raster(c);
        let ghost rast = raster_view(raster);
        let f = hex_to_rgba(fg_colour);
        let b = hex_to_rgba(bg_colour);
        proof {
            lemma_glyph_fill_start(s0, b0, rast, GLYPH_WIDTH as int, fg_colour, bg_colour,
                x as int, y as int);
        }
        let rows = raster.len();
        let mut i: usize = 0;
        while i < rows
            invariant
                self.wf(),
                s0.wf(),
                self.same_geometry(s0),
                self.front == s0.front,
                x + GLYPH_WIDTH <= usize::MAX,
                y + GLYPH_HEIGHT <= usize::MAX,
                rast == raster_view(raster),
                raster_dims(rast),
                rows == rast.len(),
                f == rgba_of_hex(fg_colour),
                b == rgba_of_hex(bg_colour),
                i <= rows,
                b0 == s0.back@,
                self.back@ == glyph_fill(s0, b0, rast, GLYPH_WIDTH as int, fg_colour, bg_colour,
                    x as int, y as int, i as int, 0),
            decreases rows - i,
        {
            let row = &raster[i];
            proof {
                assert(rast[i as int] == raster@.map_values(|r: Vec<u8>| r@)[i as int]);
                assert(row@ == rast[i as int]);
                assert(rast[i as int].len() == GLYPH_WIDTH);
            }
            let cols = row.len();
            let mut j: usize = 0;
            while j < cols
                invariant
                    self.wf(),
                    s0.wf(),
                    self.same_geometry(s0),
                    self.front == s0.front,
                    x + GLYPH_WIDTH <= usize::MAX,
                    y + GLYPH_HEIGHT <= usize::MAX,
                    rast == raster_view(raster),
                    raster_dims(rast),
                    rows == rast.len(),
                    i < rows,
                    row@ == rast[i as int],
                    cols == GLYPH_WIDTH,
                    cols == row@.len(),
                    f == rgba_of_hex(fg_colour),
                    b == rgba_of_hex(bg_colour),
                    j <= cols,
                    b0 == s0.back@,
                    self.back@ == glyph_fill(s0, b0, rast, GLYPH_WIDTH as int, fg_colour,
                        bg_colour, x as int, y as int, i as int, j as int),
                decreases cols - j,
            {
                let t = row[j];
                let bl = blend_colour((f.0, f.1, f.2, t), (b.0, b.1, b.2, b.3));
                let hex = rgba_to_hex(bl.0, bl.1, bl.2, f.3);
                let ghost mid = *self;
                proof {
                    lemma_hex_round_trip(bl.0, bl.1, bl.2, f.3);
                    assert(rgba_of_hex(hex) == glyph_cell_colour(fg_colour, bg_colour, t));
                }
                self.pixel_fast(x + j, y + i, hex);
                proof {
                    lemma_glyph_fill_step(s0, b0, mid, rast, GLYPH_WIDTH as int, fg_colour,
                        bg_colour, x as int, y as int, i as int, j as int);
                }
                j = j + 1;
            }
            proof {
                lemma_glyph_fill_row(s0, b0, rast, GLYPH_WIDTH as int, fg_colour, bg_colour,
                    x as int, y as int, i as int);
            }
            i = i + 1;
        }
    }

    /// Draws a character at `(x, y)` cell by cell, without batching; writes
    /// the same bytes as `char`.
    pub fn char_slow(&mut self, x: usize, y: usize, fg_colour: u32, bg_colour: u32, c: char)
        requires
            old(self).wf(),
            x + GLYPH_WIDTH <= usize::MAX,
            y + GLYPH_HEIGHT <= usize::MAX,
        ensures
            final(self).wf(),
            final(self).same_geometry(*old(self)),
            final(self).front == old(self).front,
            final(self).back@ == glyph_render(
                *old(self),
                old(self).back@,
                glyph_or_fallback(c),
                GLYPH_WIDTH as int,
                fg_colour,
                bg_colour,
                x as int,
                y as int,
            ),
    {
        self.char(x, y, fg_colour, bg_colour, c)
    }
}

/// The byte at index `i` of the back buffer of `s0` after the processed
/// part of a glyph has been blended, cell over stored pixel, at `(x, y)`.
pub open spec fn glyph_blend_byte(
    s0: Screen,
    raster: Seq<Seq<u8>>,
    cols: int,
    fg: u32,
    bg: u32,
    x: int,
    y: int,
    rows_done: int,
    cols_done: int,
    i: int,
) -> u8 {
    let p = i / (s0.bytes_per_pixel as int);
    let px = p % (s0.stride as int);
    let py = p / (s0.stride as int);
    if s0.in_bounds(px, py) && glyph_processed(x, y, cols, rows_done, cols_done, px, py) {
        let cell = glyph_cell_colour(fg, bg, raster[py - y][px - x]);
        s0.blended_pixel_bytes(px, py, hex_of_rgba(cell.0, cell.1, cell.2, cell.3))[i - p
            * (s0.bytes_per_pixel as int)]
    } else {
        s0.back@[i]
    }
}

/// The back buffer of `s0` after a row-major blended glyph draw at
/// `(x, y)` has written `rows_done` full rows and `cols_done` cells of the
/// next row.
pub open spec fn glyph_blend_fill(
    s0: Screen,
    raster: Seq<Seq<u8>>,
    cols: int,
    fg: u32,
    bg: u32,
    x: int,
    y: int,
    rows_done: int,
    cols_done: int,
) -> Seq<u8> {
    Seq::new(
        s0.back@.len(),
        |i: int| glyph_blend_byte(s0, raster, cols, fg, bg, x, y, rows_done, cols_done, i),
    )
}

/// The back buffer of `s0` after a whole glyph raster has been blended
/// onto it at `(x, y)`: every visible pixel under the raster holds its
/// cell's colour blended, by that colour's alpha, over the pixel's old
/// colour; every other byte is unchanged.
pub open spec fn glyph_blend_render(
    s0: Screen,
    raster: Seq<Seq<u8>>,
    cols: int,
    fg: u32,
    bg: u32,
    x: int,
    y: int,
) -> Seq<u8> {
    glyph_blend_fill(s0, raster, cols, fg, bg, x, y, raster.len() as int, 0)
}

/// Before any cell is drawn, the blended glyph draw has changed nothing.
proof fn lemma_glyph_blend_start(
    s0: Screen,
    raster: Seq<Seq<u8>>,
    cols: int,
    fg: u32,
    bg: u32,
    x: int,
    y: int,
)
    ensures
        glyph_blend_fill(s0, raster, cols, fg, bg, x, y, 0, 0) == s0.back@,
{
    assert(glyph_blend_fill(s0, raster, cols, fg, bg, x, y, 0, 0) =~= s0.back@);
}

/// Finishing a raster row of the blended draw reaches the same buffer as
/// starting the next one.
proof fn lemma_glyph_blend_row(
    s0: Screen,
    raster: Seq<Seq<u8>>,
    cols: int,
    fg: u32,
    bg: u32,
    x: int,
    y: int,
    rows_done: int,
)
    requires
        0 <= rows_done,
        0 <= cols,
    ensures
        glyph_blend_fill(s0, raster, cols, fg, bg, x, y, rows_done, cols) == glyph_blend_fill(
            s0,
            raster,
            cols,
            fg,
            bg,
            x,
            y,
            rows_done + 1,
            0,
        ),
{
    assert(glyph_blend_fill(s0, raster, cols, fg, bg, x, y, rows_done, cols) =~= glyph_blend_fill(
        s0,
        raster,
        cols,
        fg,
        bg,
        x,
        y,
        rows_done + 1,
        0,
    ));
}

/// One blended pixel write advances the blended glyph draw by one cell; a
/// cell off the visible surface advances it without a write.
proof fn lemma_glyph_blend_step(
    s0: Screen,
    mid: Screen,
    raster: Seq<Seq<u8>>,
    cols: int,
    fg: u32,
    bg: u32,
    x: int,
    y: int,
    rows_done: int,
    cols_done: int,
)
    requires
        s0.wf(),
        mid.wf(),
        mid.same_geometry(s0),
        0 <= x,
        0 <= y,
        0 <= rows_done < raster.len(),
        0 <= cols_done < cols,
        mid.back@ == glyph_blend_fill(s0, raster, cols, fg, bg, x, y, rows_done, cols_done),
    ensures
        ({
            let cell = glyph_cell_colour(fg, bg, raster[rows_done][cols_done]);
            let hex = hex_of_rgba(cell.0, cell.1, cell.2, cell.3);
            &&& (mid.in_bounds(x + cols_done, y + rows_done) ==> write_pixel_spec(
                mid.back@,
                mid.pixel_off(x + cols_done, y + rows_done),
                mid.bytes_per_pixel as int,
                mid.blended_pixel_bytes(x + cols_done, y + rows_done, hex),
            ) == glyph_blend_fill(s0, raster, cols, fg, bg, x, y, rows_done, cols_done + 1))
            &&& (!mid.in_bounds(x + cols_done, y + rows_done) ==> mid.back@ == glyph_blend_fill(
                s0,
                raster,
                cols,
                fg,
                bg,
                x,
                y,
                rows_done,
                cols_done + 1,
            ))
        }),
{
    let bpp = s0.bytes_per_pixel as int;
    let px0 = x + cols_done;
    let py0 = y + rows_done;
    let cell = glyph_cell_colour(fg, bg, raster[rows_done][cols_done]);
    let hex = hex_of_rgba(cell.0, cell.1, cell.2, cell.3);
    let target = glyph_blend_fill(s0, raster, cols, fg, bg, x, y, rows_done, cols_done + 1);
    if mid.in_bounds(px0, py0) {
        let p0 = py0 * s0.stride + px0;
        let off = s0.pixel_off(px0, py0);
        s0.lemma_pixel_off_in_bounds(px0, py0);
        assert forall|b: int| off <= b < off + bpp implies mid.back@[b] == s0.back@[b] by {
            s0.lemma_byte_of_pixel(px0, py0, b);
        }
        assert(mid.pixel_bytes(px0, py0) =~= s0.pixel_bytes(px0, py0));
        assert(mid.blended_pixel_bytes(px0, py0, hex) == s0.blended_pixel_bytes(px0, py0, hex));
        let written = write_pixel_spec(
            mid.back@,
            off,
            bpp,
            mid.blended_pixel_bytes(px0, py0, hex),
        );
        assert forall|i: int| 0 <= i < s0.back@.len() implies written[i] == target[i] by {
            if off <= i < off + bpp {
                s0.lemma_byte_of_pixel(px0, py0, i);
            } else {
                s0.lemma_pixel_of_byte(i);
                let p = i / bpp;
                let px = p % (s0.stride as int);
                let py = p / (s0.stride as int);
                if px == px0 && py == py0 {
                    assert(p == p0);
                    assert(false);
                }
            }
        }
        assert(written =~= target);
    } else {
        assert forall|i: int| 0 <= i < s0.back@.len() implies mid.back@[i] == target[i] by {
            s0.lemma_pixel_of_byte(i);
        }
        assert(mid.back@ =~= target);
    }
}

impl Screen {
    /// Draws a character at `(x, y)` with read-back blending: each glyph
    /// cell's colour, foreground over background by the cell's intensity,
    /// is blended by the foreground's alpha over the pixel already stored.
    /// Cells off the visible surface are clipped pixel by pixel.
    pub fn char_old(&mut self, x: usize, y: usize, fg_colour: u32, bg_colour: u32, c: char)
        requires
            old(self).wf(),
            old(self).pixel_format != crate::surface::PixelFormat::U8,
            x + GLYPH_WIDTH <= usize::MAX,
            y + GLYPH_HEIGHT <= usize::MAX,
        ensures
            final(self).wf(),
            final(self).same_geometry(*old(self)),
            final(self).front == old(self).front,
            final(self).back@ == glyph_blend_render(
                *old(self),
                glyph_or_fallback(c),
                GLYPH_WIDTH as int,
                fg_colour,
                bg_colour,
                x as int,
                y as int,
            ),
    {
        let ghost s0 = *old(self);
        let raster = get_char_raster(c);
        let ghost rast = raster_view(raster);
        let f = hex_to_rgba(fg_colour);
        let b = hex_to_rgba(bg_colour);
        proof {
            lemma_glyph_blend_start(s0, rast, GLYPH_WIDTH as int, fg_colour, bg_colour, x as int,
                y as int);
        }
        let rows = raster.len();
        let mut i: usize = 0;
        while i < rows
            invariant
                self.wf(),
                s0.wf(),
                self.same_geometry(s0),
                self.front == s0.front,
                s0.pixel_format != crate::surface::PixelFormat::U8,
                x + GLYPH_WIDTH <= usize::MAX,
                y + GLYPH_HEIGHT <= usize::MAX,
                rast == raster_view(raster),
                raster_dims(rast),
                rows == rast.len(),
                f == rgba_of_hex(fg_colour),
                b == rgba_of_hex(bg_colour),
                i <= rows,
                self.back@ == glyph_blend_fill(s0, rast, GLYPH_WIDTH as int, fg_colour,
                    bg_colour, x as int, y as int, i as int, 0),
            decreases rows - i,
        {
            let row = &raster[i];
            proof {
                assert(rast[i as int] == raster@.map_values(|r: Vec<u8>| r@)[i as int]);
                assert(row@ == rast[i as int]);
                assert(rast[i as int].len() == GLYPH_WIDTH);
            }
            let cols = row.len();
            let mut j: usize = 0;
            while j < cols
                invariant
                    self.wf(),
                    s0.wf(),
                    self.same_geometry(s0),
                    self.front == s0.front,
                    s0.pixel_format != crate::surface::PixelFormat::U8,
                    x + GLYPH_WIDTH <= usize::MAX,
                    y + GLYPH_HEIGHT <= usize::MAX,
                    rast == raster_view(raster),
                    raster_dims(rast),
                    rows == rast.len(),
                    i < rows,
                    row@ == rast[i as int],
                    cols == GLYPH_WIDTH,
                    cols == row@.len(),
                    f == rgba_of_hex(fg_colour),
                    b == rgba_of_hex(bg_colour),
                    j <= cols,
                    self.back@ == glyph_blend_fill(s0, rast, GLYPH_WIDTH as int, fg_colour,
                        bg_colour, x as int, y as int, i as int, j as int),
                decreases cols - j,
            {
                let t = row[j];
                let bl = blend_colour((f.0, f.1, f.2, t), (b.0, b.1, b.2, b.3));
                let hex = rgba_to_hex(bl.0, bl.1, bl.2, f.3);
                let ghost mid = *self;
                proof {
                    lemma_hex_round_trip(bl.0, bl.1, bl.2, f.3);
                    assert(hex == hex_of_rgba(glyph_cell_colour(fg_colour, bg_colour, t).0,
                        glyph_cell_colour(fg_colour, bg_colour, t).1,
                        glyph_cell_colour(fg_colour, bg_colour, t).2,
                        glyph_cell_colour(fg_colour, bg_colour, t).3));
                }
                self.pixel(x + j, y + i, hex);
                proof {
                    lemma_glyph_blend_step(s0, mid, rast, GLYPH_WIDTH as int, fg_colour,
                        bg_colour, x as int, y as int, i as int, j as int);
                }
                j = j + 1;
            }
            proof {
                lemma_glyph_blend_row(s0, rast, GLYPH_WIDTH as int, fg_colour, bg_colour,
                    x as int, y as int, i as int);
            }
            i = i + 1;
        }
    }
}

/// Whether glyph cell `(ci, cj)` lies in the part of a row-major scaled
/// draw that has finished `rows_done` full cell rows and `cols_done` cells
/// of the next row.
pub open spec fn scaled_processed(rows_done: int, cols_done: int, ci: int, cj: int) -> bool {
    ci < rows_done || (ci == rows_done && cj < cols_done)
}

/// The byte at index `i` of the back buffer of `s0` after the processed
/// part of a glyph scaled by `size` has been drawn opaquely at `(x, y)`:
/// each glyph cell covers a `size` by `size` pixel block.
pub open spec fn glyph_scaled_byte(
    s0: Screen,
    raster: Seq<Seq<u8>>,
    cols: int,
    size: int,
    fg: u32,
    bg: u32,
    x: int,
    y: int,
    rows_done: int,
    cols_done: int,
    i: int,
) -> u8 {
    let p = i / (s0.bytes_per_pixel as int);
    let px = p % (s0.stride as int);
    let py = p / (s0.stride as int);
    let ci = (py - y) / size;
    let cj = (px - x) / size;
    if s0.in_bounds(px, py) && x <= px < x + cols * size && y <= py < y + raster.len() * size
        && scaled_processed(rows_done, cols_done, ci, cj) {
        let cell = glyph_cell_colour(fg, bg, raster[ci][cj]);
        pack_spec(s0.pixel_format, cell.0, cell.1, cell.2, cell.3)[i - p * (s0.bytes_per_pixel
            as int)]
    } else {
        s0.back@[i]
    }
}

/// The back buffer of `s0` after a row-major scaled glyph draw at `(x, y)`
/// has written `rows_done` full cell rows and `cols_done` cells of the
/// next row.
pub open spec fn glyph_scaled_fill(
    s0: Screen,
    raster: Seq<Seq<u8>>,
    cols: int,
    size: int,
    fg: u32,
    bg: u32,
    x: int,
    y: int,
    rows_done: int,
    cols_done: int,
) -> Seq<u8> {
    Seq::new(
        s0.back@.len(),
        |i: int| glyph_scaled_byte(s0, raster, cols, size, fg, bg, x, y, rows_done, cols_done, i),
    )
}

/// The back buffer of `s0` after a whole glyph raster, scaled by `size`,
/// has been drawn opaquely at `(x, y)`: every visible pixel of each cell's
/// block holds that cell's colour, packed in the surface's format, and
/// every other byte is unchanged.
pub open spec fn glyph_scaled_render(
    s0: Screen,
    raster: Seq<Seq<u8>>,
    cols: int,
    size: int,
    fg: u32,
    bg: u32,
    x: int,
    y: int,
) -> Seq<u8> {
    glyph_scaled_fill(s0, raster, cols, size, fg, bg, x, y, raster.len() as int, 0)
}

/// An offset inside cell `j`'s block divides back to `j`.
proof fn lemma_cell_of_offset(a: int, size: int, j: int)
    requires
        size >= 1,
        0 <= j,
        j * size <= a < (j + 1) * size,
    ensures
        a / size == j,
{
    assert(0 <= a - j * size < size) by (nonlinear_arith)
        requires
            j * size <= a < (j + 1) * size,
    ;
    vstd::arithmetic::div_mod::lemma_fundamental_div_mod_converse(a, size, j, a - j * size);
}

/// A nonnegative offset lies inside the block of the cell it divides to.
proof fn lemma_offset_of_cell(a: int, size: int)
    requires
        size >= 1,
        0 <= a,
    ensures
        0 <= a / size,
        (a / size) * size <= a < (a / size) * size + size,
{
    vstd::arithmetic::div_mod::lemma_fundamental_div_mod(a, size);
    vstd::arithmetic::div_mod::lemma_mod_pos_bound(a, size);
    assert(0 <= a / size && (a / size) * size <= a < (a / size) * size + size)
        by (nonlinear_arith)
        requires
            a == size * (a / size) + a % size,
            0 <= a % size < size,
            size >= 1,
            0 <= a,
    ;
}

/// A cell index that divides from inside the glyph area is a raster index.
proof fn lemma_cell_in_raster(a: int, size: int, count: int)
    requires
        size >= 1,
        0 <= a,
        a < count * size,
    ensures
        0 <= a / size < count,
{
    lemma_offset_of_cell(a, size);
    let q = a / size;
    assert(q < count) by (nonlinear_arith)
        requires
            q * size <= a,
            a < count * size,
            size >= 1,
            0 <= q,
    ;
}

/// Before any cell is drawn, the scaled draw has changed nothing.
proof fn lemma_glyph_scaled_start(
    s0: Screen,
    raster: Seq<Seq<u8>>,
    cols: int,
    size: int,
    fg: u32,
    bg: u32,
    x: int,
    y: int,
)
    requires
        s0.wf(),
        size >= 1,
        0 <= x,
        0 <= y,
    ensures
        glyph_scaled_fill(s0, raster, cols, size, fg, bg, x, y, 0, 0) == s0.back@,
{
    let target = glyph_scaled_fill(s0, raster, cols, size, fg, bg, x, y, 0, 0);
    assert forall|i: int| 0 <= i < s0.back@.len() implies target[i] == s0.back@[i] by {
        s0.lemma_pixel_of_byte(i);
        let p = i / (s0.bytes_per_pixel as int);
        let px = p % (s0.stride as int);
        let py = p / (s0.stride as int);
        if x <= px && y <= py {
            lemma_offset_of_cell(px - x, size);
            lemma_offset_of_cell(py - y, size);
        }
    }
    assert(target =~= s0.back@);
}

/// Finishing a cell row of the scaled draw reaches the same buffer as
/// starting the next one.
proof fn lemma_glyph_scaled_row(
    s0: Screen,
    raster: Seq<Seq<u8>>,
    cols: int,
    size: int,
    fg: u32,
    bg: u32,
    x: int,
    y: int,
    rows_done: int,
)
    requires
        s0.wf(),
        size >= 1,
        0 <= x,
        0 <= y,
        0 <= rows_done,
        0 <= cols,
    ensures
        glyph_scaled_fill(s0, raster, cols, size, fg, bg, x, y, rows_done, cols)
            == glyph_scaled_fill(s0, raster, cols, size, fg, bg, x, y, rows_done + 1, 0),
{
    let a = glyph_scaled_fill(s0, raster, cols, size, fg, bg, x, y, rows_done, cols);
    let b = glyph_scaled_fill(s0, raster, cols, size, fg, bg, x, y, rows_done + 1, 0);
    assert forall|i: int| 0 <= i < s0.back@.len() implies a[i] == b[i] by {
        s0.lemma_pixel_of_byte(i);
        let p = i / (s0.bytes_per_pixel as int);
        let px = p % (s0.stride as int);
        let py = p / (s0.stride as int);
        if x <= px < x + cols * size && y <= py {
            lemma_cell_in_raster(px - x, size, cols);
            lemma_offset_of_cell(py - y, size);
        }
    }
    assert(a =~= b);
}

/// One opaque block fill advances the scaled draw by one cell.
proof fn lemma_glyph_scaled_step(
    s0: Screen,
    mid: Screen,
    raster: Seq<Seq<u8>>,
    cols: int,
    size: int,
    fg: u32,
    bg: u32,
    x: int,
    y: int,
    rows_done: int,
    cols_done: int,
)
    requires
        s0.wf(),
        mid.wf(),
        mid.same_geometry(s0),
        size >= 1,
        0 <= x,
        0 <= y,
        0 <= rows_done < raster.len(),
        0 <= cols_done < cols,
        mid.back@ == glyph_scaled_fill(s0, raster, cols, size, fg, bg, x, y, rows_done,
            cols_done),
    ensures
        ({
            let cell = glyph_cell_colour(fg, bg, raster[rows_done][cols_done]);
            let hex = crate::color::hex_of_rgba(cell.0, cell.1, cell.2, cell.3);
            crate::surface::block_render(
                mid,
                hex,
                x + cols_done * size,
                y + rows_done * size,
                size,
                size,
            ) == glyph_scaled_fill(s0, raster, cols, size, fg, bg, x, y, rows_done, cols_done
                + 1)
        }),
{
    let bpp = s0.bytes_per_pixel as int;
    let cell = glyph_cell_colour(fg, bg, raster[rows_done][cols_done]);
    let hex = crate::color::hex_of_rgba(cell.0, cell.1, cell.2, cell.3);
    lemma_hex_round_trip(cell.0, cell.1, cell.2, cell.3);
    let bx = x + cols_done * size;
    let by = y + rows_done * size;
    let written = crate::surface::block_render(mid, hex, bx, by, size, size);
    let target = glyph_scaled_fill(s0, raster, cols, size, fg, bg, x, y, rows_done, cols_done
        + 1);
    assert(0 <= cols_done * size && cols_done * size + size <= cols * size && 0 <= rows_done
        * size && rows_done * size + size <= raster.len() * size && cols_done * size + size == (
    cols_done + 1) * size && rows_done * size + size == (rows_done + 1) * size)
        by (nonlinear_arith)
        requires
            0 <= cols_done < cols,
            0 <= rows_done < raster.len(),
            size >= 1,
    ;
    assert forall|i: int| 0 <= i < s0.back@.len() implies written[i] == target[i] by {
        s0.lemma_pixel_of_byte(i);
        let p = i / bpp;
        let px = p % (s0.stride as int);
        let py = p / (s0.stride as int);
        if s0.in_bounds(px, py) && bx <= px < bx + size && by <= py < by + size {
            // Inside the new block: the written colour is this cell's.
            lemma_cell_of_offset(px - x, size, cols_done);
            lemma_cell_of_offset(py - y, size, rows_done);
        } else {
            // Outside the new block the fill leaves the previous state, and
            // the target treats the byte exactly as the previous state did.
            if x <= px < x + cols * size && y <= py < y + raster.len() * size && s0.in_bounds(
                px,
                py,
            ) {
                lemma_cell_in_raster(px - x, size, cols);
                lemma_cell_in_raster(py - y, size, raster.len() as int);
                let cj = (px - x) / size;
                let ci = (py - y) / size;
                if ci == rows_done && cj == cols_done {
                    lemma_offset_of_cell(px - x, size);
                    lemma_offset_of_cell(py - y, size);
                    assert(bx <= px < bx + size && by <= py < by + size);
                    assert(false);
                }
            }
        }
    }
    assert(written =~= target);
}

impl Screen {
    /// Draws a character at `(x, y)` scaled by `size`: each glyph cell is
    /// written opaquely as a `size` by `size` pixel block of the
    /// foreground blended over the background by the cell's intensity.
    /// Blocks off the visible surface are clipped pixel by pixel, and a
    /// scale of zero draws nothing.
    pub fn char_bitmap(
        &mut self,
        x: usize,
        y: usize,
        size: usize,
        fg_colour: u32,
        bg_colour: u32,
        c: char,
    )
        requires
            old(self).wf(),
            x + GLYPH_WIDTH * size <= usize::MAX,
            y + GLYPH_HEIGHT * size <= usize::MAX,
        ensures
            final(self).wf(),
            final(self).same_geometry(*old(self)),
            final(self).front == old(self).front,
            size >= 1 ==> final(self).back@ == glyph_scaled_render(
                *old(self),
                glyph_or_fallback(c),
                GLYPH_WIDTH as int,
                size as int,
                fg_colour,
                bg_colour,
                x as int,
                y as int,
            ),
            size == 0 ==> final(self).back@ == old(self).back@,
    {
        if size == 0 {
            return ;
        }
        let ghost s0 = *old(self);
        let raster = get_char_raster(c);
        let ghost rast = raster_view(raster);
        let f = hex_to_rgba(fg_colour);
        let b = hex_to_rgba(bg_colour);
        proof {
            lemma_glyph_scaled_start(s0, rast, GLYPH_WIDTH as int, size as int, fg_colour,
                bg_colour, x as int, y as int);
        }
        let rows = raster.len();
        let mut i: usize = 0;
        while i < rows
            invariant
                self.wf(),
                s0.wf(),
                self.same_geometry(s0),
                self.front == s0.front,
                size >= 1,
                x + GLYPH_WIDTH * size <= usize::MAX,
                y + GLYPH_HEIGHT * size <= usize::MAX,
                rast == raster_view(raster),
                raster_dims(rast),
                rows == rast.len(),
                f == rgba_of_hex(fg_colour),
                b == rgba_of_hex(bg_colour),
                i <= rows,
                self.back@ == glyph_scaled_fill(s0, rast, GLYPH_WIDTH as int, size as int,
                    fg_colour, bg_colour, x as int, y as int, i as int, 0),
            decreases rows - i,
        {
            let row = &raster[i];
            proof {
                assert(rast[i as int] == raster@.map_values(|r: Vec<u8>| r@)[i as int]);
                assert(row@ == rast[i as int]);
                assert(rast[i as int].len() == GLYPH_WIDTH);
            }
            let cols = row.len();
            let mut j: usize = 0;
            while j < cols
                invariant
                    self.wf(),
                    s0.wf(),
                    self.same_geometry(s0),
                    self.front == s0.front,
                    size >= 1,
                    x + GLYPH_WIDTH * size <= usize::MAX,
                    y + GLYPH_HEIGHT * size <= usize::MAX,
                    rast == raster_view(raster),
                    raster_dims(rast),
                    rows == rast.len(),
                    i < rows,
                    row@ == rast[i as int],
                    cols == GLYPH_WIDTH,
                    cols == row@.len(),
                    f == rgba_of_hex(fg_colour),
                    b == rgba_of_hex(bg_colour),
                    j <= cols,
                    self.back@ == glyph_scaled_fill(s0, rast, GLYPH_WIDTH as int, size as int,
                        fg_colour, bg_colour, x as int, y as int, i as int, j as int),
                decreases cols - j,
            {
                proof {
                    assert((j + 1) * size <= GLYPH_WIDTH * size && (i + 1) * size
                        <= GLYPH_HEIGHT * size && 0 <= j * size && 0 <= i * size && j * size
                        + size == (j + 1) * size && i * size + size == (i + 1) * size)
                        by (nonlinear_arith)
                        requires
                            0 <= j < GLYPH_WIDTH,
                            0 <= i < GLYPH_HEIGHT,
                            size >= 1,
                    ;
                }
                let t = row[j];
                let bl = blend_colour((f.0, f.1, f.2, t), (b.0, b.1, b.2, b.3));
                let hex = rgba_to_hex(bl.0, bl.1, bl.2, f.3);
                let bx = x + j * size;
                let by = y + i * size;
                let ghost mid = *self;
                proof {
                    assert(rgba_of_hex(hex) == glyph_cell_colour(fg_colour, bg_colour, t)) by {
                        lemma_hex_round_trip(bl.0, bl.1, bl.2, f.3);
                    }
                }
                self.fill_block_fast(bx, by, size, size, hex);
                proof {
                    lemma_glyph_scaled_step(s0, mid, rast, GLYPH_WIDTH as int, size as int,
                        fg_colour, bg_colour, x as int, y as int, i as int, j as int);
                }
                j = j + 1;
            }
            proof {
                lemma_glyph_scaled_row(s0, rast, GLYPH_WIDTH as int, size as int, fg_colour,
                    bg_colour, x as int, y as int, i as int);
            }
            i = i + 1;
        }
    }
}

} // verus!
