//! The double-buffered pixel surface: drawing operations mutate an
//! off-screen back buffer, and only `flip` publishes the back buffer to the
//! displayed front buffer.

use vstd::prelude::*;

use crate::color::{blend_colour, blend_rgba, hex_to_rgba, rgba_of_hex};

verus! {

/// The channel order of a stored pixel.
#[derive(Debug, Clone, Copy, PartialEq, Eq, Structural)]
pub enum PixelFormat {
    /// One byte each of red, green, blue, in that order.
    Rgb,
    /// One byte each of blue, green, red, in that order.
    Bgr,
    /// A single greyscale byte per pixel.
    U8,
}

/// The four bytes that represent a colour in the given pixel format; only
/// the first `bytes_per_pixel` of them are stored.
pub open spec fn pack_spec(format: PixelFormat, red: u8, green: u8, blue: u8, alpha: u8) -> Seq<
    u8,
> {
    match format {
        PixelFormat::Rgb => seq![red, green, blue, alpha],
        PixelFormat::Bgr => seq![blue, green, red, alpha],
        PixelFormat::U8 => seq![if red > 200 { 0xf as u8 } else { 0 as u8 }, 0, 0, 0],
    }
}

/// The colour read back from stored pixel bytes: the channels in the
/// format's byte order, and the stored fourth byte as alpha when the pixel
/// is wide enough to keep one, full opacity otherwise. Reading the alpha
/// byte back is what lets a blended write at zero opacity leave every
/// stored byte exactly as it was. Only the colour formats can be read
/// back.
pub open spec fn unpack_spec(format: PixelFormat, bytes: Seq<u8>) -> (u8, u8, u8, u8) {
    let alpha = if bytes.len() >= 4 {
        bytes[3]
    } else {
        255u8
    };
    match format {
        PixelFormat::Rgb => (bytes[0], bytes[1], bytes[2], alpha),
        PixelFormat::Bgr => (bytes[2], bytes[1], bytes[0], alpha),
        PixelFormat::U8 => (0u8, 0u8, 0u8, alpha),
    }
}

/// A byte sequence with `count` bytes starting at `off` replaced by the
/// first `count` bytes of `packed`, and every other byte unchanged.
pub open spec fn write_pixel_spec(s: Seq<u8>, off: int, count: int, packed: Seq<u8>) -> Seq<u8> {
    Seq::new(
        s.len(),
        |i: int|
            if off <= i < off + count {
                packed[i - off]
            } else {
                s[i]
            },
    )
}

/// The four bytes that a blended write of `colour` stores onto pixel
/// `(x, y)` of a buffer holding `base`, for a surface with the geometry of
/// `s0`: the colour blended by its own alpha over the pixel's stored
/// colour, packed in the surface's format.
pub open spec fn blended_bytes_at(s0: Screen, base: Seq<u8>, x: int, y: int, colour: u32) -> Seq<
    u8,
> {
    let new_rgba = rgba_of_hex(colour);
    let existing = unpack_spec(
        s0.pixel_format,
        base.subrange(s0.pixel_off(x, y), s0.pixel_off(x, y) + s0.bytes_per_pixel),
    );
    let blended = blend_rgba(new_rgba, existing);
    pack_spec(s0.pixel_format, blended.0, blended.1, blended.2, blended.3)
}

/// The back buffer after a full clear to `colour` on a surface with the
/// geometry of `s0`: every pixel holds the colour packed at full opacity.
pub open spec fn clear_pattern(s0: Screen, colour: u32) -> Seq<u8> {
    Seq::new(
        s0.byte_len() as nat,
        |i: int|
            pack_spec(
                s0.pixel_format,
                rgba_of_hex(colour).0,
                rgba_of_hex(colour).1,
                rgba_of_hex(colour).2,
                255u8,
            )[i % s0.bytes_per_pixel as int],
    )
}

/// A buffer holding `base` after its rows are shifted upward by `amount`
/// raw pixel rows on a surface with the geometry of `s0`: the top rows are
/// discarded and the exposed bottom rows are zero-filled.
pub open spec fn shift_bytes(s0: Screen, base: Seq<u8>, amount: int) -> Seq<u8> {
    Seq::new(
        base.len(),
        |i: int|
            if i < base.len() - amount * (s0.stride * s0.bytes_per_pixel) {
                base[i + amount * (s0.stride * s0.bytes_per_pixel)]
            } else {
                0u8
            },
    )
}

/// A double-buffered pixel surface. `front` stands for the displayed
/// memory, `back` for the off-screen buffer that drawing mutates; rows are
/// `stride` pixels apart, of which the leftmost `width` are visible.
pub struct Screen {
    pub front: Vec<u8>,
    pub back: Vec<u8>,
    pub width: usize,
    pub height: usize,
    pub stride: usize,
    pub bytes_per_pixel: usize,
    pub pixel_format: PixelFormat,
}

impl Screen {
    /// The byte length of each buffer.
    pub open spec fn byte_len(self) -> int {
        (self.stride * self.height) * self.bytes_per_pixel
    }

    /// Both buffers span exactly the addressed pixel rectangle, the visible
    /// width fits in the stride, and a pixel is one to four bytes, at least
    /// three for the colour formats.
    pub open spec fn wf(self) -> bool {
        &&& self.back.len() == self.byte_len()
        &&& self.front.len() == self.byte_len()
        &&& self.width <= self.stride
        &&& 1 <= self.bytes_per_pixel <= 4
        &&& (self.pixel_format != PixelFormat::U8 ==> self.bytes_per_pixel >= 3)
    }

    /// Whether `(x, y)` lies on the visible surface.
    pub open spec fn in_bounds(self, x: int, y: int) -> bool {
        0 <= x < self.width && 0 <= y < self.height
    }

    /// The byte offset of pixel `(x, y)` in either buffer.
    pub open spec fn pixel_off(self, x: int, y: int) -> int {
        (y * self.stride + x) * self.bytes_per_pixel
    }

    /// The stored bytes of pixel `(x, y)` in the back buffer.
    pub open spec fn pixel_bytes(self, x: int, y: int) -> Seq<u8> {
        self.back@.subrange(self.pixel_off(x, y), self.pixel_off(x, y) + self.bytes_per_pixel)
    }

    /// The four bytes that a blended write of `colour` onto pixel `(x, y)`
    /// stores: the colour blended by its own alpha over the pixel's current
    /// colour, packed in the surface's format.
    pub open spec fn blended_pixel_bytes(self, x: int, y: int, colour: u32) -> Seq<u8> {
        blended_bytes_at(self, self.back@, x, y, colour)
    }

    /// The geometry and format fields of two surfaces agree.
    pub open spec fn same_geometry(self, other: Screen) -> bool {
        &&& self.width == other.width
        &&& self.height == other.height
        &&& self.stride == other.stride
        &&& self.bytes_per_pixel == other.bytes_per_pixel
        &&& self.pixel_format == other.pixel_format
    }

    /// The bytes of an in-bounds pixel lie inside the buffer.
    pub proof fn lemma_pixel_off_in_bounds(self, x: int, y: int)
        requires
            self.wf(),
            self.in_bounds(x, y),
        ensures
            0 <= y * self.stride + x,
            y * self.stride + x <= self.pixel_off(x, y),
            0 <= self.pixel_off(x, y),
            self.pixel_off(x, y) + self.bytes_per_pixel <= self.byte_len(),
    {
        assert(0 <= y * self.stride + x && y * self.stride + x + 1 <= self.stride * self.height)
            by (nonlinear_arith)
            requires
                0 <= x < self.width,
                self.width <= self.stride,
                0 <= y < self.height,
        ;
        let p = y * self.stride + x;
        assert(p <= p * self.bytes_per_pixel && 0 <= p * self.bytes_per_pixel && (p + 1)
            * self.bytes_per_pixel <= (self.stride * self.height) * self.bytes_per_pixel)
            by (nonlinear_arith)
            requires
                0 <= p,
                p + 1 <= self.stride * self.height,
                1 <= self.bytes_per_pixel,
        ;
        assert(p * self.bytes_per_pixel + self.bytes_per_pixel == (p + 1) * self.bytes_per_pixel)
            by (nonlinear_arith);
    }

    /// A byte inside an in-bounds pixel's range maps back to that pixel's
    /// coordinates.
    pub proof fn lemma_byte_of_pixel(self, x: int, y: int, i: int)
        requires
            self.wf(),
            self.in_bounds(x, y),
            self.pixel_off(x, y) <= i < self.pixel_off(x, y) + self.bytes_per_pixel,
        ensures
            i / (self.bytes_per_pixel as int) == y * self.stride + x,
            (i / (self.bytes_per_pixel as int)) % (self.stride as int) == x,
            (i / (self.bytes_per_pixel as int)) / (self.stride as int) == y,
    {
        let p = y * self.stride + x;
        let r = i - p * self.bytes_per_pixel;
        vstd::arithmetic::div_mod::lemma_fundamental_div_mod_converse(
            i,
            self.bytes_per_pixel as int,
            p,
            r,
        );
        vstd::arithmetic::div_mod::lemma_fundamental_div_mod_converse(
            p,
            self.stride as int,
            y,
            x,
        );
    }

    /// Builds a zero-filled surface of the given geometry. The format is
    /// a value of `PixelFormat`, so an unsupported format cannot reach this
    /// constructor; rejecting one is the caller's duty at the boundary.
    pub fn init(width: usize, height: usize, stride: usize, bytes_per_pixel: usize, pixel_format: PixelFormat) -> (r: Screen)
        requires
            width <= stride,
            1 <= bytes_per_pixel <= 4,
            pixel_format != PixelFormat::U8 ==> bytes_per_pixel >= 3,
            (stride * height) * bytes_per_pixel <= usize::MAX,
        ensures
            r.wf(),
            r.width == width,
            r.height == height,
            r.stride == stride,
            r.bytes_per_pixel == bytes_per_pixel,
            r.pixel_format == pixel_format,
            r.back@ == Seq::new(((stride * height) * bytes_per_pixel) as nat, |i: int| 0u8),
            r.front@ == r.back@,
    {
        proof {
            assert(stride * height <= (stride * height) * bytes_per_pixel) by (nonlinear_arith)
                requires
                    1 <= bytes_per_pixel,
                    0 <= stride * height,
            ;
        }
        let pixels = stride * height;
        let byte_len = pixels * bytes_per_pixel;
        let front = zero_bytes(byte_len);
        let back = zero_bytes(byte_len);
        Screen { front, back, width, height, stride, bytes_per_pixel, pixel_format }
    }

    /// Returns the visible width in pixels.
    pub fn width(&self) -> (r: usize)
        ensures
            r == self.width,
    {
        self.width
    }

    /// Returns the height in pixels.
    pub fn height(&self) -> (r: usize)
        ensures
            r == self.height,
    {
        self.height
    }

    /// Packs the four colour channels into the byte order of this surface's
    /// pixel format.
    pub fn pack_colour(&self, red: u8, green: u8, blue: u8, alpha: u8) -> (r: [u8; 4])
        ensures
            r@ == pack_spec(self.pixel_format, red, green, blue, alpha),
    {
        let out: [u8; 4] = match self.pixel_format {
            PixelFormat::Rgb => [red, green, blue, alpha],
            PixelFormat::Bgr => [blue, green, red, alpha],
            PixelFormat::U8 => [if red > 200 { 0xf } else { 0 }, 0, 0, 0],
        };
        proof {
            assert(out@ =~= pack_spec(self.pixel_format, red, green, blue, alpha));
        }
        out
    }

    /// Reads the colour stored in the leading bytes of a pixel slice,
    /// keeping the stored alpha byte when the slice carries one; only the
    /// colour formats can be read back.
    pub fn unpack_colour(&self, rgba: &[u8]) -> (r: (u8, u8, u8, u8))
        requires
            self.pixel_format != PixelFormat::U8,
            rgba@.len() >= 3,
        ensures
            r == unpack_spec(self.pixel_format, rgba@),
    {
        let alpha = if rgba.len() >= 4 {
            rgba[3]
        } else {
            255
        };
        match self.pixel_format {
            PixelFormat::Rgb => (rgba[0], rgba[1], rgba[2], alpha),
            PixelFormat::Bgr => (rgba[2], rgba[1], rgba[0], alpha),
            PixelFormat::U8 => (0, 0, 0, alpha),
        }
    }

    /// Writes the first `bytes_per_pixel` bytes of a packed colour at the
    /// given byte offset of the back buffer.
    fn write_packed(&mut self, byte_offset: usize, packed: &[u8; 4])
        requires
            old(self).wf(),
            byte_offset + old(self).bytes_per_pixel <= old(self).byte_len(),
        ensures
            final(self).wf(),
            final(self).same_geometry(*old(self)),
            final(self).front == old(self).front,
            final(self).back@ == write_pixel_spec(
                old(self).back@,
                byte_offset as int,
                old(self).bytes_per_pixel as int,
                packed@,
            ),
    {
        let ghost orig = self.back@;
        let mut k: usize = 0;
        while k < self.bytes_per_pixel
            invariant
                self.wf(),
                self.same_geometry(*old(self)),
                self.front == old(self).front,
                k <= self.bytes_per_pixel,
                byte_offset + self.bytes_per_pixel <= self.byte_len(),
                self.back@.len() == orig.len(),
                forall|i: int|
                    byte_offset <= i < byte_offset + k ==> self.back@[i] == packed@[i
                        - byte_offset],
                forall|i: int|
                    0 <= i < orig.len() && !(byte_offset <= i < byte_offset + k)
                        ==> self.back@[i] == orig[i],
            decreases self.bytes_per_pixel - k,
        {
            self.back.set(byte_offset + k, packed[k]);
            k = k + 1;
        }
        proof {
            assert(self.back@ =~= write_pixel_spec(
                orig,
                byte_offset as int,
                self.bytes_per_pixel as int,
                packed@,
            ));
        }
    }

    /// Fills the whole back buffer with the given colour at full opacity,
    /// overwriting every pixel; the front buffer is untouched.
    pub fn clear(&mut self, colour: u32)
        requires
            old(self).wf(),
        ensures
            final(self).wf(),
            final(self).same_geometry(*old(self)),
            final(self).front == old(self).front,
            final(self).back@ == clear_pattern(*old(self), colour),
    {
        let rgba = hex_to_rgba(colour);
        let packed = self.pack_colour(rgba.0, rgba.1, rgba.2, 255);
        let ghost target = Seq::new(
            self.back@.len(),
            |i: int| packed@[i % self.bytes_per_pixel as int],
        );
        let len = self.back.len();
        let mut i: usize = 0;
        while i < len
            invariant
                self.wf(),
                self.same_geometry(*old(self)),
                self.front == old(self).front,
                i <= len,
                len == self.back@.len(),
                packed@ == pack_spec(
                    self.pixel_format,
                    rgba_of_hex(colour).0,
                    rgba_of_hex(colour).1,
                    rgba_of_hex(colour).2,
                    255u8,
                ),
                target == Seq::new(
                    self.back@.len(),
                    |j: int| packed@[j % self.bytes_per_pixel as int],
                ),
                forall|j: int| 0 <= j < i ==> self.back@[j] == target[j],
            decreases len - i,
        {
            proof {
                assert(0 <= i as int % (self.bytes_per_pixel as int) < 4) by (nonlinear_arith)
                    requires
                        1 <= self.bytes_per_pixel <= 4,
                        0 <= i,
                ;
            }
            let b = packed[i % self.bytes_per_pixel];
            self.back.set(i, b);
            i = i + 1;
        }
        proof {
            assert(self.back@ =~= target);
            assert(self.back@ =~= clear_pattern(*old(self), colour));
        }
    }

    /// Writes a colour to pixel `(x, y)` of the back buffer without
    /// blending, keeping the colour's own alpha byte; coordinates off the
    /// surface change nothing.
    pub fn pixel_fast(&mut self, x: usize, y: usize, colour: u32)
        requires
            old(self).wf(),
        ensures
            final(self).wf(),
            final(self).same_geometry(*old(self)),
            final(self).front == old(self).front,
            old(self).in_bounds(x as int, y as int) ==> final(self).back@ == write_pixel_spec(
                old(self).back@,
                old(self).pixel_off(x as int, y as int),
                old(self).bytes_per_pixel as int,
                pack_spec(
                    old(self).pixel_format,
                    rgba_of_hex(colour).0,
                    rgba_of_hex(colour).1,
                    rgba_of_hex(colour).2,
                    rgba_of_hex(colour).3,
                ),
            ),
            !old(self).in_bounds(x as int, y as int) ==> final(self).back@ == old(self).back@,
    {
        if x < self.width && y < self.height {
            proof {
                self.lemma_pixel_off_in_bounds(x as int, y as int);
            }
            let rgba = hex_to_rgba(colour);
            let packed = self.pack_colour(rgba.0, rgba.1, rgba.2, rgba.3);
            let pixel_offset = y * self.stride + x;
            let byte_offset = pixel_offset * self.bytes_per_pixel;
            self.write_packed(byte_offset, &packed);
        }
    }

    /// Blends a colour onto pixel `(x, y)` of the back buffer: the stored
    /// colour is read back, alpha byte included, every channel of the new
    /// colour is blended over it by the new colour's alpha, and the result
    /// is written back; coordinates off the surface change nothing.
    pub fn pixel(&mut self, x: usize, y: usize, colour: u32)
        requires
            old(self).wf(),
            old(self).in_bounds(x as int, y as int) ==> old(self).pixel_format
                != PixelFormat::U8,
        ensures
            final(self).wf(),
            final(self).same_geometry(*old(self)),
            final(self).front == old(self).front,
            old(self).in_bounds(x as int, y as int) ==> final(self).back@ == write_pixel_spec(
                old(self).back@,
                old(self).pixel_off(x as int, y as int),
                old(self).bytes_per_pixel as int,
                old(self).blended_pixel_bytes(x as int, y as int, colour),
            ),
            !old(self).in_bounds(x as int, y as int) ==> final(self).back@ == old(self).back@,
    {
        if x < self.width && y < self.height {
            proof {
                self.lemma_pixel_off_in_bounds(x as int, y as int);
            }
            let rgba = hex_to_rgba(colour);
            let pixel_offset = y * self.stride + x;
            let byte_offset = pixel_offset * self.bytes_per_pixel;
            let stored = vstd::slice::slice_subrange(
                self.back.as_slice(),
                byte_offset,
                byte_offset + self.bytes_per_pixel,
            );
            let existing = self.unpack_colour(stored);
            let blended = blend_colour(rgba, existing);
            let packed = self.pack_colour(blended.0, blended.1, blended.2, blended.3);
            self.write_packed(byte_offset, &packed);
        }
    }

    /// Copies the whole back buffer onto the front buffer; this is the only
    /// operation through which drawing becomes externally visible.
    pub fn flip(&mut self)
        requires
            old(self).wf(),
        ensures
            final(self).wf(),
            final(self).same_geometry(*old(self)),
            final(self).back == old(self).back,
            final(self).front@ == old(self).back@,
    {
        let len = self.back.len();
        let mut i: usize = 0;
        while i < len
            invariant
                self.wf(),
                self.same_geometry(*old(self)),
                self.back == old(self).back,
                self.front@.len() == old(self).front@.len(),
                i <= len,
                len == self.back@.len(),
                forall|j: int| 0 <= j < i ==> self.front@[j] == self.back@[j],
            decreases len - i,
        {
            let b = self.back[i];
            self.front.set(i, b);
            i = i + 1;
        }
        proof {
            assert(self.front@ =~= self.back@);
        }
    }

    /// Shifts the back buffer's contents upward by `amount` raw pixel rows:
    /// the top `amount` rows are discarded and the newly exposed bottom
    /// rows are zero-filled. Callers that scroll text clear the exposed
    /// band themselves.
    pub fn shift_y(&mut self, amount: usize)
        requires
            old(self).wf(),
            amount <= old(self).height,
        ensures
            final(self).wf(),
            final(self).same_geometry(*old(self)),
            final(self).front == old(self).front,
            final(self).back@ == shift_bytes(*old(self), old(self).back@, amount as int),
    {
        let ghost orig_screen = *old(self);
        proof {
            assert(0 <= amount * self.stride && amount * self.stride <= self.height * self.stride
                && (amount * self.stride) * self.bytes_per_pixel <= (self.stride * self.height)
                * self.bytes_per_pixel && (amount * self.stride) * self.bytes_per_pixel == amount
                * (self.stride * self.bytes_per_pixel)) by (nonlinear_arith)
                requires
                    0 <= amount <= self.height,
                    0 <= self.stride,
                    1 <= self.bytes_per_pixel,
            ;
            assert(self.height * self.stride <= (self.stride * self.height)
                * self.bytes_per_pixel) by (nonlinear_arith)
                requires
                    0 <= self.height,
                    0 <= self.stride,
                    1 <= self.bytes_per_pixel,
            ;
        }
        let rows = amount * self.stride;
        let shift = rows * self.bytes_per_pixel;
        let len = self.back.len();
        let keep = len - shift;
        let ghost orig = self.back@;
        let mut i: usize = 0;
        while i < keep
            invariant
                self.wf(),
                self.same_geometry(*old(self)),
                self.front == old(self).front,
                self.back@.len() == orig.len(),
                len == orig.len(),
                shift == amount * (self.stride * self.bytes_per_pixel),
                shift <= len,
                keep == len - shift,
                i <= keep,
                forall|j: int| 0 <= j < i ==> self.back@[j] == orig[j + shift],
                forall|j: int| i <= j < orig.len() ==> self.back@[j] == orig[j],
            decreases keep - i,
        {
            let b = self.back[i + shift];
            self.back.set(i, b);
            i = i + 1;
        }
        while i < len
            invariant
                self.wf(),
                self.same_geometry(*old(self)),
                self.front == old(self).front,
                self.back@.len() == orig.len(),
                len == orig.len(),
                shift == amount * (self.stride * self.bytes_per_pixel),
                shift <= len,
                keep == len - shift,
                keep <= i <= len,
                forall|j: int| 0 <= j < keep ==> self.back@[j] == orig[j + shift],
                forall|j: int| keep <= j < i ==> self.back@[j] == 0u8,
            decreases len - i,
        {
            self.back.set(i, 0);
            i = i + 1;
        }
        proof {
            assert(self.back@ =~= shift_bytes(orig_screen, orig, amount as int));
        }
    }
}

/// Builds a zero-filled byte vector of the given length.
fn zero_bytes(len: usize) -> (r: Vec<u8>)
    ensures
        r@ == Seq::new(len as nat, |i: int| 0u8),
{
    let mut out: Vec<u8> = Vec::new();
    let mut i: usize = 0;
    while i < len
        invariant
            i <= len,
            out.len() == i,
            forall|j: int| 0 <= j < i ==> out@[j] == 0u8,
        decreases len - i,
    {
        out.push(0);
        i = i + 1;
    }
    proof {
        assert(out@ =~= Seq::new(len as nat, |i: int| 0u8));
    }
    out
}


/// Whether pixel `(px, py)` lies in the part of the rectangle at `(x, y)`
/// with extent `(w, h)` that a column-major fill has reached after `j` full
/// columns and `k` cells of the next column.
pub open spec fn rect_processed(
    x: int,
    y: int,
    w: int,
    h: int,
    j: int,
    k: int,
    px: int,
    py: int,
) -> bool {
    (x <= px < x + j && y <= py < y + h) || (px == x + j && y <= py < y + k)
}

/// The byte at index `i` of a buffer holding `base`, on a surface with the
/// geometry of `s0`, after every visible pixel of the processed region has
/// had `colour` blended onto it.
pub open spec fn rect_fill_byte(
    s0: Screen,
    base: Seq<u8>,
    colour: u32,
    x: int,
    y: int,
    w: int,
    h: int,
    j: int,
    k: int,
    i: int,
) -> u8 {
    let p = i / (s0.bytes_per_pixel as int);
    let px = p % (s0.stride as int);
    let py = p / (s0.stride as int);
    if s0.in_bounds(px, py) && rect_processed(x, y, w, h, j, k, px, py) {
        blended_bytes_at(s0, base, px, py, colour)[i - p * (s0.bytes_per_pixel as int)]
    } else {
        base[i]
    }
}

/// A buffer holding `base` after a column-major rectangle fill has blended
/// `colour` onto `j` full columns and `k` cells of the next one, on a
/// surface with the geometry of `s0`.
pub open spec fn rect_fill(
    s0: Screen,
    base: Seq<u8>,
    colour: u32,
    x: int,
    y: int,
    w: int,
    h: int,
    j: int,
    k: int,
) -> Seq<u8> {
    Seq::new(base.len(), |i: int| rect_fill_byte(s0, base, colour, x, y, w, h, j, k, i))
}

/// A buffer holding `base` after `colour` has been blended onto every pixel
/// of the rectangle at `(x, y)` with extent `(w, h)` that lies on the
/// visible surface of a surface with the geometry of `s0`; every other byte
/// keeps its old value.
pub open spec fn rect_blend(
    s0: Screen,
    base: Seq<u8>,
    colour: u32,
    x: int,
    y: int,
    w: int,
    h: int,
) -> Seq<u8> {
    rect_fill(s0, base, colour, x, y, w, h, w, 0)
}

/// The rectangle blend reads only the surface's geometry: two surfaces with
/// the same geometry blend a buffer identically.
pub proof fn lemma_rect_blend_same_geometry(
    ga: Screen,
    gb: Screen,
    base: Seq<u8>,
    colour: u32,
    x: int,
    y: int,
    w: int,
    h: int,
)
    requires
        ga.same_geometry(gb),
    ensures
        rect_blend(ga, base, colour, x, y, w, h) == rect_blend(gb, base, colour, x, y, w, h),
{
    assert(rect_blend(ga, base, colour, x, y, w, h) =~= rect_blend(gb, base, colour, x, y, w, h));
}

impl Screen {
    /// Every byte of a well-formed buffer belongs to exactly one pixel.
    pub proof fn lemma_pixel_of_byte(self, i: int)
        requires
            self.wf(),
            0 <= i < self.byte_len(),
        ensures
            ({
                let p = i / (self.bytes_per_pixel as int);
                let px = p % (self.stride as int);
                let py = p / (self.stride as int);
                &&& p * self.bytes_per_pixel <= i < p * self.bytes_per_pixel
                    + self.bytes_per_pixel
                &&& 0 <= p < self.stride * self.height
                &&& 0 <= px < self.stride
                &&& 0 <= py < self.height
                &&& p == py * self.stride + px
                &&& self.pixel_off(px, py) == p * self.bytes_per_pixel
            }),
    {
        let bpp = self.bytes_per_pixel as int;
        let stride = self.stride as int;
        let p = i / bpp;
        vstd::arithmetic::div_mod::lemma_fundamental_div_mod(i, bpp);
        vstd::arithmetic::div_mod::lemma_mod_pos_bound(i, bpp);
        assert(0 <= p && p < self.stride * self.height && p * bpp <= i) by (nonlinear_arith)
            requires
                i == bpp * p + i % bpp,
                0 <= i % bpp < bpp,
                1 <= bpp,
                0 <= i < (self.stride * self.height) * bpp,
        ;
        assert(self.stride >= 1) by (nonlinear_arith)
            requires
                0 <= p < self.stride * self.height,
                0 <= self.stride,
        ;
        let px = p % stride;
        let py = p / stride;
        vstd::arithmetic::div_mod::lemma_fundamental_div_mod(p, stride);
        vstd::arithmetic::div_mod::lemma_mod_pos_bound(p, stride);
        assert(0 <= py && py < self.height) by (nonlinear_arith)
            requires
                p == stride * py + px,
                0 <= px < stride,
                0 <= p < stride * self.height,
                1 <= stride,
        ;
        assert(py * stride + px == stride * py + px) by (nonlinear_arith);
        assert((py * stride + px) * bpp == bpp * p) by (nonlinear_arith)
            requires
                py * stride + px == p,
        ;
    }

    /// Before any cell is processed, the rectangle fill has changed
    /// nothing.
    pub proof fn lemma_rect_fill_start(self, base: Seq<u8>, colour: u32, x: int, y: int, w: int, h: int)
        ensures
            rect_fill(self, base, colour, x, y, w, h, 0, 0) == base,
    {
        assert(rect_fill(self, base, colour, x, y, w, h, 0, 0) =~= base);
    }

    /// Finishing a column of the rectangle fill reaches the same buffer as
    /// starting the next one.
    pub proof fn lemma_rect_fill_column(self, base: Seq<u8>, colour: u32, x: int, y: int, w: int, h: int, j: int)
        requires
            0 <= j,
            0 <= h,
        ensures
            rect_fill(self, base, colour, x, y, w, h, j, h) == rect_fill(
                self,
                base,
                colour,
                x,
                y,
                w,
                h,
                j + 1,
                0,
            ),
    {
        assert(rect_fill(self, base, colour, x, y, w, h, j, h) =~= rect_fill(
            self,
            base,
            colour,
            x,
            y,
            w,
            h,
            j + 1,
            0,
        ));
    }

    /// One blended pixel write advances the rectangle fill by one cell; a
    /// cell off the visible surface advances it without a write.
    pub proof fn lemma_rect_fill_step(
        s0: Screen,
        base: Seq<u8>,
        mid: Screen,
        colour: u32,
        x: int,
        y: int,
        w: int,
        h: int,
        j: int,
        k: int,
    )
        requires
            s0.wf(),
            mid.wf(),
            mid.same_geometry(s0),
            base.len() == s0.byte_len(),
            0 <= x,
            0 <= y,
            0 <= j < w,
            0 <= k < h,
            mid.back@ == rect_fill(s0, base, colour, x, y, w, h, j, k),
        ensures
            mid.in_bounds(x + j, y + k) ==> write_pixel_spec(
                mid.back@,
                mid.pixel_off(x + j, y + k),
                mid.bytes_per_pixel as int,
                mid.blended_pixel_bytes(x + j, y + k, colour),
            ) == rect_fill(s0, base, colour, x, y, w, h, j, k + 1),
            !mid.in_bounds(x + j, y + k) ==> mid.back@ == rect_fill(s0, base, colour, x, y, w, h,
                j, k + 1),
    {
        let bpp = s0.bytes_per_pixel as int;
        let px0 = x + j;
        let py0 = y + k;
        if mid.in_bounds(px0, py0) {
            let p0 = py0 * s0.stride + px0;
            let off = s0.pixel_off(px0, py0);
            s0.lemma_pixel_off_in_bounds(px0, py0);
            assert forall|b: int| off <= b < off + bpp implies mid.back@[b] == base[b] by {
                s0.lemma_byte_of_pixel(px0, py0, b);
            }
            assert(mid.back@.subrange(off, off + bpp) =~= base.subrange(off, off + bpp));
            assert(mid.blended_pixel_bytes(px0, py0, colour) == blended_bytes_at(
                s0,
                base,
                px0,
                py0,
                colour,
            ));
            let written = write_pixel_spec(
                mid.back@,
                off,
                bpp,
                mid.blended_pixel_bytes(px0, py0, colour),
            );
            let target = rect_fill(s0, base, colour, x, y, w, h, j, k + 1);
            assert forall|i: int| 0 <= i < base.len() implies written[i] == target[i] by {
                if off <= i < off + bpp {
                    s0.lemma_byte_of_pixel(px0, py0, i);
                } else {
                    s0.lemma_pixel_of_byte(i);
                    let p = i / bpp;
                    let px = p % (s0.stride as int);
                    let py = p / (s0.stride as int);
                    if px == px0 && py == py0 {
                        assert(p == p0);
                        assert(false);
                    }
                }
            }
            assert(written =~= target);
        } else {
            let target = rect_fill(s0, base, colour, x, y, w, h, j, k + 1);
            assert forall|i: int| 0 <= i < base.len() implies mid.back@[i] == target[i] by {
                s0.lemma_pixel_of_byte(i);
            }
            assert(mid.back@ =~= target);
        }
    }

    /// Blends a colour onto every pixel of the given rectangle that lies on
    /// the visible surface; the parts that hang off the surface are
    /// clipped pixel by pixel, and nothing else changes.
    pub fn rect(&mut self, x: usize, y: usize, w: usize, h: usize, colour: u32)
        requires
            old(self).wf(),
            old(self).pixel_format != PixelFormat::U8,
            x + w <= usize::MAX,
            y + h <= usize::MAX,
        ensures
            final(self).wf(),
            final(self).same_geometry(*old(self)),
            final(self).front == old(self).front,
            final(self).back@ == rect_blend(
                *old(self),
                old(self).back@,
                colour,
                x as int,
                y as int,
                w as int,
                h as int,
            ),
    {
        let ghost s0 = *old(self);
        let ghost b0 = old(self).back@;
        proof {
            s0.lemma_rect_fill_start(b0, colour, x as int, y as int, w as int, h as int);
        }
        let mut j: usize = 0;
        while j < w
            invariant
                self.wf(),
                s0.wf(),
                self.same_geometry(s0),
                self.front == s0.front,
                s0.pixel_format != PixelFormat::U8,
                x + w <= usize::MAX,
                y + h <= usize::MAX,
                j <= w,
                b0 == s0.back@,
                self.back@ == rect_fill(s0, b0, colour, x as int, y as int, w as int, h as int, j as int, 0),
            decreases w - j,
        {
            let mut k: usize = 0;
            while k < h
                invariant
                    self.wf(),
                    s0.wf(),
                    self.same_geometry(s0),
                    self.front == s0.front,
                    s0.pixel_format != PixelFormat::U8,
                    x + w <= usize::MAX,
                    y + h <= usize::MAX,
                    j < w,
                    k <= h,
                    b0 == s0.back@,
                    self.back@ == rect_fill(s0, b0, colour, x as int, y as int, w as int, h as int, j as int, k as int),
                decreases h - k,
            {
                let ghost mid = *self;
                self.pixel(x + j, y + k, colour);
                proof {
                    Screen::lemma_rect_fill_step(
                        s0,
                        b0,
                        mid,
                        colour,
                        x as int,
                        y as int,
                        w as int,
                        h as int,
                        j as int,
                        k as int,
                    );
                }
                k = k + 1;
            }
            proof {
                s0.lemma_rect_fill_column(b0, colour, x as int, y as int, w as int, h as int, j as int);
            }
            j = j + 1;
        }
    }

    /// Blends a colour onto every visible pixel of the given rectangle;
    /// draws the same bytes as `rect`.
    pub fn rectangle(&mut self, x: usize, y: usize, w: usize, h: usize, colour: u32)
        requires
            old(self).wf(),
            old(self).pixel_format != PixelFormat::U8,
            x + w <= usize::MAX,
            y + h <= usize::MAX,
        ensures
            final(self).wf(),
            final(self).same_geometry(*old(self)),
            final(self).front == old(self).front,
            final(self).back@ == rect_blend(
                *old(self),
                old(self).back@,
                colour,
                x as int,
                y as int,
                w as int,
                h as int,
            ),
    {
        self.rect(x, y, w, h, colour);
    }
}

/// Packing a colour and reading it back returns every channel unchanged,
/// for both colour formats.
pub proof fn lemma_pack_unpack_round_trip(
    format: PixelFormat,
    red: u8,
    green: u8,
    blue: u8,
    alpha: u8,
)
    requires
        format != PixelFormat::U8,
    ensures
        unpack_spec(format, pack_spec(format, red, green, blue, alpha)) == (
            red,
            green,
            blue,
            alpha,
        ),
{
}

/// A blended pixel write at full opacity stores exactly the bytes that the
/// opaque write of the same colour stores.
pub proof fn lemma_blended_pixel_full_opacity(s: Screen, x: int, y: int, colour: u32)
    requires
        s.wf(),
        s.pixel_format != PixelFormat::U8,
        crate::color::rgba_of_hex(colour).3 == 255,
    ensures
        s.blended_pixel_bytes(x, y, colour) == pack_spec(
            s.pixel_format,
            crate::color::rgba_of_hex(colour).0,
            crate::color::rgba_of_hex(colour).1,
            crate::color::rgba_of_hex(colour).2,
            crate::color::rgba_of_hex(colour).3,
        ),
{
    crate::color::lemma_blend_full_opacity(
        crate::color::rgba_of_hex(colour),
        unpack_spec(s.pixel_format, s.pixel_bytes(x, y)),
    );
}

/// A blended pixel write at zero opacity leaves every stored byte of the
/// pixel unchanged.
pub proof fn lemma_blended_pixel_zero_opacity(s: Screen, x: int, y: int, colour: u32)
    requires
        s.wf(),
        s.pixel_format != PixelFormat::U8,
        s.in_bounds(x, y),
        crate::color::rgba_of_hex(colour).3 == 0,
    ensures
        write_pixel_spec(
            s.back@,
            s.pixel_off(x, y),
            s.bytes_per_pixel as int,
            s.blended_pixel_bytes(x, y, colour),
        ) == s.back@,
{
    crate::color::lemma_blend_zero_opacity(
        crate::color::rgba_of_hex(colour),
        unpack_spec(s.pixel_format, s.pixel_bytes(x, y)),
    );
    s.lemma_pixel_off_in_bounds(x, y);
    let off = s.pixel_off(x, y);
    let bpp = s.bytes_per_pixel as int;
    let written = write_pixel_spec(s.back@, off, bpp, s.blended_pixel_bytes(x, y, colour));
    assert forall|i: int| 0 <= i < s.back@.len() implies written[i] == s.back@[i] by {
        if off <= i < off + bpp {
            assert(s.pixel_bytes(x, y)[i - off] == s.back@[i]);
        }
    }
    assert(written =~= s.back@);
}


/// The byte at index `i` of the back buffer of `s0` after an opaque block
/// fill has reached `j` full columns and `k` cells of the next column.
pub open spec fn block_fill_byte(
    s0: Screen,
    colour: u32,
    x: int,
    y: int,
    w: int,
    h: int,
    j: int,
    k: int,
    i: int,
) -> u8 {
    let p = i / (s0.bytes_per_pixel as int);
    let px = p % (s0.stride as int);
    let py = p / (s0.stride as int);
    if s0.in_bounds(px, py) && rect_processed(x, y, w, h, j, k, px, py) {
        pack_spec(
            s0.pixel_format,
            rgba_of_hex(colour).0,
            rgba_of_hex(colour).1,
            rgba_of_hex(colour).2,
            rgba_of_hex(colour).3,
        )[i - p * (s0.bytes_per_pixel as int)]
    } else {
        s0.back@[i]
    }
}

/// The back buffer of `s0` after an opaque column-major block fill has
/// written `j` full columns and `k` cells of the next one.
pub open spec fn block_fill(
    s0: Screen,
    colour: u32,
    x: int,
    y: int,
    w: int,
    h: int,
    j: int,
    k: int,
) -> Seq<u8> {
    Seq::new(s0.back@.len(), |i: int| block_fill_byte(s0, colour, x, y, w, h, j, k, i))
}

/// The back buffer of `s0` after `colour` has been written opaquely onto
/// every pixel of the rectangle at `(x, y)` with extent `(w, h)` that lies
/// on the visible surface; every other byte keeps its old value.
pub open spec fn block_render(s0: Screen, colour: u32, x: int, y: int, w: int, h: int) -> Seq<
    u8,
> {
    block_fill(s0, colour, x, y, w, h, w, 0)
}

impl Screen {
    /// Before any cell is processed, the block fill has changed nothing.
    proof fn lemma_block_fill_start(self, colour: u32, x: int, y: int, w: int, h: int)
        ensures
            block_fill(self, colour, x, y, w, h, 0, 0) == self.back@,
    {
        assert(block_fill(self, colour, x, y, w, h, 0, 0) =~= self.back@);
    }

    /// Finishing a column of the block fill reaches the same buffer as
    /// starting the next one.
    proof fn lemma_block_fill_column(self, colour: u32, x: int, y: int, w: int, h: int, j: int)
        requires
            0 <= j,
            0 <= h,
        ensures
            block_fill(self, colour, x, y, w, h, j, h) == block_fill(
                self,
                colour,
                x,
                y,
                w,
                h,
                j + 1,
                0,
            ),
    {
        assert(block_fill(self, colour, x, y, w, h, j, h) =~= block_fill(
            self,
            colour,
            x,
            y,
            w,
            h,
            j + 1,
            0,
        ));
    }

    /// One opaque pixel write advances the block fill by one cell; a cell
    /// off the visible surface advances it without a write.
    proof fn lemma_block_fill_step(
        s0: Screen,
        mid: Screen,
        colour: u32,
        x: int,
        y: int,
        w: int,
        h: int,
        j: int,
        k: int,
    )
        requires
            s0.wf(),
            mid.wf(),
            mid.same_geometry(s0),
            0 <= x,
            0 <= y,
            0 <= j < w,
            0 <= k < h,
            mid.back@ == block_fill(s0, colour, x, y, w, h, j, k),
        ensures
            mid.in_bounds(x + j, y + k) ==> write_pixel_spec(
                mid.back@,
                mid.pixel_off(x + j, y + k),
                mid.bytes_per_pixel as int,
                pack_spec(
                    mid.pixel_format,
                    rgba_of_hex(colour).0,
                    rgba_of_hex(colour).1,
                    rgba_of_hex(colour).2,
                    rgba_of_hex(colour).3,
                ),
            ) == block_fill(s0, colour, x, y, w, h, j, k + 1),
            !mid.in_bounds(x + j, y + k) ==> mid.back@ == block_fill(s0, colour, x, y, w, h, j, k
                + 1),
    {
        let bpp = s0.bytes_per_pixel as int;
        let px0 = x + j;
        let py0 = y + k;
        let target = block_fill(s0, colour, x, y, w, h, j, k + 1);
        if mid.in_bounds(px0, py0) {
            let p0 = py0 * s0.stride + px0;
            let off = s0.pixel_off(px0, py0);
            s0.lemma_pixel_off_in_bounds(px0, py0);
            let written = write_pixel_spec(
                mid.back@,
                off,
                bpp,
                pack_spec(
                    mid.pixel_format,
                    rgba_of_hex(colour).0,
                    rgba_of_hex(colour).1,
                    rgba_of_hex(colour).2,
                    rgba_of_hex(colour).3,
                ),
            );
            assert forall|i: int| 0 <= i < s0.back@.len() implies written[i] == target[i] by {
                if off <= i < off + bpp {
                    s0.lemma_byte_of_pixel(px0, py0, i);
                } else {
                    s0.lemma_pixel_of_byte(i);
                    let p = i / bpp;
                    let px = p % (s0.stride as int);
                    let py = p / (s0.stride as int);
                    if px == px0 && py == py0 {
                        assert(p == p0);
                        assert(false);
                    }
                }
            }
            assert(written =~= target);
        } else {
            assert forall|i: int| 0 <= i < s0.back@.len() implies mid.back@[i] == target[i] by {
                s0.lemma_pixel_of_byte(i);
            }
            assert(mid.back@ =~= target);
        }
    }

    /// Writes a colour opaquely onto every pixel of the given rectangle
    /// that lies on the visible surface; the parts that hang off the
    /// surface are clipped pixel by pixel, and nothing else changes.
    pub(crate) fn fill_block_fast(&mut self, x: usize, y: usize, w: usize, h: usize, colour: u32)
        requires
            old(self).wf(),
            x + w <= usize::MAX,
            y + h <= usize::MAX,
        ensures
            final(self).wf(),
            final(self).same_geometry(*old(self)),
            final(self).front == old(self).front,
            final(self).back@ == block_render(
                *old(self),
                colour,
                x as int,
                y as int,
                w as int,
                h as int,
            ),
    {
        let ghost s0 = *old(self);
        proof {
            s0.lemma_block_fill_start(colour, x as int, y as int, w as int, h as int);
        }
        let mut j: usize = 0;
        while j < w
            invariant
                self.wf(),
                s0.wf(),
                self.same_geometry(s0),
                self.front == s0.front,
                x + w <= usize::MAX,
                y + h <= usize::MAX,
                j <= w,
                self.back@ == block_fill(s0, colour, x as int, y as int, w as int, h as int, j as int, 0),
            decreases w - j,
        {
            let mut k: usize = 0;
            while k < h
                invariant
                    self.wf(),
                    s0.wf(),
                    self.same_geometry(s0),
                    self.front == s0.front,
                    x + w <= usize::MAX,
                    y + h <= usize::MAX,
                    j < w,
                    k <= h,
                    self.back@ == block_fill(s0, colour, x as int, y as int, w as int, h as int, j as int, k as int),
                decreases h - k,
            {
                let ghost mid = *self;
                self.pixel_fast(x + j, y + k, colour);
                proof {
                    Screen::lemma_block_fill_step(
                        s0,
                        mid,
                        colour,
                        x as int,
                        y as int,
                        w as int,
                        h as int,
                        j as int,
                        k as int,
                    );
                }
                k = k + 1;
            }
            proof {
                s0.lemma_block_fill_column(colour, x as int, y as int, w as int, h as int, j as int);
            }
            j = j + 1;
        }
    }
}

} // verus!
