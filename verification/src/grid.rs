//! The character grid of the text console: a dense row-major array of
//! character cells, bounds-checked so that no access can fault.

use vstd::prelude::*;

verus! {

/// One character cell: an ASCII glyph selector plus packed foreground and
/// background colours.
#[derive(Debug, Clone, Copy, PartialEq, Eq, Structural)]
pub struct ScreenChar {
    pub ascii_character: u8,
    pub fg: u32,
    pub bg: u32,
}

impl ScreenChar {
    /// The cell a fresh grid is filled with: a space in white on clear.
    pub open spec fn spec_default() -> ScreenChar {
        ScreenChar { ascii_character: 32, fg: 0xFFFF_FFFF, bg: 0x0000_0000 }
    }
}

/// A two-dimensional grid of character cells, stored row-major, with fixed
/// width and height. Out-of-bounds reads return nothing and out-of-bounds
/// writes change nothing.
pub struct TextBuffer {
    pub width: usize,
    pub height: usize,
    pub buffer: Vec<ScreenChar>,
}

impl TextBuffer {
    /// The grid holds exactly `width * height` cells.
    pub open spec fn wf(self) -> bool {
        self.buffer.len() == self.width * self.height
    }

    /// The cell stored at column `x`, row `y`.
    pub open spec fn cell(self, x: int, y: int) -> ScreenChar {
        self.buffer@[y * self.width + x]
    }

    /// The cells of row `y`, left to right.
    pub open spec fn row(self, y: int) -> Seq<ScreenChar> {
        self.buffer@.subrange(y * self.width, y * self.width + self.width)
    }

    /// A whole row of a well-formed grid lies inside the cell array.
    pub proof fn lemma_row_in_bounds(self, y: int)
        requires
            self.wf(),
            0 <= y < self.height,
        ensures
            0 <= y * self.width,
            y * self.width + self.width <= self.buffer@.len(),
    {
        assert(0 <= y * self.width && y * self.width + self.width <= self.height * self.width)
            by (nonlinear_arith)
            requires
                0 <= y < self.height,
                0 <= self.width,
        ;
        assert(self.height * self.width == self.width * self.height) by (nonlinear_arith);
    }

    /// Builds a grid of the given dimensions with every cell set to the
    /// default cell.
    pub fn new(width: usize, height: usize) -> (r: TextBuffer)
        requires
            width * height <= usize::MAX,
        ensures
            r.wf(),
            r.width == width,
            r.height == height,
            r.buffer@ == Seq::new((width * height) as nat, |i: int| ScreenChar::spec_default()),
    {
        let buffer_size = width * height;
        let default_char = ScreenChar { ascii_character: 32, fg: 0xFFFF_FFFF, bg: 0x0000_0000 };
        let mut buffer: Vec<ScreenChar> = Vec::new();
        let mut i: usize = 0;
        while i < buffer_size
            invariant
                i <= buffer_size,
                buffer.len() == i,
                default_char == ScreenChar::spec_default(),
                forall|j: int| 0 <= j < i ==> buffer@[j] == ScreenChar::spec_default(),
            decreases buffer_size - i,
        {
            buffer.push(default_char);
            i = i + 1;
        }
        proof {
            assert(buffer@ =~= Seq::new((width * height) as nat, |i: int|
                ScreenChar::spec_default()));
        }
        TextBuffer { width, height, buffer }
    }

    /// Returns the cell at `(x, y)`, or nothing when the coordinates lie
    /// outside the grid.
    pub fn get_char(&self, x: usize, y: usize) -> (r: Option<ScreenChar>)
        requires
            self.wf(),
        ensures
            x < self.width && y < self.height ==> r == Some(self.cell(x as int, y as int)),
            !(x < self.width && y < self.height) ==> r is None,
    {
        if x < self.width && y < self.height {
            proof {
                self.lemma_row_in_bounds(y as int);
            }
            let index = y * self.width + x;
            Some(self.buffer[index])
        } else {
            None
        }
    }

    /// Stores a cell at `(x, y)`; coordinates outside the grid change
    /// nothing.
    pub fn set_char(&mut self, x: usize, y: usize, screen_char: ScreenChar)
        requires
            old(self).wf(),
        ensures
            final(self).wf(),
            final(self).width == old(self).width,
            final(self).height == old(self).height,
            x < old(self).width && y < old(self).height ==> final(self).buffer@ == old(
                self,
            ).buffer@.update(y * old(self).width + x, screen_char),
            !(x < old(self).width && y < old(self).height) ==> final(self).buffer@ == old(
                self,
            ).buffer@,
    {
        if x < self.width && y < self.height {
            proof {
                old(self).lemma_row_in_bounds(y as int);
            }
            let index = y * self.width + x;
            self.buffer.set(index, screen_char);
        }
    }

    /// Returns the cells of row `y`, or nothing when the row index lies
    /// outside the grid.
    pub fn get_row(&self, y: usize) -> (r: Option<&[ScreenChar]>)
        requires
            self.wf(),
        ensures
            y < self.height ==> r is Some && r.unwrap()@ == self.row(y as int),
            y >= self.height ==> r is None,
    {
        if y < self.height {
            proof {
                self.lemma_row_in_bounds(y as int);
            }
            let start_index = y * self.width;
            let end_index = start_index + self.width;
            Some(vstd::slice::slice_subrange(self.buffer.as_slice(), start_index, end_index))
        } else {
            None
        }
    }

    /// Replaces row `y` with the given cells; a row index outside the grid
    /// or a row of the wrong length changes nothing.
    pub fn set_row(&mut self, y: usize, row: &[ScreenChar])
        requires
            old(self).wf(),
        ensures
            final(self).wf(),
            final(self).width == old(self).width,
            final(self).height == old(self).height,
            y < old(self).height && row@.len() == old(self).width ==> final(self).row(y as int)
                == row@ && forall|i: int|
                0 <= i < old(self).buffer@.len() && !(y * old(self).width <= i < y * old(
                    self,
                ).width + old(self).width) ==> final(self).buffer@[i] == old(self).buffer@[i],
            !(y < old(self).height && row@.len() == old(self).width) ==> final(self).buffer@ == old(
                self,
            ).buffer@,
    {
        if y < self.height && row.len() == self.width {
            proof {
                old(self).lemma_row_in_bounds(y as int);
            }
            let ghost orig = self.buffer@;
            let mut i: usize = 0;
            while i < self.width
                invariant
                    self.wf(),
                    self.width == old(self).width,
                    self.height == old(self).height,
                    i <= self.width,
                    y < self.height,
                    row@.len() == self.width,
                    self.buffer@.len() == orig.len(),
                    y * self.width + self.width <= orig.len(),
                    forall|j: int| 0 <= j < i ==> self.buffer@[y * self.width + j] == row@[j],
                    forall|j: int|
                        0 <= j < orig.len() && !(y * self.width <= j < y * self.width + i)
                            ==> self.buffer@[j] == orig[j],
                decreases self.width - i,
            {
                let index = y * self.width + i;
                let c = row[i];
                self.buffer.set(index, c);
                i = i + 1;
            }
            proof {
                assert(self.row(y as int) =~= row@);
            }
        }
    }

    /// Sets every cell of the grid to the given cell.
    pub fn fill_cells(&mut self, cell: ScreenChar)
        requires
            old(self).wf(),
        ensures
            final(self).wf(),
            final(self).width == old(self).width,
            final(self).height == old(self).height,
            final(self).buffer@ == Seq::new(old(self).buffer@.len(), |i: int| cell),
    {
        let len = self.buffer.len();
        let mut i: usize = 0;
        while i < len
            invariant
                self.wf(),
                self.width == old(self).width,
                self.height == old(self).height,
                i <= len,
                len == self.buffer@.len(),
                forall|j: int| 0 <= j < i ==> self.buffer@[j] == cell,
            decreases len - i,
        {
            self.buffer.set(i, cell);
            i = i + 1;
        }
        proof {
            assert(self.buffer@ =~= Seq::new(old(self).buffer@.len(), |i: int| cell));
        }
    }

    /// Moves every row one row upward, discarding row 0 and filling the
    /// bottom row with the given blank cell.
    pub fn scroll_up(&mut self, blank: ScreenChar)
        requires
            old(self).wf(),
            old(self).height >= 1,
        ensures
            final(self).wf(),
            final(self).width == old(self).width,
            final(self).height == old(self).height,
            final(self).buffer@ == old(self).buffer@.skip(old(self).width as int) + Seq::new(
                old(self).width as nat,
                |i: int| blank,
            ),
    {
        let ghost orig = self.buffer@;
        let ghost target = orig.skip(self.width as int) + Seq::new(
            self.width as nat,
            |i: int| blank,
        );
        proof {
            assert(self.width * self.height >= self.width * 1) by (nonlinear_arith)
                requires
                    self.height >= 1,
                    self.width >= 0,
            ;
        }
        let len = self.buffer.len();
        let keep = len - self.width;
        let mut i: usize = 0;
        while i < keep
            invariant
                self.wf(),
                self.width == old(self).width,
                self.height == old(self).height,
                self.buffer@.len() == orig.len(),
                len == orig.len(),
                self.width <= len,
                keep == orig.len() - self.width,
                i <= keep,
                forall|j: int| 0 <= j < i ==> self.buffer@[j] == orig[self.width + j],
                forall|j: int| i <= j < orig.len() ==> self.buffer@[j] == orig[j],
            decreases keep - i,
        {
            let c = self.buffer[self.width + i];
            self.buffer.set(i, c);
            i = i + 1;
        }
        while i < len
            invariant
                self.wf(),
                self.width == old(self).width,
                self.height == old(self).height,
                self.buffer@.len() == orig.len(),
                len == orig.len(),
                self.width <= len,
                keep == orig.len() - self.width,
                keep <= i <= len,
                forall|j: int| 0 <= j < keep ==> self.buffer@[j] == orig[self.width + j],
                forall|j: int| keep <= j < i ==> self.buffer@[j] == blank,
            decreases len - i,
        {
            self.buffer.set(i, blank);
            i = i + 1;
        }
        proof {
            assert(self.buffer@ =~= target);
        }
    }
}

} // verus!
