//! The terminal state: a row-major grid of glyphs, per-row dirty flags, a
//! cursor carrying the pending attribute state, and terminal-wide mode bits.

use vstd::prelude::*;
use vstd::pervasive::VecAdditionalExecFns;

use crate::glyph::Glyph;
use crate::glyph::default_glyph;

verus! {

/// Mode bits of the terminal. The flag set is 32 bits wide; external
/// consumers may rely on that width and on these positions.
pub const MODE_WRAP: u32 = 0x01;
pub const MODE_INSERT: u32 = 0x02;
pub const MODE_ALTSCREEN: u32 = 0x04;
pub const MODE_CRLF: u32 = 0x08;
pub const MODE_ECHO: u32 = 0x10;
pub const MODE_UTF8: u32 = 0x40;

/// The mode bits a terminal starts with.
pub open spec fn default_mode() -> u32 {
    MODE_WRAP | MODE_UTF8
}

/// The wrap state of the cursor.
#[derive(Clone, Copy, PartialEq, Eq, Structural, Debug)]
pub enum CursorState {
    Default,
    WrapNext,
    Origin,
}

/// The character set designated for the terminal. Designation sequences are
/// recognized but not applied; the set stays [`Charset::USA`].
#[derive(Clone, Copy, PartialEq, Eq, Structural, Debug)]
pub enum Charset {
    Graphic0,
    Graphic1,
    UK,
    USA,
    Multi,
    Ger,
    Fin,
}

/// The cursor: a position and the pending attribute state (the "current
/// SGR") used for subsequent prints.
#[derive(Clone, Copy, PartialEq, Eq, Structural, Debug)]
pub struct Cursor {
    pub attr: Glyph,
    pub x: usize,
    pub y: usize,
    pub state: CursorState,
}

impl Default for Cursor {
    /// A cursor at the origin with the default attribute state.
    fn default() -> (c: Cursor)
        ensures
            c == default_cursor(),
    {
        Cursor { attr: Glyph::default(), x: 0, y: 0, state: CursorState::Default }
    }
}

/// The cursor a terminal starts with: the origin, default attributes.
pub open spec fn default_cursor() -> Cursor {
    Cursor { attr: default_glyph(), x: 0, y: 0, state: CursorState::Default }
}

/// The mathematical state of a terminal: the model every contract of
/// [`Term`] and of the decoder speaks of.
pub ghost struct TermView {
    pub rows: int,
    pub cols: int,
    /// Row-major: the cell at column `x` of row `y` is `grid[y * cols + x]`.
    pub grid: Seq<Glyph>,
    pub dirty: Seq<bool>,
    pub cur_x: int,
    pub cur_y: int,
    /// The pending attribute state used for subsequent prints.
    pub attr: Glyph,
    pub cur_state: CursorState,
    pub mode: u32,
    pub charset: Charset,
    pub lastc: char,
}

impl TermView {
    /// Internal consistency: positive dimensions, a grid of exactly
    /// `rows * cols` cells, one dirty flag per row, and a cursor strictly
    /// inside the grid.
    pub open spec fn wf(self) -> bool {
        &&& 1 <= self.rows
        &&& 1 <= self.cols
        &&& self.rows * self.cols <= usize::MAX
        &&& self.grid.len() == self.rows * self.cols
        &&& self.dirty.len() == self.rows
        &&& 0 <= self.cur_x < self.cols
        &&& 0 <= self.cur_y < self.rows
    }

    /// The cell index of column `x` of row `y`.
    pub open spec fn cell(self, x: int, y: int) -> int {
        y * self.cols + x
    }
}

/// The state of a freshly constructed terminal: all cells default, every
/// row dirty, the cursor at the origin, WRAP and UTF8 set.
pub open spec fn fresh_view(cols: int, rows: int) -> TermView {
    TermView {
        rows,
        cols,
        grid: Seq::new((rows * cols) as nat, |i: int| default_glyph()),
        dirty: Seq::new(rows as nat, |i: int| true),
        cur_x: 0,
        cur_y: 0,
        attr: default_glyph(),
        cur_state: CursorState::Default,
        mode: default_mode(),
        charset: Charset::USA,
        lastc: '\0',
    }
}

/// A cell index `y * cols + x` stays inside a grid of `rows * cols` cells.
pub proof fn lemma_cell_in_grid(x: int, y: int, cols: int, rows: int)
    by (nonlinear_arith)
    requires
        0 <= x < cols,
        0 <= y < rows,
    ensures
        0 <= y * cols,
        y * cols + x < rows * cols,
        (y + 1) * cols <= rows * cols,
        y * cols + x < (y + 1) * cols,
        (y + 1) * cols == y * cols + cols,
{
}

/// The state after scrolling up by one row: every row moves up by one, the
/// top row is discarded, the vacated bottom row is blank, every row is
/// dirty. Cursor and modes are unchanged.
pub open spec fn scrolled_up(t: TermView) -> TermView {
    TermView {
        grid: Seq::new(
            t.grid.len(),
            |i: int|
                if i < t.grid.len() - t.cols {
                    t.grid[i + t.cols]
                } else {
                    default_glyph()
                },
        ),
        dirty: Seq::new(t.dirty.len(), |i: int| true),
        ..t
    }
}

/// The state after scrolling down by one row: every row moves down by one,
/// the bottom row is discarded, the vacated top row is blank, every row is
/// dirty. Cursor and modes are unchanged.
pub open spec fn scrolled_down(t: TermView) -> TermView {
    TermView {
        grid: Seq::new(
            t.grid.len(),
            |i: int|
                if i < t.cols {
                    default_glyph()
                } else {
                    t.grid[i - t.cols]
                },
        ),
        dirty: Seq::new(t.dirty.len(), |i: int| true),
        ..t
    }
}

/// The smaller of two integers.
pub open spec fn imin(a: int, b: int) -> int {
    if a < b {
        a
    } else {
        b
    }
}

/// The state after clearing the span from column `x1` of row `y1` to column
/// `x2` of row `y2`, each coordinate first clamped to the grid: every cell
/// of the span is the default glyph (per-row clipped to `x1`/`x2` on the
/// first/last row, full-width on interior rows), and the rows of the span
/// are dirty. In row-major order the span is one contiguous index range.
pub open spec fn cleared(t: TermView, x1: int, y1: int, x2: int, y2: int) -> TermView {
    let x1c = imin(x1, t.cols - 1);
    let x2c = imin(x2, t.cols - 1);
    let y1c = imin(y1, t.rows - 1);
    let y2c = imin(y2, t.rows - 1);
    let lo = y1c * t.cols + x1c;
    let hi = y2c * t.cols + x2c;
    TermView {
        grid: Seq::new(
            t.grid.len(),
            |i: int|
                if lo <= i <= hi {
                    default_glyph()
                } else {
                    t.grid[i]
                },
        ),
        dirty: Seq::new(
            t.dirty.len(),
            |r: int|
                if y1c <= r <= y2c {
                    true
                } else {
                    t.dirty[r]
                },
        ),
        ..t
    }
}

/// The state after inserting `n` blank cells at the cursor: the remainder
/// of the cursor's row shifts right by `n` (bounded by the remaining
/// width), the vacated cells are blank, and the row is dirty.
pub open spec fn inserted_blank(t: TermView, n: int) -> TermView {
    let m = imin(n, t.cols - t.cur_x);
    let base = t.cur_y * t.cols;
    TermView {
        grid: Seq::new(
            t.grid.len(),
            |i: int|
                if base + t.cur_x <= i < base + t.cur_x + m {
                    default_glyph()
                } else if base + t.cur_x + m <= i < base + t.cols {
                    t.grid[i - m]
                } else {
                    t.grid[i]
                },
        ),
        dirty: t.dirty.update(t.cur_y, true),
        ..t
    }
}

/// The state after deleting `n` cells at the cursor: the remainder of the
/// cursor's row shifts left by `n` (bounded by the remaining width), the
/// vacated cells at the end of the row are blank, and the row is dirty.
pub open spec fn deleted_chars(t: TermView, n: int) -> TermView {
    let m = imin(n, t.cols - t.cur_x);
    let base = t.cur_y * t.cols;
    TermView {
        grid: Seq::new(
            t.grid.len(),
            |i: int|
                if base + t.cur_x <= i < base + t.cols - m {
                    t.grid[i + m]
                } else if base + t.cols - m <= i < base + t.cols {
                    default_glyph()
                } else {
                    t.grid[i]
                },
        ),
        dirty: t.dirty.update(t.cur_y, true),
        ..t
    }
}

/// Multiplication is monotone in a nonnegative factor.
pub proof fn lemma_mul_mono(a: int, b: int, c: int)
    by (nonlinear_arith)
    requires
        a <= b,
        0 <= c,
    ensures
        a * c <= b * c,
{
}

/// Multiplication distributes over addition.
pub proof fn lemma_mul_distrib(a: int, b: int, c: int)
    by (nonlinear_arith)
    ensures
        (a + b) * c == a * c + b * c,
{
}

/// The state after inserting `n` blank rows at the cursor row: the rows
/// from the cursor down shift down by `n` (bounded by the remaining
/// height), the vacated rows are blank, and every row from the cursor down
/// is dirty.
pub open spec fn inserted_lines(t: TermView, n: int) -> TermView {
    let m = imin(n, t.rows - t.cur_y);
    let top = t.cur_y * t.cols;
    let mid = (t.cur_y + m) * t.cols;
    TermView {
        grid: Seq::new(
            t.grid.len(),
            |i: int|
                if top <= i < mid {
                    default_glyph()
                } else if mid <= i {
                    t.grid[i - m * t.cols]
                } else {
                    t.grid[i]
                },
        ),
        dirty: Seq::new(
            t.dirty.len(),
            |r: int|
                if t.cur_y <= r {
                    true
                } else {
                    t.dirty[r]
                },
        ),
        ..t
    }
}

/// The state after deleting `n` rows at the cursor row: the rows below
/// shift up by `n` (bounded by the remaining height), the vacated rows at
/// the bottom are blank, and every row from the cursor down is dirty.
pub open spec fn deleted_lines(t: TermView, n: int) -> TermView {
    let m = imin(n, t.rows - t.cur_y);
    let top = t.cur_y * t.cols;
    let cut = (t.rows - m) * t.cols;
    TermView {
        grid: Seq::new(
            t.grid.len(),
            |i: int|
                if top <= i < cut {
                    t.grid[i + m * t.cols]
                } else if cut <= i {
                    default_glyph()
                } else {
                    t.grid[i]
                },
        ),
        dirty: Seq::new(
            t.dirty.len(),
            |r: int|
                if t.cur_y <= r {
                    true
                } else {
                    t.dirty[r]
                },
        ),
        ..t
    }
}

/// The state after a line feed: the cursor moves down one row and its new
/// row is dirty, or the grid scrolls up if the cursor is on the last row.
/// The column is unchanged.
pub open spec fn line_fed(t: TermView) -> TermView {
    if t.cur_y + 1 < t.rows {
        TermView { cur_y: t.cur_y + 1, dirty: t.dirty.update(t.cur_y + 1, true), ..t }
    } else {
        scrolled_up(t)
    }
}

/// The state after printing `c`: the cell under the cursor shows `c` in the
/// cursor's pending attribute state, the row is dirty, and the cursor
/// advances, wrapping to the next row (with a scroll on the last row) past
/// the last column.
pub open spec fn put_char_v(t: TermView, c: char) -> TermView {
    let g = Glyph { rune: c as u32, fg: t.attr.fg, bg: t.attr.bg, attrs: t.attr.attrs };
    let t1 = TermView {
        grid: t.grid.update(t.cur_y * t.cols + t.cur_x, g),
        dirty: t.dirty.update(t.cur_y, true),
        lastc: c,
        ..t
    };
    if t.cur_x + 1 < t.cols {
        TermView { cur_x: t.cur_x + 1, ..t1 }
    } else {
        line_fed(TermView { cur_x: 0, ..t1 })
    }
}

/// The state after a backspace: the cursor moves left one column, or to the
/// end of the previous row if it sat in column 0, and the cell at the new
/// position is erased. At the origin only the erasure happens.
pub open spec fn backspaced(t: TermView) -> TermView {
    let nx = if t.cur_x > 0 {
        t.cur_x - 1
    } else if t.cur_y > 0 {
        t.cols - 1
    } else {
        0
    };
    let ny = if t.cur_x > 0 {
        t.cur_y
    } else if t.cur_y > 0 {
        t.cur_y - 1
    } else {
        0
    };
    TermView {
        grid: t.grid.update(ny * t.cols + nx, default_glyph()),
        dirty: t.dirty.update(ny, true),
        cur_x: nx,
        cur_y: ny,
        ..t
    }
}

/// The state after a newline: column 0 of the next row, scrolling on the
/// last row; the cursor's new row is dirty.
pub open spec fn newlined(t: TermView) -> TermView {
    line_fed(TermView { cur_x: 0, ..t })
}

/// `v` clamped into `[lo, hi]`.
pub open spec fn iclamp(v: int, lo: int, hi: int) -> int {
    if v < lo {
        lo
    } else if v > hi {
        hi
    } else {
        v
    }
}

/// The state after moving the cursor to column `x` of row `y`, each clamped
/// to the grid; the rows the cursor leaves and enters are dirty.
pub open spec fn moved_to(t: TermView, x: int, y: int) -> TermView {
    let nx = imin(x, t.cols - 1);
    let ny = imin(y, t.rows - 1);
    TermView {
        cur_x: nx,
        cur_y: ny,
        dirty: t.dirty.update(t.cur_y, true).update(ny, true),
        ..t
    }
}

/// The state after moving the cursor by `(dx, dy)`, clamped to the grid;
/// the rows the cursor leaves and enters are dirty.
pub open spec fn moved_by(t: TermView, dx: int, dy: int) -> TermView {
    let nx = iclamp(t.cur_x + dx, 0, t.cols - 1);
    let ny = iclamp(t.cur_y + dy, 0, t.rows - 1);
    TermView {
        cur_x: nx,
        cur_y: ny,
        dirty: t.dirty.update(t.cur_y, true).update(ny, true),
        ..t
    }
}

/// The state after replacing the grid by a fresh blank one of `cols`
/// columns and `rows` rows: content is not preserved, every row is dirty,
/// and the cursor returns to the origin. The pending attribute state and
/// the mode bits survive the resize.
pub open spec fn resized(t: TermView, cols: int, rows: int) -> TermView {
    TermView {
        rows,
        cols,
        grid: Seq::new((rows * cols) as nat, |i: int| default_glyph()),
        dirty: Seq::new(rows as nat, |i: int| true),
        cur_x: 0,
        cur_y: 0,
        ..t
    }
}

/// The terminal: grid, dirty flags, cursor, and mode bits. Created at a
/// given size and driven by the decoder through the mutation methods below.
pub struct Term {
    pub rows: usize,
    pub cols: usize,
    pub grid: Vec<Glyph>,
    pub dirty: Vec<bool>,
    pub cursor: Cursor,
    pub mode: u32,
    pub charset: Charset,
    pub lastc: char,
}

impl View for Term {
    type V = TermView;

    open spec fn view(&self) -> TermView {
        TermView {
            rows: self.rows as int,
            cols: self.cols as int,
            grid: self.grid@,
            dirty: self.dirty@,
            cur_x: self.cursor.x as int,
            cur_y: self.cursor.y as int,
            attr: self.cursor.attr,
            cur_state: self.cursor.state,
            mode: self.mode,
            charset: self.charset,
            lastc: self.lastc,
        }
    }
}

impl Term {
    /// A fresh terminal of `cols` columns and `rows` rows: all cells
    /// default, every row dirty, the cursor at the origin. Construction
    /// with zero rows or zero columns is rejected.
    pub fn new(cols: usize, rows: usize) -> (t: Term)
        requires
            1 <= cols,
            1 <= rows,
            rows * cols <= usize::MAX,
        ensures
            t@ == fresh_view(cols as int, rows as int),
            t@.wf(),
    {
        let n = rows * cols;
        let mut grid: Vec<Glyph> = Vec::new();
        while grid.len() < n
            invariant
                grid@.len() <= n,
                forall|i: int| 0 <= i < grid@.len() ==> grid@[i] == default_glyph(),
            decreases n - grid@.len(),
        {
            grid.push(Glyph::default());
        }
        let mut dirty: Vec<bool> = Vec::new();
        while dirty.len() < rows
            invariant
                dirty@.len() <= rows,
                forall|i: int| 0 <= i < dirty@.len() ==> dirty@[i] == true,
            decreases rows - dirty@.len(),
        {
            dirty.push(true);
        }
        let t = Term {
            rows,
            cols,
            grid,
            dirty,
            cursor: Cursor::default(),
            mode: MODE_WRAP | MODE_UTF8,
            charset: Charset::USA,
            lastc: '\0',
        };
        proof {
            assert(t@.grid =~= fresh_view(cols as int, rows as int).grid);
            assert(t@.dirty =~= fresh_view(cols as int, rows as int).dirty);
        }
        t
    }

    /// The cell index of column `x` of row `y`.
    pub fn idx(&self, x: usize, y: usize) -> (i: usize)
        requires
            self@.wf(),
            x < self@.cols,
            y < self@.rows,
        ensures
            i == self@.cell(x as int, y as int),
            i < self@.grid.len(),
    {
        proof {
            lemma_cell_in_grid(x as int, y as int, self@.cols, self@.rows);
        }
        y * self.cols + x
    }

    /// The glyph at column `x` of row `y`.
    pub fn get(&self, x: usize, y: usize) -> (g: &Glyph)
        requires
            self@.wf(),
            x < self@.cols,
            y < self@.rows,
        ensures
            *g == self@.grid[self@.cell(x as int, y as int)],
    {
        let i = self.idx(x, y);
        &self.grid[i]
    }

    /// Mark every row dirty.
    pub fn mark_dirty(&mut self)
        ensures
            final(self)@ == (TermView {
                dirty: Seq::new(old(self)@.dirty.len(), |i: int| true),
                ..old(self)@
            }),
    {
        let mut y: usize = 0;
        while y < self.dirty.len()
            invariant
                self.rows == old(self).rows,
                self.cols == old(self).cols,
                self.grid == old(self).grid,
                self.cursor == old(self).cursor,
                self.mode == old(self).mode,
                self.charset == old(self).charset,
                self.lastc == old(self).lastc,
                self.dirty@.len() == old(self)@.dirty.len(),
                y <= self.dirty@.len(),
                forall|i: int| 0 <= i < y ==> self.dirty@[i] == true,
            decreases self.dirty@.len() - y,
        {
            self.dirty.set(y, true);
            y = y + 1;
        }
        proof {
            assert(self@.dirty =~= Seq::new(old(self)@.dirty.len(), |i: int| true));
        }
    }

    /// Shift every row up by one, discarding the top row and filling the
    /// vacated bottom row with default glyphs; every row is marked dirty.
    pub fn scroll_up(&mut self)
        requires
            old(self)@.wf(),
        ensures
            final(self)@ == scrolled_up(old(self)@),
            final(self)@.wf(),
    {
        proof {
            lemma_cell_in_grid(0, 0, self@.cols, self@.rows);
        }
        let n = self.grid.len();
        let cols = self.cols;
        let mut i: usize = 0;
        while i < n - cols
            invariant
                self.rows == old(self).rows,
                self.cols == old(self).cols,
                self.cursor == old(self).cursor,
                self.mode == old(self).mode,
                self.charset == old(self).charset,
                self.lastc == old(self).lastc,
                self.dirty == old(self).dirty,
                cols == old(self)@.cols,
                self.grid@.len() == n,
                n == old(self)@.grid.len(),
                cols <= n,
                i <= n - cols,
                forall|k: int| 0 <= k < i ==> self.grid@[k] == old(self)@.grid[k + cols],
                forall|k: int| i <= k < n ==> self.grid@[k] == old(self)@.grid[k],
            decreases n - cols - i,
        {
            let g = self.grid[i + cols];
            self.grid.set(i, g);
            i = i + 1;
        }
        let mut j: usize = n - cols;
        while j < n
            invariant
                self.rows == old(self).rows,
                self.cols == old(self).cols,
                self.cursor == old(self).cursor,
                self.mode == old(self).mode,
                self.charset == old(self).charset,
                self.lastc == old(self).lastc,
                self.dirty == old(self).dirty,
                cols == old(self)@.cols,
                self.grid@.len() == n,
                n == old(self)@.grid.len(),
                cols <= n,
                n - cols <= j <= n,
                forall|k: int| 0 <= k < n - cols ==> self.grid@[k] == old(self)@.grid[k + cols],
                forall|k: int| n - cols <= k < j ==> self.grid@[k] == default_glyph(),
            decreases n - j,
        {
            self.grid.set(j, Glyph::default());
            j = j + 1;
        }
        self.mark_dirty();
        proof {
            assert(self@.grid =~= scrolled_up(old(self)@).grid);
            assert(self@.dirty =~= scrolled_up(old(self)@).dirty);
        }
    }

    /// Shift every row down by one, discarding the bottom row and filling
    /// the vacated top row with default glyphs; every row is marked dirty.
    pub fn scroll_down(&mut self)
        requires
            old(self)@.wf(),
        ensures
            final(self)@ == scrolled_down(old(self)@),
            final(self)@.wf(),
    {
        proof {
            lemma_cell_in_grid(0, 0, self@.cols, self@.rows);
        }
        let n = self.grid.len();
        let cols = self.cols;
        let mut i: usize = n;
        while i > cols
            invariant
                self.rows == old(self).rows,
                self.cols == old(self).cols,
                self.cursor == old(self).cursor,
                self.mode == old(self).mode,
                self.charset == old(self).charset,
                self.lastc == old(self).lastc,
                self.dirty == old(self).dirty,
                cols == old(self)@.cols,
                self.grid@.len() == n,
                n == old(self)@.grid.len(),
                cols <= i <= n,
                forall|k: int| 0 <= k < i ==> self.grid@[k] == old(self)@.grid[k],
                forall|k: int| i <= k < n ==> self.grid@[k] == old(self)@.grid[k - cols],
            decreases i,
        {
            i = i - 1;
            let g = self.grid[i - cols];
            self.grid.set(i, g);
        }
        let mut j: usize = 0;
        while j < cols
            invariant
                self.rows == old(self).rows,
                self.cols == old(self).cols,
                self.cursor == old(self).cursor,
                self.mode == old(self).mode,
                self.charset == old(self).charset,
                self.lastc == old(self).lastc,
                self.dirty == old(self).dirty,
                cols == old(self)@.cols,
                self.grid@.len() == n,
                n == old(self)@.grid.len(),
                cols <= n,
                j <= cols,
                forall|k: int| 0 <= k < j ==> self.grid@[k] == default_glyph(),
                forall|k: int| j <= k < cols ==> self.grid@[k] == old(self)@.grid[k],
                forall|k: int| cols <= k < n ==> self.grid@[k] == old(self)@.grid[k - cols],
            decreases cols - j,
        {
            self.grid.set(j, Glyph::default());
            j = j + 1;
        }
        self.mark_dirty();
        proof {
            assert(self@.grid =~= scrolled_down(old(self)@).grid);
            assert(self@.dirty =~= scrolled_down(old(self)@).dirty);
        }
    }

    /// Set every cell of the span from column `x1` of row `y1` to column
    /// `x2` of row `y2` (coordinates clamped to the grid) to the default
    /// glyph and mark the touched rows dirty.
    pub fn clear_region(&mut self, x1: usize, y1: usize, x2: usize, y2: usize)
        requires
            old(self)@.wf(),
        ensures
            final(self)@ == cleared(old(self)@, x1 as int, y1 as int, x2 as int, y2 as int),
            final(self)@.wf(),
    {
        let cols = self.cols;
        let rows = self.rows;
        let x1c = if x1 < cols - 1 { x1 } else { cols - 1 };
        let x2c = if x2 < cols - 1 { x2 } else { cols - 1 };
        let y1c = if y1 < rows - 1 { y1 } else { rows - 1 };
        let y2c = if y2 < rows - 1 { y2 } else { rows - 1 };
        proof {
            lemma_cell_in_grid(x1c as int, y1c as int, cols as int, rows as int);
            lemma_cell_in_grid(x2c as int, y2c as int, cols as int, rows as int);
        }
        let lo = y1c * cols + x1c;
        let hi = y2c * cols + x2c;
        let ghost target = cleared(old(self)@, x1 as int, y1 as int, x2 as int, y2 as int);
        if lo <= hi {
        let mut i: usize = lo;
        while i <= hi
            invariant
                self.rows == old(self).rows,
                self.cols == old(self).cols,
                self.cursor == old(self).cursor,
                self.mode == old(self).mode,
                self.charset == old(self).charset,
                self.lastc == old(self).lastc,
                self.dirty == old(self).dirty,
                self.grid@.len() == old(self)@.grid.len(),
                self.grid@.len() <= usize::MAX,
                hi < self.grid@.len(),
                lo <= i <= hi + 1,
                forall|k: int| lo <= k < i ==> self.grid@[k] == default_glyph(),
                forall|k: int|
                    0 <= k < self.grid@.len() && !(lo <= k < i) ==> self.grid@[k] == old(
                        self,
                    )@.grid[k],
            decreases hi + 1 - i,
        {
            self.grid.set(i, Glyph::default());
            i = i + 1;
        }
        }
        if y1c <= y2c {
        let mut r: usize = y1c;
        while r <= y2c
            invariant
                self.rows == old(self).rows,
                self.cols == old(self).cols,
                self.cursor == old(self).cursor,
                self.mode == old(self).mode,
                self.charset == old(self).charset,
                self.lastc == old(self).lastc,
                self.dirty@.len() == old(self)@.dirty.len(),
                self.dirty@.len() <= usize::MAX,
                y2c < self.dirty@.len(),
                y1c <= r <= y2c + 1,
                forall|k: int| y1c <= k < r ==> self.dirty@[k] == true,
                forall|k: int|
                    0 <= k < self.dirty@.len() && !(y1c <= k < r) ==> self.dirty@[k] == old(
                        self,
                    )@.dirty[k],
                self.grid@.len() == old(self)@.grid.len(),
                self.grid@.len() <= usize::MAX,
                forall|k: int| lo <= k <= hi ==> self.grid@[k] == default_glyph(),
                forall|k: int|
                    0 <= k < self.grid@.len() && !(lo <= k <= hi) ==> self.grid@[k] == old(
                        self,
                    )@.grid[k],
            decreases y2c + 1 - r,
        {
            self.dirty.set(r, true);
            r = r + 1;
        }
        }
        proof {
            assert(self@.grid =~= target.grid);
            assert(self@.dirty =~= target.dirty);
        }
    }

    /// Insert `n` blank cells at the cursor, shifting the remainder of the
    /// cursor's row right and marking the row dirty.
    pub fn insert_blank(&mut self, n: usize)
        requires
            old(self)@.wf(),
        ensures
            final(self)@ == inserted_blank(old(self)@, n as int),
            final(self)@.wf(),
    {
        let cols = self.cols;
        let x = self.cursor.x;
        let y = self.cursor.y;
        let m = if n < cols - x { n } else { cols - x };
        proof {
            lemma_cell_in_grid(x as int, y as int, cols as int, self@.rows);
            lemma_cell_in_grid((cols - 1) as int, y as int, cols as int, self@.rows);
        }
        let base = y * cols;
        let mut i: usize = cols;
        while i > x + m
            invariant
                self.rows == old(self).rows,
                self.cols == old(self).cols,
                self.cursor == old(self).cursor,
                self.mode == old(self).mode,
                self.charset == old(self).charset,
                self.lastc == old(self).lastc,
                self.dirty == old(self).dirty,
                self.grid@.len() == old(self)@.grid.len(),
                self.grid@.len() <= usize::MAX,
                base == y * cols,
                base + cols <= self.grid@.len(),
                x + m <= i <= cols,
                m <= cols - x,
                forall|k: int| base + i <= k < base + cols ==> self.grid@[k] == old(self)@.grid[k - m],
                forall|k: int|
                    0 <= k < self.grid@.len() && !(base + i <= k < base + cols) ==> self.grid@[k]
                        == old(self)@.grid[k],
            decreases i,
        {
            i = i - 1;
            let g = self.grid[base + i - m];
            self.grid.set(base + i, g);
        }
        let mut j: usize = x;
        while j < x + m
            invariant
                self.rows == old(self).rows,
                self.cols == old(self).cols,
                self.cursor == old(self).cursor,
                self.mode == old(self).mode,
                self.charset == old(self).charset,
                self.lastc == old(self).lastc,
                self.dirty == old(self).dirty,
                self.grid@.len() == old(self)@.grid.len(),
                self.grid@.len() <= usize::MAX,
                base == y * cols,
                base + cols <= self.grid@.len(),
                x <= j <= x + m,
                m <= cols - x,
                forall|k: int| base + x <= k < base + j ==> self.grid@[k] == default_glyph(),
                forall|k: int|
                    base + x + m <= k < base + cols ==> self.grid@[k] == old(self)@.grid[k - m],
                forall|k: int|
                    0 <= k < self.grid@.len() && !(base + x <= k < base + cols) ==> self.grid@[k]
                        == old(self)@.grid[k],
            decreases x + m - j,
        {
            self.grid.set(base + j, Glyph::default());
            j = j + 1;
        }
        self.dirty.set(y, true);
        proof {
            assert(self@.grid =~= inserted_blank(old(self)@, n as int).grid);
        }
    }

    /// Delete `n` cells at the cursor, shifting the remainder of the
    /// cursor's row left, blanking the vacated cells at the end of the row,
    /// and marking the row dirty.
    pub fn delete_chars(&mut self, n: usize)
        requires
            old(self)@.wf(),
        ensures
            final(self)@ == deleted_chars(old(self)@, n as int),
            final(self)@.wf(),
    {
        let cols = self.cols;
        let x = self.cursor.x;
        let y = self.cursor.y;
        let m = if n < cols - x { n } else { cols - x };
        proof {
            lemma_cell_in_grid(x as int, y as int, cols as int, self@.rows);
            lemma_cell_in_grid((cols - 1) as int, y as int, cols as int, self@.rows);
        }
        let base = y * cols;
        let mut i: usize = x;
        while i < cols - m
            invariant
                self.rows == old(self).rows,
                self.cols == old(self).cols,
                self.cursor == old(self).cursor,
                self.mode == old(self).mode,
                self.charset == old(self).charset,
                self.lastc == old(self).lastc,
                self.dirty == old(self).dirty,
                self.grid@.len() == old(self)@.grid.len(),
                self.grid@.len() <= usize::MAX,
                base == y * cols,
                base + cols <= self.grid@.len(),
                x <= i <= cols - m,
                m <= cols - x,
                forall|k: int| base + x <= k < base + i ==> self.grid@[k] == old(self)@.grid[k + m],
                forall|k: int|
                    0 <= k < self.grid@.len() && !(base + x <= k < base + i) ==> self.grid@[k]
                        == old(self)@.grid[k],
            decreases cols - m - i,
        {
            let g = self.grid[base + i + m];
            self.grid.set(base + i, g);
            i = i + 1;
        }
        let mut j: usize = cols - m;
        while j < cols
            invariant
                self.rows == old(self).rows,
                self.cols == old(self).cols,
                self.cursor == old(self).cursor,
                self.mode == old(self).mode,
                self.charset == old(self).charset,
                self.lastc == old(self).lastc,
                self.dirty == old(self).dirty,
                self.grid@.len() == old(self)@.grid.len(),
                self.grid@.len() <= usize::MAX,
                base == y * cols,
                base + cols <= self.grid@.len(),
                cols - m <= j <= cols,
                m <= cols - x,
                x <= cols - m,
                forall|k: int| base + x <= k < base + cols - m ==> self.grid@[k] == old(self)@.grid[k + m],
                forall|k: int| base + cols - m <= k < base + j ==> self.grid@[k] == default_glyph(),
                forall|k: int|
                    0 <= k < self.grid@.len() && !(base + x <= k < base + j) ==> self.grid@[k]
                        == old(self)@.grid[k],
            decreases cols - j,
        {
            self.grid.set(base + j, Glyph::default());
            j = j + 1;
        }
        self.dirty.set(y, true);
        proof {
            assert(self@.grid =~= deleted_chars(old(self)@, n as int).grid);
        }
    }

    /// Insert `n` blank rows at the cursor row, shifting the rows below
    /// down and marking every row from the cursor down dirty.
    pub fn insert_lines(&mut self, n: usize)
        requires
            old(self)@.wf(),
        ensures
            final(self)@ == inserted_lines(old(self)@, n as int),
            final(self)@.wf(),
    {
        let rows = self.rows;
        let cols = self.cols;
        let y = self.cursor.y;
        let m = if n < rows - y { n } else { rows - y };
        let len = self.grid.len();
        proof {
            lemma_mul_mono(m as int, rows as int, cols as int);
            lemma_mul_mono((y + m) as int, rows as int, cols as int);
            lemma_mul_distrib(y as int, m as int, cols as int);
            lemma_cell_in_grid(0, y as int, cols as int, rows as int);
        }
        let mc = m * cols;
        let top = y * cols;
        let mid = top + mc;
        let mut i: usize = len;
        while i > mid
            invariant
                self.rows == old(self).rows,
                self.cols == old(self).cols,
                self.cursor == old(self).cursor,
                self.mode == old(self).mode,
                self.charset == old(self).charset,
                self.lastc == old(self).lastc,
                self.dirty == old(self).dirty,
                self.grid@.len() == old(self)@.grid.len(),
                self.grid@.len() <= usize::MAX,
                len == self.grid@.len(),
                top <= mid <= len,
                mid == top + mc,
                mc == m * cols,
                top == y * cols,
                mid <= i <= len,
                forall|k: int| i <= k < len ==> self.grid@[k] == old(self)@.grid[k - mc],
                forall|k: int| 0 <= k < i ==> self.grid@[k] == old(self)@.grid[k],
            decreases i,
        {
            i = i - 1;
            let g = self.grid[i - mc];
            self.grid.set(i, g);
        }
        let mut j: usize = top;
        while j < mid
            invariant
                self.rows == old(self).rows,
                self.cols == old(self).cols,
                self.cursor == old(self).cursor,
                self.mode == old(self).mode,
                self.charset == old(self).charset,
                self.lastc == old(self).lastc,
                self.dirty == old(self).dirty,
                self.grid@.len() == old(self)@.grid.len(),
                self.grid@.len() <= usize::MAX,
                len == self.grid@.len(),
                top <= mid <= len,
                mid == top + mc,
                mc == m * cols,
                top == y * cols,
                top <= j <= mid,
                forall|k: int| top <= k < j ==> self.grid@[k] == default_glyph(),
                forall|k: int| mid <= k < len ==> self.grid@[k] == old(self)@.grid[k - mc],
                forall|k: int| 0 <= k < top || j <= k < mid ==> self.grid@[k] == old(self)@.grid[k],
            decreases mid - j,
        {
            self.grid.set(j, Glyph::default());
            j = j + 1;
        }
        let mut r: usize = y;
        while r < rows
            invariant
                self.rows == old(self).rows,
                self.cols == old(self).cols,
                self.cursor == old(self).cursor,
                self.mode == old(self).mode,
                self.charset == old(self).charset,
                self.lastc == old(self).lastc,
                self.grid@.len() == old(self)@.grid.len(),
                self.dirty@.len() == old(self)@.dirty.len(),
                self.dirty@.len() <= usize::MAX,
                rows == self.dirty@.len(),
                y <= r <= rows,
                forall|k: int| y <= k < r ==> self.dirty@[k] == true,
                forall|k: int| 0 <= k < y || r <= k < rows ==> self.dirty@[k] == old(self)@.dirty[k],
                forall|k: int| top <= k < mid ==> self.grid@[k] == default_glyph(),
                forall|k: int| mid <= k < len ==> self.grid@[k] == old(self)@.grid[k - mc],
                forall|k: int| 0 <= k < top ==> self.grid@[k] == old(self)@.grid[k],
                len == self.grid@.len(),
                top <= mid <= len,
                mid == top + mc,
                mc == m * cols,
                top == y * cols,
            decreases rows - r,
        {
            self.dirty.set(r, true);
            r = r + 1;
        }
        proof {
            assert(self@.grid =~= inserted_lines(old(self)@, n as int).grid);
            assert(self@.dirty =~= inserted_lines(old(self)@, n as int).dirty);
        }
    }

    /// Delete `n` rows at the cursor row, shifting the rows below up,
    /// blanking the vacated bottom rows, and marking every row from the
    /// cursor down dirty.
    pub fn delete_lines(&mut self, n: usize)
        requires
            old(self)@.wf(),
        ensures
            final(self)@ == deleted_lines(old(self)@, n as int),
            final(self)@.wf(),
    {
        let rows = self.rows;
        let cols = self.cols;
        let y = self.cursor.y;
        let m = if n < rows - y { n } else { rows - y };
        let len = self.grid.len();
        proof {
            lemma_mul_mono(m as int, rows as int, cols as int);
            lemma_mul_distrib((rows - m) as int, m as int, cols as int);
            lemma_mul_mono(y as int, (rows - m) as int, cols as int);
            lemma_cell_in_grid(0, y as int, cols as int, rows as int);
        }
        let mc = m * cols;
        let top = y * cols;
        let cut = len - mc;
        let mut i: usize = top;
        while i < cut
            invariant
                self.rows == old(self).rows,
                self.cols == old(self).cols,
                self.cursor == old(self).cursor,
                self.mode == old(self).mode,
                self.charset == old(self).charset,
                self.lastc == old(self).lastc,
                self.dirty == old(self).dirty,
                self.grid@.len() == old(self)@.grid.len(),
                self.grid@.len() <= usize::MAX,
                len == self.grid@.len(),
                top <= cut <= len,
                cut == len - mc,
                mc == m * cols,
                top == y * cols,
                top <= i <= cut,
                forall|k: int| top <= k < i ==> self.grid@[k] == old(self)@.grid[k + mc],
                forall|k: int|
                    0 <= k < self.grid@.len() && !(top <= k < i) ==> self.grid@[k] == old(
                        self,
                    )@.grid[k],
            decreases cut - i,
        {
            let g = self.grid[i + mc];
            self.grid.set(i, g);
            i = i + 1;
        }
        let mut j: usize = cut;
        while j < len
            invariant
                self.rows == old(self).rows,
                self.cols == old(self).cols,
                self.cursor == old(self).cursor,
                self.mode == old(self).mode,
                self.charset == old(self).charset,
                self.lastc == old(self).lastc,
                self.dirty == old(self).dirty,
                self.grid@.len() == old(self)@.grid.len(),
                self.grid@.len() <= usize::MAX,
                len == self.grid@.len(),
                top <= cut <= len,
                cut == len - mc,
                mc == m * cols,
                top == y * cols,
                cut <= j <= len,
                forall|k: int| top <= k < cut ==> self.grid@[k] == old(self)@.grid[k + mc],
                forall|k: int| cut <= k < j ==> self.grid@[k] == default_glyph(),
                forall|k: int| 0 <= k < top || j <= k < len ==> self.grid@[k] == old(self)@.grid[k],
            decreases len - j,
        {
            self.grid.set(j, Glyph::default());
            j = j + 1;
        }
        let mut r: usize = y;
        while r < rows
            invariant
                self.rows == old(self).rows,
                self.cols == old(self).cols,
                self.cursor == old(self).cursor,
                self.mode == old(self).mode,
                self.charset == old(self).charset,
                self.lastc == old(self).lastc,
                self.grid@.len() == old(self)@.grid.len(),
                self.dirty@.len() == old(self)@.dirty.len(),
                self.dirty@.len() <= usize::MAX,
                rows == self.dirty@.len(),
                y <= r <= rows,
                forall|k: int| y <= k < r ==> self.dirty@[k] == true,
                forall|k: int| 0 <= k < y || r <= k < rows ==> self.dirty@[k] == old(self)@.dirty[k],
                forall|k: int| top <= k < cut ==> self.grid@[k] == old(self)@.grid[k + mc],
                forall|k: int| cut <= k < len ==> self.grid@[k] == default_glyph(),
                forall|k: int| 0 <= k < top ==> self.grid@[k] == old(self)@.grid[k],
                len == self.grid@.len(),
                top <= cut <= len,
                cut == len - mc,
                mc == m * cols,
                top == y * cols,
            decreases rows - r,
        {
            self.dirty.set(r, true);
            r = r + 1;
        }
        proof {
            assert(self@.grid =~= deleted_lines(old(self)@, n as int).grid);
            assert(self@.dirty =~= deleted_lines(old(self)@, n as int).dirty);
        }
    }

    /// Move the cursor down one row, scrolling if it sits on the last row;
    /// the cursor's new row is dirty. The column is unchanged.
    pub fn line_feed(&mut self)
        requires
            old(self)@.wf(),
        ensures
            final(self)@ == line_fed(old(self)@),
            final(self)@.wf(),
    {
        if self.cursor.y + 1 < self.rows {
            self.cursor.y = self.cursor.y + 1;
            self.dirty.set(self.cursor.y, true);
        } else {
            self.scroll_up();
        }
    }

    /// Print `c` at the cursor in the cursor's pending attribute state,
    /// mark the row dirty, and advance the cursor, wrapping (with a scroll
    /// on the last row) past the last column.
    pub fn put_char(&mut self, c: char)
        requires
            old(self)@.wf(),
        ensures
            final(self)@ == put_char_v(old(self)@, c),
            final(self)@.wf(),
    {
        let i = self.idx(self.cursor.x, self.cursor.y);
        let g = Glyph {
            rune: c as u32,
            fg: self.cursor.attr.fg,
            bg: self.cursor.attr.bg,
            attrs: self.cursor.attr.attrs,
        };
        self.grid.set(i, g);
        self.dirty.set(self.cursor.y, true);
        self.lastc = c;
        if self.cursor.x + 1 < self.cols {
            self.cursor.x = self.cursor.x + 1;
        } else {
            self.cursor.x = 0;
            self.line_feed();
        }
    }

    /// Move the cursor left one column, or to the end of the previous row
    /// if it sits in column 0, and erase the cell at the new position.
    pub fn backspace(&mut self)
        requires
            old(self)@.wf(),
        ensures
            final(self)@ == backspaced(old(self)@),
            final(self)@.wf(),
    {
        if self.cursor.x > 0 {
            self.cursor.x = self.cursor.x - 1;
        } else if self.cursor.y > 0 {
            self.cursor.y = self.cursor.y - 1;
            self.cursor.x = self.cols - 1;
        }
        let i = self.idx(self.cursor.x, self.cursor.y);
        self.grid.set(i, Glyph::default());
        self.dirty.set(self.cursor.y, true);
    }

    /// Move the cursor to column 0 of the next row, scrolling on the last
    /// row; the cursor's new row is dirty.
    pub fn newline(&mut self)
        requires
            old(self)@.wf(),
        ensures
            final(self)@ == newlined(old(self)@),
            final(self)@.wf(),
    {
        self.cursor.x = 0;
        self.line_feed();
    }

    /// Move the cursor to column `x` of row `y`, each clamped to the grid;
    /// the rows the cursor leaves and enters are dirty.
    pub fn move_to(&mut self, x: usize, y: usize)
        requires
            old(self)@.wf(),
        ensures
            final(self)@ == moved_to(old(self)@, x as int, y as int),
            final(self)@.wf(),
    {
        let old_y = self.cursor.y;
        self.cursor.x = if x < self.cols - 1 {
            x
        } else {
            self.cols - 1
        };
        self.cursor.y = if y < self.rows - 1 {
            y
        } else {
            self.rows - 1
        };
        self.dirty.set(old_y, true);
        self.dirty.set(self.cursor.y, true);
    }

    /// Move the cursor by `(dx, dy)`, clamped to the grid; the rows the
    /// cursor leaves and enters are dirty.
    pub fn move_by(&mut self, dx: i32, dy: i32)
        requires
            old(self)@.wf(),
            dx > i32::MIN,
            dy > i32::MIN,
        ensures
            final(self)@ == moved_by(old(self)@, dx as int, dy as int),
            final(self)@.wf(),
    {
        let old_y = self.cursor.y;
        let x = self.cursor.x;
        let y = self.cursor.y;
        self.cursor.x = if dx >= 0 {
            let d = dx as usize;
            if d < self.cols - 1 - x {
                x + d
            } else {
                self.cols - 1
            }
        } else {
            let d = (-dx) as usize;
            if d <= x {
                x - d
            } else {
                0
            }
        };
        self.cursor.y = if dy >= 0 {
            let d = dy as usize;
            if d < self.rows - 1 - y {
                y + d
            } else {
                self.rows - 1
            }
        } else {
            let d = (-dy) as usize;
            if d <= y {
                y - d
            } else {
                0
            }
        };
        self.dirty.set(old_y, true);
        self.dirty.set(self.cursor.y, true);
    }

    /// Restore the terminal to its initial state: all cells default, the
    /// cursor at the origin with default attributes, WRAP and UTF8 set,
    /// every row dirty. The dimensions are unchanged.
    pub fn reset(&mut self)
        requires
            old(self)@.wf(),
        ensures
            final(self)@ == fresh_view(old(self)@.cols, old(self)@.rows),
            final(self)@.wf(),
    {
        let len = self.grid.len();
        let mut i: usize = 0;
        while i < len
            invariant
                self.rows == old(self).rows,
                self.cols == old(self).cols,
                self.dirty == old(self).dirty,
                self.grid@.len() == old(self)@.grid.len(),
                self.grid@.len() <= usize::MAX,
                len == self.grid@.len(),
                i <= len,
                forall|k: int| 0 <= k < i ==> self.grid@[k] == default_glyph(),
            decreases len - i,
        {
            self.grid.set(i, Glyph::default());
            i = i + 1;
        }
        self.cursor = Cursor::default();
        self.mode = MODE_WRAP | MODE_UTF8;
        self.charset = Charset::USA;
        self.lastc = '\0';
        self.mark_dirty();
        proof {
            assert(self@.grid =~= fresh_view(old(self)@.cols, old(self)@.rows).grid);
            assert(self@.dirty =~= fresh_view(old(self)@.cols, old(self)@.rows).dirty);
        }
    }

    /// Replace the grid by a fresh blank one of `cols` columns and `rows`
    /// rows. Content is not preserved across a resize; every row of the new
    /// grid is dirty and the cursor returns to the origin. The pending
    /// attribute state and the mode bits survive.
    pub fn resize(&mut self, cols: usize, rows: usize)
        requires
            1 <= cols,
            1 <= rows,
            rows * cols <= usize::MAX,
        ensures
            final(self)@ == resized(old(self)@, cols as int, rows as int),
            final(self)@.wf(),
    {
        let n = rows * cols;
        let mut grid: Vec<Glyph> = Vec::new();
        while grid.len() < n
            invariant
                grid@.len() <= n,
                forall|i: int| 0 <= i < grid@.len() ==> grid@[i] == default_glyph(),
            decreases n - grid@.len(),
        {
            grid.push(Glyph::default());
        }
        let mut dirty: Vec<bool> = Vec::new();
        while dirty.len() < rows
            invariant
                dirty@.len() <= rows,
                forall|i: int| 0 <= i < dirty@.len() ==> dirty@[i] == true,
            decreases rows - dirty@.len(),
        {
            dirty.push(true);
        }
        self.rows = rows;
        self.cols = cols;
        self.grid = grid;
        self.dirty = dirty;
        self.cursor.x = 0;
        self.cursor.y = 0;
        proof {
            assert(self@.grid =~= resized(old(self)@, cols as int, rows as int).grid);
            assert(self@.dirty =~= resized(old(self)@, cols as int, rows as int).dirty);
        }
    }
}

} // verus!
