//! The text console: character cells rendered as glyphs into a pixel framebuffer. This module decides
//! what goes where -- which cells hold which half of a glyph, where the cursor is, when the screen
//! scrolls -- and records the pixel work that follows from it as a queue of `DrawOp`s, which whoever
//! owns the framebuffer memory carries out in order.

pub mod cells;
pub mod font;
pub mod framebuffer;
pub mod input_layout;
pub mod utf8;

use vstd::prelude::*;

use cells::{back_col, blank_row, orphans, placed_row, Cell, CellGrid, Cursor};
use font::{glyph_for, is_interpreted, is_zero_width, spec_glyph_for, spec_is_zero_width, GlyphRef, GLYPH_HEIGHT, GLYPH_WIDTH};
use framebuffer::Framebuffer;

verus! {

/// The text colour: opaque green (the surface's alpha channel is real, so it must be 0xFF).
pub const FG: u32 = 0xFF55FF55;
/// The background colour: opaque black.
pub const BG: u32 = 0xFF00_0000;

/// Column spacing for `\t`, the traditional terminal default.
pub const TAB_WIDTH: usize = 8;

/// One piece of pixel work, in character-cell coordinates.
#[derive(Clone, Copy, Debug, PartialEq, Eq, Structural)]
pub enum DrawOp {
    /// Draw `glyph`, `width` cells wide, with its left edge at (`row`, `col`): its set pixels in
    /// `fg`, the rest in `bg`.
    Glyph { row: usize, col: usize, glyph: GlyphRef, width: usize, fg: u32, bg: u32 },
    /// Fill one cell with `bg`.
    FillCell { row: usize, col: usize, bg: u32 },
    /// Fill one row of cells, the whole width of the surface, with `bg`.
    ClearRow { row: usize, bg: u32 },
    /// Fill the whole surface with `bg`.
    ClearScreen { bg: u32 },
    /// Move every pixel up by one row of cells (`GLYPH_HEIGHT` pixels); the bottom pixel rows keep
    /// what they held.
    ShiftUp,
}

/// What the console holds: which cells hold which half of a glyph, the cursor, and the pixel work
/// not yet carried out.
pub struct Screen {
    pub grid: Seq<Seq<Cell>>,
    pub cursor: Cursor,
    pub ops: Seq<DrawOp>,
}

/// The cursor after a newline or the wrap of a full row on a screen of `rows` rows, and whether the
/// screen must scroll (the cursor was already on the last row, where it stays).
pub open spec fn spec_line_feed(c: Cursor, rows: usize) -> (Cursor, bool) {
    let scroll = c.row >= rows - 1;
    (Cursor { row: if scroll { c.row } else { (c.row + 1) as usize }, col: 0, wrap_pending: false }, scroll)
}

/// The cursor readied for a glyph `w` cells wide: wrapped first if a wrap is pending or the glyph
/// does not fit in what is left of the row; and whether that wrap must scroll.
pub open spec fn spec_start_glyph(c: Cursor, w: usize, cols: usize, rows: usize) -> (Cursor, bool) {
    if c.wrap_pending || c.col + w > cols { spec_line_feed(c, rows) } else { (c, false) }
}

/// The cursor after a glyph `w` cells wide drawn at its column: past it, or, if it ended in the last
/// column, on that column with the wrap pending.
pub open spec fn spec_end_glyph(c: Cursor, w: usize, cols: usize) -> Cursor {
    if c.col + w >= cols {
        Cursor { row: c.row, col: (cols - 1) as usize, wrap_pending: true }
    } else {
        Cursor { row: c.row, col: (c.col + w) as usize, wrap_pending: c.wrap_pending }
    }
}

/// Scrolling: every row of cells moves up one and the last becomes empty; the pixels follow.
pub open spec fn scrolled(s: Screen, cols: usize, rows: usize, bg: u32) -> Screen {
    Screen {
        grid: s.grid.drop_first().push(blank_row(cols as nat)),
        cursor: s.cursor,
        ops: s.ops + seq![DrawOp::ShiftUp, DrawOp::ClearRow { row: (rows - 1) as usize, bg }],
    }
}

/// A glyph `w` cells wide drawn at (`row`, `col`): recorded in the grid, the cells holding the other
/// half of a wide glyph it only partly covers blanked (left one first), then the glyph itself.
pub open spec fn drawn(s: Screen, row: usize, col: usize, g: GlyphRef, w: usize, fg: u32, bg: u32) -> Screen {
    let (b0, b1) = orphans(s.grid[row as int], col as int, w as int);
    let fill0 = match b0 {
        Some(c) => seq![DrawOp::FillCell { row, col: c as usize, bg }],
        None => Seq::empty(),
    };
    let fill1 = match b1 {
        Some(c) => seq![DrawOp::FillCell { row, col: c as usize, bg }],
        None => Seq::empty(),
    };
    Screen {
        grid: s.grid.update(row as int, placed_row(s.grid[row as int], col as int, w as int)),
        cursor: s.cursor,
        ops: s.ops + fill0 + fill1 + seq![DrawOp::Glyph { row, col, glyph: g, width: w, fg, bg }],
    }
}

/// How many cells the glyph `g` takes.
pub open spec fn glyph_cells(g: GlyphRef) -> usize {
    if g.wide { 2 } else { 1 }
}

/// Writing a printable character: the cursor readied for its glyph (scrolling if that wrap runs off
/// the bottom), the glyph drawn there, and the cursor moved past it.
pub open spec fn put_char(s: Screen, cols: usize, rows: usize, c: char, fg: u32, bg: u32) -> Screen {
    let g = spec_glyph_for(c);
    let w = glyph_cells(g);
    let (cur, scroll) = spec_start_glyph(s.cursor, w, cols, rows);
    let s1 = Screen { grid: s.grid, cursor: cur, ops: s.ops };
    let s2 = if scroll { scrolled(s1, cols, rows, bg) } else { s1 };
    let s3 = drawn(s2, cur.row, cur.col, g, w, fg, bg);
    Screen { grid: s3.grid, cursor: spec_end_glyph(cur, w, cols), ops: s3.ops }
}

/// Writing one character: `\n` moves to the start of the next row (scrolling on the last), `\r`
/// to the start of this one, `\t` to the next tab stop short of the last column, backspace one
/// character back; a zero-width character does nothing; anything else is drawn.
pub open spec fn written(s: Screen, cols: usize, rows: usize, c: char, fg: u32, bg: u32) -> Screen {
    if c == '\n' {
        let (cur, scroll) = spec_line_feed(s.cursor, rows);
        let s1 = Screen { grid: s.grid, cursor: cur, ops: s.ops };
        if scroll { scrolled(s1, cols, rows, bg) } else { s1 }
    } else if c == '\r' {
        Screen { grid: s.grid, cursor: Cursor { row: s.cursor.row, col: 0, wrap_pending: false }, ops: s.ops }
    } else if c == '\t' {
        let next = (s.cursor.col / TAB_WIDTH + 1) * TAB_WIDTH;
        let col = if next < cols - 1 { next as usize } else { (cols - 1) as usize };
        Screen { grid: s.grid, cursor: Cursor { row: s.cursor.row, col, wrap_pending: false }, ops: s.ops }
    } else if c == '\u{8}' {
        let col = back_col(s.grid[s.cursor.row as int], s.cursor.col as int) as usize;
        Screen { grid: s.grid, cursor: Cursor { row: s.cursor.row, col, wrap_pending: false }, ops: s.ops }
    } else if spec_is_zero_width(c) {
        s
    } else {
        put_char(s, cols, rows, c, fg, bg)
    }
}

/// Writing the characters of `cs` in order.
pub open spec fn written_all(s: Screen, cols: usize, rows: usize, cs: Seq<char>, fg: u32, bg: u32) -> Screen
    decreases cs.len(),
{
    if cs.len() == 0 {
        s
    } else {
        written(written_all(s, cols, rows, cs.drop_last(), fg, bg), cols, rows, cs.last(), fg, bg)
    }
}

/// None of `cs` is one of the characters the console interprets rather than draws.
pub open spec fn printable(cs: Seq<char>) -> bool {
    forall|i: int| 0 <= i < cs.len() ==> !is_interpreted(#[trigger] cs[i])
}

/// Rows `from..to` of cells cleared to `bg`, in order.
pub open spec fn cleared(s: Screen, from: usize, to: usize, cols: usize, bg: u32) -> Screen
    decreases to,
{
    if to <= from {
        s
    } else {
        let p = cleared(s, from, (to - 1) as usize, cols, bg);
        Screen {
            grid: p.grid.update(to - 1, blank_row(cols as nat)),
            cursor: p.cursor,
            ops: p.ops.push(DrawOp::ClearRow { row: (to - 1) as usize, bg }),
        }
    }
}

/// A software text console, `cols` x `rows` cells of 8x16 pixels; a wide glyph takes two adjacent
/// cells.
pub struct Console {
    fb: Framebuffer,
    grid: CellGrid,
    /// Number of character columns.
    pub cols: usize,
    /// Number of character rows.
    pub rows: usize,
    cursor: Cursor,
    ops: Vec<DrawOp>,
}

impl Console {
    pub closed spec fn view(&self) -> Screen {
        Screen { grid: self.grid@, cursor: self.cursor, ops: self.ops@ }
    }

    pub closed spec fn spec_cols(&self) -> usize {
        self.cols
    }

    pub closed spec fn spec_rows(&self) -> usize {
        self.rows
    }

    /// The surface the console draws on.
    pub closed spec fn spec_fb(&self) -> Framebuffer {
        self.fb
    }

    /// The grid matches the size, every wide glyph in it is whole, and the cursor is on the screen.
    pub closed spec fn wf(&self) -> bool {
        &&& self.grid.wf()
        &&& self.grid.spec_cols() == self.cols
        &&& self.grid.spec_rows() == self.rows
        &&& self.cols < usize::MAX
        &&& self.rows <= usize::MAX / 2
        &&& (self.rows > 0 ==> self.cursor.row < self.rows)
        &&& (self.rows == 0 ==> self.cursor.row == 0)
        &&& (self.cols > 0 ==> self.cursor.col < self.cols)
        &&& (self.cols == 0 ==> self.cursor.col == 0)
    }

    /// What well-formedness says of the size and the cursor.
    pub proof fn lemma_wf(&self)
        requires
            self.wf(),
        ensures
            self.spec_cols() < usize::MAX,
            self.spec_rows() <= usize::MAX / 2,
            self.spec_rows() > 0 ==> self@.cursor.row < self.spec_rows(),
            self.spec_cols() > 0 ==> self@.cursor.col < self.spec_cols(),
            self@.grid.len() == self.spec_rows(),
    {
        self.grid.lemma_view();
    }

    /// A blank console filling `fb`: as many whole cells as fit, the cursor top left.
    pub fn new(fb: Framebuffer) -> (c: Self)
        ensures
            c.wf(),
            c.spec_fb() == fb,
            c.spec_cols() == fb.width / GLYPH_WIDTH,
            c.spec_rows() == fb.height / GLYPH_HEIGHT,
            c@.grid == Seq::new(c.spec_rows() as nat, |r: int| blank_row(c.spec_cols() as nat)),
            c@.cursor == (Cursor { row: 0, col: 0, wrap_pending: false }),
            c@.ops == Seq::<DrawOp>::empty(),
    {
        let cols = fb.width / GLYPH_WIDTH;
        let rows = fb.height / GLYPH_HEIGHT;
        Self { fb, grid: CellGrid::new(cols, rows), cols, rows, cursor: Cursor::new(), ops: Vec::new() }
    }

    /// The screen size in character cells, as (cols, rows).
    pub fn size(&self) -> (r: (usize, usize))
        ensures
            r == (self.spec_cols(), self.spec_rows()),
    {
        (self.cols, self.rows)
    }

    /// Hands over the pixel work recorded so far, oldest first, and forgets it.
    pub fn take_ops(&mut self) -> (ops: Vec<DrawOp>)
        requires
            old(self).wf(),
        ensures
            final(self).wf(),
            ops@ == old(self)@.ops,
            final(self)@.ops == Seq::<DrawOp>::empty(),
            final(self)@.grid == old(self)@.grid,
            final(self)@.cursor == old(self)@.cursor,
            final(self).spec_cols() == old(self).spec_cols(),
            final(self).spec_rows() == old(self).spec_rows(),
            final(self).spec_fb() == old(self).spec_fb(),
    {
        let mut ops = Vec::new();
        std::mem::swap(&mut ops, &mut self.ops);
        ops
    }

    /// Moves the cursor to (`row`, `col`).
    pub fn move_cursor(&mut self, row: usize, col: usize)
        requires
            old(self).wf(),
            row < old(self).spec_rows(),
            col < old(self).spec_cols(),
        ensures
            final(self).wf(),
            final(self)@.cursor == (Cursor { row, col, wrap_pending: false }),
            final(self)@.grid == old(self)@.grid,
            final(self)@.ops == old(self)@.ops,
            final(self).spec_cols() == old(self).spec_cols(),
            final(self).spec_rows() == old(self).spec_rows(),
            final(self).spec_fb() == old(self).spec_fb(),
    {
        self.cursor.move_to(row, col);
    }

    /// The cursor's (row, col).
    pub fn cursor(&self) -> (r: (usize, usize))
        ensures
            r == (self@.cursor.row, self@.cursor.col),
    {
        (self.cursor.row, self.cursor.col)
    }

    /// Clears the whole screen to `bg`; no cell holds half a wide glyph any more.
    pub fn clear(&mut self, bg: u32)
        requires
            old(self).wf(),
        ensures
            final(self).wf(),
            final(self)@.grid == Seq::new(old(self).spec_rows() as nat, |r: int| blank_row(old(self).spec_cols() as nat)),
            final(self)@.cursor == old(self)@.cursor,
            final(self)@.ops == old(self)@.ops.push(DrawOp::ClearScreen { bg }),
            final(self).spec_cols() == old(self).spec_cols(),
            final(self).spec_rows() == old(self).spec_rows(),
            final(self).spec_fb() == old(self).spec_fb(),
    {
        self.ops.push(DrawOp::ClearScreen { bg });
        self.grid.clear();
    }

    /// Clears one row of cells to `bg`.
    pub fn clear_row(&mut self, row: usize, bg: u32)
        requires
            old(self).wf(),
            row < old(self).spec_rows(),
        ensures
            final(self).wf(),
            final(self)@.grid == old(self)@.grid.update(row as int, blank_row(old(self).spec_cols() as nat)),
            final(self)@.cursor == old(self)@.cursor,
            final(self)@.ops == old(self)@.ops.push(DrawOp::ClearRow { row, bg }),
            final(self).spec_cols() == old(self).spec_cols(),
            final(self).spec_rows() == old(self).spec_rows(),
            final(self).spec_fb() == old(self).spec_fb(),
    {
        self.ops.push(DrawOp::ClearRow { row, bg });
        self.grid.clear_row(row);
    }

    /// Scrolls the console up by one row: the pixels move up one row's height and the last row is
    /// cleared to `bg`.
    pub fn scroll_up(&mut self, bg: u32)
        requires
            old(self).wf(),
            old(self).spec_rows() >= 1,
        ensures
            final(self).wf(),
            final(self)@ == scrolled(old(self)@, old(self).spec_cols(), old(self).spec_rows(), bg),
            final(self).spec_cols() == old(self).spec_cols(),
            final(self).spec_rows() == old(self).spec_rows(),
            final(self).spec_fb() == old(self).spec_fb(),
    {
        proof { old(self).grid.lemma_view(); }
        self.ops.push(DrawOp::ShiftUp);
        self.grid.scroll_up();
        let last = self.rows - 1;
        self.clear_row(last, bg);
        proof {
            let g = old(self)@.grid.drop_first().push(blank_row(old(self).spec_cols() as nat));
            assert(g.update(last as int, blank_row(old(self).spec_cols() as nat)) =~= g);
            assert(self@.ops =~= old(self)@.ops + seq![DrawOp::ShiftUp, DrawOp::ClearRow { row: last, bg }]);
        }
    }

    /// Draws glyph `g`, `width` cells wide, at (`row`, `col`) without moving the cursor; the other
    /// half of a wide glyph it only partly covers is blanked.
    fn draw_glyph(&mut self, row: usize, col: usize, g: GlyphRef, width: usize, fg: u32, bg: u32)
        requires
            old(self).wf(),
            row < old(self).spec_rows(),
            1 <= width <= 2,
            col + width <= old(self).spec_cols(),
        ensures
            final(self).wf(),
            final(self)@ == drawn(old(self)@, row, col, g, width, fg, bg),
            final(self).spec_cols() == old(self).spec_cols(),
            final(self).spec_rows() == old(self).spec_rows(),
            final(self).spec_fb() == old(self).spec_fb(),
    {
        let blank = self.grid.place(row, col, width);
        if let Some(c) = blank[0] {
            self.ops.push(DrawOp::FillCell { row, col: c, bg });
        }
        if let Some(c) = blank[1] {
            self.ops.push(DrawOp::FillCell { row, col: c, bg });
        }
        self.ops.push(DrawOp::Glyph { row, col, glyph: g, width, fg, bg });
        proof {
            let (b0, b1) = orphans(old(self)@.grid[row as int], col as int, width as int);
            let fill0 = match b0 {
                Some(c) => seq![DrawOp::FillCell { row, col: c as usize, bg }],
                None => Seq::empty(),
            };
            let fill1 = match b1 {
                Some(c) => seq![DrawOp::FillCell { row, col: c as usize, bg }],
                None => Seq::empty(),
            };
            assert(self@.ops =~= old(self)@.ops + fill0 + fill1
                + seq![DrawOp::Glyph { row, col, glyph: g, width, fg, bg }]);
        }
    }

    /// Writes `c`'s glyph at the cursor and advances past it, wrapping first (and scrolling if that
    /// runs off the bottom) if a wrap is pending or the glyph would not fit in what is left of the row.
    fn put_char_at_cursor(&mut self, c: char, fg: u32, bg: u32)
        requires
            old(self).wf(),
            old(self).spec_rows() >= 1,
            old(self).spec_cols() >= glyph_cells(spec_glyph_for(c)),
        ensures
            final(self).wf(),
            final(self)@ == put_char(old(self)@, old(self).spec_cols(), old(self).spec_rows(), c, fg, bg),
            final(self).spec_cols() == old(self).spec_cols(),
            final(self).spec_rows() == old(self).spec_rows(),
            final(self).spec_fb() == old(self).spec_fb(),
    {
        let glyph = glyph_for(c);
        let width: usize = if glyph.wide { 2 } else { 1 };
        let cols = self.cols;
        let rows = self.rows;
        if self.cursor.start_glyph(width, cols, rows) {
            self.scroll_up(bg);
        }
        let row = self.cursor.row;
        let col = self.cursor.col;
        self.draw_glyph(row, col, glyph, width, fg, bg);
        self.cursor.end_glyph(width, cols);
    }

    /// Writes the characters of `cs` in order; see `written_all`.
    pub fn write_chars(&mut self, cs: &Vec<char>, fg: u32, bg: u32)
        requires
            old(self).wf(),
            old(self).spec_rows() >= 1,
            old(self).spec_cols() >= 2,
            old(self).spec_cols() + TAB_WIDTH <= usize::MAX,
        ensures
            final(self).wf(),
            final(self)@ == written_all(old(self)@, old(self).spec_cols(), old(self).spec_rows(), cs@, fg, bg),
            final(self).spec_cols() == old(self).spec_cols(),
            final(self).spec_rows() == old(self).spec_rows(),
            final(self).spec_fb() == old(self).spec_fb(),
    {
        let ghost start = self@;
        let ghost cols = self.spec_cols();
        let ghost rows = self.spec_rows();
        let mut i: usize = 0;
        while i < cs.len()
            invariant
                i <= cs@.len(),
                self.wf(),
                self.spec_cols() == cols,
                self.spec_rows() == rows,
                self.spec_fb() == old(self).spec_fb(),
                rows >= 1,
                cols >= 2,
                cols + TAB_WIDTH <= usize::MAX,
                self@ == written_all(start, cols, rows, cs@.take(i as int), fg, bg),
            decreases cs@.len() - i,
        {
            proof {
                self.lemma_wf();
                let col = self@.cursor.col;
                assert((col / TAB_WIDTH + 1) * TAB_WIDTH <= col + TAB_WIDTH) by (nonlinear_arith)
                    requires TAB_WIDTH == 8;
            }
            self.write_char(cs[i], fg, bg);
            proof {
                assert(cs@.take(i + 1).drop_last() =~= cs@.take(i as int));
            }
            i += 1;
        }
        assert(cs@.take(cs@.len() as int) =~= cs@);
    }

    /// Writes one character of text at the cursor; see `written`. Any control character other than
    /// the four interpreted ones draws U+FFFD, as a character the font lacks does.
    pub fn write_char(&mut self, c: char, fg: u32, bg: u32)
        requires
            old(self).wf(),
            c == '\n' || c == '\u{8}' ==> old(self).spec_rows() >= 1,
            c == '\t' ==> old(self).spec_cols() >= 1
                && (old(self)@.cursor.col / TAB_WIDTH + 1) * TAB_WIDTH <= usize::MAX,
            !is_interpreted(c) && !spec_is_zero_width(c) ==> old(self).spec_rows() >= 1
                && old(self).spec_cols() >= glyph_cells(spec_glyph_for(c)),
        ensures
            final(self).wf(),
            final(self)@ == written(old(self)@, old(self).spec_cols(), old(self).spec_rows(), c, fg, bg),
            final(self).spec_cols() == old(self).spec_cols(),
            final(self).spec_rows() == old(self).spec_rows(),
            final(self).spec_fb() == old(self).spec_fb(),
    {
        if c == '\n' {
            if self.cursor.line_feed(self.rows) {
                self.scroll_up(bg);
            }
        } else if c == '\r' {
            self.cursor.carriage_return();
        } else if c == '\t' {
            let cols = self.cols;
            self.cursor.tab(TAB_WIDTH, cols);
        } else if c == '\u{8}' {
            self.cursor.backspace(&self.grid);
        } else if is_zero_width(c) {
        } else {
            self.put_char_at_cursor(c, fg, bg);
        }
    }
}

} // verus!
