//! What each character cell of the console holds, as far as width goes (a one-cell glyph, or one half
//! of a two-cell glyph), and the cursor with xterm's deferred-wrap rules: a glyph that ends in the last
//! column leaves the cursor there with a wrap pending, and the wrap happens when the next glyph arrives.

use vstd::prelude::*;

verus! {

/// What one cell holds.
#[derive(Clone, Copy, PartialEq, Eq, Debug, Structural)]
pub enum Cell {
    /// A one-cell glyph, or nothing drawn yet.
    Narrow,
    /// The left cell of a wide glyph.
    WideLeft,
    /// The right cell of a wide glyph.
    WideRight,
}

/// The width record of a `cols` x `rows` screen, one `Cell` per character cell.
pub struct CellGrid {
    cols: usize,
    rows: usize,
    cells: Vec<Vec<Cell>>,
}

/// Column `c` of `row` is consistent with its neighbours: a left half is followed by its right half,
/// and a right half follows its left half.
pub open spec fn pair_ok(row: Seq<Cell>, c: int) -> bool {
    &&& row[c] == Cell::WideLeft ==> c + 1 < row.len() && row[c + 1] == Cell::WideRight
    &&& row[c] == Cell::WideRight ==> c >= 1 && row[c - 1] == Cell::WideLeft
}

/// A row in which every wide glyph is whole.
pub open spec fn row_well_paired(row: Seq<Cell>) -> bool {
    forall|c: int| 0 <= c < row.len() ==> #[trigger] pair_ok(row, c)
}

/// A row of `n` empty cells.
pub open spec fn blank_row(n: nat) -> Seq<Cell> {
    Seq::new(n, |i: int| Cell::Narrow)
}

/// The columns `CellGrid::place` blanks: the left half of a wide glyph whose right half the new glyph
/// covers at its first cell, and the right half of one whose left half it covers at its last cell.
pub open spec fn orphans(row: Seq<Cell>, col: int, width: int) -> (Option<int>, Option<int>) {
    (
        if row[col] == Cell::WideRight { Some(col - 1) } else { None },
        if row[col + width - 1] == Cell::WideLeft { Some(col + width) } else { None },
    )
}

/// `row` after a glyph `width` cells wide is recorded at `col`: the orphaned halves become empty
/// cells, and the glyph's own cells hold it.
pub open spec fn placed_row(row: Seq<Cell>, col: int, width: int) -> Seq<Cell> {
    let (b0, b1) = orphans(row, col, width);
    let r1 = match b0 { Some(c) => row.update(c, Cell::Narrow), None => row };
    let r2 = match b1 { Some(c) => r1.update(c, Cell::Narrow), None => r1 };
    if width == 2 {
        r2.update(col, Cell::WideLeft).update(col + 1, Cell::WideRight)
    } else {
        r2.update(col, Cell::Narrow)
    }
}

/// Where Backspace from column `col` of `row` lands: one character back, two cells over a wide glyph,
/// never off the start of the row.
pub open spec fn back_col(row: Seq<Cell>, col: int) -> int {
    if col == 0 {
        0
    } else if row[col - 1] == Cell::WideRight {
        if col >= 2 { col - 2 } else { 0 }
    } else {
        col - 1
    }
}

/// Placing a glyph keeps every wide glyph of the row whole.
pub proof fn lemma_placed_row_well_paired(row: Seq<Cell>, col: int, width: int)
    requires
        row_well_paired(row),
        0 <= col,
        1 <= width <= 2,
        col + width <= row.len(),
    ensures
        row_well_paired(placed_row(row, col, width)),
        placed_row(row, col, width).len() == row.len(),
{
    let new_row = placed_row(row, col, width);
    assert(pair_ok(row, col));
    assert(pair_ok(row, col + width - 1));
    assert forall|c: int| 0 <= c < new_row.len() implies #[trigger] pair_ok(new_row, c) by {
        assert(pair_ok(row, c));
        if c + 1 < row.len() {
            assert(pair_ok(row, c + 1));
        }
        if c >= 1 {
            assert(pair_ok(row, c - 1));
        }
    }
}

/// What the pairing of a well-paired row says about one of its cells.
pub proof fn lemma_wide_partners(row: Seq<Cell>, c: int)
    requires
        row_well_paired(row),
        0 <= c < row.len(),
    ensures
        row[c] == Cell::WideLeft ==> c + 1 < row.len() && row[c + 1] == Cell::WideRight,
        row[c] == Cell::WideRight ==> c >= 1 && row[c - 1] == Cell::WideLeft,
{
    assert(pair_ok(row, c));
}

/// An empty row is well paired.
pub proof fn lemma_blank_row_well_paired(n: nat)
    ensures
        row_well_paired(blank_row(n)),
{
    assert forall|c: int| 0 <= c < n implies #[trigger] pair_ok(blank_row(n), c) by {}
}

impl CellGrid {
    /// The grid's rows, top first.
    pub closed spec fn view(&self) -> Seq<Seq<Cell>> {
        self.cells@.map_values(|r: Vec<Cell>| r@)
    }

    pub closed spec fn spec_cols(&self) -> nat {
        self.cols as nat
    }

    pub closed spec fn spec_rows(&self) -> nat {
        self.rows as nat
    }

    /// The grid holds `rows` rows of `cols` cells, and every wide glyph in it is whole.
    pub closed spec fn wf(&self) -> bool {
        &&& self.cells@.len() == self.rows
        &&& forall|r: int| 0 <= r < self.rows ==> #[trigger] self.cells@[r]@.len() == self.cols
        &&& forall|r: int| 0 <= r < self.rows ==> row_well_paired(#[trigger] self.cells@[r]@)
    }

    pub proof fn lemma_view(&self)
        requires
            self.wf(),
        ensures
            self@.len() == self.spec_rows(),
            forall|r: int| 0 <= r < self.spec_rows() ==> #[trigger] self@[r].len() == self.spec_cols(),
            forall|r: int| 0 <= r < self.spec_rows() ==> row_well_paired(#[trigger] self@[r]),
    {
    }

    fn make_blank_row(cols: usize) -> (r: Vec<Cell>)
        ensures
            r@ == blank_row(cols as nat),
    {
        let mut r: Vec<Cell> = Vec::new();
        while r.len() < cols
            invariant
                r.len() <= cols,
                r@ == blank_row(r.len() as nat),
            decreases cols - r.len(),
        {
            r.push(Cell::Narrow);
        }
        r
    }

    /// An empty grid of `cols` x `rows` cells.
    pub fn new(cols: usize, rows: usize) -> (g: Self)
        ensures
            g.wf(),
            g.spec_cols() == cols,
            g.spec_rows() == rows,
            g@ == Seq::new(rows as nat, |r: int| blank_row(cols as nat)),
    {
        let mut cells: Vec<Vec<Cell>> = Vec::new();
        while cells.len() < rows
            invariant
                cells.len() <= rows,
                forall|r: int| 0 <= r < cells.len() ==> #[trigger] cells@[r]@ == blank_row(cols as nat),
            decreases rows - cells.len(),
        {
            proof { lemma_blank_row_well_paired(cols as nat); }
            let row = Self::make_blank_row(cols);
            cells.push(row);
        }
        let g = Self { cols, rows, cells };
        assert(g@ =~= Seq::new(rows as nat, |r: int| blank_row(cols as nat)));
        g
    }

    /// What the cell at (`row`, `col`) holds.
    pub fn get(&self, row: usize, col: usize) -> (c: Cell)
        requires
            self.wf(),
            row < self.spec_rows(),
            col < self.spec_cols(),
        ensures
            c == self@[row as int][col as int],
    {
        self.cells[row][col]
    }

    /// Whether a glyph `width` cells wide starting at `col` stays within a row of `cols` cells.
    pub fn fits(col: usize, width: usize, cols: usize) -> (b: bool)
        requires
            col + width <= usize::MAX,
        ensures
            b == (col + width <= cols),
    {
        col + width <= cols
    }

    fn set(&mut self, row: usize, col: usize, cell: Cell)
        requires
            old(self).cells@.len() == old(self).rows,
            forall|r: int| 0 <= r < old(self).rows ==> #[trigger] old(self).cells@[r]@.len() == old(self).cols,
            row < old(self).rows,
            col < old(self).cols,
        ensures
            final(self).cols == old(self).cols,
            final(self).rows == old(self).rows,
            final(self).cells@.len() == old(self).rows,
            final(self).cells@[row as int]@ == old(self).cells@[row as int]@.update(col as int, cell),
            forall|r: int| 0 <= r < old(self).rows ==> #[trigger] final(self).cells@[r]@.len() == old(self).cols,
            forall|r: int| 0 <= r < old(self).rows && r != row ==> #[trigger] final(self).cells@[r] == old(self).cells@[r],
    {
        let mut line = self.cells.remove(row);
        line.set(col, cell);
        self.cells.insert(row, line);
        proof {
            assert forall|r: int| 0 <= r < old(self).rows && r != row implies #[trigger] self.cells@[r] == old(self).cells@[r] by {
                if r < row {
                } else {
                }
            }
        }
    }

    /// Records a glyph `width` (1 or 2) cells wide drawn at (`row`, `col`). Returns the columns of this
    /// row that held the other half of a wide glyph the new one only partly covers: those are now empty,
    /// and the caller blanks their pixels, so no half of a glyph is left on screen.
    pub fn place(&mut self, row: usize, col: usize, width: usize) -> (blank: [Option<usize>; 2])
        requires
            old(self).wf(),
            row < old(self).spec_rows(),
            1 <= width <= 2,
            col + width <= old(self).spec_cols(),
        ensures
            final(self).wf(),
            final(self).spec_cols() == old(self).spec_cols(),
            final(self).spec_rows() == old(self).spec_rows(),
            final(self)@ == old(self)@.update(row as int, placed_row(old(self)@[row as int], col as int, width as int)),
            ({
                let (b0, b1) = orphans(old(self)@[row as int], col as int, width as int);
                &&& blank[0] matches Some(c) ==> b0 == Some(c as int)
                &&& blank[0] is None ==> b0 is None
                &&& blank[1] matches Some(c) ==> b1 == Some(c as int)
                &&& blank[1] is None ==> b1 is None
            }),
    {
        let ghost old_row = self.cells@[row as int]@;
        proof {
            lemma_wide_partners(old_row, col as int);
            lemma_wide_partners(old_row, (col + width - 1) as int);
        }
        let first = self.get(row, col);
        let last = self.get(row, col + width - 1);
        let b0 = if first == Cell::WideRight { Some(col - 1) } else { None };
        let b1 = if last == Cell::WideLeft { Some(col + width) } else { None };
        if let Some(c) = b0 {
            self.set(row, c, Cell::Narrow);
        }
        if let Some(c) = b1 {
            self.set(row, c, Cell::Narrow);
        }
        if width == 2 {
            self.set(row, col, Cell::WideLeft);
            self.set(row, col + 1, Cell::WideRight);
        } else {
            self.set(row, col, Cell::Narrow);
        }
        proof {
            let new_row = placed_row(old_row, col as int, width as int);
            assert(self.cells@[row as int]@ =~= new_row);
            lemma_placed_row_well_paired(old_row, col as int, width as int);
            assert(self@ =~= old(self)@.update(row as int, new_row));
        }
        [b0, b1]
    }

    /// The column Backspace moves the cursor at (`row`, `col`) to: one character back -- two cells if
    /// the character before the cursor is wide -- and never off the start of the row.
    pub fn back(&self, row: usize, col: usize) -> (c: usize)
        requires
            self.wf(),
            row < self.spec_rows(),
            col <= self.spec_cols(),
        ensures
            c == back_col(self@[row as int], col as int),
    {
        if col == 0 {
            0
        } else if self.get(row, col - 1) == Cell::WideRight {
            col.saturating_sub(2)
        } else {
            col - 1
        }
    }

    /// Empties one row.
    pub fn clear_row(&mut self, row: usize)
        requires
            old(self).wf(),
            row < old(self).spec_rows(),
        ensures
            final(self).wf(),
            final(self).spec_cols() == old(self).spec_cols(),
            final(self).spec_rows() == old(self).spec_rows(),
            final(self)@ == old(self)@.update(row as int, blank_row(old(self).spec_cols())),
    {
        let line = Self::make_blank_row(self.cols);
        proof { lemma_blank_row_well_paired(self.cols as nat); }
        self.cells.set(row, line);
        proof {
            assert(self@ =~= old(self)@.update(row as int, blank_row(old(self).spec_cols())));
        }
    }

    /// Empties every row.
    pub fn clear(&mut self)
        requires
            old(self).wf(),
        ensures
            final(self).wf(),
            final(self).spec_cols() == old(self).spec_cols(),
            final(self).spec_rows() == old(self).spec_rows(),
            final(self)@ == Seq::new(old(self).spec_rows(), |r: int| blank_row(old(self).spec_cols())),
    {
        let mut r: usize = 0;
        while r < self.rows
            invariant
                self.wf(),
                self.cols == old(self).cols,
                self.rows == old(self).rows,
                r <= self.rows,
                forall|i: int| 0 <= i < r ==> #[trigger] self@[i] == blank_row(self.cols as nat),
            decreases self.rows - r,
        {
            self.clear_row(r);
            r += 1;
        }
        assert(self@ =~= Seq::new(old(self).spec_rows(), |r: int| blank_row(old(self).spec_cols())));
    }

    /// Moves every row up one, as the pixels do; the last row becomes empty.
    pub fn scroll_up(&mut self)
        requires
            old(self).wf(),
            old(self).spec_rows() >= 1,
        ensures
            final(self).wf(),
            final(self).spec_cols() == old(self).spec_cols(),
            final(self).spec_rows() == old(self).spec_rows(),
            final(self)@ == old(self)@.drop_first().push(blank_row(old(self).spec_cols())),
    {
        let _first = self.cells.remove(0);
        let line = Self::make_blank_row(self.cols);
        proof { lemma_blank_row_well_paired(self.cols as nat); }
        self.cells.push(line);
        proof {
            assert(self@ =~= old(self)@.drop_first().push(blank_row(old(self).spec_cols())));
        }
    }
}

/// The cursor: a cell, plus whether a wrap is pending. While one is, `col` is the last column, where
/// the last glyph ended.
#[derive(Clone, Copy, PartialEq, Eq, Debug, Structural)]
pub struct Cursor {
    pub row: usize,
    pub col: usize,
    pub wrap_pending: bool,
}

impl Cursor {
    /// The top-left cell, no wrap pending.
    pub fn new() -> (c: Self)
        ensures
            c == (Cursor { row: 0, col: 0, wrap_pending: false }),
    {
        Self { row: 0, col: 0, wrap_pending: false }
    }

    /// Moves to the start of the next row (a newline, or the wrap of a full row). Returns `true` if the
    /// cursor was already on the last row of `rows`, so the caller must scroll: the cursor then stays
    /// on that row.
    pub fn line_feed(&mut self, rows: usize) -> (scroll: bool)
        requires
            rows >= 1,
        ensures
            scroll == (old(self).row >= rows - 1),
            final(self).col == 0,
            !final(self).wrap_pending,
            final(self).row == if scroll { old(self).row } else { (old(self).row + 1) as usize },
    {
        self.col = 0;
        self.wrap_pending = false;
        if self.row >= rows - 1 {
            true
        } else {
            self.row += 1;
            false
        }
    }

    /// Readies the cursor for a glyph `width` cells wide: wraps first if a wrap is pending or the glyph
    /// would not fit in what is left of the row. Returns `true` if that wrap needs a scroll.
    pub fn start_glyph(&mut self, width: usize, cols: usize, rows: usize) -> (scroll: bool)
        requires
            rows >= 1,
            old(self).col + width <= usize::MAX,
        ensures
            ({
                let wraps = old(self).wrap_pending || old(self).col + width > cols;
                if wraps {
                    &&& scroll == (old(self).row >= rows - 1)
                    &&& final(self).col == 0
                    &&& !final(self).wrap_pending
                    &&& final(self).row == if scroll { old(self).row } else { (old(self).row + 1) as usize }
                } else {
                    !scroll && *final(self) == *old(self)
                }
            }),
    {
        if self.wrap_pending || !CellGrid::fits(self.col, width, cols) {
            self.line_feed(rows)
        } else {
            false
        }
    }

    /// Advances past the glyph of `width` cells just drawn at `col`. One that ends in the last column
    /// leaves the cursor on it with the wrap pending.
    pub fn end_glyph(&mut self, width: usize, cols: usize)
        requires
            cols >= 1,
            old(self).col + width <= usize::MAX,
        ensures
            final(self).row == old(self).row,
            old(self).col + width >= cols ==> final(self).col == cols - 1 && final(self).wrap_pending,
            old(self).col + width < cols ==> final(self).col == old(self).col + width
                && final(self).wrap_pending == old(self).wrap_pending,
    {
        if self.col + width >= cols {
            self.col = cols - 1;
            self.wrap_pending = true;
        } else {
            self.col += width;
        }
    }

    /// Carriage return: back to the start of the row.
    pub fn carriage_return(&mut self)
        ensures
            *final(self) == (Cursor { row: old(self).row, col: 0, wrap_pending: false }),
    {
        self.col = 0;
        self.wrap_pending = false;
    }

    /// Tab: on to the next multiple of `tab_width`, but never past the last column.
    pub fn tab(&mut self, tab_width: usize, cols: usize)
        requires
            tab_width >= 1,
            cols >= 1,
            (old(self).col / tab_width + 1) * tab_width <= usize::MAX,
        ensures
            final(self).row == old(self).row,
            !final(self).wrap_pending,
            final(self).col == vstd::math::min(((old(self).col / tab_width + 1) * tab_width) as int, cols - 1),
    {
        let q = self.col / tab_width;
        assert(q + 1 <= (q + 1) * tab_width) by (nonlinear_arith)
            requires tab_width >= 1, q >= 0;
        let next = (q + 1) * tab_width;
        self.col = if next < cols - 1 { next } else { cols - 1 };
        self.wrap_pending = false;
    }

    /// Backspace: one character back (see `CellGrid::back`), from the last column too.
    pub fn backspace(&mut self, grid: &CellGrid)
        requires
            grid.wf(),
            old(self).row < grid.spec_rows(),
            old(self).col <= grid.spec_cols(),
        ensures
            final(self).row == old(self).row,
            !final(self).wrap_pending,
            final(self).col == back_col(grid@[old(self).row as int], old(self).col as int),
    {
        self.col = grid.back(self.row, self.col);
        self.wrap_pending = false;
    }

    /// Explicit positioning.
    pub fn move_to(&mut self, row: usize, col: usize)
        ensures
            *final(self) == (Cursor { row, col, wrap_pending: false }),
    {
        self.row = row;
        self.col = col;
        self.wrap_pending = false;
    }
}


} // verus!
