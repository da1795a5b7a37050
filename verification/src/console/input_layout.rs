//! Where a typed line lands on the screen: how many rows a prefix plus text needs, and where a given
//! cursor byte offset lands. It replays exactly what the console does when it writes text -- the
//! same `Cursor` over an endlessly tall screen, so a glyph that ends in the last column leaves the
//! wrap pending and a wide glyph that does not fit moves to the next row whole -- so the layout and
//! the drawing cannot disagree. Text is taken to be printable.

use vstd::prelude::*;

use super::cells::Cursor;
use super::{is_interpreted, printable, written, written_all, Screen};
use super::font::{cell_width, spec_cell_width};
use crate::text::{chars_of, len_utf8, utf8_len};

verus! {

/// Where the cursor goes after a glyph `w` cells wide is written at `c` on a screen `cols` wide and
/// endlessly tall: the wrap first, if one is pending or the glyph does not fit in what is left of the
/// row; then past the glyph, leaving the wrap pending if it ended in the last column.
pub open spec fn glyph_advance(c: Cursor, w: usize, cols: usize) -> Cursor {
    let wraps = c.wrap_pending || c.col + w > cols;
    let s = if wraps {
        Cursor {
            row: if c.row >= usize::MAX - 1 { c.row } else { (c.row + 1) as usize },
            col: 0,
            wrap_pending: false,
        }
    } else {
        c
    };
    if s.col + w >= cols {
        Cursor { row: s.row, col: (cols - 1) as usize, wrap_pending: true }
    } else {
        Cursor { row: s.row, col: (s.col + w) as usize, wrap_pending: s.wrap_pending }
    }
}

/// Where the cursor ends up after writing `cs` from the top-left cell of a screen `cols` cells wide
/// and endlessly tall; a zero-width character moves nothing.
pub open spec fn layout(cs: Seq<char>, cols: usize) -> Cursor
    decreases cs.len(),
{
    if cs.len() == 0 {
        Cursor { row: 0, col: 0, wrap_pending: false }
    } else {
        let before = layout(cs.drop_last(), cols);
        let w = spec_cell_width(cs.last());
        if w == 0 { before } else { glyph_advance(before, w, cols) }
    }
}

/// The laid-out cursor stays within the row and on a row no later than the number of characters.
pub proof fn lemma_layout_bounds(cs: Seq<char>, cols: usize)
    requires
        1 <= cols,
    ensures
        layout(cs, cols).col < cols,
        layout(cs, cols).row <= cs.len(),
        layout(cs, cols).row < usize::MAX,
        layout(cs, cols).wrap_pending ==> cs.len() >= 1,
    decreases cs.len(),
{
    if cs.len() > 0 {
        lemma_layout_bounds(cs.drop_last(), cols);
    }
}

/// A character never moves the laid-out cursor to an earlier row.
pub proof fn lemma_layout_row_grows(cs: Seq<char>, cols: usize)
    requires
        cs.len() > 0,
    ensures
        layout(cs.drop_last(), cols).row <= layout(cs, cols).row,
{
}

/// How far along its row a cursor is: its column, or one past the last column while a wrap is pending.
pub open spec fn reach(c: Cursor, cols: usize) -> int {
    if c.wrap_pending { cols as int } else { c.col as int }
}

/// `a` lies at or before `b`: on an earlier row, or on the same row and not further along it.
pub open spec fn at_or_before(a: Cursor, b: Cursor, cols: usize) -> bool {
    a.row < b.row || (a.row == b.row && reach(a, cols) <= reach(b, cols))
}

/// A laid-out cursor stays inside its row.
proof fn lemma_layout_col(cs: Seq<char>, cols: usize)
    requires
        1 <= cols,
    ensures
        layout(cs, cols).col < cols,
{
    lemma_layout_bounds(cs, cols);
}

/// Writing a glyph never moves the cursor backwards.
proof fn lemma_advance_forward(c: Cursor, w: usize, cols: usize)
    requires
        1 <= cols,
        c.col < cols,
        1 <= w <= 2,
        c.row < usize::MAX - 1,
    ensures
        at_or_before(c, glyph_advance(c, w, cols), cols),
        glyph_advance(c, w, cols).col < cols,
{
}

/// Writing the same glyph keeps two cursors in order.
proof fn lemma_advance_monotone(a: Cursor, b: Cursor, w: usize, cols: usize)
    requires
        1 <= cols,
        a.col < cols,
        b.col < cols,
        1 <= w <= 2,
        b.row < usize::MAX - 1,
        at_or_before(a, b, cols),
    ensures
        at_or_before(glyph_advance(a, w, cols), glyph_advance(b, w, cols), cols),
{
}

/// Text written after two positions in order leaves them in order.
proof fn lemma_layout_extend(x: Seq<char>, y: Seq<char>, z: Seq<char>, cols: usize)
    requires
        1 <= cols,
        at_or_before(layout(x, cols), layout(y, cols), cols),
        layout(y + z, cols).row < usize::MAX - 1,
    ensures
        at_or_before(layout(x + z, cols), layout(y + z, cols), cols),
    decreases z.len(),
{
    if z.len() == 0 {
        assert(x + z =~= x);
        assert(y + z =~= y);
    } else {
        let zs = z.drop_last();
        assert((x + z).drop_last() =~= x + zs);
        assert((y + z).drop_last() =~= y + zs);
        assert((x + z).last() == z.last());
        assert((y + z).last() == z.last());
        lemma_layout_row_grows(y + z, cols);
        lemma_layout_extend(x, y, zs, cols);
        lemma_layout_col(x + zs, cols);
        lemma_layout_col(y + zs, cols);
        if spec_cell_width(z.last()) != 0 {
            lemma_advance_monotone(layout(x + zs, cols), layout(y + zs, cols), spec_cell_width(z.last()), cols);
        }
    }
}

/// A prefix of the text ends at or before where the whole text does.
pub proof fn lemma_layout_prefix(cs: Seq<char>, k: int, cols: usize)
    requires
        1 <= cols,
        0 <= k <= cs.len(),
        layout(cs, cols).row < usize::MAX - 1,
    ensures
        at_or_before(layout(cs.take(k), cols), layout(cs, cols), cols),
    decreases cs.len(),
{
    if k == cs.len() {
        assert(cs.take(k) =~= cs);
    } else {
        let init = cs.drop_last();
        lemma_layout_row_grows(cs, cols);
        lemma_layout_prefix(init, k, cols);
        assert(init.take(k) =~= cs.take(k));
        lemma_layout_col(init, cols);
        if spec_cell_width(cs.last()) != 0 {
            lemma_advance_forward(layout(init, cols), spec_cell_width(cs.last()), cols);
        }
    }
}

/// Removing a character from the text never makes it end later.
pub proof fn lemma_layout_remove(cs: Seq<char>, j: int, cols: usize)
    requires
        1 <= cols,
        0 <= j < cs.len(),
        layout(cs, cols).row < usize::MAX - 1,
    ensures
        at_or_before(layout(cs.remove(j), cols), layout(cs, cols), cols),
{
    let x = cs.take(j);
    let y = cs.take(j + 1);
    let z = cs.skip(j + 1);
    lemma_layout_prefix(cs, j + 1, cols);
    lemma_layout_prefix(y, j, cols);
    assert(y.take(j) =~= x);
    assert(y + z =~= cs);
    assert(x + z =~= cs.remove(j));
    lemma_layout_extend(x, y, z, cols);
}

/// Dropping the characters before position `j` of the text, after `prefix`, never makes it end later.
pub proof fn lemma_layout_drop_front(prefix: Seq<char>, cs: Seq<char>, j: int, cols: usize)
    requires
        1 <= cols,
        0 <= j <= cs.len(),
        layout(prefix + cs, cols).row < usize::MAX - 1,
    ensures
        at_or_before(layout(prefix + cs.skip(j), cols), layout(prefix + cs, cols), cols),
{
    let whole = prefix + cs;
    let y = prefix + cs.take(j);
    lemma_layout_prefix(whole, prefix.len() + j, cols);
    assert(whole.take(prefix.len() + j) =~= y);
    lemma_layout_prefix(y, prefix.len() as int, cols);
    assert(y.take(prefix.len() as int) =~= prefix);
    assert(y + cs.skip(j) =~= whole);
    lemma_layout_extend(prefix, y, cs.skip(j), cols);
}

/// The layout and the drawing agree: writing printable text on the console from the start of a row
/// `r` leaves the cursor in the column, and with the pending wrap, the layout gives, on row
/// `r` plus the layout's row -- or on the last row, if the text scrolled the screen.
pub proof fn lemma_drawing_follows_layout(s: Screen, cols: usize, rows: usize, cs: Seq<char>, fg: u32, bg: u32)
    requires
        printable(cs),
        1 <= cols < usize::MAX,
        rows >= 1,
        s.cursor.row < rows,
        s.cursor.col == 0,
        !s.cursor.wrap_pending,
        layout(cs, cols).row < usize::MAX - 1,
    ensures
        written_all(s, cols, rows, cs, fg, bg).cursor == (Cursor {
            row: vstd::math::min(s.cursor.row + layout(cs, cols).row, rows - 1) as usize,
            col: layout(cs, cols).col,
            wrap_pending: layout(cs, cols).wrap_pending,
        }),
    decreases cs.len(),
{
    if cs.len() > 0 {
        let init = cs.drop_last();
        assert(printable(init)) by {
            assert forall|i: int| 0 <= i < init.len() implies !is_interpreted(#[trigger] init[i]) by {
                assert(init[i] == cs[i]);
            }
        }
        lemma_layout_row_grows(cs, cols);
        lemma_drawing_follows_layout(s, cols, rows, init, fg, bg);
        assert(!is_interpreted(cs[cs.len() - 1]));
    }
}

/// Where the cursor ends up after drawing `prefix` and then `text`.
fn end_cursor(prefix: &str, text: &str, cols: usize) -> (c: Cursor)
    requires
        1 <= cols < usize::MAX,
    ensures
        c == layout(prefix@ + text@, cols),
{
    let mut all = chars_of(prefix);
    let more = chars_of(text);
    let mut j: usize = 0;
    while j < more.len()
        invariant
            j <= more@.len(),
            more@ == text@,
            all@ == prefix@ + text@.take(j as int),
        decreases more@.len() - j,
    {
        all.push(more[j]);
        j += 1;
        assert(all@ =~= prefix@ + text@.take(j as int));
    }
    assert(text@.take(text@.len() as int) =~= text@);
    let mut cursor = Cursor::new();
    let mut i: usize = 0;
    while i < all.len()
        invariant
            1 <= cols < usize::MAX,
            i <= all@.len(),
            all@ == prefix@ + text@,
            cursor == layout(all@.take(i as int), cols),
        decreases all@.len() - i,
    {
        proof {
            lemma_layout_bounds(all@.take(i as int), cols);
            assert(all@.take(i + 1).drop_last() =~= all@.take(i as int));
        }
        let c = all[i];
        let width = cell_width(c);
        if width != 0 {
            cursor.start_glyph(width, cols, usize::MAX);
            cursor.end_glyph(width, cols);
        }
        i += 1;
    }
    assert(all@.take(all@.len() as int) =~= all@);
    cursor
}

/// How many rows `prefix` and `text` occupy: at least one, the prefix's row, even when both are
/// empty. A row filled exactly does not start the next -- that happens only when another glyph
/// arrives.
pub fn rows_needed(prefix: &str, text: &str, cols: usize) -> (n: usize)
    requires
        1 <= cols < usize::MAX,
    ensures
        n == layout(prefix@ + text@, cols).row + 1,
{
    let c = end_cursor(prefix, text, cols);
    proof { lemma_layout_bounds(prefix@ + text@, cols); }
    c.row + 1
}

/// Whether the line may be as long as it is on a screen of `rows` rows: it may use at most `rows - 1`
/// of them, so it never scrolls its own first row out of view.
pub fn fits_on_screen(prefix: &str, text: &str, cols: usize, rows: usize) -> (b: bool)
    requires
        1 <= cols < usize::MAX,
    ensures
        b == (layout(prefix@ + text@, cols).row + 1 < rows),
{
    rows_needed(prefix, text, cols) < rows
}

/// The (row, column) of the cursor after `prefix` and the first `k` characters of `text`, relative to
/// the line's first row. A pending wrap resolves to the start of the next row -- where the character
/// at the cursor is drawn -- unless the cursor is at the very end of the text, where nothing has been
/// drawn to justify the jump: there the cursor stays on the last column, as the console's own does.
pub open spec fn spec_cursor_position(prefix: Seq<char>, text: Seq<char>, k: int, cols: usize) -> (usize, usize) {
    let c = layout(prefix + text.take(k), cols);
    if c.wrap_pending && k < text.len() {
        ((c.row + 1) as usize, 0)
    } else {
        (c.row, c.col)
    }
}

/// Where the cursor sits on screen, as (row, column) relative to the line's first row, given a byte
/// offset `cursor` into `text` that falls on a character boundary: only `prefix` and the text before
/// the cursor are laid out, so what follows never moves it.
pub fn cursor_position(prefix: &str, text: &str, cursor: usize, cols: usize) -> (p: (usize, usize))
    requires
        1 <= cols < usize::MAX,
        exists|k: int| 0 <= k <= text@.len() && utf8_len(#[trigger] text@.take(k)) == cursor,
    ensures
        forall|k: int| 0 <= k <= text@.len() && utf8_len(#[trigger] text@.take(k)) == cursor
            ==> p == spec_cursor_position(prefix@, text@, k, cols),
{
    let chars = chars_of(text);
    let n = chars.len();
    // Find how many characters stand before the byte offset.
    let mut k: usize = 0;
    let mut bytes: usize = 0;
    let ghost target = choose|k: int| 0 <= k <= text@.len() && utf8_len(#[trigger] text@.take(k)) == cursor;
    proof {
        crate::text::lemma_utf8_len_prefix(text@, 0, target);
        assert(text@.take(0) =~= text@.subrange(0, 0));
    }
    while bytes < cursor
        invariant
            chars@ == text@,
            k <= target,
            0 <= target <= text@.len(),
            utf8_len(text@.take(target)) == cursor,
            bytes == utf8_len(text@.take(k as int)),
            bytes <= cursor,
            n == text@.len(),
        decreases target - k,
    {
        proof {
            if k == target {
                assert(false);
            }
            assert(text@.take(k + 1).drop_last() =~= text@.take(k as int));
            crate::text::lemma_utf8_len_prefix(text@, k + 1, target);
            assert(text@.take(k + 1) =~= text@.subrange(0, k + 1));
            assert(text@.take(target) =~= text@.subrange(0, target));
        }
        bytes = bytes + len_utf8(chars[k]);
        k += 1;
    }
    proof {
        if k < target {
            lemma_utf8_len_strictly_grows(text@, k as int, target);
        }
    }
    assert(k == target);
    let before = crate::text::string_of_prefix(&chars, k);
    let c = end_cursor(prefix, before.as_str(), cols);
    proof {
        lemma_layout_bounds(prefix@ + text@.take(k as int), cols);
        assert forall|j: int| 0 <= j <= text@.len() && utf8_len(#[trigger] text@.take(j)) == cursor implies j == k by {
            if j < k {
                lemma_utf8_len_strictly_grows(text@, j, k as int);
            } else if k < j {
                lemma_utf8_len_strictly_grows(text@, k as int, j);
            }
        }
    }
    if c.wrap_pending && k < chars.len() {
        (c.row + 1, 0)
    } else {
        (c.row, c.col)
    }
}

/// A longer prefix takes strictly more bytes: every character takes at least one.
pub proof fn lemma_utf8_len_strictly_grows(s: Seq<char>, i: int, j: int)
    requires
        0 <= i < j <= s.len(),
    ensures
        utf8_len(s.take(i)) < utf8_len(s.take(j)),
    decreases j - i,
{
    assert(s.take(j).drop_last() =~= s.take(j - 1));
    if i < j - 1 {
        lemma_utf8_len_strictly_grows(s, i, j - 1);
    }
}

} // verus!
