use kernel_core::console::cells::{Cell, CellGrid, Cursor};
use Cell::{Narrow, WideLeft, WideRight};

const COLS: usize = 5;
const ROWS: usize = 3;

/// Types `text` (one char per cell, `W` = a wide glyph, `\n` a newline) the way the console does;
/// returns the cursor and how many times it had to scroll.
fn type_text(text: &str) -> (Cursor, usize) {
    let mut cur = Cursor::new();
    let mut scrolls = 0;
    for c in text.chars() {
        match c {
            '\n' => scrolls += cur.line_feed(ROWS) as usize,
            _ => {
                let width = if c == 'W' { 2 } else { 1 };
                scrolls += cur.start_glyph(width, COLS, ROWS) as usize;
                cur.end_glyph(width, COLS);
            }
        }
    }
    (cur, scrolls)
}

#[test]
fn filling_a_row_leaves_the_cursor_on_the_last_column_with_the_wrap_pending() {
    let (cur, scrolls) = type_text("abcde");
    assert_eq!(cur, Cursor { row: 0, col: 4, wrap_pending: true });
    assert_eq!(scrolls, 0);
}

#[test]
fn the_next_glyph_wraps_first() {
    let (cur, _) = type_text("abcdef");
    assert_eq!(cur, Cursor { row: 1, col: 1, wrap_pending: false });
}

#[test]
fn a_newline_after_a_full_row_leaves_no_blank_row() {
    let (cur, _) = type_text("abcde\nf");
    assert_eq!(cur, Cursor { row: 1, col: 1, wrap_pending: false });
}

#[test]
fn a_full_last_row_does_not_scroll_until_something_follows() {
    let (cur, scrolls) = type_text("abcdeabcdeabcde");
    assert_eq!((cur.row, cur.wrap_pending, scrolls), (2, true, 0));
    let (cur, scrolls) = type_text("abcdeabcdeabcdef");
    assert_eq!((cur.row, cur.col, scrolls), (2, 1, 1));
    let (_, scrolls) = type_text("abcdeabcdeabcde\n");
    assert_eq!(scrolls, 1);
}

#[test]
fn a_wide_glyph_ending_in_the_last_column_sets_the_pending_wrap() {
    let (cur, _) = type_text("abcW");
    assert_eq!(cur, Cursor { row: 0, col: 4, wrap_pending: true });
}

#[test]
fn a_wide_glyph_that_does_not_fit_wraps_whole() {
    let (cur, _) = type_text("abcdW");
    assert_eq!(cur, Cursor { row: 1, col: 2, wrap_pending: false });
    let (cur, _) = type_text("abcdeW");
    assert_eq!(cur, Cursor { row: 1, col: 2, wrap_pending: false });
}

#[test]
fn cursor_movement_clears_the_pending_wrap_without_wrapping() {
    for movement in [
        |c: &mut Cursor, _: &CellGrid| c.carriage_return(),
        |c: &mut Cursor, g: &CellGrid| c.backspace(g),
        |c: &mut Cursor, _: &CellGrid| c.tab(8, COLS),
        |c: &mut Cursor, _: &CellGrid| c.move_to(0, 2),
    ] {
        let (mut cur, _) = type_text("abcde");
        movement(&mut cur, &CellGrid::new(COLS, ROWS));
        assert!(!cur.wrap_pending);
        assert_eq!(cur.row, 0);
    }
}

#[test]
fn backspace_from_the_last_column_moves_left_one_cell() {
    let (mut cur, _) = type_text("abcde");
    cur.backspace(&CellGrid::new(COLS, ROWS));
    assert_eq!(cur.col, 3);
}

#[test]
fn a_tab_never_passes_the_last_column() {
    let mut cur = Cursor::new();
    cur.col = 2;
    cur.tab(8, COLS);
    assert_eq!(cur.col, 4);
}

#[test]
fn a_wide_glyph_is_two_cells() {
    let mut g = CellGrid::new(10, 3);
    assert_eq!(g.place(0, 2, 2), [None, None]);
    assert_eq!([g.get(0, 1), g.get(0, 2), g.get(0, 3), g.get(0, 4)], [Narrow, WideLeft, WideRight, Narrow]);
}

#[test]
fn a_glyph_that_would_pass_the_last_column_does_not_fit() {
    assert!(CellGrid::fits(8, 2, 10));
    assert!(!CellGrid::fits(9, 2, 10));
    assert!(CellGrid::fits(9, 1, 10));
}

#[test]
fn overwriting_one_half_blanks_the_other() {
    let mut g = CellGrid::new(10, 1);
    g.place(0, 2, 2);
    assert_eq!(g.place(0, 3, 1), [Some(2), None]);
    assert_eq!([g.get(0, 2), g.get(0, 3)], [Narrow, Narrow]);
    g.place(0, 2, 2);
    assert_eq!(g.place(0, 2, 1), [None, Some(3)]);
    assert_eq!([g.get(0, 2), g.get(0, 3)], [Narrow, Narrow]);
}

#[test]
fn a_wide_glyph_straddling_two_wide_glyphs_blanks_both_outer_halves() {
    let mut g = CellGrid::new(10, 1);
    g.place(0, 0, 2);
    g.place(0, 2, 2);
    assert_eq!(g.place(0, 1, 2), [Some(0), Some(3)]);
    assert_eq!([g.get(0, 0), g.get(0, 1), g.get(0, 2), g.get(0, 3)], [Narrow, WideLeft, WideRight, Narrow]);
}

#[test]
fn exactly_overwriting_a_wide_glyph_blanks_nothing() {
    let mut g = CellGrid::new(10, 1);
    g.place(0, 4, 2);
    assert_eq!(g.place(0, 4, 2), [None, None]);
}

#[test]
fn backspace_moves_back_one_character() {
    let mut g = CellGrid::new(10, 1);
    g.place(0, 0, 1);
    g.place(0, 1, 2);
    g.place(0, 3, 1);
    assert_eq!(g.back(0, 4), 3);
    assert_eq!(g.back(0, 3), 1);
    assert_eq!(g.back(0, 1), 0);
    assert_eq!(g.back(0, 0), 0);
}

#[test]
fn scrolling_moves_the_grid_with_the_rows() {
    let mut g = CellGrid::new(4, 3);
    g.place(1, 0, 2);
    g.place(2, 2, 2);
    g.scroll_up();
    assert_eq!([g.get(0, 0), g.get(0, 1)], [WideLeft, WideRight]);
    assert_eq!([g.get(1, 2), g.get(1, 3)], [WideLeft, WideRight]);
    assert_eq!(g.get(2, 2), Narrow);
}

#[test]
fn clearing_forgets_wide_glyphs() {
    let mut g = CellGrid::new(4, 2);
    g.place(0, 0, 2);
    g.place(1, 0, 2);
    g.clear_row(0);
    assert_eq!(g.get(0, 0), Narrow);
    assert_eq!(g.get(1, 0), WideLeft);
    g.clear();
    assert_eq!(g.get(1, 0), Narrow);
}
