use kernel_core::console::input_layout::{cursor_position, fits_on_screen, rows_needed};

const COLS: usize = 10;

/// Where a visible cursor at the end of `text` sits.
fn insertion_point(prefix: &str, text: &str, cols: usize) -> (usize, usize) {
    cursor_position(prefix, text, text.len(), cols)
}

#[test]
fn an_empty_line_is_one_row_with_the_cursor_after_the_prefix() {
    assert_eq!(rows_needed("", "", COLS), 1);
    assert_eq!(rows_needed("> ", "", COLS), 1);
    assert_eq!(insertion_point("> ", "", COLS), (0, 2));
    assert_eq!(insertion_point("", "", COLS), (0, 0));
}

#[test]
fn a_line_grows_a_row_only_when_a_glyph_no_longer_fits() {
    assert_eq!(rows_needed("> ", "1234567", COLS), 1);
    assert_eq!(rows_needed("> ", "12345678", COLS), 1);
    assert_eq!(rows_needed("> ", "123456789", COLS), 2);
    assert_eq!(rows_needed("> ", "12345678901234567890", COLS), 3);
}

#[test]
fn the_insertion_point_after_a_full_row_is_the_start_of_the_next() {
    assert_eq!(insertion_point("> ", "1234567", COLS), (0, 9));
    assert_eq!(insertion_point("> ", "12345678", COLS), (0, 9));
    assert_eq!(insertion_point("> ", "123456789", COLS), (1, 1));
    assert_eq!(insertion_point("> ", "1234567890123456", COLS), (1, 8));
    assert_eq!(insertion_point("> ", "123456789012345678", COLS), (1, 9));
}

#[test]
fn a_wide_glyph_that_does_not_fit_moves_to_the_next_row_whole() {
    assert_eq!(rows_needed("> ", "1234567日", COLS), 2);
    assert_eq!(insertion_point("> ", "1234567日", COLS), (1, 2));
    assert_eq!(rows_needed("> ", "123456日", COLS), 1);
    assert_eq!(insertion_point("> ", "123456日", COLS), (0, 9));
    assert_eq!(insertion_point("> ", "12345日", COLS), (0, 9));
}

#[test]
fn a_line_of_wide_glyphs_takes_two_cells_each() {
    assert_eq!(rows_needed("", "日日日日日", COLS), 1);
    assert_eq!(rows_needed("", "日日日日日日", COLS), 2);
    assert_eq!(insertion_point("", "日日日日日日", COLS), (1, 2));
    assert_eq!(rows_needed("", "日日日", 5), 2);
}

#[test]
fn zero_width_characters_take_no_cell() {
    assert_eq!(insertion_point("> ", "a\u{200D}b", COLS), (0, 4));
    assert_eq!(rows_needed("", "\u{200D}\u{FE0F}", COLS), 1);
}

#[test]
fn the_line_may_use_all_but_one_row_of_the_screen() {
    let rows = 4;
    let ok = "x".repeat(28);
    let full = "x".repeat(30);
    assert!(fits_on_screen("> ", &ok, COLS, rows));
    assert!(!fits_on_screen("> ", &full, COLS, rows));
    assert!(fits_on_screen("", "", COLS, 2));
    assert!(!fits_on_screen("", "", COLS, 1));
}

#[test]
fn cursor_position_at_the_start_is_right_after_the_prefix() {
    assert_eq!(cursor_position("> ", "hello", 0, COLS), (0, 2));
    assert_eq!(cursor_position("", "hello", 0, COLS), (0, 0));
}

#[test]
fn cursor_position_mid_line_ignores_what_comes_after_it() {
    assert_eq!(cursor_position("> ", "hello", 3, COLS), (0, 5));
    assert_eq!(cursor_position("> ", "hel", 3, COLS), (0, 5));
}

#[test]
fn cursor_position_at_the_very_end_of_a_full_row_stays_on_it() {
    let text = "1234567890";
    assert_eq!(cursor_position("", text, text.len(), COLS), (0, COLS - 1));
    assert_eq!(rows_needed("", text, COLS) - 1, 0);
}

#[test]
fn cursor_position_on_a_wrapped_line() {
    assert_eq!(cursor_position("> ", "12345678901234567890", 8, COLS), (1, 0));
    assert_eq!(cursor_position("> ", "12345678901234567890", 9, COLS), (1, 1));
    assert_eq!(cursor_position("> ", "12345678901234567890", 20, COLS), (2, 2));
}

#[test]
fn cursor_position_right_after_a_wide_character() {
    assert_eq!(cursor_position("", "日", 3, COLS), (0, 2));
    assert_eq!(cursor_position("> ", "日日", 3, COLS), (0, 4));
}
