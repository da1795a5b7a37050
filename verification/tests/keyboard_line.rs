use kernel_core::keyboard::line::{LineBuffer, LineEvent, Mode};
use kernel_core::keyboard::tokens::{
    Token, KEY_A, KEY_BACKSPACE, KEY_DELETE, KEY_E, KEY_END, KEY_ENTER, KEY_HOME, KEY_K, KEY_LEFT, KEY_RIGHT, KEY_U,
};

/// Puts the cursor `n` characters into the line, the way a user does: Home, then Right `n` times.
fn place_cursor(b: &mut LineBuffer, n: usize) {
    b.feed(tok(KEY_HOME), Mode::Prompt);
    for _ in 0..n {
        b.feed(tok(KEY_RIGHT), Mode::Prompt);
    }
}

fn tok(code: u16) -> Token {
    Token {
        code,
        shift: false,
        ctrl: false,
        alt: false,
        caps: false,
    }
}

fn ctrl_tok(code: u16) -> Token {
    Token {
        code,
        shift: false,
        ctrl: true,
        alt: false,
        caps: false,
    }
}

#[test]
fn an_unbound_ctrl_combination_is_ignored() {
    // A Ctrl-held code with no shortcut bound to it is dropped before its character is ever looked
    // up, the same as a real unbound Ctrl+<key>.
    let mut b = LineBuffer::new();
    b.set("ac");
    place_cursor(&mut b, 1);
    assert!(b.feed(ctrl_tok(9999), Mode::Prompt).is_none());
    assert_eq!(b.as_str(), "ac");
    assert_eq!(b.cursor(), 1);
}

#[test]
fn backspace_and_delete_forward_are_no_ops_at_the_boundaries() {
    let mut b = LineBuffer::new();
    b.set("ab");
    place_cursor(&mut b, 0);
    assert!(b.feed(tok(KEY_BACKSPACE), Mode::Prompt).is_none());
    place_cursor(&mut b, 2);
    assert!(b.feed(tok(KEY_DELETE), Mode::Prompt).is_none());
    assert_eq!(b.as_str(), "ab");
}

#[test]
fn backspace_removes_the_character_before_the_cursor() {
    let mut b = LineBuffer::new();
    b.set("abc");
    place_cursor(&mut b, 2); // between 'b' and 'c'
    assert!(matches!(
        b.feed(tok(KEY_BACKSPACE), Mode::Prompt),
        Some(LineEvent::Changed)
    ));
    assert_eq!(b.as_str(), "ac");
    assert_eq!(b.cursor(), 1);
}

#[test]
fn delete_forward_removes_the_character_at_the_cursor_without_moving_it() {
    let mut b = LineBuffer::new();
    b.set("abc");
    place_cursor(&mut b, 1); // between 'a' and 'b'
    assert!(matches!(
        b.feed(tok(KEY_DELETE), Mode::Prompt),
        Some(LineEvent::Changed)
    ));
    assert_eq!(b.as_str(), "ac");
    assert_eq!(b.cursor(), 1);
}

#[test]
fn move_left_right_home_end_report_no_ops_at_the_boundaries() {
    let mut b = LineBuffer::new();
    b.set("ab");
    place_cursor(&mut b, 0);
    assert!(b.feed(tok(KEY_LEFT), Mode::Prompt).is_none());
    assert!(b.feed(tok(KEY_HOME), Mode::Prompt).is_none());
    assert!(matches!(
        b.feed(tok(KEY_RIGHT), Mode::Prompt),
        Some(LineEvent::CursorMoved)
    ));
    assert_eq!(b.cursor(), 1);
    place_cursor(&mut b, 2);
    assert!(b.feed(tok(KEY_RIGHT), Mode::Prompt).is_none());
    assert!(b.feed(tok(KEY_END), Mode::Prompt).is_none());
    assert!(matches!(
        b.feed(tok(KEY_LEFT), Mode::Prompt),
        Some(LineEvent::CursorMoved)
    ));
    assert_eq!(b.cursor(), 1);
}

#[test]
fn ctrl_a_and_ctrl_e_move_home_and_end() {
    let mut b = LineBuffer::new();
    b.set("abc");
    place_cursor(&mut b, 1);
    assert!(matches!(
        b.feed(ctrl_tok(KEY_A), Mode::Prompt),
        Some(LineEvent::CursorMoved)
    ));
    assert_eq!(b.cursor(), 0);
    assert!(matches!(
        b.feed(ctrl_tok(KEY_E), Mode::Prompt),
        Some(LineEvent::CursorMoved)
    ));
    assert_eq!(b.cursor(), 3);
}

#[test]
fn ctrl_k_kills_to_end_prompt_only() {
    let mut b = LineBuffer::new();
    b.set("abcd");
    place_cursor(&mut b, 1);
    assert!(matches!(
        b.feed(ctrl_tok(KEY_K), Mode::Prompt),
        Some(LineEvent::Changed)
    ));
    assert_eq!(b.as_str(), "a");
    assert_eq!(b.cursor(), 1);
}

#[test]
fn ctrl_u_kills_to_start_in_both_modes() {
    for mode in [Mode::Prompt, Mode::Canonical] {
        let mut b = LineBuffer::new();
        b.set("abcd");
        place_cursor(&mut b, 3);
        assert!(matches!(
            b.feed(ctrl_tok(KEY_U), mode),
            Some(LineEvent::Changed)
        ));
        assert_eq!(b.as_str(), "d");
        assert_eq!(b.cursor(), 0);
    }
}

#[test]
fn movement_and_ctrl_a_e_k_are_unrecognized_in_canonical_mode() {
    let mut b = LineBuffer::new();
    b.set("abc");
    place_cursor(&mut b, 1);
    for token in [
        tok(KEY_LEFT),
        tok(KEY_RIGHT),
        tok(KEY_HOME),
        tok(KEY_END),
        tok(KEY_DELETE),
        ctrl_tok(KEY_A),
        ctrl_tok(KEY_E),
        ctrl_tok(KEY_K),
    ] {
        assert!(b.feed(token, Mode::Canonical).is_none());
    }
    assert_eq!(b.as_str(), "abc");
    assert_eq!(b.cursor(), 1);
}

#[test]
fn set_replaces_the_text_and_puts_the_cursor_at_the_end() {
    let mut b = LineBuffer::new();
    b.set("ab");
    place_cursor(&mut b, 0);
    b.set("xyz");
    assert_eq!(b.as_str(), "xyz");
    assert_eq!(b.cursor(), 3);
}

#[test]
fn take_clears_the_buffer_and_resets_the_cursor() {
    let mut b = LineBuffer::new();
    b.set("abc");
    place_cursor(&mut b, 1);
    let taken = b.take();
    assert_eq!(taken, "abc");
    assert_eq!(b.as_str(), "");
    assert_eq!(b.cursor(), 0);
}

#[test]
fn enter_finishes_the_line_and_empties_the_buffer() {
    let mut b = LineBuffer::new();
    b.set("run me");
    match b.feed(tok(KEY_ENTER), Mode::Prompt) {
        Some(LineEvent::Finished(text)) => assert_eq!(text, "run me"),
        _ => panic!("expected Finished"),
    }
    assert!(b.is_empty());
    assert_eq!(b.cursor(), 0);
}
