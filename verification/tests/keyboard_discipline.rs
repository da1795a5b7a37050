use kernel_core::console::framebuffer::Framebuffer;
use kernel_core::console::Console;
use kernel_core::keyboard::line_discipline::{LineDiscipline, LineOutcome, Mode};
use kernel_core::keyboard::tokens::{Token, KEY_BACKSPACE, KEY_D, KEY_ENTER};
use kernel_core::platform::uart::UartTranscript;
use kernel_core::shell::start_prompt;

fn tok(code: u16) -> Token {
    Token { code, shift: false, ctrl: false, alt: false, caps: false }
}

fn ctrl(code: u16) -> Token {
    Token { code, shift: false, ctrl: true, alt: false, caps: false }
}

/// The key code of a lowercase letter or digit on a US layout.
fn key(c: char) -> u16 {
    match c {
        'a' => 30,
        'b' => 48,
        'c' => 46,
        'x' => 45,
        '1' => 2,
        _ => panic!("no key for {c:?}"),
    }
}

fn console(cols: usize, rows: usize) -> Console {
    Console::new(Framebuffer { width: cols * 8, height: rows * 16, stride: cols * 32 })
}

#[test]
fn typing_and_enter_finish_the_line_on_the_transcript() {
    let mut c = console(10, 4);
    let mut uart = UartTranscript::new();
    let mut d = LineDiscipline::new();
    d.begin(&mut c, "> ", Mode::Prompt);
    for ch in ['a', 'b'] {
        assert!(matches!(d.handle(tok(key(ch)), &mut c, &mut uart), LineOutcome::Edited));
    }
    assert_eq!(c.cursor(), (0, 4));
    match d.handle(tok(KEY_ENTER), &mut c, &mut uart) {
        LineOutcome::Finished(text) => assert_eq!(text, "ab"),
        _ => panic!("expected Finished"),
    }
    assert_eq!(uart.take_bytes(), b"ab\r\n".to_vec());
    assert_eq!(c.cursor(), (1, 0));
}

#[test]
fn backspace_on_an_empty_line_is_ignored() {
    let mut c = console(10, 4);
    let mut uart = UartTranscript::new();
    let mut d = LineDiscipline::new();
    d.begin(&mut c, "", Mode::Canonical);
    assert!(matches!(d.handle(tok(KEY_BACKSPACE), &mut c, &mut uart), LineOutcome::Ignored));
}

#[test]
fn ctrl_d_on_an_empty_line_is_end_of_file_only_when_canonical() {
    let mut c = console(10, 4);
    let mut uart = UartTranscript::new();
    let mut d = LineDiscipline::new();
    d.begin(&mut c, "", Mode::Canonical);
    assert!(matches!(d.handle(ctrl(KEY_D), &mut c, &mut uart), LineOutcome::EndOfFile));
    d.begin(&mut c, "> ", Mode::Prompt);
    assert!(matches!(d.handle(ctrl(KEY_D), &mut c, &mut uart), LineOutcome::Ignored));
    let mut d = LineDiscipline::new();
    d.begin(&mut c, "", Mode::Canonical);
    d.handle(tok(key('x')), &mut c, &mut uart);
    assert!(matches!(d.handle(ctrl(KEY_D), &mut c, &mut uart), LineOutcome::Ignored));
}

#[test]
fn a_line_may_not_outgrow_the_screen() {
    // Two rows of four cells: the line may use one row, the prompt taking two cells of it.
    let mut c = console(4, 2);
    let mut uart = UartTranscript::new();
    let mut d = LineDiscipline::new();
    d.begin(&mut c, "> ", Mode::Prompt);
    assert!(matches!(d.handle(tok(key('a')), &mut c, &mut uart), LineOutcome::Edited));
    assert!(matches!(d.handle(tok(key('b')), &mut c, &mut uart), LineOutcome::Edited));
    assert!(matches!(d.handle(tok(key('c')), &mut c, &mut uart), LineOutcome::Ignored));
    match d.handle(tok(KEY_ENTER), &mut c, &mut uart) {
        LineOutcome::Finished(text) => assert_eq!(text, "ab"),
        _ => panic!("expected Finished"),
    }
}

#[test]
fn begin_starts_a_fresh_row_after_output_left_mid_row() {
    let mut c = console(10, 4);
    c.write_char('z', 0, 0);
    let mut d = LineDiscipline::new();
    d.begin(&mut c, "", Mode::Canonical);
    assert_eq!(c.cursor(), (1, 0));
}

#[test]
fn a_fresh_prompt_is_drawn_and_sent_on_a_line_of_its_own() {
    let mut c = console(10, 4);
    let mut uart = UartTranscript::new();
    uart.uart_write(b"out");
    let mut d = LineDiscipline::new();
    start_prompt(&mut d, &mut c, &mut uart);
    assert_eq!(uart.take_bytes(), b"out\r\n> ".to_vec());
    assert_eq!(c.cursor(), (0, 2));
}

#[test]
fn a_line_that_fits_keeps_fitting_whatever_is_typed() {
    // Two rows of four cells; the line fills its one row, then every key is tried.
    let mut c = console(4, 2);
    let mut uart = UartTranscript::new();
    let mut d = LineDiscipline::new();
    d.begin(&mut c, "> ", Mode::Prompt);
    d.handle(tok(key('a')), &mut c, &mut uart);
    d.handle(tok(key('b')), &mut c, &mut uart);
    for code in [key('c'), key('1'), key('x'), KEY_BACKSPACE] {
        let r = d.handle(tok(code), &mut c, &mut uart);
        if code != KEY_BACKSPACE {
            assert!(matches!(r, LineOutcome::Ignored));
        }
        assert!(c.cursor().0 < 2);
    }
    match d.handle(tok(KEY_ENTER), &mut c, &mut uart) {
        LineOutcome::Finished(text) => assert_eq!(text, "a"),
        _ => panic!("expected Finished"),
    }
}
