use kernel_core::keyboard::events::{token_for, InputEvent, EV_KEY};
use kernel_core::keyboard::keymap::{KeyState, LockState, KEY_CAPSLOCK};
use kernel_core::keyboard::queue::{TokenQueue, QUEUE_CAPACITY};
use kernel_core::keyboard::stdin::{StdinBuffer, StdinRead};
use kernel_core::keyboard::tokens::{emit, is_modifier, Token, KEY_LSHIFT, KEY_SPACE, KEY_TAB};
use kernel_core::platform::uart::UartTranscript;

fn press(code: u16) -> InputEvent {
    InputEvent { event_type: EV_KEY, code, value: 1 }
}

fn release(code: u16) -> InputEvent {
    InputEvent { event_type: EV_KEY, code, value: 0 }
}

fn plain(code: u16) -> Token {
    Token { code, shift: false, ctrl: false, alt: false, caps: false }
}

#[test]
fn letters_follow_shift_xor_capslock() {
    let a = 30;
    assert_eq!(plain(a).char(), Some('a'));
    assert_eq!(Token { shift: true, ..plain(a) }.char(), Some('A'));
    assert_eq!(Token { caps: true, ..plain(a) }.char(), Some('A'));
    assert_eq!(Token { shift: true, caps: true, ..plain(a) }.char(), Some('a'));
}

#[test]
fn shift_picks_the_upper_symbol_of_number_and_punctuation_keys() {
    assert_eq!(plain(2).char(), Some('1'));
    assert_eq!(Token { shift: true, ..plain(2) }.char(), Some('!'));
    assert_eq!(Token { shift: true, ..plain(53) }.char(), Some('?'));
    assert_eq!(Token { caps: true, ..plain(53) }.char(), Some('/'));
}

#[test]
fn tab_and_space_are_themselves_and_other_keys_have_no_character() {
    assert_eq!(plain(KEY_TAB).char(), Some('\t'));
    assert_eq!(plain(KEY_SPACE).char(), Some(' '));
    assert_eq!(plain(28).char(), None);
    assert_eq!(plain(59).char(), None);
}

#[test]
fn modifiers_emit_no_token() {
    let keys = KeyState::new();
    let locks = LockState::new();
    assert!(is_modifier(KEY_LSHIFT));
    assert!(is_modifier(KEY_CAPSLOCK));
    assert!(!is_modifier(30));
    assert_eq!(emit(KEY_LSHIFT, &keys, &locks), None);
    assert_eq!(emit(30, &keys, &locks), Some(plain(30)));
}

#[test]
fn a_press_while_shift_is_held_is_shifted() {
    let mut keys = KeyState::new();
    let mut locks = LockState::new();
    assert_eq!(token_for(press(KEY_LSHIFT), &mut keys, &mut locks), None);
    assert_eq!(token_for(press(30), &mut keys, &mut locks), Some(Token { shift: true, ..plain(30) }));
    assert_eq!(token_for(release(30), &mut keys, &mut locks), None);
    assert_eq!(token_for(release(KEY_LSHIFT), &mut keys, &mut locks), None);
    assert_eq!(token_for(press(30), &mut keys, &mut locks), Some(plain(30)));
}

#[test]
fn a_held_key_resending_its_press_yields_nothing() {
    let mut keys = KeyState::new();
    let mut locks = LockState::new();
    assert!(token_for(press(30), &mut keys, &mut locks).is_some());
    assert_eq!(token_for(press(30), &mut keys, &mut locks), None);
    let repeat = InputEvent { event_type: EV_KEY, code: 30, value: 2 };
    assert_eq!(token_for(repeat, &mut keys, &mut locks), None);
    assert!(keys.is_held(30));
}

#[test]
fn capslock_toggles_on_its_press_only() {
    let mut keys = KeyState::new();
    let mut locks = LockState::new();
    token_for(press(KEY_CAPSLOCK), &mut keys, &mut locks);
    assert!(locks.caps);
    token_for(release(KEY_CAPSLOCK), &mut keys, &mut locks);
    assert!(locks.caps);
    assert_eq!(token_for(press(30), &mut keys, &mut locks), Some(Token { caps: true, ..plain(30) }));
    token_for(press(KEY_CAPSLOCK), &mut keys, &mut locks);
    assert!(!locks.caps);
}

#[test]
fn other_event_types_change_nothing() {
    let mut keys = KeyState::new();
    let mut locks = LockState::new();
    let sync = InputEvent { event_type: 0, code: 30, value: 1 };
    assert_eq!(token_for(sync, &mut keys, &mut locks), None);
    assert!(!keys.is_held(30));
}

#[test]
fn the_queue_is_first_in_first_out() {
    let mut q = TokenQueue::new();
    let mut uart = UartTranscript::new();
    assert_eq!(q.pop(), None);
    q.push(plain(30), &mut uart);
    q.push(plain(48), &mut uart);
    assert_eq!(q.pop(), Some(plain(30)));
    assert_eq!(q.pop(), Some(plain(48)));
    assert!(q.is_empty());
    assert!(uart.take_bytes().is_empty());
}

#[test]
fn a_full_queue_drops_presses_with_one_note_per_burst() {
    let mut q = TokenQueue::new();
    let mut uart = UartTranscript::new();
    for _ in 0..QUEUE_CAPACITY {
        q.push(plain(30), &mut uart);
    }
    q.push(plain(48), &mut uart);
    q.push(plain(48), &mut uart);
    let note = b"[keyboard: input queue full, further keys dropped]\r\n".to_vec();
    assert_eq!(uart.take_bytes(), note);
    for _ in 0..QUEUE_CAPACITY {
        assert_eq!(q.pop(), Some(plain(30)));
    }
    assert_eq!(q.pop(), None);
    for _ in 0..QUEUE_CAPACITY + 1 {
        q.push(plain(30), &mut uart);
    }
    assert_eq!(uart.take_bytes(), note);
}

#[test]
fn stdin_hands_out_a_line_and_its_newline_in_pieces() {
    let mut s = StdinBuffer::new();
    let mut buf = [0u8; 2];
    assert_eq!(s.read(&mut buf), StdinRead::NeedLine);
    s.fill(b"abc".to_vec());
    assert_eq!(s.read(&mut buf), StdinRead::Copied(2));
    assert_eq!(&buf, b"ab");
    assert_eq!(s.read(&mut buf), StdinRead::Copied(2));
    assert_eq!(&buf, b"c\n");
    assert_eq!(s.read(&mut buf), StdinRead::NeedLine);
    assert_eq!(s.read(&mut []), StdinRead::Copied(0));
}

#[test]
fn stdin_reset_forgets_the_rest_of_a_line() {
    let mut s = StdinBuffer::new();
    s.fill(b"left over".to_vec());
    let mut buf = [0u8; 4];
    s.read(&mut buf);
    s.reset();
    assert_eq!(s.read(&mut buf), StdinRead::NeedLine);
}

#[test]
fn the_overflow_note_leaves_the_transcript_at_a_line_start() {
    let mut q = TokenQueue::new();
    let mut uart = UartTranscript::new();
    uart.uart_write(b"> ls");
    for _ in 0..QUEUE_CAPACITY {
        q.push(plain(30), &mut uart);
    }
    assert!(!uart.uart_at_line_start());
    q.push(plain(48), &mut uart);
    assert!(uart.uart_at_line_start());
    assert_eq!(uart.take_bytes(), b"> ls\r\n[keyboard: input queue full, further keys dropped]\r\n".to_vec());
    uart.uart_write(b"x");
    q.push(plain(48), &mut uart);
    assert!(!uart.uart_at_line_start());
    assert_eq!(uart.take_bytes(), b"x".to_vec());
}
