//! Turns one key press, together with the held keys and the lock toggles, into a `Token`: the key's
//! evdev code plus which of Shift/Ctrl/Alt were held and whether CapsLock was on. `Token::char`
//! resolves the printable character, if any; what Ctrl+something means is left to the consumer.

use vstd::prelude::*;

use super::keymap::{KeyState, LockState, KEY_CAPSLOCK, KEY_NUMLOCK, KEY_SCROLLLOCK};

verus! {

pub const KEY_ESC: u16 = 1;
pub const KEY_BACKSPACE: u16 = 14;
pub const KEY_TAB: u16 = 15;
pub const KEY_ENTER: u16 = 28;
pub const KEY_SPACE: u16 = 57;
/// Ctrl+D on an empty line is `read(0)`'s end-of-file.
pub const KEY_D: u16 = 32;
pub const KEY_HOME: u16 = 102;
pub const KEY_UP: u16 = 103;
pub const KEY_LEFT: u16 = 105;
pub const KEY_RIGHT: u16 = 106;
pub const KEY_END: u16 = 107;
pub const KEY_DOWN: u16 = 108;
pub const KEY_DELETE: u16 = 111;
/// Ctrl+A: move to the start of the line.
pub const KEY_A: u16 = 30;
/// Ctrl+E: move to the end of the line.
pub const KEY_E: u16 = 18;
/// Ctrl+U: erase from the cursor to the start of the line.
pub const KEY_U: u16 = 22;
/// Ctrl+K: erase from the cursor to the end of the line.
pub const KEY_K: u16 = 37;

pub const KEY_LCTRL: u16 = 29;
pub const KEY_LSHIFT: u16 = 42;
pub const KEY_LALT: u16 = 56;
pub const KEY_RSHIFT: u16 = 54;
pub const KEY_RCTRL: u16 = 97;
pub const KEY_RALT: u16 = 100;

/// One non-modifier key press, plus the modifier/lock state at the time it happened.
#[derive(Debug, Clone, Copy, PartialEq, Eq, Structural)]
pub struct Token {
    /// The evdev code of the key that was pressed -- never a modifier or lock key.
    pub code: u16,
    pub shift: bool,
    pub ctrl: bool,
    pub alt: bool,
    /// CapsLock's toggle state at the time.
    pub caps: bool,
}

/// The one-character name of a key that has one: its unshifted character, letters spelled uppercase.
pub open spec fn key_name_char(code: u16) -> Option<char> {
    match code {
        2 => Some('1'), 3 => Some('2'), 4 => Some('3'), 5 => Some('4'), 6 => Some('5'),
        7 => Some('6'), 8 => Some('7'), 9 => Some('8'), 10 => Some('9'), 11 => Some('0'),
        12 => Some('-'), 13 => Some('='),
        16 => Some('Q'), 17 => Some('W'), 18 => Some('E'), 19 => Some('R'), 20 => Some('T'),
        21 => Some('Y'), 22 => Some('U'), 23 => Some('I'), 24 => Some('O'), 25 => Some('P'),
        26 => Some('['), 27 => Some(']'),
        30 => Some('A'), 31 => Some('S'), 32 => Some('D'), 33 => Some('F'), 34 => Some('G'),
        35 => Some('H'), 36 => Some('J'), 37 => Some('K'), 38 => Some('L'),
        39 => Some(';'), 40 => Some('\''), 41 => Some('`'), 43 => Some('\\'),
        44 => Some('Z'), 45 => Some('X'), 46 => Some('C'), 47 => Some('V'), 48 => Some('B'),
        49 => Some('N'), 50 => Some('M'),
        51 => Some(','), 52 => Some('.'), 53 => Some('/'),
        _ => None,
    }
}

/// What Shift turns a number-row or punctuation key into.
pub open spec fn shifted(code: u16) -> Option<char> {
    match code {
        2 => Some('!'), 3 => Some('@'), 4 => Some('#'), 5 => Some('$'), 6 => Some('%'),
        7 => Some('^'), 8 => Some('&'), 9 => Some('*'), 10 => Some('('), 11 => Some(')'),
        12 => Some('_'), 13 => Some('+'), 26 => Some('{'), 27 => Some('}'), 39 => Some(':'),
        40 => Some('"'), 41 => Some('~'), 43 => Some('|'), 51 => Some('<'), 52 => Some('>'),
        53 => Some('?'),
        _ => None,
    }
}

pub open spec fn is_ascii_upper(c: char) -> bool {
    'A' <= c <= 'Z'
}

pub open spec fn to_lower(c: char) -> char {
    ((c as u32) + 32) as char
}

/// The character a token resolves to: Tab and Space are themselves; a letter is lowercase unless
/// exactly one of Shift and CapsLock is on; another key with a one-character name is that character,
/// or what Shift makes of it; anything else has none.
pub open spec fn token_char(t: Token) -> Option<char> {
    if t.code == KEY_TAB {
        Some('\t')
    } else if t.code == KEY_SPACE {
        Some(' ')
    } else {
        match key_name_char(t.code) {
            None => None,
            Some(first) => if is_ascii_upper(first) {
                Some(if t.shift != t.caps { first } else { to_lower(first) })
            } else if t.shift {
                match shifted(t.code) {
                    Some(hi) => Some(hi),
                    None => Some(first),
                }
            } else {
                Some(first)
            },
        }
    }
}

fn key_name_char_exec(code: u16) -> (r: Option<char>)
    ensures
        r == key_name_char(code),
{
    match code {
        2 => Some('1'), 3 => Some('2'), 4 => Some('3'), 5 => Some('4'), 6 => Some('5'),
        7 => Some('6'), 8 => Some('7'), 9 => Some('8'), 10 => Some('9'), 11 => Some('0'),
        12 => Some('-'), 13 => Some('='),
        16 => Some('Q'), 17 => Some('W'), 18 => Some('E'), 19 => Some('R'), 20 => Some('T'),
        21 => Some('Y'), 22 => Some('U'), 23 => Some('I'), 24 => Some('O'), 25 => Some('P'),
        26 => Some('['), 27 => Some(']'),
        30 => Some('A'), 31 => Some('S'), 32 => Some('D'), 33 => Some('F'), 34 => Some('G'),
        35 => Some('H'), 36 => Some('J'), 37 => Some('K'), 38 => Some('L'),
        39 => Some(';'), 40 => Some('\''), 41 => Some('`'), 43 => Some('\\'),
        44 => Some('Z'), 45 => Some('X'), 46 => Some('C'), 47 => Some('V'), 48 => Some('B'),
        49 => Some('N'), 50 => Some('M'),
        51 => Some(','), 52 => Some('.'), 53 => Some('/'),
        _ => None,
    }
}

fn shifted_exec(code: u16) -> (r: Option<char>)
    ensures
        r == shifted(code),
{
    match code {
        2 => Some('!'), 3 => Some('@'), 4 => Some('#'), 5 => Some('$'), 6 => Some('%'),
        7 => Some('^'), 8 => Some('&'), 9 => Some('*'), 10 => Some('('), 11 => Some(')'),
        12 => Some('_'), 13 => Some('+'), 26 => Some('{'), 27 => Some('}'), 39 => Some(':'),
        40 => Some('"'), 41 => Some('~'), 43 => Some('|'), 51 => Some('<'), 52 => Some('>'),
        53 => Some('?'),
        _ => None,
    }
}

impl Token {
    /// The printable character this key resolves to, given Shift/CapsLock -- `None` for keys with no
    /// character of their own. Ctrl and Alt don't affect it.
    pub fn char(&self) -> (r: Option<char>)
        ensures
            r == token_char(*self),
    {
        if self.code == KEY_TAB {
            return Some('\t');
        }
        if self.code == KEY_SPACE {
            return Some(' ');
        }
        let first = match key_name_char_exec(self.code) {
            Some(c) => c,
            None => return None,
        };
        if 'A' <= first && first <= 'Z' {
            if self.shift != self.caps {
                Some(first)
            } else {
                let lower = ((first as u32) + 32) as u8 as char;
                Some(lower)
            }
        } else if self.shift {
            match shifted_exec(self.code) {
                Some(hi) => Some(hi),
                None => Some(first),
            }
        } else {
            Some(first)
        }
    }
}

/// Whether `code` is one of the modifier or lock keys themselves.
pub open spec fn spec_is_modifier(code: u16) -> bool {
    code == KEY_LCTRL || code == KEY_RCTRL || code == KEY_LSHIFT || code == KEY_RSHIFT || code == KEY_LALT
        || code == KEY_RALT || code == KEY_CAPSLOCK || code == KEY_NUMLOCK || code == KEY_SCROLLLOCK
}

/// Whether `code` is one of the modifier or lock keys themselves -- these never produce a token of
/// their own, only change how the next key resolves.
pub fn is_modifier(code: u16) -> (b: bool)
    ensures
        b == spec_is_modifier(code),
{
    code == KEY_LCTRL || code == KEY_RCTRL || code == KEY_LSHIFT || code == KEY_RSHIFT || code == KEY_LALT
        || code == KEY_RALT || code == KEY_CAPSLOCK || code == KEY_NUMLOCK || code == KEY_SCROLLLOCK
}

/// Turns one key press into a token, given the held keys and the locks -- or `None` if `code` is a
/// modifier or lock key itself.
pub fn emit(code: u16, keys: &KeyState, locks: &LockState) -> (r: Option<Token>)
    ensures
        spec_is_modifier(code) ==> r is None,
        !spec_is_modifier(code) ==> r == Some(Token {
            code,
            shift: keys@.contains(KEY_LSHIFT) || keys@.contains(KEY_RSHIFT),
            ctrl: keys@.contains(KEY_LCTRL) || keys@.contains(KEY_RCTRL),
            alt: keys@.contains(KEY_LALT) || keys@.contains(KEY_RALT),
            caps: locks.caps,
        }),
{
    if is_modifier(code) {
        return None;
    }
    let shift = keys.is_held(KEY_LSHIFT) || keys.is_held(KEY_RSHIFT);
    let ctrl = keys.is_held(KEY_LCTRL) || keys.is_held(KEY_RCTRL);
    let alt = keys.is_held(KEY_LALT) || keys.is_held(KEY_RALT);
    Some(Token { code, shift, ctrl, alt, caps: locks.caps })
}

/// With Shift held, no two keys type the same character: each number-row key gives its own symbol
/// (`!` over `1` through `)` over `0`), each punctuation key its own shifted form, and each letter its
/// own case -- whatever CapsLock says, as long as it says the same for both keys.
pub proof fn lemma_shifted_keys_type_different_characters(t1: Token, t2: Token)
    requires
        t1.shift,
        t2.shift,
        t1.caps == t2.caps,
        token_char(t1) is Some,
        token_char(t1) == token_char(t2),
    ensures
        t1.code == t2.code,
{
}

/// Without Shift, too, no two keys type the same character: each key types its own.
pub proof fn lemma_unshifted_keys_type_different_characters(t1: Token, t2: Token)
    requires
        !t1.shift,
        !t2.shift,
        t1.caps == t2.caps,
        token_char(t1) is Some,
        token_char(t1) == token_char(t2),
    ensures
        t1.code == t2.code,
{
}

/// Shift never leaves a number-row key typing its digit: it types a symbol, not a letter or digit.
pub proof fn lemma_shift_turns_digits_into_symbols(t: Token)
    requires
        t.shift,
        2 <= t.code <= 11,
    ensures
        token_char(t) matches Some(c) && !('0' <= c <= '9') && !('a' <= c <= 'z') && !('A' <= c <= 'Z'),
{
}

} // verus!
