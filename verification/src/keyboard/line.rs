//! The text of the line being typed and the cursor within it. Every edit -- Backspace, Delete,
//! cursor movement, the readline-style kills -- is absorbed here, before Enter is ever reached, so a
//! finished line reaches its reader with the editing already applied.
//!
//! The cursor is a position between characters; `cursor` reports it as a byte offset into the
//! UTF-8 text, which is therefore always on a character boundary.

use vstd::prelude::*;

use super::tokens::{
    token_char, Token, KEY_A, KEY_BACKSPACE, KEY_DELETE, KEY_E, KEY_END, KEY_ENTER, KEY_HOME, KEY_K,
    KEY_LEFT, KEY_RIGHT, KEY_U,
};
use crate::text::{len_utf8, string_of, chars_of, utf8_len, lemma_utf8_len_concat};

verus! {

/// How a line is being read.
#[derive(Clone, Copy, Debug, PartialEq, Eq, Structural)]
pub enum Mode {
    /// The shell's prompt: Ctrl+D does nothing (the shell never exits on end-of-file).
    Prompt,
    /// A program's `read(0)`, a tty's canonical mode: Ctrl+D on an empty line is end-of-file,
    /// and only Backspace, Ctrl+U and Enter edit the line.
    Canonical,
}

/// What feeding one token into the buffer did.
pub enum LineEvent {
    /// The text changed (an insert, Backspace, Delete or a kill): redraw the line.
    Changed,
    /// Only the cursor moved.
    CursorMoved,
    /// Enter finished the line: here is what was typed; the buffer is empty again.
    Finished(String),
}

/// The kind of a `LineEvent`, for stating what `feed` does.
#[derive(Clone, Copy, Debug, PartialEq, Eq, Structural)]
pub enum EditKind {
    Changed,
    CursorMoved,
    Finished,
}

/// Whether `c` is a control character (general category Cc): U+0000..U+001F and U+007F..U+009F.
pub open spec fn is_control(c: char) -> bool {
    (c as u32) <= 0x1f || (0x7f <= (c as u32) && (c as u32) <= 0x9f)
}

/// `char::is_control`.
pub fn char_is_control(c: char) -> (b: bool)
    ensures
        b == is_control(c),
{
    let u = c as u32;
    u <= 0x1f || (0x7f <= u && u <= 0x9f)
}

/// What one token does to the text `text` with the cursor after `at` characters: the new text, the
/// new cursor, and what kind of event it was (`None` for a token that changes nothing).
///
/// Enter finishes the line; Backspace removes the character before the cursor; Ctrl+U removes
/// everything before it. In `Mode::Prompt` only: Delete removes the character at the cursor,
/// Left/Right move by one character, Home/Ctrl+A and End/Ctrl+E jump to either end, Ctrl+K removes
/// everything from the cursor on. Any other key without Ctrl or Alt inserts its character, unless
/// it has none or it is a control character.
pub open spec fn step(text: Seq<char>, at: nat, token: Token, mode: Mode) -> (Seq<char>, nat, Option<EditKind>) {
    let prompt = mode == Mode::Prompt;
    let len = text.len();
    let nothing = (text, at, None::<EditKind>);
    if token.code == KEY_ENTER {
        (Seq::empty(), 0, Some(EditKind::Finished))
    } else if token.code == KEY_BACKSPACE {
        if at > 0 { (text.remove(at - 1), (at - 1) as nat, Some(EditKind::Changed)) } else { nothing }
    } else if token.code == KEY_DELETE {
        if prompt && at < len { (text.remove(at as int), at, Some(EditKind::Changed)) } else { nothing }
    } else if token.code == KEY_LEFT {
        if prompt && at > 0 { (text, (at - 1) as nat, Some(EditKind::CursorMoved)) } else { nothing }
    } else if token.code == KEY_RIGHT {
        if prompt && at < len { (text, at + 1, Some(EditKind::CursorMoved)) } else { nothing }
    } else if token.code == KEY_HOME || (token.code == KEY_A && token.ctrl) {
        if prompt && at != 0 { (text, 0, Some(EditKind::CursorMoved)) } else { nothing }
    } else if token.code == KEY_END || (token.code == KEY_E && token.ctrl) {
        if prompt && at != len { (text, len, Some(EditKind::CursorMoved)) } else { nothing }
    } else if token.code == KEY_U && token.ctrl {
        if at != 0 { (text.skip(at as int), 0, Some(EditKind::Changed)) } else { nothing }
    } else if token.code == KEY_K && token.ctrl {
        if prompt && at != len { (text.take(at as int), at, Some(EditKind::Changed)) } else { nothing }
    } else if token.ctrl || token.alt {
        nothing
    } else {
        match token_char(token) {
            None => nothing,
            Some(c) => if is_control(c) {
                nothing
            } else {
                (text.insert(at as int, c), at + 1, Some(EditKind::Changed))
            },
        }
    }
}

/// A line-editing buffer with an insertion point.
pub struct LineBuffer {
    text: String,
    chars: Vec<char>,
    at: usize,
}

impl LineBuffer {
    /// The characters typed so far.
    pub closed spec fn text(&self) -> Seq<char> {
        self.chars@
    }

    /// How many characters stand before the cursor.
    pub closed spec fn at(&self) -> nat {
        self.at as nat
    }

    pub closed spec fn wf(&self) -> bool {
        &&& self.text@ == self.chars@
        &&& self.at <= self.chars@.len()
        &&& utf8_len(self.chars@) <= usize::MAX
    }

    /// The cursor is within the text.
    pub proof fn lemma_wf(&self)
        requires
            self.wf(),
        ensures
            self.at() <= self.text().len(),
    {
    }

    /// An empty line.
    pub fn new() -> (b: Self)
        ensures
            b.wf(),
            b.text() == Seq::<char>::empty(),
            b.at() == 0,
    {
        Self { text: String::new(), chars: Vec::new(), at: 0 }
    }

    /// The text, for display.
    pub fn as_str(&self) -> (s: &str)
        requires
            self.wf(),
        ensures
            s@ == self.text(),
    {
        self.text.as_str()
    }

    /// The cursor as a byte offset into the UTF-8 text.
    pub fn cursor(&self) -> (n: usize)
        requires
            self.wf(),
        ensures
            n == utf8_len(self.text().take(self.at() as int)),
    {
        let mut total: usize = 0;
        let mut i: usize = 0;
        proof {
            lemma_utf8_len_concat(self.chars@.take(self.at as int), self.chars@.skip(self.at as int));
            assert(self.chars@.take(self.at as int) + self.chars@.skip(self.at as int) =~= self.chars@);
        }
        while i < self.at
            invariant
                self.wf(),
                i <= self.at,
                total == utf8_len(self.chars@.take(i as int)),
                utf8_len(self.chars@.take(self.at as int)) <= usize::MAX,
            decreases self.at - i,
        {
            proof {
                assert(self.chars@.take(i + 1).drop_last() =~= self.chars@.take(i as int));
                lemma_utf8_len_concat(self.chars@.take(i + 1), self.chars@.subrange(i + 1, self.at as int));
                assert(self.chars@.take(i + 1) + self.chars@.subrange(i + 1, self.at as int)
                    =~= self.chars@.take(self.at as int));
            }
            total = total + len_utf8(self.chars[i]);
            i += 1;
        }
        total
    }

    /// Whether nothing has been typed on the line.
    pub fn is_empty(&self) -> (b: bool)
        requires
            self.wf(),
        ensures
            b == (self.text().len() == 0),
    {
        self.chars.len() == 0
    }

    /// Replaces the text wholesale (history recall); the cursor goes to the end.
    pub fn set(&mut self, text: &str)
        ensures
            final(self).wf(),
            final(self).text() == text@,
            final(self).at() == text@.len(),
    {
        let chars = chars_of(text);
        self.text = string_of(&chars);
        self.at = chars.len();
        self.chars = chars;
    }

    /// Empties the buffer and returns what was in it; the cursor goes back to the start.
    pub fn take(&mut self) -> (s: String)
        requires
            old(self).wf(),
        ensures
            final(self).wf(),
            s@ == old(self).text(),
            final(self).text() == Seq::<char>::empty(),
            final(self).at() == 0,
    {
        let s = string_of(&self.chars);
        self.chars = Vec::new();
        self.text = String::new();
        self.at = 0;
        s
    }

    /// Brings `text` back in step with `chars` after an edit.
    fn resync(&mut self)
        requires
            old(self).at <= old(self).chars@.len(),
        ensures
            final(self).wf(),
            final(self).chars@ == old(self).chars@,
            final(self).at == old(self).at,
    {
        self.text = string_of(&self.chars);
    }

    /// Inserts `c` at the cursor and moves past it.
    fn insert(&mut self, c: char)
        requires
            old(self).wf(),
        ensures
            final(self).wf(),
            final(self).text() == old(self).text().insert(old(self).at() as int, c),
            final(self).at() == old(self).at() + 1,
    {
        self.chars.insert(self.at, c);
        let n = self.chars.len();
        assert(self.at < n);
        self.at = self.at + 1;
        self.resync();
    }

    /// Removes the character at index `i`.
    fn remove_at(&mut self, i: usize)
        requires
            old(self).wf(),
            i < old(self).chars@.len(),
        ensures
            final(self).chars@ == old(self).chars@.remove(i as int),
            final(self).at == old(self).at,
            final(self).text@ == final(self).chars@,
            utf8_len(final(self).chars@) <= usize::MAX,
    {
        self.chars.remove(i);
        self.text = string_of(&self.chars);
    }

    /// Removes the character before the cursor, if any, and reports whether there was one.
    pub(crate) fn backspace(&mut self) -> (done: bool)
        requires
            old(self).wf(),
        ensures
            final(self).wf(),
            done == (old(self).at() > 0),
            done ==> final(self).text() == old(self).text().remove(old(self).at() - 1)
                && final(self).at() == old(self).at() - 1,
            !done ==> *final(self) == *old(self),
    {
        if self.at == 0 {
            return false;
        }
        let start = self.at - 1;
        self.remove_at(start);
        self.at = start;
        true
    }

    /// Removes the character at the cursor, if any; the cursor stays.
    fn delete_forward(&mut self) -> (done: bool)
        requires
            old(self).wf(),
        ensures
            final(self).wf(),
            done == (old(self).at() < old(self).text().len()),
            done ==> final(self).text() == old(self).text().remove(old(self).at() as int)
                && final(self).at() == old(self).at(),
            !done ==> *final(self) == *old(self),
    {
        if self.at >= self.chars.len() {
            return false;
        }
        let i = self.at;
        self.remove_at(i);
        true
    }

    fn move_left(&mut self) -> (done: bool)
        requires
            old(self).wf(),
        ensures
            final(self).wf(),
            final(self).text() == old(self).text(),
            done == (old(self).at() > 0),
            final(self).at() == if done { (old(self).at() - 1) as nat } else { old(self).at() },
            !done ==> *final(self) == *old(self),
    {
        if self.at == 0 {
            return false;
        }
        self.at = self.at - 1;
        true
    }

    fn move_right(&mut self) -> (done: bool)
        requires
            old(self).wf(),
        ensures
            final(self).wf(),
            final(self).text() == old(self).text(),
            done == (old(self).at() < old(self).text().len()),
            final(self).at() == if done { old(self).at() + 1 } else { old(self).at() },
            !done ==> *final(self) == *old(self),
    {
        if self.at >= self.chars.len() {
            return false;
        }
        self.at = self.at + 1;
        true
    }

    fn move_home(&mut self) -> (done: bool)
        requires
            old(self).wf(),
        ensures
            final(self).wf(),
            final(self).text() == old(self).text(),
            done == (old(self).at() != 0),
            final(self).at() == 0,
            !done ==> *final(self) == *old(self),
    {
        if self.at == 0 {
            return false;
        }
        self.at = 0;
        true
    }

    fn move_end(&mut self) -> (done: bool)
        requires
            old(self).wf(),
        ensures
            final(self).wf(),
            final(self).text() == old(self).text(),
            done == (old(self).at() != old(self).text().len()),
            final(self).at() == old(self).text().len(),
            !done ==> *final(self) == *old(self),
    {
        if self.at == self.chars.len() {
            return false;
        }
        self.at = self.chars.len();
        true
    }

    /// Removes everything before the cursor; the cursor goes to the start.
    fn kill_to_start(&mut self) -> (done: bool)
        requires
            old(self).wf(),
        ensures
            final(self).wf(),
            done == (old(self).at() != 0),
            done ==> final(self).text() == old(self).text().skip(old(self).at() as int)
                && final(self).at() == 0,
            !done ==> *final(self) == *old(self),
    {
        if self.at == 0 {
            return false;
        }
        let ghost before = self.chars@;
        let tail = self.chars.split_off(self.at);
        self.chars = tail;
        self.at = 0;
        assert(self.chars@ =~= before.skip(old(self).at as int));
        self.resync();
        true
    }

    /// Removes everything from the cursor on; the cursor stays.
    fn kill_to_end(&mut self) -> (done: bool)
        requires
            old(self).wf(),
        ensures
            final(self).wf(),
            done == (old(self).at() != old(self).text().len()),
            done ==> final(self).text() == old(self).text().take(old(self).at() as int)
                && final(self).at() == old(self).at(),
            !done ==> *final(self) == *old(self),
    {
        if self.at == self.chars.len() {
            return false;
        }
        let ghost before = self.chars@;
        self.chars.truncate(self.at);
        assert(self.chars@ =~= before.take(old(self).at as int));
        self.resync();
        true
    }

    /// Feeds one token into the buffer and reports what happened, if anything; see `step`.
    pub fn feed(&mut self, token: Token, mode: Mode) -> (r: Option<LineEvent>)
        requires
            old(self).wf(),
        ensures
            final(self).wf(),
            ({
                let (text, at, kind) = step(old(self).text(), old(self).at(), token, mode);
                &&& final(self).text() == text
                &&& final(self).at() == at
                &&& match kind {
                    None => r is None,
                    Some(EditKind::Changed) => r matches Some(LineEvent::Changed),
                    Some(EditKind::CursorMoved) => r matches Some(LineEvent::CursorMoved),
                    Some(EditKind::Finished) => r matches Some(LineEvent::Finished(s)) && s@ == old(self).text(),
                }
            }),
    {
        let prompt = match mode {
            Mode::Prompt => true,
            Mode::Canonical => false,
        };
        let code = token.code;
        if code == KEY_ENTER {
            let s = self.take();
            return Some(LineEvent::Finished(s));
        }
        if code == KEY_BACKSPACE {
            return if self.backspace() { Some(LineEvent::Changed) } else { None };
        }
        if code == KEY_DELETE {
            if !prompt {
                return None;
            }
            return if self.delete_forward() { Some(LineEvent::Changed) } else { None };
        }
        if code == KEY_LEFT {
            if !prompt {
                return None;
            }
            return if self.move_left() { Some(LineEvent::CursorMoved) } else { None };
        }
        if code == KEY_RIGHT {
            if !prompt {
                return None;
            }
            return if self.move_right() { Some(LineEvent::CursorMoved) } else { None };
        }
        if code == KEY_HOME || (code == KEY_A && token.ctrl) {
            if !prompt {
                return None;
            }
            return if self.move_home() { Some(LineEvent::CursorMoved) } else { None };
        }
        if code == KEY_END || (code == KEY_E && token.ctrl) {
            if !prompt {
                return None;
            }
            return if self.move_end() { Some(LineEvent::CursorMoved) } else { None };
        }
        if code == KEY_U && token.ctrl {
            return if self.kill_to_start() { Some(LineEvent::Changed) } else { None };
        }
        if code == KEY_K && token.ctrl {
            if !prompt {
                return None;
            }
            return if self.kill_to_end() { Some(LineEvent::Changed) } else { None };
        }
        if token.ctrl || token.alt {
            return None;
        }
        match token.char() {
            None => None,
            Some(c) => {
                if char_is_control(c) {
                    return None;
                }
                self.insert(c);
                Some(LineEvent::Changed)
            },
        }
    }
}

} // verus!
