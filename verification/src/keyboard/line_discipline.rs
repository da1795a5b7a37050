//! The line discipline: what turns a stream of tokens into an edited line on the console. It owns the
//! line being typed, which console row it starts on, how it is redrawn, and what finishing it looks
//! like -- the newline on the console and the transcript on the serial line. The shell's prompt and a
//! running program's `read(0)` both use it, so a line is typed, edited, drawn and finished the same way
//! whichever of them is waiting for it.
//!
//! A line longer than a row wraps onto the rows below it, and may not outgrow the screen: it uses at
//! most `rows - 1` rows, and an edit that would make it longer is undone.

use vstd::prelude::*;

use super::line::{step, EditKind, LineBuffer, LineEvent};
pub use super::line::Mode;
use super::tokens::{Token, KEY_D};
use crate::console::{cleared, printable, written, written_all, Console, Screen, BG, FG};
use crate::console::font::is_interpreted;
use crate::console::cells::Cursor;
use crate::console::input_layout::{
    fits_on_screen, layout, lemma_drawing_follows_layout, lemma_layout_bounds, lemma_layout_drop_front, lemma_layout_prefix,
    lemma_layout_remove, rows_needed,
};
use crate::platform::uart::{crlf, UartTranscript};
use crate::text::chars_of;

verus! {

/// What handling one token did.
pub enum LineOutcome {
    /// Nothing that shows: a modifier, a shortcut, an unbound key, Backspace on an empty line, or an
    /// edit undone because the line would outgrow the screen.
    Ignored,
    /// The line changed (or its cursor moved) and it was redrawn.
    Edited,
    /// Enter finished the line -- here is its text; the console has moved to the next row and the
    /// serial transcript has the line.
    Finished(String),
    /// Ctrl+D on an empty line in `Mode::Canonical`.
    EndOfFile,
}

/// The console after the line -- `prefix` then `text` -- starting on `row` and last drawn `height`
/// rows tall is redrawn: the rows it occupies now or occupied before are cleared, then it is written
/// from the start of its first row the way any output is, wrapping and, at the bottom, scrolling.
pub open spec fn redrawn(s: Screen, cols: usize, rows: usize, row: usize, height: usize, text: Seq<char>) -> Screen {
    let new_height = (layout(text, cols).row + 1) as usize;
    let last = vstd::math::min(row + vstd::math::max(height as int, new_height as int), rows as int) as usize;
    let c = cleared(s, row, last, cols, BG);
    let moved = Screen { grid: c.grid, cursor: Cursor { row, col: 0, wrap_pending: false }, ops: c.ops };
    written_all(moved, cols, rows, text, FG, BG)
}

/// The line's first row after that redraw: where the cursor ended, less the rows the line took --
/// earlier than before if the writing scrolled the screen.
pub open spec fn redrawn_row(cols: usize, rows: usize, row: usize, text: Seq<char>) -> usize {
    (vstd::math::min(row + layout(text, cols).row, rows - 1) + 1 - (layout(text, cols).row + 1)) as usize
}

/// What undoing an insert leaves: the character before the cursor removed.
pub open spec fn undone(text: Seq<char>, at: nat) -> (Seq<char>, nat) {
    if at > 0 { (text.remove(at - 1), (at - 1) as nat) } else { (text, at) }
}

/// The line being typed, on the console.
pub struct LineDiscipline {
    buffer: LineBuffer,
    row: usize,
    height: usize,
    prefix: &'static str,
    mode: Mode,
}

impl LineDiscipline {
    /// The text typed so far.
    pub closed spec fn line(&self) -> Seq<char> {
        self.buffer.text()
    }

    /// How many characters stand before the cursor.
    pub closed spec fn at(&self) -> nat {
        self.buffer.at()
    }

    /// The console row the prefix and line start on.
    pub closed spec fn spec_row(&self) -> usize {
        self.row
    }

    /// How many rows the prefix and line took when last drawn.
    pub closed spec fn spec_height(&self) -> usize {
        self.height
    }

    /// What is drawn before the line.
    pub closed spec fn spec_prefix(&self) -> Seq<char> {
        self.prefix@
    }

    pub closed spec fn spec_mode(&self) -> Mode {
        self.mode
    }

    /// The buffer is consistent, neither prefix nor line holds a character the console interprets,
    /// and the line's place is a plausible console position.
    pub closed spec fn wf(&self) -> bool {
        &&& self.buffer.wf()
        &&& printable(self.prefix@)
        &&& printable(self.buffer.text())
        &&& self.row <= usize::MAX / 2
        &&& 1 <= self.height <= usize::MAX / 2
    }

    /// An empty line on the first row, no prefix, in `Mode::Prompt`.
    pub fn new() -> (d: Self)
        ensures
            d.wf(),
            d.line() == Seq::<char>::empty(),
            d.at() == 0,
            d.spec_row() == 0,
            d.spec_height() == 1,
            d.spec_prefix() == Seq::<char>::empty(),
            d.spec_mode() == Mode::Prompt,
    {
        let prefix: &'static str = "";
        proof { reveal_strlit(""); }
        Self { buffer: LineBuffer::new(), row: 0, height: 1, prefix, mode: Mode::Prompt }
    }

    /// Starts a new line with `prefix` in front of it: on a fresh row if whatever ran before left the
    /// cursor mid-row, else on the cursor's own row. Draws nothing.
    pub fn begin(&mut self, console: &mut Console, prefix: &'static str, mode: Mode)
        requires
            old(self).wf(),
            old(console).wf(),
            old(console).spec_rows() >= 1,
            printable(prefix@),
        ensures
            final(self).wf(),
            final(console).wf(),
            final(console).spec_cols() == old(console).spec_cols(),
            final(console).spec_rows() == old(console).spec_rows(),
            final(console).spec_fb() == old(console).spec_fb(),
            final(console)@ == if old(console)@.cursor.col != 0 {
                written(old(console)@, old(console).spec_cols(), old(console).spec_rows(), '\n', FG, BG)
            } else {
                old(console)@
            },
            final(self).spec_row() == final(console)@.cursor.row,
            final(self).spec_height() == 1,
            final(self).spec_prefix() == prefix@,
            final(self).spec_mode() == mode,
            final(self).line() == old(self).line(),
            final(self).at() == old(self).at(),
    {
        if console.cursor().1 != 0 {
            console.write_char('\n', FG, BG);
        }
        proof { console.lemma_wf(); }
        self.row = console.cursor().0;
        self.height = 1;
        self.prefix = prefix;
        self.mode = mode;
    }

    /// Draws the prefix and the line so far from the line's first row down; see `redrawn`. The
    /// line must fit on the screen.
    pub fn redraw(&mut self, console: &mut Console)
        requires
            old(self).wf(),
            old(console).wf(),
            old(console).spec_cols() >= 2,
            old(console).spec_rows() >= 1,
            old(self).spec_row() < old(console).spec_rows(),
            layout(old(self).spec_prefix() + old(self).line(), old(console).spec_cols()).row + 1
                <= old(console).spec_rows(),
        ensures
            final(self).wf(),
            final(console).wf(),
            final(console).spec_cols() == old(console).spec_cols(),
            final(console).spec_rows() == old(console).spec_rows(),
            final(console).spec_fb() == old(console).spec_fb(),
            final(console)@ == redrawn(old(console)@, old(console).spec_cols(), old(console).spec_rows(),
                old(self).spec_row(), old(self).spec_height(), old(self).spec_prefix() + old(self).line()),
            final(self).spec_row() == redrawn_row(old(console).spec_cols(), old(console).spec_rows(),
                old(self).spec_row(), old(self).spec_prefix() + old(self).line()),
            final(self).spec_row() < final(console).spec_rows(),
            final(self).spec_height() == layout(old(self).spec_prefix() + old(self).line(), old(console).spec_cols()).row + 1,
            final(self).line() == old(self).line(),
            final(self).at() == old(self).at(),
            final(self).spec_prefix() == old(self).spec_prefix(),
            final(self).spec_mode() == old(self).spec_mode(),
    {
        let (cols, rows) = console.size();
        proof { console.lemma_wf(); }
        let ghost text = self.prefix@ + self.buffer.text();
        proof { lemma_layout_bounds(text, cols); }
        let height = rows_needed(self.prefix, self.buffer.as_str(), cols);
        let span = if self.height > height { self.height } else { height };
        let last_row = if self.row + span < rows { self.row + span } else { rows };
        let ghost s0 = console@;
        let mut r = self.row;
        while r < last_row
            invariant
                console.wf(),
                console.spec_cols() == cols,
                console.spec_rows() == rows,
                console.spec_fb() == old(console).spec_fb(),
                self.row <= r,
                r <= last_row || r == self.row,
                last_row <= rows,
                console@ == cleared(s0, self.row, r, cols, BG),
            decreases last_row - r,
        {
            console.clear_row(r, BG);
            r += 1;
        }
        let ghost c = console@;
        assert(c == cleared(s0, self.row, last_row, cols, BG));
        console.move_cursor(self.row, 0);
        assert(console@.grid == c.grid && console@.ops == c.ops);
        let mut all = chars_of(self.prefix);
        let more = chars_of(self.buffer.as_str());
        let mut j: usize = 0;
        while j < more.len()
            invariant
                j <= more@.len(),
                all@ == self.prefix@ + more@.take(j as int),
            decreases more@.len() - j,
        {
            all.push(more[j]);
            j += 1;
            assert(all@ =~= self.prefix@ + more@.take(j as int));
        }
        assert(more@.take(more@.len() as int) =~= more@);
        let ghost moved = console@;
        let mut i: usize = 0;
        while i < all.len()
            invariant
                console.wf(),
                console.spec_cols() == cols,
                console.spec_rows() == rows,
                cols >= 2,
                rows >= 1,
                console.spec_fb() == old(console).spec_fb(),
                i <= all@.len(),
                all@ == text,
                printable(text),
                console@ == written_all(moved, cols, rows, all@.take(i as int), FG, BG),
            decreases all@.len() - i,
        {
            let c = all[i];
            assert(!is_interpreted(text[i as int]));
            console.write_char(c, FG, BG);
            proof {
                assert(all@.take(i + 1).drop_last() =~= all@.take(i as int));
            }
            i += 1;
        }
        assert(all@.take(all@.len() as int) =~= all@);
        proof {
            lemma_drawing_follows_layout(moved, cols, rows, text, FG, BG);
            assert(moved == Screen { grid: c.grid, cursor: Cursor { row: self.row, col: 0, wrap_pending: false }, ops: c.ops });
            assert(console@ == written_all(moved, cols, rows, text, FG, BG));
        }
        self.row = console.cursor().0 + 1 - height;
        self.height = height;
    }

    /// Handles one token: Ctrl+D on an empty line in `Mode::Canonical` is end-of-file; anything else
    /// goes to the line buffer (see `step`). An edit is redrawn, or undone if the line would then
    /// outgrow the screen; a finished line goes to the serial transcript and the console moves to the
    /// next row.
    pub fn handle(&mut self, token: Token, console: &mut Console, uart: &mut UartTranscript) -> (r: LineOutcome)
        requires
            old(self).wf(),
            old(console).wf(),
            old(console).spec_cols() >= 2,
            old(console).spec_rows() >= 1,
            old(self).spec_row() < old(console).spec_rows(),
        ensures
            final(self).wf(),
            final(console).wf(),
            final(console).spec_cols() == old(console).spec_cols(),
            final(console).spec_rows() == old(console).spec_rows(),
            final(console).spec_fb() == old(console).spec_fb(),
            final(self).spec_row() < final(console).spec_rows(),
            final(self).spec_prefix() == old(self).spec_prefix(),
            final(self).spec_mode() == old(self).spec_mode(),
            !(r is Edited) ==> final(self).spec_height() == old(self).spec_height(),
            r is Edited ==> final(self).spec_height()
                == layout(old(self).spec_prefix() + final(self).line(), old(console).spec_cols()).row + 1,
            !(r is Finished) ==> final(uart).spec_at_line_start() == old(uart).spec_at_line_start(),
            layout(old(self).spec_prefix() + old(self).line(), old(console).spec_cols()).row + 1 < old(console).spec_rows()
                ==> {
                    &&& layout(final(self).spec_prefix() + final(self).line(), old(console).spec_cols()).row + 1
                        < old(console).spec_rows()
                    &&& r is Ignored ==> final(self).line() == old(self).line() && final(self).at() == old(self).at()
                },
            ({
                let cols = old(console).spec_cols();
                let rows = old(console).spec_rows();
                let (text, at, kind) = step(old(self).line(), old(self).at(), token, old(self).spec_mode());
                if old(self).spec_mode() == Mode::Canonical && token.ctrl && token.code == KEY_D
                    && old(self).line().len() == 0 {
                    &&& r is EndOfFile
                    &&& final(self).line() == old(self).line()
                    &&& final(self).at() == old(self).at()
                    &&& final(self).spec_row() == old(self).spec_row()
                    &&& final(console)@ == old(console)@
                    &&& final(uart).pending() == old(uart).pending()
                } else {
                    match kind {
                        None => {
                            &&& r is Ignored
                            &&& final(self).line() == old(self).line()
                            &&& final(self).at() == old(self).at()
                            &&& final(self).spec_row() == old(self).spec_row()
                            &&& final(console)@ == old(console)@
                            &&& final(uart).pending() == old(uart).pending()
                        },
                        Some(EditKind::Finished) => {
                            &&& r matches LineOutcome::Finished(s) && s@ == old(self).line()
                            &&& final(self).line() == Seq::<char>::empty()
                            &&& final(self).at() == 0
                            &&& final(console)@ == written(old(console)@, cols, rows, '\n', FG, BG)
                            &&& final(uart).pending() == old(uart).pending()
                                + crlf(vstd::utf8::encode_utf8(old(self).line())) + seq![13u8, 10u8]
                            &&& final(uart).spec_at_line_start()
                        },
                        Some(_) => if layout(old(self).spec_prefix() + text, cols).row + 1 < rows {
                            &&& r is Edited
                            &&& final(self).line() == text
                            &&& final(self).at() == at
                            &&& final(console)@ == redrawn(old(console)@, cols, rows, old(self).spec_row(),
                                old(self).spec_height(), old(self).spec_prefix() + text)
                            &&& final(self).spec_row() == redrawn_row(cols, rows, old(self).spec_row(),
                                old(self).spec_prefix() + text)
                            &&& final(uart).pending() == old(uart).pending()
                        } else {
                            &&& r is Ignored
                            &&& final(self).line() == undone(text, at).0
                            &&& final(self).at() == undone(text, at).1
                            &&& final(self).spec_row() == old(self).spec_row()
                            &&& final(console)@ == old(console)@
                            &&& final(uart).pending() == old(uart).pending()
                        },
                    }
                }
            }),
    {
        let canonical = match self.mode {
            Mode::Canonical => true,
            Mode::Prompt => false,
        };
        if canonical && token.ctrl && token.code == KEY_D && self.buffer.is_empty() {
            return LineOutcome::EndOfFile;
        }
        let ghost before = self.buffer.text();
        proof { console.lemma_wf(); self.buffer.lemma_wf(); }
        let event = self.buffer.feed(token, self.mode);
        proof { lemma_step_printable(before, old(self).buffer.at(), token, self.mode); }
        match event {
            None => LineOutcome::Ignored,
            Some(LineEvent::Finished(text)) => {
                proof {
                    let whole = self.prefix@ + before;
                    if layout(whole, console.spec_cols()).row + 1 < console.spec_rows() {
                        lemma_layout_prefix(whole, self.prefix@.len() as int, console.spec_cols());
                        assert(whole.take(self.prefix@.len() as int) =~= self.prefix@ + Seq::<char>::empty());
                    }
                }
                uart.uart_write(text.as_str().as_bytes());
                let nl: [u8; 1] = [10];
                uart.uart_write(&nl);
                proof {
                    reveal_with_fuel(crlf, 2);
                    assert(crlf(nl@) =~= seq![13u8, 10u8]);
                }
                console.write_char('\n', FG, BG);
                LineOutcome::Finished(text)
            },
            Some(_) => {
                let (cols, rows) = console.size();
                if !fits_on_screen(self.prefix, self.buffer.as_str(), cols, rows) {
                    proof {
                        if layout(self.prefix@ + before, cols).row + 1 < rows {
                            lemma_only_inserts_outgrow(self.prefix@, before, old(self).buffer.at(), token, self.mode, cols, rows);
                        }
                    }
                    let ghost edited = self.buffer.text();
                    self.buffer.backspace();
                    proof {
                        if self.buffer.text() != edited {
                            lemma_remove_printable(edited, self.buffer.at() as int);
                        }
                    }
                    return LineOutcome::Ignored;
                }
                self.redraw(console);
                LineOutcome::Edited
            },
        }
    }
}

/// Only typing a character can make a line that fits on the screen outgrow it: moving the cursor
/// keeps the text, and every other edit only removes characters, which never makes the line end on
/// a later row. So when an edit is undone, the line and its cursor are back where they were.
pub proof fn lemma_only_inserts_outgrow(prefix: Seq<char>, text: Seq<char>, at: nat, token: Token, mode: Mode, cols: usize, rows: usize)
    requires
        1 <= cols,
        at <= text.len(),
        layout(prefix + text, cols).row + 1 < rows,
    ensures
        ({
            let (t, a, kind) = step(text, at, token, mode);
            kind matches Some(k) && !(k is Finished) && layout(prefix + t, cols).row + 1 >= rows
                ==> undone(t, a) == (text, at)
        }),
{
    let (t, a, kind) = step(text, at, token, mode);
    let whole = prefix + text;
    if t =~= text {
    } else if at > 0 && t =~= text.remove(at - 1) {
        lemma_layout_remove(whole, prefix.len() + at - 1, cols);
        assert(whole.remove(prefix.len() + at - 1) =~= prefix + t);
    } else if at < text.len() && t =~= text.remove(at as int) {
        lemma_layout_remove(whole, (prefix.len() + at) as int, cols);
        assert(whole.remove((prefix.len() + at) as int) =~= prefix + t);
    } else if t =~= text.skip(at as int) {
        lemma_layout_drop_front(prefix, text, at as int, cols);
    } else if t =~= text.take(at as int) {
        lemma_layout_prefix(whole, (prefix.len() + at) as int, cols);
        assert(whole.take((prefix.len() + at) as int) =~= prefix + t);
    } else if kind matches Some(k) && !(k is Finished) {
        assert(t.remove(at as int) =~= text);
    }
}

/// Feeding a token keeps a line free of the characters the console interprets: it only ever
/// inserts characters that are not control characters.
pub proof fn lemma_step_printable(text: Seq<char>, at: nat, token: Token, mode: Mode)
    requires
        printable(text),
        at <= text.len(),
    ensures
        printable(step(text, at, token, mode).0),
        step(text, at, token, mode).1 <= step(text, at, token, mode).0.len(),
{
    let out = step(text, at, token, mode).0;
    if out =~= text.remove(at as int) && at < text.len() {
        lemma_remove_printable(text, at as int);
    } else if at > 0 && out =~= text.remove(at - 1) {
        lemma_remove_printable(text, at - 1);
    } else if out =~= text.skip(at as int) {
        assert forall|i: int| 0 <= i < out.len() implies !is_interpreted(#[trigger] out[i]) by {
            assert(out[i] == text[i + at]);
        }
    } else if out =~= text.take(at as int) {
        assert forall|i: int| 0 <= i < out.len() implies !is_interpreted(#[trigger] out[i]) by {
            assert(out[i] == text[i]);
        }
    } else if out.len() == text.len() + 1 {
        assert forall|i: int| 0 <= i < out.len() implies !is_interpreted(#[trigger] out[i]) by {
            if i < at {
                assert(out[i] == text[i]);
            } else if i > at {
                assert(out[i] == text[i - 1]);
            }
        }
    }
}

/// Removing a character keeps a line printable.
proof fn lemma_remove_printable(text: Seq<char>, k: int)
    requires
        printable(text),
        0 <= k < text.len(),
    ensures
        printable(text.remove(k)),
{
    let out = text.remove(k);
    assert forall|i: int| 0 <= i < out.len() implies !is_interpreted(#[trigger] out[i]) by {
        if i < k {
            assert(out[i] == text[i]);
        } else {
            assert(out[i] == text[i + 1]);
        }
    }
}

} // verus!
