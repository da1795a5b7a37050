//! The shell: splitting a typed line into tokens (`lexer`) and those into a pipeline (`syntax`),
//! deciding what a line asks for (`run_line`) and what a builtin asks for (`builtins`), and starting
//! a fresh prompt.
//!
//! The prompt belongs here, not to the keyboard side: the line discipline edits and echoes a line
//! given whatever prefix to draw before it; what the prompt says, and when a fresh one is drawn, is
//! shell policy.

pub mod builtins;
pub mod launch;
pub mod lexer;
pub mod syntax;

use vstd::prelude::*;

use crate::console::input_layout::layout;
use crate::console::{written, written_all, Console, BG, FG, TAB_WIDTH};
use crate::exec::frame_stack::{with_top_stdio, FrameStack, ShellFrame, StdioBinding};
use crate::keyboard::line_discipline::{redrawn, redrawn_row, LineDiscipline, Mode};
use crate::platform::uart::{crlf, UartTranscript};
use crate::abi::{errmsg, spec_errmsg, EISDIR};
use crate::text::{chars_of, push_str, str_from_utf8, string_of};
use syntax::{error_message, parse, spec_parse, RedirView, Redirection, Segment};

verus! {

/// The prompt shown before the line being typed: fixed text, apart from the line itself, so
/// Backspace can never erase into it.
pub const PROMPT: &'static str = "> ";

/// Starts a fresh prompt: a new input line on the console (on a fresh row if whatever ran left the
/// cursor mid-row), the prompt drawn on it, and the serial transcript given the prompt too, on a line
/// of its own.
pub fn start_prompt(discipline: &mut LineDiscipline, console: &mut Console, uart: &mut UartTranscript)
    requires
        old(discipline).wf(),
        old(console).wf(),
        old(console).spec_cols() >= 2,
        old(console).spec_rows() >= 1,
        layout(PROMPT@ + old(discipline).line(), old(console).spec_cols()).row + 1 <= old(console).spec_rows(),
    ensures
        final(discipline).wf(),
        final(console).wf(),
        final(console).spec_cols() == old(console).spec_cols(),
        final(console).spec_rows() == old(console).spec_rows(),
        final(console).spec_fb() == old(console).spec_fb(),
        ({
            let cols = old(console).spec_cols();
            let rows = old(console).spec_rows();
            let begun = if old(console)@.cursor.col != 0 { written(old(console)@, cols, rows, '\n', FG, BG) } else { old(console)@ };
            &&& final(console)@ == redrawn(begun, cols, rows, begun.cursor.row, 1, PROMPT@ + old(discipline).line())
            &&& final(discipline).spec_row() == redrawn_row(cols, rows, begun.cursor.row, PROMPT@ + old(discipline).line())
        }),
        final(discipline).spec_prefix() == PROMPT@,
        final(discipline).spec_mode() == Mode::Prompt,
        final(discipline).line() == old(discipline).line(),
        final(uart).pending() == old(uart).pending()
            + (if old(uart).spec_at_line_start() { Seq::<u8>::empty() } else { seq![13u8, 10u8] })
            + seq![0x3eu8, 0x20u8],
        !final(uart).spec_at_line_start(),
{
    proof { reveal_strlit("> "); }
    discipline.begin(console, PROMPT, Mode::Prompt);
    proof { console.lemma_wf(); }
    discipline.redraw(console);
    uart.uart_ensure_newline();
    let bytes: [u8; 2] = [0x3e, 0x20];
    uart.uart_write(&bytes);
    proof {
        reveal_with_fuel(crate::platform::uart::crlf, 3);
        assert(crate::platform::uart::crlf(bytes@) =~= seq![0x3eu8, 0x20u8]);
    }
}

/// What a typed line asks the shell to do.
pub enum LinePlan {
    /// Nothing: the line is blank or only a comment.
    Nothing,
    /// Report this line of text as an error.
    Report(String),
    /// Run this command, with its redirections.
    Run(Segment),
}

/// Decides what `line` asks for: nothing for a blank line or a comment; a syntax error reported as
/// `syntax error: ` and the error's sentence; a pipeline of more than one stage reported as not
/// supported yet; else its one stage to run.
pub fn run_line(line: &str) -> (plan: LinePlan)
    ensures
        match spec_parse(line@) {
            Ok(None) => plan is Nothing,
            Err(e) => plan matches LinePlan::Report(m) && m@ == "syntax error: "@ + error_message(e),
            Ok(Some(segs)) => if segs.len() > 1 {
                plan matches LinePlan::Report(m) && m@ == "pipes are not supported yet"@
            } else {
                plan matches LinePlan::Run(s) && s@ == segs[0]
            },
        },
{
    match parse(line) {
        Ok(None) => LinePlan::Nothing,
        Err(error) => {
            let mut m = String::new();
            push_str(&mut m, "syntax error: ");
            let sentence = error.to_string();
            push_str(&mut m, sentence.as_str());
            LinePlan::Report(m)
        },
        Ok(Some(mut pipeline)) => {
            if pipeline.len() > 1 {
                let mut m = String::new();
                push_str(&mut m, "pipes are not supported yet");
                LinePlan::Report(m)
            } else {
                let first = pipeline.remove(0);
                LinePlan::Run(first)
            }
        },
    }
}

/// Shows one line the shell reports -- a syntax error, a builtin's complaint, a program that could
/// not start -- on the terminal: on the serial transcript on a line of its own, and on the console,
/// starting a fresh row if the cursor is mid-row. (Under a `2>` redirect the line goes to the file
/// instead, which is the caller's.)
pub fn report_line(console: &mut Console, uart: &mut UartTranscript, msg: &str)
    requires
        old(console).wf(),
        old(console).spec_rows() >= 1,
        old(console).spec_cols() >= 2,
        old(console).spec_cols() + TAB_WIDTH <= usize::MAX,
    ensures
        final(console).wf(),
        final(console).spec_cols() == old(console).spec_cols(),
        final(console).spec_rows() == old(console).spec_rows(),
        final(console).spec_fb() == old(console).spec_fb(),
        ({
            let cols = old(console).spec_cols();
            let rows = old(console).spec_rows();
            let begun = if old(console)@.cursor.col != 0 { written(old(console)@, cols, rows, '\n', FG, BG) } else { old(console)@ };
            final(console)@ == written_all(begun, cols, rows, msg@.push('\n'), FG, BG)
        }),
        final(uart).pending() == old(uart).pending()
            + (if old(uart).spec_at_line_start() { Seq::<u8>::empty() } else { seq![13u8, 10u8] })
            + crlf(vstd::utf8::encode_utf8(msg@)) + seq![13u8, 10u8],
        final(uart).spec_at_line_start(),
{
    uart.uart_ensure_newline();
    uart.uart_write(msg.as_bytes());
    let nl: [u8; 1] = [10];
    uart.uart_write(&nl);
    proof {
        reveal_with_fuel(crlf, 2);
        assert(crlf(nl@) =~= seq![13u8, 10u8]);
    }
    proof { console.lemma_wf(); }
    if console.cursor().1 != 0 {
        console.write_char('\n', FG, BG);
    }
    let mut cs = chars_of(msg);
    cs.push('\n');
    console.write_chars(&cs, FG, BG);
}

/// How many scripts may be nested -- a script's line running another script, and so on -- before
/// the next is refused: protects the kernel stack from a script that runs itself.
pub const MAX_SCRIPT_DEPTH: usize = 16;

/// `line` without the carriage return of a `\r\n` ending.
pub open spec fn strip_cr(line: Seq<char>) -> Seq<char> {
    if line.len() > 0 && line.last() == '\r' { line.drop_last() } else { line }
}

/// The lines of `s` from position `i` on, after the finished lines `done` and the unfinished `cur`:
/// a line ends at `\n` (dropping a `\r` before it); a last line without one counts only if it is
/// not empty.
pub open spec fn line_pieces(s: Seq<char>, i: int, done: Seq<Seq<char>>, cur: Seq<char>) -> Seq<Seq<char>>
    decreases s.len() - i,
{
    if i >= s.len() {
        if cur.len() == 0 { done } else { done.push(cur) }
    } else if s[i] == '\n' {
        line_pieces(s, i + 1, done.push(strip_cr(cur)), Seq::empty())
    } else {
        line_pieces(s, i + 1, done, cur.push(s[i]))
    }
}

/// The lines of `s`, as `str::lines` splits it.
pub open spec fn spec_lines(s: Seq<char>) -> Seq<Seq<char>> {
    line_pieces(s, 0, Seq::empty(), Seq::empty())
}

proof fn lemma_pieces_ignore_final_newline(s: Seq<char>, ending: Seq<char>, i: int, done: Seq<Seq<char>>, cur: Seq<char>)
    requires
        ending == seq!['\n'] || ending == seq!['\r', '\n'],
        s.len() > 0,
        s.last() != '\n',
        s.last() != '\r',
        0 <= i <= s.len(),
        i == s.len() ==> cur.len() > 0 && cur.last() == s.last(),
    ensures
        line_pieces(s + ending, i, done, cur) == line_pieces(s, i, done, cur),
    decreases s.len() - i,
{
    let t = s + ending;
    assert(t.len() == s.len() + ending.len());
    if i < s.len() {
        assert(t[i] == s[i]);
        if s[i] == '\n' {
            lemma_pieces_ignore_final_newline(s, ending, i + 1, done.push(strip_cr(cur)), Seq::empty());
            assert(line_pieces(t, i, done, cur) == line_pieces(t, i + 1, done.push(strip_cr(cur)), Seq::empty()));
            assert(line_pieces(s, i, done, cur) == line_pieces(s, i + 1, done.push(strip_cr(cur)), Seq::empty()));
        } else {
            lemma_pieces_ignore_final_newline(s, ending, i + 1, done, cur.push(s[i]));
            assert(line_pieces(t, i, done, cur) == line_pieces(t, i + 1, done, cur.push(s[i])));
            assert(line_pieces(s, i, done, cur) == line_pieces(s, i + 1, done, cur.push(s[i])));
        }
    } else {
        assert(line_pieces(s, i, done, cur) == done.push(cur));
        assert(strip_cr(cur) == cur);
        if ending == seq!['\n'] {
            assert(t[i] == '\n');
            assert(line_pieces(t, i + 1, done.push(strip_cr(cur)), Seq::empty()) == done.push(strip_cr(cur)));
            assert(line_pieces(t, i, done, cur) == line_pieces(t, i + 1, done.push(strip_cr(cur)), Seq::empty()));
        } else {
            assert(t[i] == '\r');
            assert(t[i + 1] == '\n');
            let with_cr = cur.push('\r');
            assert(with_cr.last() == '\r');
            assert(strip_cr(with_cr) =~= cur);
            assert(line_pieces(t, i + 2, done.push(strip_cr(with_cr)), Seq::empty()) == done.push(strip_cr(with_cr)));
            assert(line_pieces(t, i + 1, done, with_cr) == line_pieces(t, i + 2, done.push(strip_cr(with_cr)), Seq::empty()));
            assert(line_pieces(t, i, done, cur) == line_pieces(t, i + 1, done, with_cr));
        }
    }
}

/// A script's last line counts whether or not it ends in a line ending: text that is not empty and
/// does not already end in one has the same lines with a final `\n` or `\r\n` as without.
pub proof fn lemma_final_line_ending_is_optional(s: Seq<char>, ending: Seq<char>)
    requires
        ending == seq!['\n'] || ending == seq!['\r', '\n'],
        s.len() > 0,
        s.last() != '\n',
        s.last() != '\r',
    ensures
        spec_lines(s + ending) == spec_lines(s),
{
    lemma_pieces_ignore_final_newline(s, ending, 0, Seq::empty(), Seq::empty());
}

/// The lines of the script file whose entry is a directory (`is_directory`) or holds `bytes`, run at
/// nesting depth `depth`: a directory is refused (`Is a directory`), and so are contents that are not
/// UTF-8 text (`not valid UTF-8`); otherwise what `script_lines` gives for the text.
pub fn script_file_lines(is_directory: bool, bytes: &[u8], depth: usize) -> (r: Result<Vec<String>, String>)
    ensures
        is_directory ==> (r matches Err(m) && m@ == spec_errmsg(EISDIR)),
        !is_directory && !vstd::utf8::valid_utf8(bytes@) ==> (r matches Err(m) && m@ == "not valid UTF-8"@),
        !is_directory && vstd::utf8::valid_utf8(bytes@) ==> ({
            let text = vstd::utf8::decode_utf8(bytes@);
            &&& depth >= MAX_SCRIPT_DEPTH ==> (r matches Err(m) && m@ == "too many levels of scripts"@)
            &&& depth < MAX_SCRIPT_DEPTH ==> (r matches Ok(v) && v@.len() == spec_lines(text).len()
                && forall|k: int| 0 <= k < v@.len() ==> #[trigger] v@[k]@ == spec_lines(text)[k])
        }),
{
    if is_directory {
        let mut m = String::new();
        push_str(&mut m, errmsg(EISDIR));
        return Err(m);
    }
    match str_from_utf8(bytes) {
        Some(content) => script_lines(content, depth),
        None => {
            let mut m = String::new();
            push_str(&mut m, "not valid UTF-8");
            Err(m)
        },
    }
}

/// The lines a script at nesting depth `depth` runs -- `content`'s lines, each as if typed at the
/// prompt -- or the refusal when scripts are already nested `MAX_SCRIPT_DEPTH` deep.
pub fn script_lines(content: &str, depth: usize) -> (r: Result<Vec<String>, String>)
    ensures
        depth >= MAX_SCRIPT_DEPTH ==> (r matches Err(m) && m@ == "too many levels of scripts"@),
        depth < MAX_SCRIPT_DEPTH ==> (r matches Ok(v) && v@.len() == spec_lines(content@).len()
            && forall|k: int| 0 <= k < v@.len() ==> #[trigger] v@[k]@ == spec_lines(content@)[k]),
{
    if depth >= MAX_SCRIPT_DEPTH {
        let mut m = String::new();
        push_str(&mut m, "too many levels of scripts");
        return Err(m);
    }
    let s = chars_of(content);
    let mut done: Vec<String> = Vec::new();
    let mut cur: Vec<char> = Vec::new();
    let mut i: usize = 0;
    assert(done@.map_values(|l: String| l@) =~= Seq::<Seq<char>>::empty());
    assert(cur@ =~= Seq::<char>::empty());
    while i < s.len()
        invariant
            s@ == content@,
            i <= s@.len(),
            spec_lines(content@) == line_pieces(s@, i as int, done@.map_values(|l: String| l@), cur@),
        decreases s@.len() - i,
    {
        let c = s[i];
        if c == '\n' {
            let n = cur.len();
            let k = if n > 0 && cur[n - 1] == '\r' { n - 1 } else { n };
            let line = crate::text::string_of_prefix(&cur, k);
            proof {
                assert(line@ == strip_cr(cur@)) by {
                    if n > 0 && cur@[n - 1] == '\r' {
                        assert(cur@.take(k as int) =~= cur@.drop_last());
                    } else {
                        assert(cur@.take(k as int) =~= cur@);
                    }
                }
            }
            let ghost before = done@;
            done.push(line);
            assert(done@.map_values(|l: String| l@) =~= before.map_values(|l: String| l@).push(strip_cr(cur@)));
            cur = Vec::new();
            assert(cur@ =~= Seq::<char>::empty());
        } else {
            cur.push(c);
        }
        i += 1;
    }
    if cur.len() > 0 {
        let ghost before = done@;
        done.push(string_of(&cur));
        assert(done@.map_values(|l: String| l@) =~= before.map_values(|l: String| l@).push(cur@));
    }
    Ok(done)
}

/// What a redirection needs opened before it can be bound, as (path, for writing, appending); nothing
/// for `>&`, which only copies a binding.
pub fn redirect_target(r: &Redirection) -> (t: Option<(&str, bool, bool)>)
    ensures
        match r@ {
            RedirView::In(path) => t matches Some(x) && x.0@ == path && !x.1 && !x.2,
            RedirView::Out(_, path, append) => t matches Some(x) && x.0@ == path && x.1 && x.2 == append,
            RedirView::Dup(_, _) => t is None,
        },
{
    match r {
        Redirection::In(path) => Some((path.as_str(), false, false)),
        Redirection::Out { fd: _, path, append } => Some((path.as_str(), true, *append)),
        Redirection::Dup { fd: _, target: _ } => None,
    }
}

/// `stdio` with stream `n` bound to `b`.
pub open spec fn set_stream(stdio: [StdioBinding; 3], n: int, b: StdioBinding) -> [StdioBinding; 3] {
    [
        if n == 0 { b } else { stdio[0] },
        if n == 1 { b } else { stdio[1] },
        if n == 2 { b } else { stdio[2] },
    ]
}

/// The streams after binding redirection `r` (whose target, if it has one, was opened as `handle`):
/// `<` makes stdin the file, `>`/`>>` make their descriptor the file, and `>&` makes its descriptor
/// whatever the target descriptor is bound to now.
pub open spec fn bound(stdio: [StdioBinding; 3], r: RedirView, handle: usize) -> [StdioBinding; 3] {
    match r {
        RedirView::In(_) => set_stream(stdio, 0, StdioBinding::File(handle)),
        RedirView::Out(fd, _, _) => set_stream(stdio, fd as int, StdioBinding::File(handle)),
        RedirView::Dup(fd, target) => set_stream(stdio, fd as int, stdio[target as int]),
    }
}

/// Whether `r` names only the three standard streams.
pub open spec fn standard_streams(r: RedirView) -> bool {
    match r {
        RedirView::In(_) => true,
        RedirView::Out(fd, _, _) => fd < 3,
        RedirView::Dup(fd, target) => fd < 3 && target < 3,
    }
}

/// A redirection rebinds exactly one stream and leaves the other two as they were: `< f` makes
/// stdin the opened file, `n> f` and `n>> f` make stream `n` the opened file, and `n>&m` makes stream
/// `n` whatever stream `m` was bound to.
pub proof fn lemma_redirect_rebinds_one_stream(stdio: [StdioBinding; 3], r: RedirView, handle: usize)
    requires
        standard_streams(r),
    ensures
        ({
            let n: int = match r {
                RedirView::In(_) => 0,
                RedirView::Out(fd, _, _) => fd as int,
                RedirView::Dup(fd, _) => fd as int,
            };
            let after = bound(stdio, r, handle);
            &&& after[n] == match r {
                RedirView::In(_) => StdioBinding::File(handle),
                RedirView::Out(_, _, _) => StdioBinding::File(handle),
                RedirView::Dup(_, target) => stdio[target as int],
            }
            &&& forall|k: int| 0 <= k < 3 && k != n ==> #[trigger] after[k] == stdio[k]
        }),
{
}

/// Binds redirection `r` on the current frame, in the order the line gives them, so each is already
/// in effect for the ones after it (`2>&1 > f` and `> f 2>&1` differ). `handle` is the file its target
/// was opened as (ignored for `>&`).
pub fn bind_redirect(frames: &mut FrameStack, r: &Redirection, handle: usize)
    requires
        old(frames).wf(),
        standard_streams(r@),
    ensures
        final(frames).wf(),
        final(frames)@ == with_top_stdio(old(frames)@, bound(old(frames)@.last().stdio, r@, handle)),
{
    let top = frames.top_mut();
    let ghost before = top.stdio;
    let ghost cwd = top.cwd;
    match r {
        Redirection::In(_) => {
            top.stdio[0] = StdioBinding::File(handle);
        },
        Redirection::Out { fd, path: _, append: _ } => {
            top.stdio[*fd as usize] = StdioBinding::File(handle);
        },
        Redirection::Dup { fd, target } => {
            let b = top.stdio[*target as usize];
            top.stdio[*fd as usize] = b;
        },
    }
    assert(top.stdio@ =~= bound(before, r@, handle)@);
    assert(top.stdio == bound(before, r@, handle));
    assert(*top == (ShellFrame { cwd: cwd, stdio: bound(before, r@, handle) }));
}

} // verus!
