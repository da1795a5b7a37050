//! Turns a command line into a pipeline: the stages joined by `|`, each with its words (the program and
//! its arguments) and its redirections in the order typed -- the order matters, since redirections
//! apply left to right, so `cmd > f 2>&1` and `cmd 2>&1 > f` differ.
//!
//! Only the shape is checked here: a redirection needs a file name after it, `>&` needs `1` or `2`, and
//! no stage may be empty.

use vstd::prelude::*;

use super::lexer::{lex, lex_error_view, redir_text, spec_lex, LexError, RedirOp, Token, TokenView};
use crate::text::{chars_of, push_str, str_eq};

verus! {

/// One redirection.
#[derive(Clone, Debug, PartialEq, Eq)]
pub enum Redirection {
    /// `< path`: standard input from a file.
    In(String),
    /// `> path` / `2> path` (`append: false`), `>> path` / `2>> path` (`append: true`).
    Out { fd: u8, path: String, append: bool },
    /// `>&2`, `2>&1`: make `fd` another name for what `target` is.
    Dup { fd: u8, target: u8 },
}

/// A redirection as the contracts see it.
pub enum RedirView {
    In(Seq<char>),
    Out(u8, Seq<char>, bool),
    Dup(u8, u8),
}

impl View for Redirection {
    type V = RedirView;

    open spec fn view(&self) -> RedirView {
        match self {
            Redirection::In(path) => RedirView::In(path@),
            Redirection::Out { fd, path, append } => RedirView::Out(*fd, path@, *append),
            Redirection::Dup { fd, target } => RedirView::Dup(*fd, *target),
        }
    }
}

/// One stage of a pipeline: the program and its arguments, plus its own redirections, in the order
/// typed. `argv` is empty for a stage with only redirections.
#[derive(Clone, Debug, PartialEq, Eq)]
pub struct Segment {
    pub argv: Vec<String>,
    pub redirs: Vec<Redirection>,
}

/// A stage as the contracts see it: its words and its redirections.
pub struct SegmentView {
    pub argv: Seq<Seq<char>>,
    pub redirs: Seq<RedirView>,
}

impl View for Segment {
    type V = SegmentView;

    open spec fn view(&self) -> SegmentView {
        SegmentView {
            argv: self.argv@.map_values(|w: String| w@),
            redirs: self.redirs@.map_values(|r: Redirection| r@),
        }
    }
}

/// One or more `Segment`s joined by `|`.
pub type Pipeline = Vec<Segment>;

/// Why a line is not a pipeline.
#[derive(Clone, Debug, PartialEq, Eq)]
pub enum SyntaxError {
    Lex(LexError),
    /// A redirection operator with no file name after it.
    MissingTarget(&'static str),
    /// `>&` followed by anything but `1` or `2`.
    BadDupTarget,
    /// A stage with no words and no redirections: `| a`, `a |`, `a | | b`.
    EmptyCommand,
}

/// An error as the contracts see it.
pub enum ErrorView {
    Lex((bool, Seq<char>)),
    MissingTarget(Seq<char>),
    BadDupTarget,
    EmptyCommand,
}

impl View for SyntaxError {
    type V = ErrorView;

    open spec fn view(&self) -> ErrorView {
        match self {
            SyntaxError::Lex(e) => ErrorView::Lex(lex_error_view(*e)),
            SyntaxError::MissingTarget(op) => ErrorView::MissingTarget(op@),
            SyntaxError::BadDupTarget => ErrorView::BadDupTarget,
            SyntaxError::EmptyCommand => ErrorView::EmptyCommand,
        }
    }
}

pub open spec fn fd_or_stdout(fd: Option<u8>) -> u8 {
    match fd {
        Some(d) => d,
        None => 1u8,
    }
}

/// The redirection an operator and the word after it make.
pub open spec fn redirection(fd: Option<u8>, op: RedirOp, word: Seq<char>) -> Result<RedirView, ErrorView> {
    match op {
        RedirOp::In => Ok(RedirView::In(word)),
        RedirOp::Out => Ok(RedirView::Out(fd_or_stdout(fd), word, false)),
        RedirOp::Append => Ok(RedirView::Out(fd_or_stdout(fd), word, true)),
        RedirOp::DupOut => if word == seq!['1'] {
            Ok(RedirView::Dup(fd_or_stdout(fd), 1))
        } else if word == seq!['2'] {
            Ok(RedirView::Dup(fd_or_stdout(fd), 2))
        } else {
            Err(ErrorView::BadDupTarget)
        },
    }
}

/// The words and redirections of the stage running from token `p` up to the next `|` or the end, and
/// where it ends -- or the first problem in it.
pub open spec fn stage_items(ts: Seq<TokenView>, p: int) -> Result<(Seq<Seq<char>>, Seq<RedirView>, int), ErrorView>
    decreases ts.len() - p,
{
    if p < 0 || p >= ts.len() {
        Ok((Seq::empty(), Seq::empty(), p))
    } else {
        match ts[p] {
            TokenView::Pipe => Ok((Seq::empty(), Seq::empty(), p)),
            TokenView::Word(w, _) => match stage_items(ts, p + 1) {
                Ok((args, redirs, e)) => Ok((seq![w] + args, redirs, e)),
                Err(e) => Err(e),
            },
            TokenView::Redir(fd, op) => if p + 1 >= ts.len() {
                Err(ErrorView::MissingTarget(redir_text(op)))
            } else {
                match ts[p + 1] {
                    TokenView::Word(w, _) => match redirection(fd, op, w) {
                        Err(e) => Err(e),
                        Ok(r) => match stage_items(ts, p + 2) {
                            Ok((args, redirs, e)) => Ok((args, seq![r] + redirs, e)),
                            Err(e) => Err(e),
                        },
                    },
                    _ => Err(ErrorView::MissingTarget(redir_text(op))),
                }
            },
        }
    }
}

/// The stage starting at token `p`, refused if it has neither words nor redirections.
pub open spec fn stage(ts: Seq<TokenView>, p: int) -> Result<(SegmentView, int), ErrorView> {
    match stage_items(ts, p) {
        Err(e) => Err(e),
        Ok((args, redirs, e)) => if args.len() == 0 && redirs.len() == 0 {
            Err(ErrorView::EmptyCommand)
        } else {
            Ok((SegmentView { argv: args, redirs }, e))
        },
    }
}

/// The stages from token `p` on, each followed by `|` but the last.
pub open spec fn stages_from(ts: Seq<TokenView>, p: int) -> Result<Seq<SegmentView>, ErrorView>
    decreases ts.len() - p,
{
    match stage(ts, p) {
        Err(e) => Err(e),
        Ok((seg, e)) => if p <= e < ts.len() {
            match stages_from(ts, e + 1) {
                Ok(rest) => Ok(seq![seg] + rest),
                Err(err) => Err(err),
            }
        } else {
            Ok(seq![seg])
        },
    }
}

/// What `parse` makes of the line `s`: nothing for a blank or comment line, else its stages, or the
/// first problem found reading it left to right.
pub open spec fn spec_parse(s: Seq<char>) -> Result<Option<Seq<SegmentView>>, ErrorView> {
    match spec_lex(s) {
        Err(e) => Err(ErrorView::Lex(e)),
        Ok(ts) => if ts.len() == 0 {
            Ok(None)
        } else {
            match stages_from(ts, 0) {
                Ok(segs) => Ok(Some(segs)),
                Err(e) => Err(e),
            }
        },
    }
}


pub open spec fn tokens_view(tokens: Seq<Token>) -> Seq<TokenView> {
    tokens.map_values(|t: Token| t@)
}

pub open spec fn combine_items(
    args: Seq<Seq<char>>,
    redirs: Seq<RedirView>,
    r: Result<(Seq<Seq<char>>, Seq<RedirView>, int), ErrorView>,
) -> Result<(Seq<Seq<char>>, Seq<RedirView>, int), ErrorView> {
    match r {
        Ok((a, rs, e)) => Ok((args + a, redirs + rs, e)),
        Err(e) => Err(e),
    }
}

fn missing_target(op: RedirOp) -> (e: SyntaxError)
    ensures
        e@ == ErrorView::MissingTarget(redir_text(op)),
{
    SyntaxError::MissingTarget(op.text())
}

/// Whether `w` is exactly the one character `c`.
fn is_single(w: &String, c: char) -> (b: bool)
    ensures
        b == (w@ == seq![c]),
{
    let cs = chars_of(w.as_str());
    let b = cs.len() == 1 && cs[0] == c;
    assert(b ==> cs@ =~= seq![c]);
    b
}

/// The stage starting at token `p0`: its words and redirections, and the index of the `|` or the end
/// that closes it.
fn parse_stage(tokens: &Vec<Token>, p0: usize) -> (r: Result<(Segment, usize), SyntaxError>)
    requires
        p0 <= tokens@.len(),
    ensures
        match stage(tokens_view(tokens@), p0 as int) {
            Ok((seg, e)) => r matches Ok((s, end)) && s@ == seg && end == e,
            Err(e) => r matches Err(err) && err@ == e,
        },
        r matches Ok((_, end)) ==> p0 <= end <= tokens@.len(),
{
    let ghost ts = tokens_view(tokens@);
    let n = tokens.len();
    let mut p = p0;
    let mut argv: Vec<String> = Vec::new();
    let mut redirs: Vec<Redirection> = Vec::new();
    loop
        invariant
            n == tokens@.len(),
            ts == tokens_view(tokens@),
            p0 <= p <= n,
            stage_items(ts, p0 as int) == combine_items(
                argv@.map_values(|w: String| w@),
                redirs@.map_values(|r: Redirection| r@),
                stage_items(ts, p as int),
            ),
        ensures
            p0 <= p <= n,
            p >= n || tokens@[p as int] is Pipe,
            stage_items(ts, p0 as int) == combine_items(
                argv@.map_values(|w: String| w@),
                redirs@.map_values(|r: Redirection| r@),
                stage_items(ts, p as int),
            ),
        decreases n - p,
    {
        if p >= n {
            break;
        }
        match &tokens[p] {
            Token::Pipe => {
                break;
            },
            Token::Word { text, quoted } => {
                let w = text.clone();
                proof {
                    let a = argv@.map_values(|w: String| w@);
                    assert(argv@.push(w).map_values(|w: String| w@) =~= a.push(text@));
                    match stage_items(ts, p + 1) {
                        Ok((a2, r2, e)) => {
                            assert(a + (seq![text@] + a2) =~= a.push(text@) + a2);
                        },
                        Err(e) => {},
                    }
                }
                argv.push(w);
                p += 1;
            },
            Token::Redir { fd, op } => {
                if p + 1 >= n {
                    return Err(missing_target(*op));
                }
                let word = match &tokens[p + 1] {
                    Token::Word { text, quoted } => text,
                    _ => return Err(missing_target(*op)),
                };
                let fd1 = match fd {
                    Some(d) => *d,
                    None => 1u8,
                };
                let redir = match op {
                    RedirOp::In => Redirection::In(word.clone()),
                    RedirOp::Out => Redirection::Out { fd: fd1, path: word.clone(), append: false },
                    RedirOp::Append => Redirection::Out { fd: fd1, path: word.clone(), append: true },
                    RedirOp::DupOut => if is_single(word, '1') {
                        Redirection::Dup { fd: fd1, target: 1 }
                    } else if is_single(word, '2') {
                        Redirection::Dup { fd: fd1, target: 2 }
                    } else {
                        return Err(SyntaxError::BadDupTarget);
                    },
                };
                proof {
                    let rs = redirs@.map_values(|r: Redirection| r@);
                    assert(redirs@.push(redir).map_values(|r: Redirection| r@) =~= rs.push(redir@));
                    assert(redirection(*fd, *op, word@) == Ok::<RedirView, ErrorView>(redir@));
                    match stage_items(ts, p + 2) {
                        Ok((a2, r2, e)) => {
                            assert(rs + (seq![redir@] + r2) =~= rs.push(redir@) + r2);
                        },
                        Err(e) => {},
                    }
                }
                redirs.push(redir);
                p += 2;
            },
        }
    }
    proof {
        assert(argv@.map_values(|w: String| w@) + Seq::<Seq<char>>::empty() =~= argv@.map_values(|w: String| w@));
        assert(redirs@.map_values(|r: Redirection| r@) + Seq::<RedirView>::empty() =~= redirs@.map_values(|r: Redirection| r@));
    }
    if argv.len() == 0 && redirs.len() == 0 {
        return Err(SyntaxError::EmptyCommand);
    }
    Ok((Segment { argv, redirs }, p))
}

/// Parses `line`. `Ok(None)` for a line with nothing on it (blank, or only a comment).
pub fn parse(line: &str) -> (r: Result<Option<Pipeline>, SyntaxError>)
    ensures
        match spec_parse(line@) {
            Ok(None) => r matches Ok(None),
            Ok(Some(segs)) => r matches Ok(Some(p)) && p@.map_values(|s: Segment| s@) == segs,
            Err(e) => r matches Err(err) && err@ == e,
        },
        r matches Ok(Some(p)) ==> p@.len() >= 1,
{
    let tokens = match lex(line) {
        Ok(t) => t,
        Err(e) => return Err(SyntaxError::Lex(e)),
    };
    if tokens.len() == 0 {
        return Ok(None);
    }
    let ghost ts = tokens_view(tokens@);
    let n = tokens.len();
    let mut segments: Vec<Segment> = Vec::new();
    let mut p: usize = 0;
    loop
        invariant
            n == tokens@.len(),
            n > 0,
            ts == tokens_view(tokens@),
            spec_lex(line@) == Ok::<Seq<TokenView>, (bool, Seq<char>)>(ts),
            p <= n,
            spec_parse(line@) == match stages_from(ts, p as int) {
                Ok(rest) => Ok(Some(segments@.map_values(|s: Segment| s@) + rest)),
                Err(e) => Err(e),
            },
        decreases n - p,
    {
        let (seg, end) = match parse_stage(&tokens, p) {
            Ok(r) => r,
            Err(e) => return Err(e),
        };
        proof {
            let prev = segments@.map_values(|s: Segment| s@);
            assert(segments@.push(seg).map_values(|s: Segment| s@) =~= prev.push(seg@));
            if end < n {
                match stages_from(ts, end + 1) {
                    Ok(rest) => {
                        assert(prev + (seq![seg@] + rest) =~= prev.push(seg@) + rest);
                    },
                    Err(e) => {},
                }
            } else {
                assert(prev + seq![seg@] =~= prev.push(seg@));
            }
        }
        segments.push(seg);
        if end >= n {
            return Ok(Some(segments));
        }
        p = end + 1;
    }
}


/// The sentence an error reads as.
pub open spec fn error_message(e: ErrorView) -> Seq<char> {
    match e {
        ErrorView::Lex((true, what)) => if what == "escape"@ {
            "a backslash at the end of the line"@
        } else {
            "unterminated "@ + what
        },
        ErrorView::Lex((false, what)) => "`"@ + what + "` is not supported"@,
        ErrorView::MissingTarget(op) => "no file name after `"@ + op + "`"@,
        ErrorView::BadDupTarget => "`>&` must be followed by 1 or 2"@,
        ErrorView::EmptyCommand => "missing command"@,
    }
}

impl SyntaxError {
    /// The error as a sentence, for the shell's `syntax error: ...` message.
    pub fn to_string(&self) -> (m: String)
        ensures
            m@ == error_message(self@),
    {
        let mut m = String::new();
        match self {
            SyntaxError::Lex(LexError::Unterminated(what)) => {
                if str_eq(what, "escape") {
                    push_str(&mut m, "a backslash at the end of the line");
                } else {
                    push_str(&mut m, "unterminated ");
                    push_str(&mut m, what);
                }
            },
            SyntaxError::Lex(LexError::Unsupported(what)) => {
                push_str(&mut m, "`");
                push_str(&mut m, what);
                push_str(&mut m, "` is not supported");
            },
            SyntaxError::MissingTarget(op) => {
                push_str(&mut m, "no file name after `");
                push_str(&mut m, op);
                push_str(&mut m, "`");
            },
            SyntaxError::BadDupTarget => push_str(&mut m, "`>&` must be followed by 1 or 2"),
            SyntaxError::EmptyCommand => push_str(&mut m, "missing command"),
        }
        m
    }
}

} // verus!
