//! Splits a command line into tokens: words, `|`, and redirection operators.
//!
//! The rules are POSIX's, as far as this shell goes:
//! - A word is what lies between blanks. Single quotes are fully literal. Inside double quotes a
//!   backslash escapes `"`, `\`, `$` and a backtick; any other backslash there is itself. An unquoted
//!   backslash makes the next character literal. Quoting or escaping any part of a word makes the whole
//!   word `quoted`.
//! - `#` starts a comment only at the start of a word.
//! - `|`, `<`, `>`, `>>` and `>&` end a word and are operators. An unquoted word that is just `1` or `2`
//!   (or `0` before `<`) immediately followed by an operator is that operator's descriptor number.
//! - `$`, backtick, `*`, `?`, `~`, `{` and `}` are ordinary characters.
//! - `;`, `&`, `(`, `)`, `<<` and `<&` are not supported, and are refused.

use vstd::prelude::*;

use crate::text::{chars_of, string_of};

verus! {

/// A redirection operator.
#[derive(Clone, Copy, Debug, PartialEq, Eq, Structural)]
pub enum RedirOp {
    /// `<`
    In,
    /// `>`
    Out,
    /// `>>`
    Append,
    /// `>&`: duplicate an output descriptor onto another (`2>&1`).
    DupOut,
}

impl RedirOp {
    /// The operator as typed, for messages.
    pub fn text(self) -> (t: &'static str)
        ensures
            t@ == redir_text(self),
    {
        proof {
            reveal_strlit("<");
            reveal_strlit(">");
            reveal_strlit(">>");
            reveal_strlit(">&");
        }
        match self {
            RedirOp::In => "<",
            RedirOp::Out => ">",
            RedirOp::Append => ">>",
            RedirOp::DupOut => ">&",
        }
    }
}

/// What each operator looks like.
pub open spec fn redir_text(op: RedirOp) -> Seq<char> {
    match op {
        RedirOp::In => seq!['<'],
        RedirOp::Out => seq!['>'],
        RedirOp::Append => seq!['>', '>'],
        RedirOp::DupOut => seq!['>', '&'],
    }
}

/// One token of a command line.
#[derive(Clone, Debug, PartialEq, Eq)]
pub enum Token {
    /// A word. `quoted` is whether any part of it was quoted or escaped.
    Word { text: String, quoted: bool },
    /// `|`
    Pipe,
    /// A redirection operator and the descriptor number typed right before it, if any.
    Redir { fd: Option<u8>, op: RedirOp },
}

/// A token as the contracts see it.
pub enum TokenView {
    Word(Seq<char>, bool),
    Pipe,
    Redir(Option<u8>, RedirOp),
}

impl View for Token {
    type V = TokenView;

    open spec fn view(&self) -> TokenView {
        match self {
            Token::Word { text, quoted } => TokenView::Word(text@, *quoted),
            Token::Pipe => TokenView::Pipe,
            Token::Redir { fd, op } => TokenView::Redir(*fd, *op),
        }
    }
}

/// Why a line could not be split into tokens.
#[derive(Clone, Debug, PartialEq, Eq)]
pub enum LexError {
    /// A quote or a trailing backslash with nothing after it: `"quote"` or `"escape"`.
    Unterminated(&'static str),
    /// Syntax this shell doesn't have: `;`, `&`, `(`, `)`, `<<`, `<&`.
    Unsupported(&'static str),
}

/// The errors as the contracts see them: the kind and the text it carries.
pub open spec fn lex_error_view(e: LexError) -> (bool, Seq<char>) {
    match e {
        LexError::Unterminated(what) => (true, what@),
        LexError::Unsupported(what) => (false, what@),
    }
}

pub open spec fn unterminated(what: Seq<char>) -> (bool, Seq<char>) {
    (true, what)
}

pub open spec fn unsupported(what: Seq<char>) -> (bool, Seq<char>) {
    (false, what)
}

pub open spec fn is_blank(c: char) -> bool {
    c == ' ' || c == '\t' || c == '\x0B' || c == '\x0C' || c == '\r' || c == '\n'
}

pub open spec fn is_operator_char(c: char) -> bool {
    c == '|' || c == '<' || c == '>' || c == ';' || c == '&' || c == '(' || c == ')'
}

/// A character that stands for itself in an unquoted word (`#` included, after the word's start).
pub open spec fn is_plain(c: char) -> bool {
    !is_blank(c) && !is_operator_char(c) && c != '"' && c != '\'' && c != '\\'
}

/// One of the four characters a backslash escapes inside double quotes.
pub open spec fn is_dquote_special(c: char) -> bool {
    c == '"' || c == '\\' || c == '$' || c == '`'
}

/// Where a word scan is: in unquoted text, inside single quotes, or inside double quotes.
#[derive(Clone, Copy, PartialEq, Eq, Structural)]
pub enum ScanMode {
    Plain,
    Single,
    Double,
}

/// The rest of a word from position `p` of `s`, scanning in `mode`: its text, whether any of it was
/// quoted or escaped, and where it ends -- or why it cannot end.
pub open spec fn word_scan(s: Seq<char>, p: int, mode: ScanMode) -> Result<(Seq<char>, bool, int), (bool, Seq<char>)>
    decreases s.len() - p,
{
    if p < 0 {
        Ok((Seq::empty(), false, p))
    } else if p >= s.len() {
        match mode {
            ScanMode::Plain => Ok((Seq::empty(), false, p)),
            _ => Err(unterminated(seq!['q', 'u', 'o', 't', 'e'])),
        }
    } else {
        let c = s[p];
        match mode {
            ScanMode::Plain => if c == '\'' {
                quoted_rest(word_scan(s, p + 1, ScanMode::Single))
            } else if c == '"' {
                quoted_rest(word_scan(s, p + 1, ScanMode::Double))
            } else if c == '\\' {
                if p + 1 >= s.len() {
                    Err(unterminated(seq!['e', 's', 'c', 'a', 'p', 'e']))
                } else {
                    quoted_rest(prepend(s[p + 1], word_scan(s, p + 2, ScanMode::Plain)))
                }
            } else if is_plain(c) {
                prepend(c, word_scan(s, p + 1, ScanMode::Plain))
            } else {
                Ok((Seq::empty(), false, p))
            },
            ScanMode::Single => if c == '\'' {
                word_scan(s, p + 1, ScanMode::Plain)
            } else {
                prepend(c, word_scan(s, p + 1, ScanMode::Single))
            },
            ScanMode::Double => if c == '"' {
                word_scan(s, p + 1, ScanMode::Plain)
            } else if c == '\\' && p + 1 < s.len() && is_dquote_special(s[p + 1]) {
                prepend(s[p + 1], word_scan(s, p + 2, ScanMode::Double))
            } else {
                prepend(c, word_scan(s, p + 1, ScanMode::Double))
            },
        }
    }
}

pub open spec fn prepend(c: char, r: Result<(Seq<char>, bool, int), (bool, Seq<char>)>) -> Result<(Seq<char>, bool, int), (bool, Seq<char>)> {
    match r {
        Ok((t, q, e)) => Ok((seq![c] + t, q, e)),
        Err(e) => Err(e),
    }
}

pub open spec fn quoted_rest(r: Result<(Seq<char>, bool, int), (bool, Seq<char>)>) -> Result<(Seq<char>, bool, int), (bool, Seq<char>)> {
    match r {
        Ok((t, q, e)) => Ok((t, true, e)),
        Err(e) => Err(e),
    }
}

/// Whether `s` has `a` then `b` at `p`.
pub open spec fn pair_at(s: Seq<char>, p: int, a: char, b: char) -> bool {
    0 <= p && p + 1 < s.len() && s[p] == a && s[p + 1] == b
}

pub open spec fn char_at(s: Seq<char>, p: int, c: char) -> bool {
    0 <= p < s.len() && s[p] == c
}

/// The token starting at `p` (which is neither a blank nor `#`) and where it ends, or why there is none.
pub open spec fn token_at(s: Seq<char>, p: int) -> Result<(TokenView, int), (bool, Seq<char>)> {
    let zero = char_at(s, p, '0');
    let a = if zero { p + 1 } else { p };
    let d12 = char_at(s, p, '1') || char_at(s, p, '2');
    let b = if d12 { p + 1 } else { p };
    let fd12: Option<u8> = if !d12 { None } else if s[p] == '1' { Some(1u8) } else { Some(2u8) };
    if pair_at(s, a, '<', '<') {
        Err(unsupported(seq!['<', '<']))
    } else if pair_at(s, a, '<', '&') {
        Err(unsupported(seq!['<', '&']))
    } else if char_at(s, a, '<') {
        Ok((TokenView::Redir(if zero { Some(0u8) } else { None }, RedirOp::In), a + 1))
    } else if pair_at(s, b, '>', '>') {
        Ok((TokenView::Redir(fd12, RedirOp::Append), b + 2))
    } else if pair_at(s, b, '>', '&') {
        Ok((TokenView::Redir(fd12, RedirOp::DupOut), b + 2))
    } else if char_at(s, b, '>') {
        Ok((TokenView::Redir(fd12, RedirOp::Out), b + 1))
    } else if s[p] == ';' {
        Err(unsupported(seq![';']))
    } else if s[p] == '&' {
        Err(unsupported(seq!['&']))
    } else if s[p] == '(' {
        Err(unsupported(seq!['(']))
    } else if s[p] == ')' {
        Err(unsupported(seq![')']))
    } else if s[p] == '|' {
        Ok((TokenView::Pipe, p + 1))
    } else {
        match word_scan(s, p, ScanMode::Plain) {
            Ok((t, q, e)) => Ok((TokenView::Word(t, q), e)),
            Err(e) => Err(e),
        }
    }
}

/// The tokens of `s` from position `p` on: blanks separate tokens, and a `#` where a token would
/// start begins a comment that runs to the end of the line.
pub open spec fn lex_from(s: Seq<char>, p: int) -> Result<Seq<TokenView>, (bool, Seq<char>)>
    decreases s.len() - p,
{
    if p < 0 || p >= s.len() {
        Ok(Seq::empty())
    } else if is_blank(s[p]) {
        lex_from(s, p + 1)
    } else if s[p] == '#' {
        Ok(Seq::empty())
    } else {
        match token_at(s, p) {
            Err(e) => Err(e),
            Ok((t, q)) => if p < q <= s.len() {
                match lex_from(s, q) {
                    Ok(ts) => Ok(seq![t] + ts),
                    Err(e) => Err(e),
                }
            } else {
                Ok(Seq::empty())
            },
        }
    }
}

/// The tokens of the line `s`, or why it has none.
pub open spec fn spec_lex(s: Seq<char>) -> Result<Seq<TokenView>, (bool, Seq<char>)> {
    lex_from(s, 0)
}


pub open spec fn combine(a: Seq<char>, q: bool, r: Result<(Seq<char>, bool, int), (bool, Seq<char>)>) -> Result<(Seq<char>, bool, int), (bool, Seq<char>)> {
    match r {
        Ok((t, q2, e)) => Ok((a + t, q || q2, e)),
        Err(e) => Err(e),
    }
}

proof fn lemma_combine_push(a: Seq<char>, q: bool, c: char, r: Result<(Seq<char>, bool, int), (bool, Seq<char>)>)
    ensures
        combine(a, q, prepend(c, r)) == combine(a.push(c), q, r),
{
    match r {
        Ok((t, q2, e)) => {
            assert(a + (seq![c] + t) =~= a.push(c) + t);
        },
        Err(e) => {},
    }
}

fn is_blank_exec(c: char) -> (b: bool)
    ensures
        b == is_blank(c),
{
    c == ' ' || c == '\t' || c == '\x0B' || c == '\x0C' || c == '\r' || c == '\n'
}

fn is_plain_exec(c: char) -> (b: bool)
    ensures
        b == is_plain(c),
{
    !is_blank_exec(c) && !(c == '|' || c == '<' || c == '>' || c == ';' || c == '&' || c == '(' || c == ')')
        && c != '"' && c != '\'' && c != '\\'
}

fn unterminated_quote() -> (e: LexError)
    ensures
        lex_error_view(e) == unterminated(seq!['q', 'u', 'o', 't', 'e']),
{
    proof { reveal_strlit("quote"); }
    LexError::Unterminated("quote")
}

/// Scans the word starting at `p0`: its text, whether any of it was quoted, and where it ends.
fn scan_word(s: &Vec<char>, p0: usize) -> (r: Result<(String, bool, usize), LexError>)
    requires
        p0 <= s@.len(),
    ensures
        match word_scan(s@, p0 as int, ScanMode::Plain) {
            Ok((t, q, e)) => r matches Ok((text, quoted, end)) && text@ == t && quoted == q && end == e,
            Err(e) => r matches Err(le) && lex_error_view(le) == e,
        },
{
    let n = s.len();
    let mut p = p0;
    let mut mode = ScanMode::Plain;
    let mut acc: Vec<char> = Vec::new();
    let mut quoted = false;
    loop
        invariant
            n == s@.len(),
            p0 <= p <= n,
            word_scan(s@, p0 as int, ScanMode::Plain) == combine(acc@, quoted, word_scan(s@, p as int, mode)),
        decreases n - p,
    {
        if p >= n {
            if mode == ScanMode::Plain {
                assert(acc@ + Seq::<char>::empty() =~= acc@);
                let text = string_of(&acc);
                return Ok((text, quoted, p));
            }
            return Err(unterminated_quote());
        }
        let c = s[p];
        match mode {
            ScanMode::Plain => {
                if c == '\'' {
                    quoted = true;
                    mode = ScanMode::Single;
                    p += 1;
                } else if c == '"' {
                    quoted = true;
                    mode = ScanMode::Double;
                    p += 1;
                } else if c == '\\' {
                    if p + 1 >= n {
                        proof { reveal_strlit("escape"); }
                        return Err(LexError::Unterminated("escape"));
                    }
                    proof { lemma_combine_push(acc@, true, s@[p + 1], word_scan(s@, p + 2, ScanMode::Plain)); }
                    acc.push(s[p + 1]);
                    quoted = true;
                    p += 2;
                } else if is_plain_exec(c) {
                    proof { lemma_combine_push(acc@, quoted, c, word_scan(s@, p + 1, ScanMode::Plain)); }
                    acc.push(c);
                    p += 1;
                } else {
                    assert(acc@ + Seq::<char>::empty() =~= acc@);
                    let text = string_of(&acc);
                    return Ok((text, quoted, p));
                }
            },
            ScanMode::Single => {
                if c == '\'' {
                    mode = ScanMode::Plain;
                } else {
                    proof { lemma_combine_push(acc@, quoted, c, word_scan(s@, p + 1, ScanMode::Single)); }
                    acc.push(c);
                }
                p += 1;
            },
            ScanMode::Double => {
                if c == '"' {
                    mode = ScanMode::Plain;
                    p += 1;
                } else if c == '\\' && p + 1 < n && (s[p + 1] == '"' || s[p + 1] == '\\' || s[p + 1] == '$' || s[p + 1] == '`') {
                    proof { lemma_combine_push(acc@, quoted, s@[p + 1], word_scan(s@, p + 2, ScanMode::Double)); }
                    acc.push(s[p + 1]);
                    p += 2;
                } else {
                    proof { lemma_combine_push(acc@, quoted, c, word_scan(s@, p + 1, ScanMode::Double)); }
                    acc.push(c);
                    p += 1;
                }
            },
        }
    }
}


fn unsupported_error(what: &'static str) -> (e: LexError)
    ensures
        lex_error_view(e) == unsupported(what@),
{
    LexError::Unsupported(what)
}

/// The token starting at `p`, which is neither a blank nor `#`, and where it ends.
fn token_at_exec(s: &Vec<char>, p: usize) -> (r: Result<(Token, usize), LexError>)
    requires
        p < s@.len(),
        !is_blank(s@[p as int]),
        s@[p as int] != '#',
    ensures
        match token_at(s@, p as int) {
            Ok((t, e)) => r matches Ok((tok, end)) && tok@ == t && end == e && p < e <= s@.len(),
            Err(e) => r matches Err(le) && lex_error_view(le) == e,
        },
{
    let n = s.len();
    let zero = s[p] == '0';
    let a = if zero { p + 1 } else { p };
    let d12 = s[p] == '1' || s[p] == '2';
    let b = if d12 { p + 1 } else { p };
    let fd12: Option<u8> = if !d12 { None } else if s[p] == '1' { Some(1u8) } else { Some(2u8) };
    proof {
        reveal_strlit("<<");
        reveal_strlit("<&");
        reveal_strlit(";");
        reveal_strlit("&");
        reveal_strlit("(");
        reveal_strlit(")");
    }
    if a < n && n - a >= 2 && s[a] == '<' && s[a + 1] == '<' {
        return Err(unsupported_error("<<"));
    }
    if a < n && n - a >= 2 && s[a] == '<' && s[a + 1] == '&' {
        return Err(unsupported_error("<&"));
    }
    if a < n && s[a] == '<' {
        return Ok((Token::Redir { fd: if zero { Some(0u8) } else { None }, op: RedirOp::In }, a + 1));
    }
    if b < n && n - b >= 2 && s[b] == '>' && s[b + 1] == '>' {
        return Ok((Token::Redir { fd: fd12, op: RedirOp::Append }, b + 2));
    }
    if b < n && n - b >= 2 && s[b] == '>' && s[b + 1] == '&' {
        return Ok((Token::Redir { fd: fd12, op: RedirOp::DupOut }, b + 2));
    }
    if b < n && s[b] == '>' {
        return Ok((Token::Redir { fd: fd12, op: RedirOp::Out }, b + 1));
    }
    let c = s[p];
    if c == ';' {
        return Err(unsupported_error(";"));
    }
    if c == '&' {
        return Err(unsupported_error("&"));
    }
    if c == '(' {
        return Err(unsupported_error("("));
    }
    if c == ')' {
        return Err(unsupported_error(")"));
    }
    if c == '|' {
        return Ok((Token::Pipe, p + 1));
    }
    proof { lemma_word_scan_progress(s@, p as int); }
    match scan_word(s, p) {
        Ok((text, quoted, end)) => Ok((Token::Word { text, quoted }, end)),
        Err(e) => Err(e),
    }
}

proof fn lemma_word_scan_bounds(s: Seq<char>, p: int, mode: ScanMode)
    requires
        0 <= p <= s.len(),
    ensures
        word_scan(s, p, mode) matches Ok((t, q, e)) ==> p <= e <= s.len(),
    decreases s.len() - p,
{
    if p < s.len() {
        lemma_word_scan_bounds(s, p + 1, ScanMode::Plain);
        lemma_word_scan_bounds(s, p + 1, ScanMode::Single);
        lemma_word_scan_bounds(s, p + 1, ScanMode::Double);
        if p + 2 <= s.len() {
            lemma_word_scan_bounds(s, p + 2, ScanMode::Plain);
            lemma_word_scan_bounds(s, p + 2, ScanMode::Double);
        }
    }
}

/// A word starting with a character that can start one takes at least that character.
proof fn lemma_word_scan_progress(s: Seq<char>, p: int)
    requires
        0 <= p < s.len(),
        !is_blank(s[p]),
        !is_operator_char(s[p]),
    ensures
        word_scan(s, p, ScanMode::Plain) matches Ok((t, q, e)) ==> p < e <= s.len(),
{
    lemma_word_scan_bounds(s, p + 1, ScanMode::Plain);
    lemma_word_scan_bounds(s, p + 1, ScanMode::Single);
    lemma_word_scan_bounds(s, p + 1, ScanMode::Double);
    if p + 2 <= s.len() {
        lemma_word_scan_bounds(s, p + 2, ScanMode::Plain);
    }
}

/// Splits `line` into tokens.
pub fn lex(line: &str) -> (r: Result<Vec<Token>, LexError>)
    ensures
        match spec_lex(line@) {
            Ok(ts) => r matches Ok(tokens) && tokens@.map_values(|t: Token| t@) == ts,
            Err(e) => r matches Err(le) && lex_error_view(le) == e,
        },
{
    let s = chars_of(line);
    let n = s.len();
    let mut tokens: Vec<Token> = Vec::new();
    let mut p: usize = 0;
    while p < n
        invariant
            n == s@.len(),
            s@ == line@,
            p <= n,
            spec_lex(line@) == match lex_from(s@, p as int) {
                Ok(ts) => Ok(tokens@.map_values(|t: Token| t@) + ts),
                Err(e) => Err(e),
            },
        decreases n - p,
    {
        let c = s[p];
        if is_blank_exec(c) {
            p += 1;
        } else if c == '#' {
            assert(tokens@.map_values(|t: Token| t@) + Seq::<TokenView>::empty() =~= tokens@.map_values(|t: Token| t@));
            return Ok(tokens);
        } else {
            match token_at_exec(&s, p) {
                Err(e) => return Err(e),
                Ok((tok, end)) => {
                    proof {
                        let prev = tokens@.map_values(|t: Token| t@);
                        let next = tokens@.push(tok).map_values(|t: Token| t@);
                        assert(next =~= prev.push(tok@));
                        match lex_from(s@, end as int) {
                            Ok(ts) => {
                                assert(prev + (seq![tok@] + ts) =~= next + ts);
                            },
                            Err(e) => {},
                        }
                    }
                    tokens.push(tok);
                    p = end;
                },
            }
        }
    }
    assert(tokens@.map_values(|t: Token| t@) + Seq::<TokenView>::empty() =~= tokens@.map_values(|t: Token| t@));
    Ok(tokens)
}

} // verus!
