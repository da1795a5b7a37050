use kernel_core::shell::lexer::{lex, LexError, RedirOp, Token};
use RedirOp::{Append, DupOut, In, Out};

fn w(text: &str) -> Token {
    Token::Word {
        text: text.into(),
        quoted: false,
    }
}
fn q(text: &str) -> Token {
    Token::Word {
        text: text.into(),
        quoted: true,
    }
}
fn r(fd: Option<u8>, op: RedirOp) -> Token {
    Token::Redir { fd, op }
}
fn lexed(line: &str) -> Vec<Token> {
    lex(line).unwrap()
}

#[test]
fn words_are_split_on_blanks() {
    assert_eq!(lexed("echo a b"), [w("echo"), w("a"), w("b")]);
    assert_eq!(lexed("  echo \t a   "), [w("echo"), w("a")]);
    assert_eq!(lexed(""), []);
    assert_eq!(lexed("   "), []);
}

#[test]
fn quotes_group_and_mark_the_word() {
    assert_eq!(lexed(r#"echo "a b""#), [w("echo"), q("a b")]);
    assert_eq!(lexed("echo 'a b'"), [w("echo"), q("a b")]);
    assert_eq!(lexed(r#"echo a"b c"d"#), [w("echo"), q("ab cd")]);
    assert_eq!(lexed(r#"echo """#), [w("echo"), q("")]); // an empty word
}

#[test]
fn quoted_operators_are_text() {
    assert_eq!(lexed(r#"echo "|""#), [w("echo"), q("|")]);
    assert_eq!(lexed("echo '|'"), [w("echo"), q("|")]);
    assert_eq!(
        lexed(r#"echo ">" '<' ">>""#),
        [w("echo"), q(">"), q("<"), q(">>")]
    );
    assert_eq!(
        lexed(r#"echo ";" "&" "(""#),
        [w("echo"), q(";"), q("&"), q("(")]
    );
}

#[test]
fn single_quotes_are_fully_literal() {
    assert_eq!(lexed(r"echo 'a\b'"), [w("echo"), q(r"a\b")]);
    assert_eq!(lexed(r#"echo 'a"b'"#), [w("echo"), q(r#"a"b"#)]);
    assert_eq!(lexed("echo '$x `y`'"), [w("echo"), q("$x `y`")]);
}

#[test]
fn double_quotes_escape_only_four_characters() {
    assert_eq!(lexed(r#"echo "a\"b""#), [w("echo"), q(r#"a"b"#)]);
    assert_eq!(lexed(r#"echo "a\\b""#), [w("echo"), q(r"a\b")]);
    assert_eq!(lexed(r#"echo "\$""#), [w("echo"), q("$")]);
    assert_eq!(lexed(r#"echo "\`""#), [w("echo"), q("`")]);
    assert_eq!(lexed(r#"echo "a\nb""#), [w("echo"), q(r"a\nb")]); // any other backslash is itself
    assert_eq!(lexed(r#"echo "\ ""#), [w("echo"), q(r"\ ")]);
}

#[test]
fn an_unquoted_backslash_escapes_the_next_character() {
    assert_eq!(lexed(r"echo a\ b"), [w("echo"), q("a b")]);
    assert_eq!(lexed(r"echo \|"), [w("echo"), q("|")]);
    assert_eq!(lexed(r"echo \>x"), [w("echo"), q(">x")]);
    assert_eq!(lexed(r"echo \\"), [w("echo"), q(r"\")]);
    assert_eq!(lexed(r"echo \#a"), [w("echo"), q("#a")]);
}

#[test]
fn unterminated_quotes_and_escapes_are_errors() {
    assert_eq!(lex(r#"echo "abc"#), Err(LexError::Unterminated("quote")));
    assert_eq!(lex("echo 'abc"), Err(LexError::Unterminated("quote")));
    assert_eq!(lex(r"echo abc\"), Err(LexError::Unterminated("escape")));
    assert_eq!(lex(r#"echo "abc\"#), Err(LexError::Unterminated("quote")));
}

#[test]
fn a_comment_starts_only_at_the_start_of_a_word() {
    assert_eq!(lexed("# nothing here"), []);
    assert_eq!(lexed("echo a #b c"), [w("echo"), w("a")]);
    assert_eq!(lexed("echo a#b"), [w("echo"), w("a#b")]);
    assert_eq!(lexed("echo #"), [w("echo")]);
    assert_eq!(lexed(r##"echo "#""##), [w("echo"), q("#")]);
    assert_eq!(
        lexed("echo a | # trailing"),
        [w("echo"), w("a"), Token::Pipe]
    );
}

#[test]
fn pipes_and_redirections_end_words() {
    assert_eq!(lexed("a|b"), [w("a"), Token::Pipe, w("b")]);
    assert_eq!(lexed("a>b"), [w("a"), r(None, Out), w("b")]);
    assert_eq!(lexed("a>>b"), [w("a"), r(None, Append), w("b")]);
    assert_eq!(lexed("a<b"), [w("a"), r(None, In), w("b")]);
    assert_eq!(
        lexed("a | b > c < d"),
        [
            w("a"),
            Token::Pipe,
            w("b"),
            r(None, Out),
            w("c"),
            r(None, In),
            w("d")
        ]
    );
    assert_eq!(lexed("a >&2"), [w("a"), r(None, DupOut), w("2")]);
}

#[test]
fn a_descriptor_number_right_before_an_operator_is_taken() {
    assert_eq!(lexed("cmd 2>x"), [w("cmd"), r(Some(2), Out), w("x")]);
    assert_eq!(lexed("cmd 1>x"), [w("cmd"), r(Some(1), Out), w("x")]);
    assert_eq!(lexed("cmd 2>>x"), [w("cmd"), r(Some(2), Append), w("x")]);
    assert_eq!(lexed("cmd 2>&1"), [w("cmd"), r(Some(2), DupOut), w("1")]);
    assert_eq!(lexed("cmd 0<x"), [w("cmd"), r(Some(0), In), w("x")]);
}

#[test]
fn digits_elsewhere_are_ordinary_text() {
    assert_eq!(lexed("a2>x"), [w("a2"), r(None, Out), w("x")]);
    assert_eq!(
        lexed("echo 2 >x"),
        [w("echo"), w("2"), r(None, Out), w("x")]
    );
    assert_eq!(
        lexed(r#"echo "2">x"#),
        [w("echo"), q("2"), r(None, Out), w("x")]
    );
    assert_eq!(
        lexed(r"echo \2>x"),
        [w("echo"), q("2"), r(None, Out), w("x")]
    );
    assert_eq!(lexed("cmd 3>x"), [w("cmd"), w("3"), r(None, Out), w("x")]);
    assert_eq!(lexed("cmd 12>x"), [w("cmd"), w("12"), r(None, Out), w("x")]);
    assert_eq!(lexed("cmd 2<x"), [w("cmd"), w("2"), r(None, In), w("x")]); // 2 is not an input descriptor
    assert_eq!(lexed("cmd 0>x"), [w("cmd"), w("0"), r(None, Out), w("x")]); // nor 0 an output one
}

#[test]
fn expansion_characters_are_ordinary() {
    assert_eq!(
        lexed("echo $x `y` * ? ~ {a,b}"),
        [
            w("echo"),
            w("$x"),
            w("`y`"),
            w("*"),
            w("?"),
            w("~"),
            w("{a,b}")
        ]
    );
}

#[test]
fn unsupported_syntax_is_refused() {
    assert_eq!(lex("a; b"), Err(LexError::Unsupported(";")));
    assert_eq!(lex("a && b"), Err(LexError::Unsupported("&")));
    assert_eq!(lex("a &"), Err(LexError::Unsupported("&")));
    assert_eq!(lex("(a)"), Err(LexError::Unsupported("(")));
    assert_eq!(lex("a <<EOF"), Err(LexError::Unsupported("<<")));
    assert_eq!(lex("a <&0"), Err(LexError::Unsupported("<&")));
}
