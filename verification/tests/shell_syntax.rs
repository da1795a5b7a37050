use kernel_core::shell::lexer::LexError;
use kernel_core::shell::syntax::{parse, Redirection, Segment, SyntaxError};
use Redirection::{Dup, In, Out};

fn seg(words: &[&str], redirs: Vec<Redirection>) -> Segment {
    Segment {
        argv: words.iter().map(|w| w.to_string()).collect(),
        redirs,
    }
}
fn one(line: &str) -> Segment {
    let p = parse(line).unwrap().unwrap();
    assert_eq!(p.len(), 1, "{line}");
    p.into_iter().next().unwrap()
}

#[test]
fn a_blank_or_comment_line_is_nothing() {
    assert_eq!(parse(""), Ok(None));
    assert_eq!(parse("   \t "), Ok(None));
    assert_eq!(parse("# just a comment"), Ok(None));
}

#[test]
fn a_plain_command() {
    assert_eq!(one("echo a b"), seg(&["echo", "a", "b"], vec![]));
    assert_eq!(one(r#"echo "a b" 'c'"#), seg(&["echo", "a b", "c"], vec![]));
    assert_eq!(one("echo a #b"), seg(&["echo", "a"], vec![]));
}

#[test]
fn a_quoted_operator_is_an_argument_not_syntax() {
    assert_eq!(one(r#"echo "|""#), seg(&["echo", "|"], vec![]));
    assert_eq!(one("echo '>'"), seg(&["echo", ">"], vec![]));
    assert_eq!(one(r"echo a\ b"), seg(&["echo", "a b"], vec![]));
}

#[test]
fn a_pipeline_has_a_stage_per_command() {
    let p = parse("a x | b | c > out < in").unwrap().unwrap();
    assert_eq!(
        p,
        vec![
            seg(&["a", "x"], vec![]),
            seg(&["b"], vec![]),
            seg(
                &["c"],
                vec![
                    Out {
                        fd: 1,
                        path: "out".into(),
                        append: false
                    },
                    In("in".into())
                ]
            ),
        ]
    );
}

#[test]
fn redirections_keep_the_order_typed() {
    assert_eq!(
        one("cmd > f 2>&1").redirs,
        vec![
            Out {
                fd: 1,
                path: "f".into(),
                append: false
            },
            Dup { fd: 2, target: 1 }
        ]
    );
    assert_eq!(
        one("cmd 2>&1 > f").redirs,
        vec![
            Dup { fd: 2, target: 1 },
            Out {
                fd: 1,
                path: "f".into(),
                append: false
            }
        ]
    );
}

#[test]
fn output_redirections_default_to_stdout() {
    assert_eq!(
        one("cmd >f").redirs,
        vec![Out {
            fd: 1,
            path: "f".into(),
            append: false
        }]
    );
    assert_eq!(
        one("cmd >>f").redirs,
        vec![Out {
            fd: 1,
            path: "f".into(),
            append: true
        }]
    );
    assert_eq!(
        one("cmd 2>f").redirs,
        vec![Out {
            fd: 2,
            path: "f".into(),
            append: false
        }]
    );
    assert_eq!(
        one("cmd 2>>f").redirs,
        vec![Out {
            fd: 2,
            path: "f".into(),
            append: true
        }]
    );
    assert_eq!(
        one("cmd 1>f").redirs,
        vec![Out {
            fd: 1,
            path: "f".into(),
            append: false
        }]
    );
    assert_eq!(one("cmd <f").redirs, vec![In("f".into())]);
    assert_eq!(one("cmd 0<f").redirs, vec![In("f".into())]);
}

#[test]
fn duplication_takes_one_or_two() {
    assert_eq!(one("cmd 2>&1").redirs, vec![Dup { fd: 2, target: 1 }]);
    assert_eq!(one("cmd >&2").redirs, vec![Dup { fd: 1, target: 2 }]);
    assert_eq!(one("cmd 1>&2").redirs, vec![Dup { fd: 1, target: 2 }]);
    assert_eq!(parse("cmd 2>&"), Err(SyntaxError::MissingTarget(">&")));
    assert_eq!(parse("cmd 2>&x"), Err(SyntaxError::BadDupTarget));
    assert_eq!(parse("cmd 2>&3"), Err(SyntaxError::BadDupTarget));
    assert_eq!(parse("cmd 2>&0"), Err(SyntaxError::BadDupTarget));
}

#[test]
fn a_descriptor_number_is_a_redirection_only_where_the_lexer_says() {
    assert_eq!(
        one("a2>x"),
        seg(
            &["a2"],
            vec![Out {
                fd: 1,
                path: "x".into(),
                append: false
            }]
        )
    );
    assert_eq!(
        one("echo 2 >x"),
        seg(
            &["echo", "2"],
            vec![Out {
                fd: 1,
                path: "x".into(),
                append: false
            }]
        )
    );
    assert_eq!(
        one(r#"echo "2">x"#),
        seg(
            &["echo", "2"],
            vec![Out {
                fd: 1,
                path: "x".into(),
                append: false
            }]
        )
    );
    assert_eq!(
        one("cmd 3>x"),
        seg(
            &["cmd", "3"],
            vec![Out {
                fd: 1,
                path: "x".into(),
                append: false
            }]
        )
    );
}

#[test]
fn a_missing_file_name_is_an_error() {
    assert_eq!(parse("cmd >"), Err(SyntaxError::MissingTarget(">")));
    assert_eq!(parse("cmd >>"), Err(SyntaxError::MissingTarget(">>")));
    assert_eq!(parse("cmd <"), Err(SyntaxError::MissingTarget("<")));
    assert_eq!(parse("cmd > | x"), Err(SyntaxError::MissingTarget(">")));
    assert_eq!(parse("cmd > > f"), Err(SyntaxError::MissingTarget(">")));
    assert_eq!(parse("cat >"), Err(SyntaxError::MissingTarget(">")));
}

#[test]
fn an_empty_stage_is_an_error() {
    assert_eq!(parse("| a"), Err(SyntaxError::EmptyCommand));
    assert_eq!(parse("a |"), Err(SyntaxError::EmptyCommand));
    assert_eq!(parse("a | | b"), Err(SyntaxError::EmptyCommand));
    assert_eq!(parse("|"), Err(SyntaxError::EmptyCommand));
}

#[test]
fn a_stage_of_only_redirections_parses() {
    // POSIX allows `> f` (it creates the file); running it is another matter.
    let c = one("> f");
    assert!(c.argv.is_empty());
    assert_eq!(
        c.redirs,
        vec![Out {
            fd: 1,
            path: "f".into(),
            append: false
        }]
    );
}

#[test]
fn lexer_errors_pass_through() {
    assert_eq!(
        parse(r#"echo "x"#),
        Err(SyntaxError::Lex(LexError::Unterminated("quote")))
    );
    assert_eq!(
        parse("a; b"),
        Err(SyntaxError::Lex(LexError::Unsupported(";")))
    );
}

#[test]
fn errors_read_as_sentences() {
    assert_eq!(
        parse("echo 'x").unwrap_err().to_string(),
        "unterminated quote"
    );
    assert_eq!(
        parse("echo x\\").unwrap_err().to_string(),
        "a backslash at the end of the line"
    );
    assert_eq!(
        parse("a; b").unwrap_err().to_string(),
        "`;` is not supported"
    );
    assert_eq!(
        parse("cat >").unwrap_err().to_string(),
        "no file name after `>`"
    );
    assert_eq!(
        parse("a 2>&x").unwrap_err().to_string(),
        "`>&` must be followed by 1 or 2"
    );
    assert_eq!(parse("| a").unwrap_err().to_string(), "missing command");
}
