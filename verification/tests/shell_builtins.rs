use kernel_core::shell::builtins::{is_builtin, run, BuiltinAction};
use kernel_core::shell::syntax::{Redirection, Segment};
use kernel_core::shell::{run_line, LinePlan, PROMPT};

fn chdir(r: Result<BuiltinAction, String>) -> String {
    match r {
        Ok(BuiltinAction::Chdir(d)) => d,
        Ok(BuiltinAction::RunScript { path, .. }) => panic!("a script run: {path}"),
        Err(m) => panic!("an error: {m}"),
    }
}

fn script(r: Result<BuiltinAction, String>) -> (String, bool) {
    match r {
        Ok(BuiltinAction::RunScript { path, scoped }) => (path, scoped),
        Ok(BuiltinAction::Chdir(d)) => panic!("a chdir: {d}"),
        Err(m) => panic!("an error: {m}"),
    }
}

fn error(r: Result<BuiltinAction, String>) -> String {
    match r {
        Err(m) => m,
        Ok(_) => panic!("expected an error"),
    }
}

#[test]
fn the_builtins_are_cd_source_dot_and_sh() {
    for name in ["cd", "source", ".", "sh"] {
        assert!(is_builtin(name), "{name}");
    }
    for name in ["ls", "", "cd ", "..", "shell", "CD"] {
        assert!(!is_builtin(name), "{name}");
    }
}

#[test]
fn cd_goes_to_its_operand_or_to_the_root() {
    assert_eq!(chdir(run("cd", &[])), "/");
    assert_eq!(chdir(run("cd", &["bin"])), "bin");
    assert_eq!(chdir(run("cd", &["/a/b"])), "/a/b");
    assert_eq!(chdir(run("cd", &["--", "-dir"])), "-dir");
    assert_eq!(chdir(run("cd", &["--"])), "--");
}

#[test]
fn cd_refuses_what_it_cannot_do() {
    assert_eq!(error(run("cd", &["-"])), "cd: -: not supported (there is no $OLDPWD)");
    assert_eq!(error(run("cd", &["-L"])), "cd: -L: not supported (there are no symbolic links)");
    assert_eq!(error(run("cd", &["-P"])), "cd: -P: not supported (there are no symbolic links)");
    assert_eq!(error(run("cd", &["-x", "dir"])), "cd: -x: invalid option");
    assert_eq!(error(run("cd", &["-L", "dir"])), "cd: -L: invalid option");
    assert_eq!(error(run("cd", &["a", "b"])), "cd: too many arguments");
    assert_eq!(error(run("cd", &["--", "a", "b"])), "cd: too many arguments");
}

#[test]
fn scripts_want_exactly_one_file() {
    assert_eq!(script(run("source", &["s.sh"])), ("s.sh".to_string(), false));
    assert_eq!(script(run(".", &["/etc/rc"])), ("/etc/rc".to_string(), false));
    assert_eq!(script(run("sh", &["t.sh"])), ("t.sh".to_string(), true));
    assert_eq!(error(run("source", &[])), "source: usage: source FILE");
    assert_eq!(error(run(".", &[])), ".: usage: . FILE");
    assert_eq!(error(run("sh", &[])), "sh: usage: sh FILE");
    assert_eq!(error(run("sh", &["a", "b"])), "sh: too many arguments");
    assert_eq!(error(run(".", &["a", "b"])), ".: too many arguments");
}

#[test]
fn a_line_is_nothing_an_error_or_one_command() {
    assert!(matches!(run_line("   # only a comment"), LinePlan::Nothing));
    match run_line("echo \"open") {
        LinePlan::Report(m) => assert_eq!(m, "syntax error: unterminated quote"),
        _ => panic!("expected a report"),
    }
    match run_line("ls | wc") {
        LinePlan::Report(m) => assert_eq!(m, "pipes are not supported yet"),
        _ => panic!("expected a report"),
    }
    match run_line("cat a > b") {
        LinePlan::Run(s) => assert_eq!(
            s,
            Segment {
                argv: vec!["cat".to_string(), "a".to_string()],
                redirs: vec![Redirection::Out { fd: 1, path: "b".to_string(), append: false }],
            }
        ),
        _ => panic!("expected a command"),
    }
}

#[test]
fn the_prompt_is_a_greater_than_sign_and_a_space() {
    assert_eq!(PROMPT, "> ");
}
