use kernel_core::abi::{ENAMETOOLONG, ENOENT, NAME_MAX, PATH_MAX};
use kernel_core::fs::path::abspath;

fn abs(cwd: &str, path: &str) -> String {
    abspath(cwd, path).unwrap()
}

#[test]
fn absolute_paths_ignore_the_working_directory() {
    assert_eq!(abs("/bin", "/tests/notes.txt"), "/tests/notes.txt");
    assert_eq!(abs("/", "/"), "/");
    assert_eq!(abs("/a/b", "/"), "/");
}

#[test]
fn relative_paths_start_at_the_working_directory() {
    assert_eq!(abs("/", "bin"), "/bin");
    assert_eq!(abs("/bin", "cat.exe"), "/bin/cat.exe");
    assert_eq!(abs("/a/b", "c/d"), "/a/b/c/d");
}

#[test]
fn dot_and_empty_components_vanish() {
    assert_eq!(abs("/", "./bin/."), "/bin");
    assert_eq!(abs("/a", "b//c///d"), "/a/b/c/d");
    assert_eq!(abs("/a", "."), "/a");
    assert_eq!(abs("/", "/./."), "/");
}

#[test]
fn dot_dot_removes_the_component_before_it() {
    assert_eq!(abs("/a/b", ".."), "/a");
    assert_eq!(abs("/a/b", "../.."), "/");
    assert_eq!(abs("/a/b", "../c"), "/a/c");
    assert_eq!(abs("/", "/bin/../fonts"), "/fonts");
    assert_eq!(abs("/", "a/b/../../c"), "/c");
}

#[test]
fn dot_dot_at_the_root_stays_at_the_root() {
    assert_eq!(abs("/", ".."), "/");
    assert_eq!(abs("/", "../../.."), "/");
    assert_eq!(abs("/a", "../../b"), "/b");
    assert_eq!(abs("/", "/.."), "/");
}

#[test]
fn a_trailing_slash_is_ignored() {
    assert_eq!(abs("/", "bin/"), "/bin");
    assert_eq!(abs("/", "/bin//"), "/bin");
}

#[test]
fn an_empty_path_is_not_found() {
    assert_eq!(abspath("/", ""), Err(ENOENT));
}

#[test]
fn names_longer_than_the_limit_are_refused() {
    let ok = "x".repeat(NAME_MAX);
    assert_eq!(abs("/", &ok), format!("/{ok}"));
    let long = "x".repeat(NAME_MAX + 1);
    assert_eq!(abspath("/", &long), Err(ENAMETOOLONG));
    assert_eq!(
        abspath("/a", &format!("b/{long}/c")),
        Err(ENAMETOOLONG)
    );
    // Even one that `..` would cancel again is refused: it was never a valid name.
    assert_eq!(
        abspath("/", &format!("{long}/..")),
        Err(ENAMETOOLONG)
    );
}

#[test]
fn paths_longer_than_the_limit_are_refused() {
    let too_long = "a/".repeat(PATH_MAX / 2 + 1);
    assert_eq!(abspath("/", &too_long), Err(ENAMETOOLONG));
    // A short relative path that lands past the limit once joined onto a long working directory.
    let cwd = "/".to_string() + &"d/".repeat(PATH_MAX / 2 - 1) + "d";
    assert!(cwd.len() <= PATH_MAX);
    assert_eq!(abspath(&cwd, "tail_that_overflows"), Err(ENAMETOOLONG));
    // A path that is exactly as long as allowed is fine (the limit counts the leading `/`).
    let exact = "/".to_string() + &"d/".repeat(PATH_MAX / 2 - 1) + "d";
    assert_eq!(abspath("/", &exact).map(|p| p.len()), Ok(exact.len()));
}

#[test]
fn the_result_is_a_fixed_point() {
    for (cwd, path) in [
        ("/a/b", "../c/./d//e/.."),
        ("/", "x/../y"),
        ("/z", "/w/../v"),
    ] {
        let once = abs(cwd, path);
        assert_eq!(abs("/somewhere/else", &once), once);
    }
}

#[test]
fn a_result_is_absolute_and_normalized() {
    for (cwd, path) in [("/", "a/./b//../c/"), ("/x/y", "../../.."), ("/x", "y/z"), ("/", "/")] {
        let p = abs(cwd, path);
        assert!(p.starts_with('/'));
        assert!(p.len() <= PATH_MAX);
        if p != "/" {
            assert!(!p.ends_with('/'));
            for c in p[1..].split('/') {
                assert!(c != "" && c != "." && c != "..");
            }
        }
        assert_eq!(abs("/other", &p), p);
    }
}
