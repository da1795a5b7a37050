//! Starting a program from a command line: which files a command word may name, in the order they are
//! looked up; which of them may run; and what is reported when one cannot, or exits with a nonzero
//! status -- in bash's wording. The lookups themselves, reading the file and running it are the
//! caller's; these are the decisions between them.

use vstd::prelude::*;

use crate::abi::{errmsg, spec_errmsg, ATTR_EXEC, E2BIG, EACCES, EISDIR, ENOENT, ENOEXEC, ENOTDIR};
use crate::exec::process::LaunchError;
use crate::fs::path::{abspath, spec_abspath};
use crate::text::{push_signed, push_str, signed_digits};

verus! {

/// The files a command word names, in lookup order. A word containing `/` is a path, relative to the
/// working directory unless it starts with `/`. A bare name is looked up in `/bin` only -- no
/// `PATH`-style search, and independent of the working directory -- first as typed, then with `.exe`,
/// so `cat` finds `bin/cat.exe`.
pub open spec fn spec_program_paths(name: Seq<char>, cwd: Seq<char>) -> Result<Seq<Seq<char>>, isize> {
    if name.contains('/') {
        match spec_abspath(cwd, name) {
            Ok(p) => Ok(seq![p]),
            Err(e) => Err(e),
        }
    } else {
        Ok(seq!["/bin/"@ + name, "/bin/"@ + name + ".exe"@])
    }
}

/// The lookup paths for the command word `name`, or why a path word cannot be resolved.
pub fn program_paths(name: &str, cwd: &str) -> (r: Result<Vec<String>, isize>)
    ensures
        match spec_program_paths(name@, cwd@) {
            Ok(ps) => r matches Ok(v) && v@.len() == ps.len() && forall|i: int| 0 <= i < ps.len() ==> #[trigger] v@[i]@ == ps[i],
            Err(e) => r == Err::<Vec<String>, isize>(e),
        },
{
    let chars = crate::text::chars_of(name);
    let mut has_slash = false;
    let mut i: usize = 0;
    while i < chars.len()
        invariant
            chars@ == name@,
            i <= chars@.len(),
            has_slash == exists|k: int| 0 <= k < i && chars@[k] == '/',
        decreases chars@.len() - i,
    {
        if chars[i] == '/' {
            has_slash = true;
        }
        i += 1;
    }
    assert(has_slash == name@.contains('/'));
    if has_slash {
        match abspath(cwd, name) {
            Ok(p) => {
                let mut v: Vec<String> = Vec::new();
                v.push(p);
                Ok(v)
            },
            Err(e) => Err(e),
        }
    } else {
        let mut plain = String::new();
        push_str(&mut plain, "/bin/");
        push_str(&mut plain, name);
        let mut exe = String::new();
        push_str(&mut exe, "/bin/");
        push_str(&mut exe, name);
        push_str(&mut exe, ".exe");
        let mut v: Vec<String> = Vec::new();
        v.push(plain);
        v.push(exe);
        Ok(v)
    }
}

/// What a failed lookup means: for a bare name, a missing file (or a missing directory on the way)
/// just moves on to the next candidate, and after the last it is `command not found`; anything
/// else ends the search with the error's own text.
pub open spec fn spec_search_failure(bare: bool, err: isize, last: bool) -> Option<Seq<char>> {
    if bare && (err == ENOENT || err == ENOTDIR) {
        if last { Some("command not found"@) } else { None }
    } else {
        Some(spec_errmsg(err))
    }
}

/// Whether the search goes on after a lookup of a candidate failed with `err` (`None`), or ends with
/// the text to report after the command word.
pub fn search_failure(bare: bool, err: isize, last: bool) -> (r: Option<&'static str>)
    ensures
        match spec_search_failure(bare, err, last) {
            Some(m) => r matches Some(t) && t@ == m,
            None => r is None,
        },
{
    if bare && (err == ENOENT || err == ENOTDIR) {
        if last { Some("command not found") } else { None }
    } else {
        Some(errmsg(err))
    }
}

/// `name: ` and `why`.
pub open spec fn named(name: Seq<char>, why: Seq<char>) -> Seq<char> {
    name + ": "@ + why
}

/// `name: ` and the text of `e`: how a file's name and what went wrong with it are reported.
pub fn name_error(name: &str, e: isize) -> (m: String)
    ensures
        m@ == named(name@, spec_errmsg(e)),
{
    let mut m = String::new();
    push_str(&mut m, name);
    push_str(&mut m, ": ");
    push_str(&mut m, errmsg(e));
    m
}

/// Why the file found for `name` may not be run, if it may not: a directory; a file without the
/// executable bit; a file larger than `max_size`, which is refused as not executable rather than
/// risking an allocation the kernel cannot survive.
pub open spec fn spec_launch_refusal(name: Seq<char>, is_directory: bool, attrs: u8, len: usize, max_size: usize) -> Option<Seq<char>> {
    if is_directory {
        Some(named(name, spec_errmsg(EISDIR)))
    } else if attrs & ATTR_EXEC == 0 {
        Some(named(name, spec_errmsg(EACCES)))
    } else if len > max_size {
        Some(named(name, "cannot execute: "@ + spec_errmsg(ENOEXEC)))
    } else {
        None
    }
}

/// The line that refuses to run the file found for `name`, or `None` when it may run.
pub fn launch_refusal(name: &str, is_directory: bool, attrs: u8, len: usize, max_size: usize) -> (r: Option<String>)
    ensures
        match spec_launch_refusal(name@, is_directory, attrs, len, max_size) {
            Some(m) => r matches Some(t) && t@ == m,
            None => r is None,
        },
{
    if is_directory {
        Some(name_error(name, EISDIR))
    } else if attrs & ATTR_EXEC == 0 {
        Some(name_error(name, EACCES))
    } else if len > max_size {
        let mut m = String::new();
        push_str(&mut m, name);
        push_str(&mut m, ": ");
        push_str(&mut m, "cannot execute: ");
        push_str(&mut m, errmsg(ENOEXEC));
        assert(m@ =~= named(name@, "cannot execute: "@ + spec_errmsg(ENOEXEC)));
        Some(m)
    } else {
        None
    }
}

/// What is reported once the program `name` ran, or could not be started: nothing for a zero exit
/// status; `exit N` for any other, standing in for `$?`; the argument list being too long; or, for a
/// file that would not load, `cannot execute` and why.
pub open spec fn spec_launch_report(name: Seq<char>, outcome: Result<i32, LaunchError>) -> Option<Seq<char>> {
    match outcome {
        Ok(code) => if code == 0 { None } else { Some("exit "@ + signed_digits(code as int)) },
        Err(LaunchError::ArgsTooBig) => Some(named(name, spec_errmsg(E2BIG))),
        Err(LaunchError::Elf(_)) => Some(named(name, "cannot execute: "@ + spec_errmsg(ENOEXEC))),
    }
}

/// The line reported after `name` ran with `outcome`, if any.
pub fn launch_report(name: &str, outcome: Result<i32, LaunchError>) -> (r: Option<String>)
    ensures
        match spec_launch_report(name@, outcome) {
            Some(m) => r matches Some(t) && t@ == m,
            None => r is None,
        },
{
    match outcome {
        Ok(code) => {
            if code == 0 {
                None
            } else {
                let mut m = String::new();
                push_str(&mut m, "exit ");
                push_signed(&mut m, code);
                Some(m)
            }
        },
        Err(e) => {
            let errno = e.errno();
            if errno == E2BIG {
                Some(name_error(name, E2BIG))
            } else {
                let mut m = String::new();
                push_str(&mut m, name);
                push_str(&mut m, ": ");
                push_str(&mut m, "cannot execute: ");
                push_str(&mut m, errmsg(errno));
                assert(m@ =~= named(name@, "cannot execute: "@ + spec_errmsg(ENOEXEC)));
                Some(m)
            }
        },
    }
}

} // verus!
