//! The commands the shell runs itself instead of launching a program: the ones that change the
//! shell's own state. `cd`, plus `source`/`.` and `sh`, which run a script file. This module decides
//! what a builtin's words ask for -- or the one line of text that reports why they make no sense --
//! and the shell then carries that out.

use vstd::prelude::*;

use crate::text::{push_str, str_eq};

verus! {

/// Whether `name` is one of the builtins.
pub open spec fn spec_is_builtin(name: Seq<char>) -> bool {
    name == "cd"@ || name == "source"@ || name == "."@ || name == "sh"@
}

/// Whether `name` is a builtin: `cd`, `source`, `.` or `sh`.
pub fn is_builtin(name: &str) -> (b: bool)
    ensures
        b == spec_is_builtin(name@),
{
    str_eq(name, "cd") || str_eq(name, "source") || str_eq(name, ".") || str_eq(name, "sh")
}

/// What a builtin asks the shell to do.
pub enum BuiltinAction {
    /// Make `dir` (absolute, or relative to the working directory) the working directory.
    Chdir(String),
    /// Run the script at `path` (resolved against the working directory); `scoped` runs it in a
    /// frame of its own, so its `cd`s and redirects do not outlive it.
    RunScript { path: String, scoped: bool },
}

/// A builtin action as the contracts see it.
pub enum ActionView {
    Chdir(Seq<char>),
    RunScript(Seq<char>, bool),
}

impl View for BuiltinAction {
    type V = ActionView;

    open spec fn view(&self) -> ActionView {
        match self {
            BuiltinAction::Chdir(d) => ActionView::Chdir(d@),
            BuiltinAction::RunScript { path, scoped } => ActionView::RunScript(path@, *scoped),
        }
    }
}

/// What `cd` with `args` asks for: POSIX's subset. No operand goes to `/`; `cd DIR` and `cd -- DIR`
/// go to DIR; `-` (there is no `$OLDPWD`), `-L`/`-P` (there are no symbolic links), any other
/// option and more than one operand are refused.
pub open spec fn spec_cd(args: Seq<Seq<char>>) -> Result<ActionView, Seq<char>> {
    if args.len() == 0 {
        Ok(ActionView::Chdir("/"@))
    } else if args.len() == 1 && args[0] == "-"@ {
        Err("cd: -: not supported (there is no $OLDPWD)"@)
    } else if args.len() == 1 && (args[0] == "-L"@ || args[0] == "-P"@) {
        Err("cd: "@ + args[0] + ": not supported (there are no symbolic links)"@)
    } else if args[0].len() > 1 && args[0][0] == '-' && args[0] != "--"@ {
        Err("cd: "@ + args[0] + ": invalid option"@)
    } else if args.len() == 2 && args[0] == "--"@ {
        Ok(ActionView::Chdir(args[1]))
    } else if args.len() == 1 {
        Ok(ActionView::Chdir(args[0]))
    } else {
        Err("cd: too many arguments"@)
    }
}

/// What the builtin `name` with `args`, the words after it, asks for. `source FILE` and `. FILE` run
/// the script in the current frame, `sh FILE` in a frame of its own; each wants exactly one operand.
pub open spec fn spec_builtin(name: Seq<char>, args: Seq<Seq<char>>) -> Result<ActionView, Seq<char>> {
    if name == "cd"@ {
        spec_cd(args)
    } else if args.len() == 1 {
        Ok(ActionView::RunScript(args[0], name == "sh"@))
    } else if args.len() == 0 {
        Err(name + ": usage: "@ + name + " FILE"@)
    } else {
        Err(name + ": too many arguments"@)
    }
}

/// The words as the contracts see them.
pub open spec fn words(args: &[&str]) -> Seq<Seq<char>> {
    args@.map_values(|a: &str| a@)
}

/// A `String` holding `s`.
fn owned(s: &str) -> (r: String)
    ensures
        r@ == s@,
{
    let mut r = String::new();
    push_str(&mut r, s);
    r
}

fn cd(args: &[&str]) -> (r: Result<BuiltinAction, String>)
    ensures
        match spec_cd(words(args)) {
            Ok(a) => r matches Ok(act) && act@ == a,
            Err(m) => r matches Err(msg) && msg@ == m,
        },
{
    let ghost ws = words(args);
    proof {
        reveal_strlit("/");
        reveal_strlit("-");
        reveal_strlit("--");
    }
    if args.len() == 0 {
        return Ok(BuiltinAction::Chdir(owned("/")));
    }
    assert(ws[0] == args@[0]@);
    if args.len() == 1 && str_eq(args[0], "-") {
        return Err(owned("cd: -: not supported (there is no $OLDPWD)"));
    }
    if args.len() == 1 && (str_eq(args[0], "-L") || str_eq(args[0], "-P")) {
        let mut m = owned("cd: ");
        push_str(&mut m, args[0]);
        push_str(&mut m, ": not supported (there are no symbolic links)");
        return Err(m);
    }
    let first = crate::text::chars_of(args[0]);
    if first.len() > 1 && first[0] == '-' && !str_eq(args[0], "--") {
        let mut m = owned("cd: ");
        push_str(&mut m, args[0]);
        push_str(&mut m, ": invalid option");
        return Err(m);
    }
    if args.len() == 2 && str_eq(args[0], "--") {
        assert(ws[1] == args@[1]@);
        return Ok(BuiltinAction::Chdir(owned(args[1])));
    }
    if args.len() == 1 {
        return Ok(BuiltinAction::Chdir(owned(args[0])));
    }
    Err(owned("cd: too many arguments"))
}

/// What the builtin `name` (one `is_builtin` accepts) asks for with `args`, the words after it; or
/// the line that reports why it cannot run.
pub fn run(name: &str, args: &[&str]) -> (r: Result<BuiltinAction, String>)
    requires
        spec_is_builtin(name@),
    ensures
        match spec_builtin(name@, words(args)) {
            Ok(a) => r matches Ok(act) && act@ == a,
            Err(m) => r matches Err(msg) && msg@ == m,
        },
{
    if str_eq(name, "cd") {
        return cd(args);
    }
    let scoped = str_eq(name, "sh");
    if args.len() == 1 {
        assert(words(args)[0] == args@[0]@);
        return Ok(BuiltinAction::RunScript { path: owned(args[0]), scoped });
    }
    let mut m = owned(name);
    if args.len() == 0 {
        push_str(&mut m, ": usage: ");
        push_str(&mut m, name);
        push_str(&mut m, " FILE");
    } else {
        push_str(&mut m, ": too many arguments");
    }
    Err(m)
}

/// How a builtin reports what went wrong with its operand: `cmd: operand: why` -- `cd: DIR: Not a
/// directory`, `source: FILE: not valid UTF-8`.
pub fn builtin_error(cmd: &str, operand: &str, why: &str) -> (m: String)
    ensures
        m@ == cmd@ + ": "@ + operand@ + ": "@ + why@,
{
    let mut m = owned(cmd);
    push_str(&mut m, ": ");
    push_str(&mut m, operand);
    push_str(&mut m, ": ");
    push_str(&mut m, why);
    m
}

} // verus!
