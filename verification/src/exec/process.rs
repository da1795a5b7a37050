//! Starting one EL0 program: loading it and laying out its arguments, or the reason it cannot be
//! started at all. At most one program is ever resident, so there is no process table; entering it
//! and coming back when it exits or faults is the architecture's part.

use vstd::prelude::*;

use super::argplan::{laid_out, plan, plan_fits, ArgsPlan};
use super::elf::{plan_load, planned, LoadPlan};
use super::elfparse::{spec_parse, ElfError};
use crate::abi::{E2BIG, ENOEXEC};
use crate::platform::base_addresses::{USER_BASE, USER_IMAGE_END, USER_STACK_TOP};
use crate::text::{str_utf8_len, utf8_len};

verus! {

/// The status reported for a program stopped by a fault (`128 + SIGSEGV`, the shell convention).
pub const EXIT_FAULT: i32 = 139;

/// The most stack a program's initial arguments (strings plus pointer array) may take: an eighth of
/// the stack, so an absurd argument list is refused up front.
pub const ARG_MAX: usize = 0x20000;

/// Why a program could not be started.
#[derive(Debug, Clone, Copy, PartialEq, Eq, Structural)]
pub enum LaunchError {
    /// The file is not a loadable executable (the `ElfError` says why).
    Elf(ElfError),
    /// The argument list does not fit in `ARG_MAX`.
    ArgsTooBig,
}

impl LaunchError {
    /// The error number this maps to, which the launcher's message is worded from.
    pub fn errno(self) -> (e: isize)
        ensures
            e == (match self {
                LaunchError::Elf(_) => ENOEXEC,
                LaunchError::ArgsTooBig => E2BIG,
            }),
    {
        match self {
            LaunchError::Elf(_) => ENOEXEC,
            LaunchError::ArgsTooBig => E2BIG,
        }
    }
}

impl From<ElfError> for LaunchError {
    fn from(e: ElfError) -> (r: Self) {
        LaunchError::Elf(e)
    }
}

impl vstd::std_specs::convert::FromSpecImpl<ElfError> for LaunchError {
    open spec fn obeys_from_spec() -> bool {
        true
    }

    open spec fn from_spec(e: ElfError) -> Self {
        LaunchError::Elf(e)
    }
}

/// A program ready to enter: where it starts, its initial stack pointer, and its `argc`/`argv`.
#[derive(Debug, Clone, Copy, PartialEq, Eq, Structural)]
pub struct PreparedProgram {
    pub entry: usize,
    pub sp: usize,
    pub argc: usize,
    pub argv: usize,
}

/// Everything starting a program takes: the load, the argument layout, and the registers to enter
/// it with.
pub struct Launch {
    pub load: LoadPlan,
    pub args: ArgsPlan,
    pub program: PreparedProgram,
}

/// The byte lengths of `args`.
pub open spec fn arg_lens(args: Seq<&str>) -> Seq<usize> {
    args.map_values(|a: &str| utf8_len(a@) as usize)
}

/// Plans starting the executable `elf_bytes` with `args` as its whole argument list, after a program
/// that left `mapped` mapped: an argument list that cannot fit below the stack top within `ARG_MAX` is
/// refused first, so it costs no load; then a file `parse` refuses. The program enters with its
/// stack pointer at the argument pointer array, which is also its `argv`.
pub fn prepare(elf_bytes: &[u8], args: &[&str], mapped: &[(usize, usize)]) -> (r: Result<Launch, LaunchError>)
    ensures
        !plan_fits(USER_STACK_TOP as int, (USER_STACK_TOP - ARG_MAX) as int, arg_lens(args@))
            ==> r == Err::<Launch, LaunchError>(LaunchError::ArgsTooBig),
        plan_fits(USER_STACK_TOP as int, (USER_STACK_TOP - ARG_MAX) as int, arg_lens(args@)) ==> match spec_parse(
            elf_bytes@,
            USER_BASE as int,
            USER_IMAGE_END as int,
        ) {
            Err(e) => r == Err::<Launch, LaunchError>(LaunchError::Elf(e)),
            Ok((entry, segs)) => r matches Ok(l) && {
                &&& planned(l.load, entry, segs, mapped@)
                &&& laid_out(l.args, USER_STACK_TOP as int, arg_lens(args@))
                &&& l.program == (PreparedProgram { entry, sp: l.args.array, argc: args@.len() as usize, argv: l.args.array })
            },
        },
{
    let mut lens: Vec<usize> = Vec::new();
    let mut i: usize = 0;
    while i < args.len()
        invariant
            i <= args@.len(),
            lens@ == arg_lens(args@).take(i as int),
        decreases args@.len() - i,
    {
        lens.push(str_utf8_len(args[i]));
        i += 1;
        assert(lens@ =~= arg_lens(args@).take(i as int));
    }
    assert(arg_lens(args@).take(args@.len() as int) =~= arg_lens(args@));
    let layout = match plan(USER_STACK_TOP, USER_STACK_TOP - ARG_MAX, lens.as_slice()) {
        Some(p) => p,
        None => return Err(LaunchError::ArgsTooBig),
    };
    let load = match plan_load(elf_bytes, mapped) {
        Ok(p) => p,
        Err(e) => return Err(LaunchError::Elf(e)),
    };
    let program = PreparedProgram { entry: load.entry, sp: layout.array, argc: args.len(), argv: layout.array };
    Ok(Launch { load, args: layout, program })
}

} // verus!
