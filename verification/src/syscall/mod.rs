//! What a synchronous exception from EL0 is: a system call (and which, with which arguments), or an
//! instruction or data abort -- the segmentation fault path -- or something this kernel does not
//! handle. The registers come in a trap frame that mirrors the exception entry's stack layout; the
//! system call's result goes back in its `x0`.

pub mod fd;
pub mod power;

use vstd::prelude::*;

use crate::abi::{ENOSYS, SYS_CHMOD, SYS_CLOSE, SYS_EXIT, SYS_GETDENTS, SYS_OPEN, SYS_READ, SYS_WRITE};
use crate::text::{digits, push_digits, push_str};

verus! {

/// `ESR_EL1.EC` of an `SVC` instruction executed in AArch64 state.
pub const EC_SVC64: u64 = 0x15;
/// `ESR_EL1.EC` of an instruction abort from a lower exception level.
pub const EC_IABT_LOWER: u64 = 0x20;
/// `ESR_EL1.EC` of a data abort from a lower exception level.
pub const EC_DABT_LOWER: u64 = 0x24;

/// The registers saved on exception entry: `x0`-`x30`, then `ELR_EL1` and `SPSR_EL1`.
#[derive(Clone, Copy, Debug)]
pub struct TrapFrame {
    pub x: [u64; 31],
    pub elr_el1: u64,
    pub spsr_el1: u64,
}

/// A system call and its arguments, as the program passed them.
#[derive(Clone, Copy, Debug, PartialEq, Eq, Structural)]
pub enum Syscall {
    Write { fd: usize, ptr: usize, len: usize },
    Read { fd: usize, ptr: usize, len: usize },
    Open { ptr: usize, len: usize, flags: usize },
    Close { fd: usize },
    Getdents { fd: usize, ptr: usize, len: usize },
    Chmod { ptr: usize, len: usize, set: usize, clear: usize },
    /// The program is done; its status is the low 32 bits of `x0`.
    Exit { status: i32 },
    /// A number this kernel has no system call for: `ENOSYS`.
    Unknown { nr: usize },
}

/// What a synchronous exception from EL0 is.
#[derive(Clone, Copy, Debug, PartialEq, Eq, Structural)]
pub enum Trap {
    Syscall(Syscall),
    /// An instruction or data abort: the program touched memory it may not.
    Fault,
    /// Anything else (floating-point traps, alignment faults, ...), which this kernel does not handle.
    Unexpected,
}

/// The exception class: bits 31:26 of `ESR_EL1`.
pub open spec fn spec_exception_class(esr: u64) -> u64 {
    (esr >> 26u64) & 0x3fu64
}

/// The system call the registers ask for: its number in `x8`, its arguments in `x0`-`x3`.
pub open spec fn spec_syscall(regs: TrapFrame) -> Syscall {
    let nr = regs.x[8] as usize;
    let a0 = regs.x[0] as usize;
    let a1 = regs.x[1] as usize;
    let a2 = regs.x[2] as usize;
    let a3 = regs.x[3] as usize;
    if nr == SYS_WRITE {
        Syscall::Write { fd: a0, ptr: a1, len: a2 }
    } else if nr == SYS_READ {
        Syscall::Read { fd: a0, ptr: a1, len: a2 }
    } else if nr == SYS_OPEN {
        Syscall::Open { ptr: a0, len: a1, flags: a2 }
    } else if nr == SYS_CLOSE {
        Syscall::Close { fd: a0 }
    } else if nr == SYS_GETDENTS {
        Syscall::Getdents { fd: a0, ptr: a1, len: a2 }
    } else if nr == SYS_CHMOD {
        Syscall::Chmod { ptr: a0, len: a1, set: a2, clear: a3 }
    } else if nr == SYS_EXIT {
        Syscall::Exit { status: a0 as i32 }
    } else {
        Syscall::Unknown { nr }
    }
}

/// The exception class of `esr`.
pub fn exception_class(esr: u64) -> (ec: u64)
    ensures
        ec == spec_exception_class(esr),
        ec < 64,
{
    let ec = (esr >> 26u64) & 0x3fu64;
    assert(ec < 64) by (bit_vector)
        requires ec == (esr >> 26u64) & 0x3fu64;
    ec
}

/// Decodes the system call in `regs`.
pub fn decode_syscall(regs: &TrapFrame) -> (s: Syscall)
    ensures
        s == spec_syscall(*regs),
{
    let nr = regs.x[8] as usize;
    let a0 = regs.x[0] as usize;
    let a1 = regs.x[1] as usize;
    let a2 = regs.x[2] as usize;
    let a3 = regs.x[3] as usize;
    if nr == SYS_WRITE {
        Syscall::Write { fd: a0, ptr: a1, len: a2 }
    } else if nr == SYS_READ {
        Syscall::Read { fd: a0, ptr: a1, len: a2 }
    } else if nr == SYS_OPEN {
        Syscall::Open { ptr: a0, len: a1, flags: a2 }
    } else if nr == SYS_CLOSE {
        Syscall::Close { fd: a0 }
    } else if nr == SYS_GETDENTS {
        Syscall::Getdents { fd: a0, ptr: a1, len: a2 }
    } else if nr == SYS_CHMOD {
        Syscall::Chmod { ptr: a0, len: a1, set: a2, clear: a3 }
    } else if nr == SYS_EXIT {
        Syscall::Exit { status: a0 as i32 }
    } else {
        Syscall::Unknown { nr }
    }
}

/// What the exception with syndrome `esr` and registers `regs` is: by its class, a system call, a
/// fault, or neither.
pub fn classify(esr: u64, regs: &TrapFrame) -> (t: Trap)
    ensures
        t == (if spec_exception_class(esr) == EC_SVC64 {
            Trap::Syscall(spec_syscall(*regs))
        } else if spec_exception_class(esr) == EC_IABT_LOWER || spec_exception_class(esr) == EC_DABT_LOWER {
            Trap::Fault
        } else {
            Trap::Unexpected
        }),
{
    let ec = exception_class(esr);
    if ec == EC_SVC64 {
        Trap::Syscall(decode_syscall(regs))
    } else if ec == EC_IABT_LOWER || ec == EC_DABT_LOWER {
        Trap::Fault
    } else {
        Trap::Unexpected
    }
}

/// Hands a system call's result back to the program: `x0` holds it, as a 64-bit two's-complement
/// value; every other register is as it was.
pub fn complete_syscall(regs: &mut TrapFrame, ret: isize)
    ensures
        final(regs).x@ == old(regs).x@.update(0, ret as u64),
        final(regs).elr_el1 == old(regs).elr_el1,
        final(regs).spsr_el1 == old(regs).spsr_el1,
{
    regs.x[0] = ret as u64;
}

/// What an unknown system call returns.
pub fn unknown_syscall(regs: &mut TrapFrame)
    ensures
        final(regs).x@ == old(regs).x@.update(0, ENOSYS as u64),
        final(regs).elr_el1 == old(regs).elr_el1,
        final(regs).spsr_el1 == old(regs).spsr_el1,
{
    complete_syscall(regs, ENOSYS);
}

/// The line reported for a segmentation fault: the faulting address and the syndrome, in hex.
pub open spec fn spec_fault_message(far: u64, esr: u64) -> Seq<char> {
    "Segmentation fault (address 0x"@ + digits(far as nat, 16) + ", ESR_EL1 0x"@ + digits(esr as nat, 16) + ")\n"@
}

/// `Segmentation fault (address 0x..., ESR_EL1 0x...)` and a newline.
pub fn fault_message(far: u64, esr: u64) -> (m: String)
    ensures
        m@ == spec_fault_message(far, esr),
{
    let mut m = String::new();
    push_str(&mut m, "Segmentation fault (address 0x");
    push_digits(&mut m, far, 16);
    push_str(&mut m, ", ESR_EL1 0x");
    push_digits(&mut m, esr, 16);
    push_str(&mut m, ")\n");
    m
}

/// The arguments a system call carries, in the order the program passes them: the descriptor first,
/// then the buffer or path pointer, then its length, then any flags or masks.
pub open spec fn syscall_args(s: Syscall) -> Seq<usize> {
    match s {
        Syscall::Write { fd, ptr, len } => seq![fd, ptr, len],
        Syscall::Read { fd, ptr, len } => seq![fd, ptr, len],
        Syscall::Open { ptr, len, flags } => seq![ptr, len, flags],
        Syscall::Close { fd } => seq![fd],
        Syscall::Getdents { fd, ptr, len } => seq![fd, ptr, len],
        Syscall::Chmod { ptr, len, set, clear } => seq![ptr, len, set, clear],
        Syscall::Exit { .. } => Seq::empty(),
        Syscall::Unknown { .. } => Seq::empty(),
    }
}

/// Every decoded system call takes its arguments in register order, as the AArch64 ABI passes them:
/// its first argument from `x0`, its second from `x1`, and so on; the number in `x8` picks the call.
pub proof fn lemma_arguments_in_register_order(regs: TrapFrame)
    ensures
        forall|i: int| 0 <= i < syscall_args(spec_syscall(regs)).len()
            ==> #[trigger] syscall_args(spec_syscall(regs))[i] == regs.x[i] as usize,
        regs.x[8] as usize == SYS_READ ==> spec_syscall(regs) is Read,
        regs.x[8] as usize == SYS_WRITE ==> spec_syscall(regs) is Write,
{
}

/// `read` and `write` take the same arguments the same way: registers that decode as a `write` of
/// `len` bytes at `ptr` to `fd` decode, with the number of `read`, as a `read` of `len` bytes at `ptr`
/// from `fd`.
pub proof fn lemma_read_decodes_like_write(regs: TrapFrame, other: TrapFrame)
    requires
        regs.x[8] as usize == SYS_WRITE,
        other.x[8] as usize == SYS_READ,
        other.x[0] == regs.x[0],
        other.x[1] == regs.x[1],
        other.x[2] == regs.x[2],
    ensures
        spec_syscall(regs) matches Syscall::Write { fd, ptr, len }
            && spec_syscall(other) == (Syscall::Read { fd, ptr, len }),
{
}

} // verus!
