//! The pure logic of a small AArch64 teaching kernel's console, keyboard, shell and program loader,
//! with its contracts proved by Verus.

pub mod console;
pub mod exec;
pub mod keyboard;
pub mod shell;
pub mod text;
pub mod abi;
pub mod arch;
pub mod fs;
pub mod platform;
pub mod syscall;

