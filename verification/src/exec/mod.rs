//! Loading programs: validating an ELF executable (`elfparse`), planning its load (`elf`) and where its
//! arguments go on the new stack (`argplan`), and recording what ends up mapped (`usermem`).

pub mod elf;
pub mod elfparse;
pub mod argplan;
pub mod frame_stack;
pub mod process;
pub mod usermem;
