use kernel_core::abi::{E2BIG, ENOEXEC};
use kernel_core::exec::elf::{pages_of, plan_load, Fill, Lock};
use kernel_core::exec::elfparse::{ElfError, Segment, PF_W, PF_X};
use kernel_core::exec::process::{prepare, LaunchError, PreparedProgram, ARG_MAX};
use kernel_core::platform::base_addresses::{USER_BASE, USER_STACK_BOTTOM, USER_STACK_TOP};

const PT_LOAD: u32 = 1;

/// An executable with a code segment at `USER_BASE` (0x180 bytes of file) and a data segment one
/// page up whose memory runs past its file bytes (a `.bss` tail).
fn two_segments() -> Vec<u8> {
    let phdrs: [(u32, u32, u64, u64, u64, u64); 2] = [
        (PT_LOAD, PF_X, 0x100, USER_BASE as u64, 0x80, 0x80),
        (PT_LOAD, PF_W, 0x180, (USER_BASE + 0x1010) as u64, 0x10, 0x2000),
    ];
    let mut b = vec![0u8; 0x190];
    b[0..4].copy_from_slice(b"\x7fELF");
    b[4] = 2;
    b[5] = 1;
    b[16..18].copy_from_slice(&2u16.to_le_bytes());
    b[18..20].copy_from_slice(&183u16.to_le_bytes());
    b[24..32].copy_from_slice(&((USER_BASE + 0x40) as u64).to_le_bytes());
    b[32..40].copy_from_slice(&64u64.to_le_bytes());
    b[54..56].copy_from_slice(&56u16.to_le_bytes());
    b[56..58].copy_from_slice(&2u16.to_le_bytes());
    for (i, &(ty, flags, off, vaddr, filesz, memsz)) in phdrs.iter().enumerate() {
        let at = 64 + i * 56;
        b[at..at + 4].copy_from_slice(&ty.to_le_bytes());
        b[at + 4..at + 8].copy_from_slice(&flags.to_le_bytes());
        b[at + 8..at + 16].copy_from_slice(&off.to_le_bytes());
        b[at + 16..at + 24].copy_from_slice(&vaddr.to_le_bytes());
        b[at + 32..at + 40].copy_from_slice(&filesz.to_le_bytes());
        b[at + 40..at + 48].copy_from_slice(&memsz.to_le_bytes());
    }
    b
}

#[test]
fn a_segment_covers_whole_pages() {
    let s = Segment { vaddr: 0x4400_1010, offset: 0, filesz: 0, memsz: 0x2000, flags: PF_W };
    assert_eq!(pages_of(&s), (0x4400_1000, 0x4400_4000));
    let s = Segment { vaddr: 0x4400_0000, offset: 0, filesz: 0, memsz: 0x1000, flags: PF_X };
    assert_eq!(pages_of(&s), (0x4400_0000, 0x4400_1000));
}

#[test]
fn a_load_unmaps_the_last_program_backwards_then_fills_and_locks_each_segment() {
    let before = [(0x4400_0000, 0x4400_1000), (USER_STACK_BOTTOM, USER_STACK_TOP)];
    let p = plan_load(&two_segments(), &before).unwrap();
    assert_eq!(p.entry, USER_BASE + 0x40);
    assert_eq!(p.unmap, vec![(USER_STACK_BOTTOM, USER_STACK_TOP), (0x4400_0000, 0x4400_1000)]);
    assert_eq!(
        p.fills,
        vec![
            Fill { start: USER_BASE, end: USER_BASE + 0x1000, vaddr: USER_BASE, offset: 0x100, filesz: 0x80 },
            Fill { start: USER_BASE + 0x1000, end: USER_BASE + 0x4000, vaddr: USER_BASE + 0x1010, offset: 0x180, filesz: 0x10 },
        ]
    );
    assert_eq!(
        p.locks,
        vec![
            Lock { start: USER_BASE, end: USER_BASE + 0x1000, writable: false, executable: true },
            Lock { start: USER_BASE + 0x1000, end: USER_BASE + 0x4000, writable: true, executable: false },
        ]
    );
    assert_eq!(
        p.mapped,
        vec![
            (USER_BASE, USER_BASE + 0x1000),
            (USER_BASE + 0x1000, USER_BASE + 0x4000),
            (USER_STACK_BOTTOM, USER_STACK_TOP),
        ]
    );
}

#[test]
fn a_file_that_is_not_an_executable_plans_nothing() {
    let mut b = two_segments();
    b[0] = 0;
    assert_eq!(plan_load(&b, &[]).err(), Some(ElfError::NotElf));
}

#[test]
fn prepare_lays_out_the_arguments_and_enters_at_the_pointer_array() {
    let l = prepare(&two_segments(), &["prog", "a"], &[]).unwrap();
    assert_eq!(l.args.strings, vec![USER_STACK_TOP - 5, USER_STACK_TOP - 7]);
    let array = (USER_STACK_TOP - 7 - 3 * core::mem::size_of::<usize>()) & !0xf;
    assert_eq!(l.args.array, array);
    assert_eq!(l.program, PreparedProgram { entry: USER_BASE + 0x40, sp: array, argc: 2, argv: array });
    assert!(l.load.unmap.is_empty());
}

#[test]
fn arguments_that_do_not_fit_are_refused_before_the_file_is_read() {
    let big = "x".repeat(ARG_MAX);
    let r = prepare(&[], &[big.as_str()], &[]);
    assert_eq!(r.err(), Some(LaunchError::ArgsTooBig));
    assert_eq!(LaunchError::ArgsTooBig.errno(), E2BIG);
}

#[test]
fn a_bad_file_is_an_elf_error_and_enoexec() {
    let r = prepare(&[0u8; 10], &["prog"], &[]);
    let e = r.err().unwrap();
    assert!(matches!(e, LaunchError::Elf(_)));
    assert_eq!(e.errno(), ENOEXEC);
    assert_eq!(LaunchError::from(ElfError::NotElf), LaunchError::Elf(ElfError::NotElf));
}
