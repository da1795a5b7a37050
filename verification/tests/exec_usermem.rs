use kernel_core::exec::elf::{memory_of, plan_load};
use kernel_core::exec::elfparse::{PF_W, PF_X};
use kernel_core::exec::usermem::UserMemory;
use kernel_core::platform::base_addresses::{USER_BASE, USER_IMAGE_END, USER_SIZE, USER_STACK_BOTTOM, USER_STACK_TOP};
use kernel_core::syscall::fd::validate;

/// A code segment at `USER_BASE` and a data segment one page up.
fn two_segments() -> Vec<u8> {
    let phdrs: [(u32, u64, u64, u64, u64); 2] =
        [(PF_X, 0x100, USER_BASE as u64, 0x80, 0x80), (PF_W, 0x180, (USER_BASE + 0x1010) as u64, 0x10, 0x2000)];
    let mut b = vec![0u8; 0x190];
    b[0..4].copy_from_slice(b"\x7fELF");
    b[4] = 2;
    b[5] = 1;
    b[16..18].copy_from_slice(&2u16.to_le_bytes());
    b[18..20].copy_from_slice(&183u16.to_le_bytes());
    b[24..32].copy_from_slice(&(USER_BASE as u64).to_le_bytes());
    b[32..40].copy_from_slice(&64u64.to_le_bytes());
    b[54..56].copy_from_slice(&56u16.to_le_bytes());
    b[56..58].copy_from_slice(&2u16.to_le_bytes());
    for (i, &(flags, off, vaddr, filesz, memsz)) in phdrs.iter().enumerate() {
        let at = 64 + i * 56;
        b[at..at + 4].copy_from_slice(&1u32.to_le_bytes());
        b[at + 4..at + 8].copy_from_slice(&flags.to_le_bytes());
        b[at + 8..at + 16].copy_from_slice(&off.to_le_bytes());
        b[at + 16..at + 24].copy_from_slice(&vaddr.to_le_bytes());
        b[at + 32..at + 40].copy_from_slice(&filesz.to_le_bytes());
        b[at + 40..at + 48].copy_from_slice(&memsz.to_le_bytes());
    }
    b
}

#[test]
fn nothing_mapped_allows_only_the_empty_range() {
    let m = UserMemory::new();
    assert!(!m.allows(0x4400_0000, 1, false));
    assert!(m.allows(0x4400_0000, 0, false));
}

#[test]
fn a_range_may_span_adjacent_regions_but_not_a_gap() {
    let mut m = UserMemory::new();
    m.add(0x1000, 0x2000, false);
    m.add(0x2000, 0x3000, true);
    m.add(0x4000, 0x5000, true);
    assert!(m.allows(0x1800, 0x1000, false));
    assert!(!m.allows(0x1800, 0x1000, true));
    assert!(m.allows(0x2800, 0x800, true));
    assert!(!m.allows(0x2800, 0x1000, false));
    assert!(m.allows(0x4000, 0x1000, true));
    assert!(!m.allows(0x4000, 0x1001, true));
    m.clear();
    assert!(!m.allows(0x1800, 1, false));
}

#[test]
fn a_range_that_wraps_is_refused() {
    let mut m = UserMemory::new();
    m.add(0, usize::MAX, true);
    assert!(!m.allows(usize::MAX - 1, 2, false));
    assert!(m.allows(usize::MAX - 1, 1, false));
}

#[test]
fn a_load_leaves_the_stack_and_its_segments_mapped() {
    let p = plan_load(&two_segments(), &[]).unwrap();
    let m = memory_of(&p);
    assert!(validate(&m, USER_BASE, 0x80, false));
    assert!(!validate(&m, USER_BASE, 0x80, true));
    assert!(validate(&m, USER_BASE + 0x1000, 0x3000, true));
    assert!(!validate(&m, USER_BASE + 0x4000, 1, false));
    assert!(!validate(&m, USER_IMAGE_END, 1, false));
    assert!(!validate(&m, USER_STACK_BOTTOM - 1, 1, false));
    assert!(validate(&m, USER_STACK_BOTTOM, USER_STACK_TOP - USER_STACK_BOTTOM, true));
    assert!(!validate(&m, USER_STACK_TOP - 8, 16, true));
    assert!(validate(&m, USER_BASE + USER_SIZE, 0, false));
    assert!(!validate(&m, USER_BASE - 1, 0, false));
}
