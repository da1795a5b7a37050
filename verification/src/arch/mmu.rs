//! The translation regime the kernel runs under: one identity-mapped table -- the devices, and the
//! kernel image split into its read-execute, read-only and read-write parts, the stack set apart by an
//! unmapped guard -- and the system register values that switch translation on, with a few hardening
//! bits. The user window is mapped by the loader, not here.

use vstd::prelude::*;

use crate::platform::base_addresses::{GICC_SIZE, GICD_SIZE, UART0_BASE, UART0_SIZE, VIRTIO_MMIO_BASE, VIRTIO_MMIO_SIZE};

verus! {

/// What switching translation on turned on beyond translation itself.
#[derive(Clone, Copy, Debug, PartialEq, Eq, Structural)]
pub struct Hardening {
    /// Privileged Access Never: the kernel faults on any access to a page EL0 may access.
    pub pan: bool,
}

/// How a region of the identity map is mapped.
#[derive(Clone, Copy, Debug, PartialEq, Eq, Structural)]
pub enum MapKind {
    /// Device memory, never executable.
    Device,
    /// Kernel code: read-only, executable by the kernel only.
    KernelRx,
    /// Kernel read-only data: never executable.
    KernelRo,
    /// Kernel data and stack: read-write, never executable.
    KernelRw,
}

/// One identity-mapped region, `start..end`.
#[derive(Clone, Copy, Debug, PartialEq, Eq, Structural)]
pub struct Region {
    pub start: usize,
    pub end: usize,
    pub kind: MapKind,
}

/// Where the linker put the kernel image's parts.
#[derive(Clone, Copy, Debug, PartialEq, Eq, Structural)]
pub struct KernelLayout {
    pub text_start: usize,
    pub text_end: usize,
    pub rodata_start: usize,
    pub rodata_end: usize,
    pub data_start: usize,
    pub data_end: usize,
    pub stack_guard: usize,
    pub stack_bottom: usize,
    pub kernel_end: usize,
}

/// Whether `addr` lies in the unmapped guard below the kernel stack -- what a data abort's fault
/// address says when the stack has overflowed.
pub fn in_stack_guard(layout: &KernelLayout, addr: usize) -> (b: bool)
    ensures
        b == (layout.stack_guard <= addr < layout.stack_bottom),
{
    layout.stack_guard <= addr && addr < layout.stack_bottom
}

/// The identity map, in the order it is built: the GIC distributor and CPU interface, the UART and
/// the virtio-mmio window as devices; then the kernel's code, read-only data, data, and the stack up
/// to the end of the image -- the guard below the stack left out.
pub open spec fn spec_identity_regions(gicd: usize, gicc: usize, k: KernelLayout) -> Seq<Region> {
    seq![
        Region { start: gicd, end: (gicd + GICD_SIZE) as usize, kind: MapKind::Device },
        Region { start: gicc, end: (gicc + GICC_SIZE) as usize, kind: MapKind::Device },
        Region { start: UART0_BASE, end: (UART0_BASE + UART0_SIZE) as usize, kind: MapKind::Device },
        Region { start: VIRTIO_MMIO_BASE, end: (VIRTIO_MMIO_BASE + VIRTIO_MMIO_SIZE) as usize, kind: MapKind::Device },
        Region { start: k.text_start, end: k.text_end, kind: MapKind::KernelRx },
        Region { start: k.rodata_start, end: k.rodata_end, kind: MapKind::KernelRo },
        Region { start: k.data_start, end: k.data_end, kind: MapKind::KernelRw },
        Region { start: k.stack_bottom, end: k.kernel_end, kind: MapKind::KernelRw },
    ]
}

/// The identity map's regions.
pub fn identity_regions(gicd: usize, gicc: usize, k: &KernelLayout) -> (v: Vec<Region>)
    requires
        gicd + GICD_SIZE <= usize::MAX,
        gicc + GICC_SIZE <= usize::MAX,
    ensures
        v@ == spec_identity_regions(gicd, gicc, *k),
{
    let v = vec![
        Region { start: gicd, end: gicd + GICD_SIZE, kind: MapKind::Device },
        Region { start: gicc, end: gicc + GICC_SIZE, kind: MapKind::Device },
        Region { start: UART0_BASE, end: UART0_BASE + UART0_SIZE, kind: MapKind::Device },
        Region { start: VIRTIO_MMIO_BASE, end: VIRTIO_MMIO_BASE + VIRTIO_MMIO_SIZE, kind: MapKind::Device },
        Region { start: k.text_start, end: k.text_end, kind: MapKind::KernelRx },
        Region { start: k.rodata_start, end: k.rodata_end, kind: MapKind::KernelRo },
        Region { start: k.data_start, end: k.data_end, kind: MapKind::KernelRw },
        Region { start: k.stack_bottom, end: k.kernel_end, kind: MapKind::KernelRw },
    ];
    assert(v@ =~= spec_identity_regions(gicd, gicc, *k));
    v
}

/// `MAIR_EL1`: attribute index 0 is Device-nGnRE, index 1 normal write-back memory.
pub const MAIR_VALUE: u64 = 0xff04;

/// `TCR_EL1` for the table: a 39-bit address space (T0SZ = 25), a 4 KiB granule, write-back
/// cacheable inner-shareable table walks, no `TTBR1_EL1` walks (EPD1), and the physical address size
/// the CPU reports (`ID_AA64MMFR0_EL1.PARange`, its low four bits).
pub open spec fn spec_tcr(mmfr0: u64) -> u64 {
    25u64 | 0x100u64 | 0x400u64 | 0x3000u64 | 0x80_0000u64 | ((mmfr0 & 0xfu64) << 32u64)
}

/// The `TCR_EL1` value for a CPU whose `ID_AA64MMFR0_EL1` reads `mmfr0`.
pub fn tcr_value(mmfr0: u64) -> (v: u64)
    ensures
        v == spec_tcr(mmfr0),
{
    25u64 | 0x100u64 | 0x400u64 | 0x3000u64 | 0x80_0000u64 | ((mmfr0 & 0xfu64) << 32u64)
}

/// `SCTLR_EL1` bits: translation (M), data and instruction caches (C, I), stack alignment checks at
/// EL1 and EL0 (SA, SA0), write-implies-never-execute (WXN).
pub const SCTLR_ON: u64 = 0x8_101d;
/// `SCTLR_EL1.SPAN`: clear, every exception into EL1 sets PAN again.
pub const SCTLR_SPAN: u64 = 0x80_0000;

/// Whether a CPU whose `ID_AA64MMFR1_EL1` reads `mmfr1` has PAN (its bits 23:20 are not zero).
pub open spec fn spec_has_pan(mmfr1: u64) -> bool {
    (mmfr1 >> 20u64) & 0xfu64 != 0
}

/// The `SCTLR_EL1` value that switches translation on from `old`, and whether PAN is turned on: the
/// translation, cache and hardening bits set, and SPAN cleared if the CPU has PAN.
pub fn sctlr_value(old: u64, mmfr1: u64) -> (r: (u64, Hardening))
    ensures
        r.1.pan == spec_has_pan(mmfr1),
        r.0 == if spec_has_pan(mmfr1) { (old | SCTLR_ON) & !SCTLR_SPAN } else { old | SCTLR_ON },
{
    let pan = (mmfr1 >> 20u64) & 0xfu64 != 0;
    let mut sctlr = old | SCTLR_ON;
    if pan {
        sctlr = sctlr & !SCTLR_SPAN;
    }
    (sctlr, Hardening { pan })
}

} // verus!
