use kernel_core::arch::mmu::{
    identity_regions, in_stack_guard, sctlr_value, tcr_value, Hardening, KernelLayout, MapKind, Region, MAIR_VALUE,
    SCTLR_ON, SCTLR_SPAN,
};

fn layout() -> KernelLayout {
    KernelLayout {
        text_start: 0x4008_0000,
        text_end: 0x400a_0000,
        rodata_start: 0x400a_0000,
        rodata_end: 0x400b_0000,
        data_start: 0x400b_0000,
        data_end: 0x400c_0000,
        stack_guard: 0x400c_0000,
        stack_bottom: 0x400c_1000,
        kernel_end: 0x400d_1000,
    }
}

#[test]
fn the_identity_map_lists_devices_then_the_kernel_without_the_guard() {
    let v = identity_regions(0x0800_0000, 0x0801_0000, &layout());
    assert_eq!(
        v,
        vec![
            Region { start: 0x0800_0000, end: 0x0801_0000, kind: MapKind::Device },
            Region { start: 0x0801_0000, end: 0x0802_0000, kind: MapKind::Device },
            Region { start: 0x0900_0000, end: 0x0900_1000, kind: MapKind::Device },
            Region { start: 0x0a00_0000, end: 0x0a00_4000, kind: MapKind::Device },
            Region { start: 0x4008_0000, end: 0x400a_0000, kind: MapKind::KernelRx },
            Region { start: 0x400a_0000, end: 0x400b_0000, kind: MapKind::KernelRo },
            Region { start: 0x400b_0000, end: 0x400c_0000, kind: MapKind::KernelRw },
            Region { start: 0x400c_1000, end: 0x400d_1000, kind: MapKind::KernelRw },
        ]
    );
}

#[test]
fn the_guard_is_the_page_below_the_stack() {
    let l = layout();
    assert!(in_stack_guard(&l, 0x400c_0000));
    assert!(in_stack_guard(&l, 0x400c_0ff8));
    assert!(!in_stack_guard(&l, 0x400c_1000));
    assert!(!in_stack_guard(&l, 0x400b_fff8));
}

#[test]
fn tcr_takes_the_physical_address_size_from_mmfr0() {
    assert_eq!(tcr_value(0), 0x80_3519);
    assert_eq!(tcr_value(0x5), 0x5_0080_3519);
    assert_eq!(tcr_value(0xffff_fff2), 0x2_0080_3519);
    assert_eq!(MAIR_VALUE, 0xff04);
}

#[test]
fn sctlr_turns_translation_on_and_pan_when_the_cpu_has_it() {
    let (v, h) = sctlr_value(0x30d0_0800 | SCTLR_SPAN, 0);
    assert_eq!(v, 0x30d0_0800 | SCTLR_SPAN | SCTLR_ON);
    assert_eq!(h, Hardening { pan: false });
    let (v, h) = sctlr_value(0x30d0_0800 | SCTLR_SPAN, 0x10_0000);
    assert_eq!(v, (0x30d0_0800 | SCTLR_ON) & !SCTLR_SPAN);
    assert_eq!(h, Hardening { pan: true });
}
