use kernel_core::platform::base_addresses::{
    discover, discover_blob, first_spi, DeviceNode, DiscoveryError, MAX_VIRTIO_MMIO_SLOTS,
};
use kernel_core::platform::dtb::walkable;
use kernel_core::platform::uart::{Uart, UartTranscript};

#[test]
fn newlines_go_out_as_crlf_and_the_line_start_is_tracked() {
    let mut t = UartTranscript::new();
    assert!(t.uart_at_line_start());
    t.uart_write(b"a\nb");
    assert!(!t.uart_at_line_start());
    t.uart_write(b"");
    assert!(!t.uart_at_line_start());
    t.uart_write(b"c\n");
    assert!(t.uart_at_line_start());
    assert_eq!(t.take_bytes(), b"a\r\nbc\r\n".to_vec());
}

#[test]
fn a_newline_is_owed_only_mid_line() {
    let mut t = UartTranscript::new();
    t.uart_ensure_newline();
    assert!(t.take_bytes().is_empty());
    t.uart_write(b"x");
    t.uart_ensure_newline();
    t.uart_ensure_newline();
    assert_eq!(t.take_bytes(), b"x\r\n".to_vec());
}

#[test]
fn clearing_the_screen_sends_home_and_erase_and_starts_a_line() {
    let mut t = UartTranscript::new();
    t.uart_write(b"x");
    t.uart_clear_screen();
    assert!(t.uart_at_line_start());
    assert_eq!(t.take_bytes(), b"x\x1b[H\x1b[2J".to_vec());
    t.set_uart_at_line_start(false);
    assert!(!t.uart_at_line_start());
}

#[test]
fn the_uart_registers_are_at_their_offsets() {
    let u = Uart::new(0x0900_0000, 1);
    assert_eq!((u.dr, u.fr, u.imsc, u.icr, u.spi), (0x0900_0000, 0x0900_0018, 0x0900_0038, 0x0900_0044, 1));
}

#[test]
fn the_first_spi_is_the_second_cell_of_an_spi_interrupt() {
    assert_eq!(first_spi(Some(&[0, 0, 0, 0, 0, 0, 0, 0x2f, 0, 0, 0, 1])), Some(0x2f));
    assert_eq!(first_spi(Some(&[0, 0, 0, 1, 0, 0, 0, 0x2f])), None);
    assert_eq!(first_spi(Some(&[0, 0, 0, 0, 0, 0])), None);
    assert_eq!(first_spi(Some(&[])), None);
    assert_eq!(first_spi(None), None);
}

fn node(compatible: &[&str], reg: &[usize], spi: Option<u32>) -> DeviceNode {
    DeviceNode {
        compatible: compatible.iter().map(|s| s.to_string()).collect(),
        reg: reg.to_vec(),
        interrupts: spi.map(|n| {
            let mut v = vec![0u8; 4];
            v.extend_from_slice(&n.to_be_bytes());
            v
        }),
    }
}

#[test]
fn discovery_records_the_gic_and_each_virtio_slot_in_order() {
    let nodes = vec![
        node(&["arm,pl011"], &[0x0900_0000], Some(1)),
        node(&["virtio,mmio"], &[0x0a00_0000], Some(16)),
        node(&["virtio,mmio"], &[], Some(17)),
        node(&["virtio,mmio"], &[0x0a00_0400], None),
        node(&["other", "virtio,mmio"], &[0x0a00_0600, 0x1234], Some(19)),
    ];
    let found = discover(&[0x0800_0000, 0x0801_0000], &nodes).unwrap();
    assert_eq!(found.get_gicd(), 0x0800_0000);
    assert_eq!(found.get_gicc(), 0x0801_0000);
    assert_eq!(found.virtio_mmio_slots(), vec![(0x0a00_0000, 16), (0x0a00_0600, 19)]);
}

#[test]
fn discovery_keeps_at_most_the_platforms_slots() {
    let nodes: Vec<DeviceNode> = (0..40).map(|i| node(&["virtio,mmio"], &[0x0a00_0000 + i * 0x200], Some(i as u32))).collect();
    let found = discover(&[1, 2], &nodes).unwrap();
    let slots = found.virtio_mmio_slots();
    assert_eq!(slots.len(), MAX_VIRTIO_MMIO_SLOTS);
    assert_eq!(slots[31], (0x0a00_0000 + 31 * 0x200, 31));
}

#[test]
fn discovery_needs_both_gic_regions() {
    assert!(matches!(discover(&[0x0800_0000], &[]), Err(DiscoveryError::MissingGicRegions)));
}

/// A flattened device tree under construction.
struct Dtb {
    structs: Vec<u8>,
    strings: Vec<u8>,
}

impl Dtb {
    fn new() -> Dtb {
        Dtb { structs: Vec::new(), strings: Vec::new() }
    }

    fn tok(&mut self, t: u32) {
        self.structs.extend_from_slice(&t.to_be_bytes());
    }

    fn pad(&mut self) {
        while self.structs.len() % 4 != 0 {
            self.structs.push(0);
        }
    }

    fn begin(&mut self, name: &str) {
        self.tok(1);
        self.structs.extend_from_slice(name.as_bytes());
        self.structs.push(0);
        self.pad();
    }

    fn end_node(&mut self) {
        self.tok(2);
    }

    fn prop(&mut self, name: &str, value: &[u8]) {
        let off = self.strings.len() as u32;
        self.strings.extend_from_slice(name.as_bytes());
        self.strings.push(0);
        self.tok(3);
        self.tok(value.len() as u32);
        self.tok(off);
        self.structs.extend_from_slice(value);
        self.pad();
    }

    fn finish(mut self) -> Vec<u8> {
        self.tok(5);
        let total = 40 + self.structs.len() + self.strings.len();
        let mut blob = Vec::new();
        for v in [
            0xd00d_feed,
            total as u32,
            40,
            40 + self.structs.len() as u32,
            40,
            17,
            16,
            0,
            self.strings.len() as u32,
            self.structs.len() as u32,
        ] {
            blob.extend_from_slice(&v.to_be_bytes());
        }
        blob.extend_from_slice(&self.structs);
        blob.extend_from_slice(&self.strings);
        blob
    }
}

/// `cells` as big-endian bytes.
fn cells(cells: &[u32]) -> Vec<u8> {
    cells.iter().flat_map(|c| c.to_be_bytes()).collect()
}

/// A tree with a root, then (if `gic`) a GIC node with two regions, then two virtio-mmio nodes.
fn board(gic: bool) -> Vec<u8> {
    let mut t = Dtb::new();
    t.begin("");
    t.prop("#address-cells", &cells(&[2]));
    t.prop("#size-cells", &cells(&[1]));
    if gic {
        t.begin("intc@8000000");
        t.prop("compatible", b"arm,cortex-a15-gic\0");
        t.prop("reg", &cells(&[0, 0x0800_0000, 0x1_0000, 0, 0x0801_0000, 0x1_0000]));
        t.end_node();
    }
    for (i, spi) in [(0u32, 0x10u32), (1, 0x11)] {
        t.begin("virtio_mmio");
        t.prop("interrupts", &cells(&[0, spi, 1]));
        t.prop("reg", &cells(&[0, 0x0a00_0000 + 0x200 * i, 0x200]));
        t.prop("compatible", b"virtio,mmio\0");
        t.end_node();
    }
    t.end_node();
    t.finish()
}

#[test]
fn a_device_tree_blob_is_walked_for_the_gic_and_the_virtio_slots() {
    let blob = board(true);
    assert!(walkable(&blob));
    let a = discover_blob(&blob).unwrap();
    assert_eq!(a.get_gicd(), 0x0800_0000);
    assert_eq!(a.get_gicc(), 0x0801_0000);
    assert_eq!(a.virtio_mmio_slots(), vec![(0x0a00_0000, 0x10), (0x0a00_0200, 0x11)]);
}

#[test]
fn a_device_tree_without_a_gic_is_refused() {
    assert!(matches!(discover_blob(&board(false)), Err(DiscoveryError::MissingGicRegions)));
}

#[test]
fn a_malformed_device_tree_is_refused_before_it_is_walked() {
    let mut blob = board(true);
    blob[0] = 0;
    assert!(!walkable(&blob));
    assert!(matches!(discover_blob(&blob), Err(DiscoveryError::BadBlob)));
    // A property whose value runs past the structure block.
    let mut t = Dtb::new();
    t.begin("");
    t.prop("reg", &cells(&[1]));
    t.end_node();
    let mut blob = t.finish();
    blob[40 + 4 + 4 + 4 + 3] = 0xff;
    assert!(!walkable(&blob));
    assert!(matches!(discover_blob(&blob), Err(DiscoveryError::BadBlob)));
    // Unbalanced nodes, and a cell-size property shorter than a cell.
    let mut t = Dtb::new();
    t.begin("");
    let blob = t.finish();
    assert!(matches!(discover_blob(&blob), Err(DiscoveryError::BadBlob)));
    let mut t = Dtb::new();
    t.begin("");
    t.prop("#size-cells", &[1]);
    t.end_node();
    assert!(matches!(discover_blob(&t.finish()), Err(DiscoveryError::BadBlob)));
    assert!(matches!(discover_blob(&[]), Err(DiscoveryError::BadBlob)));
}
