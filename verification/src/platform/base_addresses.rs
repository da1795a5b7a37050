//! The board's memory map: the fixed addresses (UART, the virtio-mmio window, the user window and its
//! layout) and the ones discovered from the device tree -- the GIC's two regions, and every
//! `virtio,mmio` slot with its interrupt.
//!
//! The user window, from the bottom: the program image (its segments, page-aligned), an unmapped
//! guard, then the stack up to the top of the window.

use vstd::prelude::*;

use super::dtb::{spec_walkable, walkable};
use crate::text::str_eq;

verus! {

/// UART0's base address: fixed, since it must work even if discovery fails.
pub const UART0_BASE: usize = 0x0900_0000;
/// Size of UART0's register block.
pub const UART0_SIZE: usize = 0x1000;
/// Size of the GIC distributor's register block.
pub const GICD_SIZE: usize = 0x10000;
/// Size of the GIC CPU interface's register block.
pub const GICC_SIZE: usize = 0x10000;

/// Base address of the first `virtio,mmio` slot; the slots are contiguous, 512 bytes each.
pub const VIRTIO_MMIO_BASE: usize = 0x0A00_0000;
/// How many `virtio,mmio` slots the platform has.
pub const MAX_VIRTIO_MMIO_SLOTS: usize = 32;
/// Size of the whole `virtio,mmio` window.
pub const VIRTIO_MMIO_SIZE: usize = 0x4000;

/// Start of the EL0-accessible user window.
pub const USER_BASE: usize = 0x4400_0000;
/// Size of the user window.
pub const USER_SIZE: usize = 0x0020_0000;
/// The stack's size.
pub const USER_STACK_SIZE: usize = 0x0010_0000;
/// The unmapped guard below the stack.
pub const USER_GUARD_SIZE: usize = 0x0001_0000;
/// One past the highest stack address: the initial stack pointer.
pub const USER_STACK_TOP: usize = USER_BASE + USER_SIZE;
/// The lowest stack address; the guard lies just below it.
pub const USER_STACK_BOTTOM: usize = USER_STACK_TOP - USER_STACK_SIZE;
/// The end (exclusive) of what a program's image may occupy.
pub const USER_IMAGE_END: usize = USER_STACK_BOTTOM - USER_GUARD_SIZE;

/// The addresses discovered from the device tree: the GIC's, and each `virtio,mmio` slot's base
/// address and SPI number, in device-tree order.
pub struct AtomicBaseAddresses {
    gicd: usize,
    gicc: usize,
    virtio_mmio: Vec<(usize, u32)>,
}

impl AtomicBaseAddresses {
    pub closed spec fn spec_gicd(&self) -> usize {
        self.gicd
    }

    pub closed spec fn spec_gicc(&self) -> usize {
        self.gicc
    }

    /// The recorded slots, in the order found.
    pub closed spec fn slots(&self) -> Seq<(usize, u32)> {
        self.virtio_mmio@
    }

    pub closed spec fn wf(&self) -> bool {
        self.virtio_mmio@.len() <= MAX_VIRTIO_MMIO_SLOTS
    }

    /// Nothing discovered yet.
    pub fn new() -> (a: Self)
        ensures
            a.wf(),
            a.spec_gicd() == 0,
            a.spec_gicc() == 0,
            a.slots() == Seq::<(usize, u32)>::empty(),
    {
        Self { gicd: 0, gicc: 0, virtio_mmio: Vec::new() }
    }

    /// The GIC distributor's base address.
    pub fn get_gicd(&self) -> (a: usize)
        ensures
            a == self.spec_gicd(),
    {
        self.gicd
    }

    /// The GIC CPU interface's base address.
    pub fn get_gicc(&self) -> (a: usize)
        ensures
            a == self.spec_gicc(),
    {
        self.gicc
    }

    fn set_gic(&mut self, gicd: usize, gicc: usize)
        ensures
            final(self).spec_gicd() == gicd,
            final(self).spec_gicc() == gicc,
            final(self).slots() == old(self).slots(),
    {
        self.gicd = gicd;
        self.gicc = gicc;
    }

    /// Records one `virtio,mmio` slot, unless all of them are already recorded; says which.
    fn push_virtio_mmio(&mut self, base: usize, irq: u32) -> (pushed: bool)
        requires
            old(self).wf(),
        ensures
            final(self).wf(),
            pushed == (old(self).slots().len() < MAX_VIRTIO_MMIO_SLOTS),
            final(self).slots() == if pushed { old(self).slots().push((base, irq)) } else { old(self).slots() },
            final(self).spec_gicd() == old(self).spec_gicd(),
            final(self).spec_gicc() == old(self).spec_gicc(),
    {
        if self.virtio_mmio.len() >= MAX_VIRTIO_MMIO_SLOTS {
            return false;
        }
        self.virtio_mmio.push((base, irq));
        true
    }

    /// Every recorded `virtio,mmio` slot as (base, SPI), in device-tree order.
    pub fn virtio_mmio_slots(&self) -> (v: Vec<(usize, u32)>)
        ensures
            v@ == self.slots(),
    {
        let mut v: Vec<(usize, u32)> = Vec::new();
        let mut i: usize = 0;
        while i < self.virtio_mmio.len()
            invariant
                i <= self.virtio_mmio@.len(),
                v@ == self.virtio_mmio@.take(i as int),
            decreases self.virtio_mmio@.len() - i,
        {
            v.push(self.virtio_mmio[i]);
            i += 1;
            assert(v@ =~= self.virtio_mmio@.take(i as int));
        }
        assert(self.virtio_mmio@.take(i as int) =~= self.virtio_mmio@);
        v
    }
}

/// The 4-byte big-endian cell `i` of `bytes`, if it has one.
pub open spec fn cell(bytes: Seq<u8>, i: int) -> Option<u32> {
    if 0 <= i && 4 * i + 4 <= bytes.len() {
        Some(((bytes[4 * i] as u32) * 0x1000000 + (bytes[4 * i + 1] as u32) * 0x10000
            + (bytes[4 * i + 2] as u32) * 0x100 + (bytes[4 * i + 3] as u32)) as u32)
    } else {
        None
    }
}

/// The SPI number an `interrupts` property names first: its second cell, if its first says the
/// interrupt is an SPI (type 0).
pub open spec fn spec_first_spi(interrupts: Option<Seq<u8>>) -> Option<u32> {
    match interrupts {
        None => None,
        Some(bytes) => match cell(bytes, 0) {
            Some(t) => if t == 0 { cell(bytes, 1) } else { None },
            None => None,
        },
    }
}

fn read_cell(bytes: &[u8], i: usize) -> (c: Option<u32>)
    requires
        i <= 2,
    ensures
        c == cell(bytes@, i as int),
{
    if bytes.len() < 4 * i + 4 {
        return None;
    }
    let k = 4 * i;
    let v = (bytes[k] as u32) * 0x1000000 + (bytes[k + 1] as u32) * 0x10000 + (bytes[k + 2] as u32) * 0x100
        + (bytes[k + 3] as u32);
    Some(v)
}

/// The first SPI number in a device-tree node's `interrupts` property (absent: `None`).
pub fn first_spi(interrupts: Option<&[u8]>) -> (r: Option<u32>)
    ensures
        r == spec_first_spi(match interrupts { Some(b) => Some(b@), None => None }),
{
    let bytes = match interrupts {
        Some(b) => b,
        None => return None,
    };
    match read_cell(bytes, 0) {
        Some(t) => if t == 0 { read_cell(bytes, 1) } else { None },
        None => None,
    }
}

/// What discovery reads of one device-tree node: its `compatible` strings, the starting addresses
/// of its `reg` regions, and its `interrupts` property, if it has one.
pub struct DeviceNode {
    pub compatible: Vec<String>,
    pub reg: Vec<usize>,
    pub interrupts: Option<Vec<u8>>,
}

/// A node as the contracts see it.
pub struct NodeView {
    pub compatible: Seq<Seq<char>>,
    pub reg: Seq<usize>,
    pub interrupts: Option<Seq<u8>>,
}

impl View for DeviceNode {
    type V = NodeView;

    open spec fn view(&self) -> NodeView {
        NodeView {
            compatible: self.compatible@.map_values(|s: String| s@),
            reg: self.reg@,
            interrupts: match self.interrupts {
                Some(b) => Some(b@),
                None => None,
            },
        }
    }
}

/// The slot a node describes: a `virtio,mmio` node with a `reg` region and an SPI gives its first
/// region's address and that SPI; any other node gives none.
pub open spec fn slot_of(n: NodeView) -> Option<(usize, u32)> {
    if !n.compatible.contains("virtio,mmio"@) || n.reg.len() == 0 {
        None
    } else {
        match spec_first_spi(n.interrupts) {
            Some(irq) => Some((n.reg[0], irq)),
            None => None,
        }
    }
}

/// The slots `nodes` describe, in order, up to as many as the platform has.
pub open spec fn slots_of(nodes: Seq<NodeView>) -> Seq<(usize, u32)>
    decreases nodes.len(),
{
    if nodes.len() == 0 {
        Seq::empty()
    } else {
        let before = slots_of(nodes.drop_last());
        match slot_of(nodes.last()) {
            Some(s) => if before.len() < MAX_VIRTIO_MMIO_SLOTS { before.push(s) } else { before },
            None => before,
        }
    }
}

/// Every slot `nodes` describe, in order, however many.
pub open spec fn all_slots(nodes: Seq<NodeView>) -> Seq<(usize, u32)>
    decreases nodes.len(),
{
    if nodes.len() == 0 {
        Seq::empty()
    } else {
        match slot_of(nodes.last()) {
            Some(s) => all_slots(nodes.drop_last()).push(s),
            None => all_slots(nodes.drop_last()),
        }
    }
}

/// The slots recorded are the first ones the nodes describe, in device-tree order: all of them, or
/// the first `MAX_VIRTIO_MMIO_SLOTS` if there are more.
pub proof fn lemma_slots_are_the_first(nodes: Seq<NodeView>)
    ensures
        slots_of(nodes) == all_slots(nodes).take(
            vstd::math::min(all_slots(nodes).len() as int, MAX_VIRTIO_MMIO_SLOTS as int),
        ),
    decreases nodes.len(),
{
    if nodes.len() > 0 {
        lemma_slots_are_the_first(nodes.drop_last());
        let before = all_slots(nodes.drop_last());
        let m = vstd::math::min(before.len() as int, MAX_VIRTIO_MMIO_SLOTS as int);
        match slot_of(nodes.last()) {
            Some(x) => {
                if before.len() < MAX_VIRTIO_MMIO_SLOTS {
                    assert(before.take(m).push(x) =~= before.push(x).take(m + 1));
                } else {
                    assert(before.take(m) =~= before.push(x).take(m));
                }
            },
            None => {},
        }
    } else {
        assert(Seq::<(usize, u32)>::empty().take(0) =~= Seq::<(usize, u32)>::empty());
    }
}

/// Why discovery failed.
#[derive(Clone, Copy, Debug, PartialEq, Eq, Structural)]
pub enum DiscoveryError {
    /// The blob is not a device tree whose nodes can be walked.
    BadBlob,
    /// The GIC node lists fewer than two regions (distributor, then CPU interface).
    MissingGicRegions,
}

/// Whether `node` lists `name` among its `compatible` strings.
fn has_compatible(node: &DeviceNode, name: &str) -> (b: bool)
    ensures
        b == node@.compatible.contains(name@),
{
    let mut i: usize = 0;
    while i < node.compatible.len()
        invariant
            i <= node.compatible@.len(),
            forall|k: int| 0 <= k < i ==> node@.compatible[k] != name@,
        decreases node.compatible@.len() - i,
    {
        if str_eq(node.compatible[i].as_str(), name) {
            assert(node@.compatible[i as int] == name@);
            return true;
        }
        assert(node@.compatible[i as int] == node.compatible@[i as int]@);
        i += 1;
    }
    false
}

fn is_virtio_mmio(node: &DeviceNode) -> (b: bool)
    ensures
        b == node@.compatible.contains("virtio,mmio"@),
{
    has_compatible(node, "virtio,mmio")
}

/// The base addresses the device tree describes: the GIC's distributor and CPU interface (the first
/// two of `gic_regions`, the GIC node's `reg` regions in order), and the `virtio,mmio` slots among
/// `nodes` (every node, in device-tree order).
pub fn discover(gic_regions: &[usize], nodes: &[DeviceNode]) -> (r: Result<AtomicBaseAddresses, DiscoveryError>)
    ensures
        gic_regions@.len() < 2 ==> r == Err::<AtomicBaseAddresses, DiscoveryError>(DiscoveryError::MissingGicRegions),
        gic_regions@.len() >= 2 ==> (r matches Ok(a) && a.wf() && a.spec_gicd() == gic_regions@[0]
            && a.spec_gicc() == gic_regions@[1]
            && a.slots() == slots_of(nodes@.map_values(|n: DeviceNode| n@))),
{
    if gic_regions.len() < 2 {
        return Err(DiscoveryError::MissingGicRegions);
    }
    let mut found = AtomicBaseAddresses::new();
    found.set_gic(gic_regions[0], gic_regions[1]);
    let ghost views = nodes@.map_values(|n: DeviceNode| n@);
    let mut i: usize = 0;
    while i < nodes.len()
        invariant
            i <= nodes@.len(),
            views == nodes@.map_values(|n: DeviceNode| n@),
            gic_regions@.len() >= 2,
            found.wf(),
            found.spec_gicd() == gic_regions@[0],
            found.spec_gicc() == gic_regions@[1],
            found.slots() == slots_of(views.take(i as int)),
        decreases nodes@.len() - i,
    {
        let node = &nodes[i];
        proof {
            assert(views.take(i + 1).drop_last() =~= views.take(i as int));
            assert(views.take(i + 1).last() == node@);
        }
        if is_virtio_mmio(node) && node.reg.len() > 0 {
            let spi = match &node.interrupts {
                Some(b) => first_spi(Some(b.as_slice())),
                None => first_spi(None),
            };
            if let Some(irq) = spi {
                if !found.push_virtio_mmio(node.reg[0], irq) {
                    // Every slot is taken: nothing further can be recorded.
                    proof { lemma_slots_full(views, i as int); }
                    assert(views.take(nodes@.len() as int) =~= views);
                    return Ok(found);
                }
            }
        }
        i += 1;
    }
    assert(views.take(nodes@.len() as int) =~= views);
    Ok(found)
}

/// The nodes of the device tree `blob`, in the depth-first order `fdt`'s `all_nodes` walks them,
/// each as discovery reads it.
pub uninterp spec fn dtb_nodes(blob: Seq<u8>) -> Seq<NodeView>;

/// `fdt::Fdt::new` on `blob`, then `all_nodes`, each node reduced to its `compatible` strings, the
/// starting addresses of its `reg` regions (none where `reg` gives none) and its `interrupts` bytes.
/// A walkable blob has the header `Fdt::new` accepts, and nothing in it makes the walk or those
/// property reads fail; which nodes come out, and how `reg` is read through the parent's cell sizes,
/// is left to the name.
#[verifier::external_body]
fn fdt_nodes(blob: &[u8]) -> (r: Vec<DeviceNode>)
    requires
        spec_walkable(blob@),
    ensures
        r@.map_values(|n: DeviceNode| n@) == dtb_nodes(blob@),
{
    match fdt::Fdt::new(blob) {
        Ok(tree) => tree.all_nodes().map(|n| DeviceNode {
            compatible: n.compatible().map(|c| c.all().map(String::from).collect()).unwrap_or_default(),
            reg: n.reg().map(|r| r.map(|m| m.starting_address as usize).collect()).unwrap_or_default(),
            interrupts: n.property("interrupts").map(|p| p.value.to_vec()),
        }).collect(),
        Err(_) => Vec::new(),
    }
}

/// The GIC's `reg` regions: those of the first node whose `compatible` strings include
/// `arm,cortex-a15-gic`, or none if no node does.
pub open spec fn gic_regs(nodes: Seq<NodeView>) -> Seq<usize>
    decreases nodes.len(),
{
    if nodes.len() == 0 {
        Seq::empty()
    } else if nodes[0].compatible.contains("arm,cortex-a15-gic"@) {
        nodes[0].reg
    } else {
        gic_regs(nodes.drop_first())
    }
}

/// Which of `nodes` is the GIC's, if any.
fn find_gic(nodes: &Vec<DeviceNode>) -> (r: Option<usize>)
    ensures
        r matches Some(k) ==> k < nodes@.len() && nodes@[k as int]@.reg == gic_regs(nodes@.map_values(|n: DeviceNode| n@)),
        r is None ==> gic_regs(nodes@.map_values(|n: DeviceNode| n@)) == Seq::<usize>::empty(),
{
    let ghost views = nodes@.map_values(|n: DeviceNode| n@);
    let mut i: usize = 0;
    assert(views.skip(0) =~= views);
    while i < nodes.len()
        invariant
            i <= nodes@.len(),
            views == nodes@.map_values(|n: DeviceNode| n@),
            gic_regs(views) == gic_regs(views.skip(i as int)),
        decreases nodes@.len() - i,
    {
        proof {
            assert(views.skip(i as int)[0] == nodes@[i as int]@);
            assert(views.skip(i as int).drop_first() =~= views.skip(i + 1));
        }
        if has_compatible(&nodes[i], "arm,cortex-a15-gic") {
            return Some(i);
        }
        i += 1;
    }
    assert(views.skip(i as int) =~= Seq::<NodeView>::empty());
    None
}

/// The base addresses the device tree `blob` describes: the GIC's distributor and CPU interface (the
/// first two regions of the first `arm,cortex-a15-gic` node), and the `virtio,mmio` slots among its
/// nodes. `BadBlob` if the blob cannot be walked, `MissingGicRegions` if the GIC node is missing or
/// lists fewer than two regions.
pub fn discover_blob(blob: &[u8]) -> (r: Result<AtomicBaseAddresses, DiscoveryError>)
    ensures
        !spec_walkable(blob@) ==> r == Err::<AtomicBaseAddresses, DiscoveryError>(DiscoveryError::BadBlob),
        spec_walkable(blob@) ==> ({
            let ns = dtb_nodes(blob@);
            &&& gic_regs(ns).len() < 2 ==> r == Err::<AtomicBaseAddresses, DiscoveryError>(DiscoveryError::MissingGicRegions)
            &&& gic_regs(ns).len() >= 2 ==> (r matches Ok(a) && a.wf() && a.spec_gicd() == gic_regs(ns)[0]
                && a.spec_gicc() == gic_regs(ns)[1] && a.slots() == slots_of(ns))
        }),
{
    if !walkable(blob) {
        return Err(DiscoveryError::BadBlob);
    }
    let nodes = fdt_nodes(blob);
    match find_gic(&nodes) {
        Some(k) => discover(nodes[k].reg.as_slice(), nodes.as_slice()),
        None => {
            let none: Vec<usize> = Vec::new();
            discover(none.as_slice(), nodes.as_slice())
        },
    }
}

/// Once all the slots are taken, no later node changes what is recorded.
proof fn lemma_slots_full(nodes: Seq<NodeView>, i: int)
    requires
        0 <= i <= nodes.len(),
        slots_of(nodes.take(i)).len() >= MAX_VIRTIO_MMIO_SLOTS,
    ensures
        slots_of(nodes) == slots_of(nodes.take(i)),
    decreases nodes.len() - i,
{
    if i < nodes.len() {
        assert(nodes.take(i + 1).drop_last() =~= nodes.take(i));
        lemma_slots_full(nodes, i + 1);
    } else {
        assert(nodes.take(i) =~= nodes);
    }
}

} // verus!
