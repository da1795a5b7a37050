//! The board: its memory map and what the device tree says of it, and the serial transcript.

pub mod base_addresses;
pub mod dtb;
pub mod uart;
