//! The architecture: the translation regime.

pub mod mmu;
