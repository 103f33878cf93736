//! AArch64: contexts, exceptions, the GICv2, page-table entries and the PL011
//! receive ring.
pub mod context;
pub mod exceptions;
pub mod gic;
pub mod mmu;
pub mod uart;
