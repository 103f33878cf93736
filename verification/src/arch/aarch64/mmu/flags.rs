//! Bits of an AArch64 stage-1 descriptor.
use vstd::prelude::*;

verus! {

pub const VALID: u64 = 1;
/// For L0-L2: the entry points to the next-level table.
pub const TABLE: u64 = 2;
/// For L3: the entry maps a page.
pub const PAGE: u64 = 2;
/// R/W at EL1, no access at EL0.
pub const AP_RW_EL1: u64 = 0;
/// R/W at all levels.
pub const AP_RW_ALL: u64 = 0x40;
/// R/O at EL1, no access at EL0.
pub const AP_RO_EL1: u64 = 0x80;
/// R/O at all levels.
pub const AP_RO_ALL: u64 = 0xC0;
/// Inner shareable.
pub const SH_INNER: u64 = 0x300;
/// Access flag.
pub const AF: u64 = 0x400;
/// User execute-never.
pub const UXN: u64 = 0x40_0000_0000_0000;
/// Privileged execute-never.
pub const PXN: u64 = 0x20_0000_0000_0000;
/// Memory attribute index 0: normal memory.
pub const ATTR_NORMAL: u64 = 0;
/// Memory attribute index 1: device memory.
pub const ATTR_DEVICE: u64 = 4;

} // verus!
