//! Feature bits common to all device types.
use vstd::prelude::*;

verus! {

pub const RING_INDIRECT_DESC: u64 = 0x1000_0000;
pub const RING_EVENT_IDX: u64 = 0x2000_0000;
pub const VERSION_1: u64 = 0x1_0000_0000;
pub const ACCESS_PLATFORM: u64 = 0x2_0000_0000;
pub const RING_PACKED: u64 = 0x4_0000_0000;

} // verus!
