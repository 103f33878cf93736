//! Device status bits.
use vstd::prelude::*;

verus! {

pub const ACKNOWLEDGE: u32 = 1;
pub const DRIVER: u32 = 2;
pub const DRIVER_OK: u32 = 4;
pub const FEATURES_OK: u32 = 8;
pub const DEVICE_NEEDS_RESET: u32 = 64;
pub const FAILED: u32 = 128;

} // verus!
