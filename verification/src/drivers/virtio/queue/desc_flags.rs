//! Descriptor flags.
use vstd::prelude::*;

verus! {

/// The buffer continues in the descriptor named by `next`.
pub const NEXT: u16 = 1;
/// The buffer is written by the device (read by it otherwise).
pub const WRITE: u16 = 2;
/// The buffer holds a table of descriptors.
pub const INDIRECT: u16 = 4;

} // verus!
