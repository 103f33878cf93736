//! Verified core of the DeK nano-kernel: filesystem logic, IPC, capabilities
//! and driver-side protocol handling.

pub mod arch;
pub mod bits;
pub mod capability;
pub mod drivers;
pub mod fs;
pub mod ipc;
pub mod text;
