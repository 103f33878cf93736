//! Architecture support: CPU contexts, page-table entries, the interrupt
//! controller's register layout, exception decoding and the serial receive ring.
pub mod aarch64;
pub mod x86_64;

use vstd::prelude::*;

verus! {

/// Contexts of threads about to run for the first time.
pub trait Context: Sized {
    /// A context that starts a kernel thread at `entry_point` on `stack_pointer`.
    fn new_kernel(entry_point: usize, stack_pointer: usize) -> Self;

    /// A context that starts a user thread at `entry_point` on `stack_pointer`.
    fn new_user(entry_point: usize, stack_pointer: usize) -> Self;
}

} // verus!
