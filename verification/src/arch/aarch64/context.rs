//! AArch64 thread contexts.
use vstd::prelude::*;
use crate::arch::Context;

verus! {

/// SPSR of a kernel thread: EL1h, no exception masked.
pub const SPSR_EL1H: u64 = 0b0101;
/// SPSR of a user thread: EL0t.
pub const SPSR_EL0T: u64 = 0;

/// The registers saved across a context switch.
#[derive(Debug, Clone, Copy, PartialEq, Eq, Structural)]
pub struct ArchContext {
    pub x19: u64,
    pub x20: u64,
    pub x21: u64,
    pub x22: u64,
    pub x23: u64,
    pub x24: u64,
    pub x25: u64,
    pub x26: u64,
    pub x27: u64,
    pub x28: u64,
    /// Frame pointer.
    pub x29: u64,
    /// Link register.
    pub x30: u64,
    pub sp: u64,
    pub pc: u64,
    pub spsr: u64,
    /// Thread-local storage pointer.
    pub tpidr: u64,
}

/// A context with every register zero.
pub open spec fn zero_context() -> ArchContext {
    ArchContext {
        x19: 0,
        x20: 0,
        x21: 0,
        x22: 0,
        x23: 0,
        x24: 0,
        x25: 0,
        x26: 0,
        x27: 0,
        x28: 0,
        x29: 0,
        x30: 0,
        sp: 0,
        pc: 0,
        spsr: 0,
        tpidr: 0,
    }
}

impl Default for ArchContext {
    fn default() -> (c: ArchContext)
        ensures
            c == zero_context(),
    {
        ArchContext {
            x19: 0,
            x20: 0,
            x21: 0,
            x22: 0,
            x23: 0,
            x24: 0,
            x25: 0,
            x26: 0,
            x27: 0,
            x28: 0,
            x29: 0,
            x30: 0,
            sp: 0,
            pc: 0,
            spsr: 0,
            tpidr: 0,
        }
    }
}

impl ArchContext {
    /// A kernel thread starting at `entry_point` with stack (and frame pointer)
    /// `stack_pointer`, in EL1h with no exception masked; all else zero.
    pub fn new_kernel(entry_point: usize, stack_pointer: usize) -> (c: ArchContext)
        ensures
            c == (ArchContext {
                pc: entry_point as u64,
                sp: stack_pointer as u64,
                x29: stack_pointer as u64,
                spsr: SPSR_EL1H,
                ..zero_context()
            }),
    {
        let mut ctx = ArchContext::default();
        ctx.pc = entry_point as u64;
        ctx.sp = stack_pointer as u64;
        ctx.x29 = stack_pointer as u64;
        ctx.spsr = SPSR_EL1H;
        ctx
    }

    /// A user thread starting at `entry_point` with stack (and frame pointer)
    /// `stack_pointer`, in EL0t; all else zero.
    pub fn new_user(entry_point: usize, stack_pointer: usize) -> (c: ArchContext)
        ensures
            c == (ArchContext {
                pc: entry_point as u64,
                sp: stack_pointer as u64,
                x29: stack_pointer as u64,
                spsr: SPSR_EL0T,
                ..zero_context()
            }),
    {
        let mut ctx = ArchContext::default();
        ctx.pc = entry_point as u64;
        ctx.sp = stack_pointer as u64;
        ctx.x29 = stack_pointer as u64;
        ctx.spsr = SPSR_EL0T;
        ctx
    }
}

impl Context for ArchContext {
    fn new_kernel(entry_point: usize, stack_pointer: usize) -> (c: ArchContext)
        ensures
            c == (ArchContext {
                pc: entry_point as u64,
                sp: stack_pointer as u64,
                x29: stack_pointer as u64,
                spsr: SPSR_EL1H,
                ..zero_context()
            }),
    {
        ArchContext::new_kernel(entry_point, stack_pointer)
    }

    fn new_user(entry_point: usize, stack_pointer: usize) -> (c: ArchContext)
        ensures
            c == (ArchContext {
                pc: entry_point as u64,
                sp: stack_pointer as u64,
                x29: stack_pointer as u64,
                spsr: SPSR_EL0T,
                ..zero_context()
            }),
    {
        ArchContext::new_user(entry_point, stack_pointer)
    }
}

} // verus!
