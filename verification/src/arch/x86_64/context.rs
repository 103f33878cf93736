//! x86_64 thread contexts.
//!
//! The switch itself is assembly in the platform code; here is what a new
//! thread's saved registers hold.
use vstd::prelude::*;
use crate::arch::Context;
use crate::arch::x86_64::gdt::{
    selector, KERNEL_CODE_INDEX, KERNEL_DATA_INDEX, USER_CODE_INDEX, USER_DATA_INDEX, RING0, RING3,
};

verus! {

/// RFLAGS with only the interrupt flag set.
pub const RFLAGS_IF: u64 = 0x200;
/// Kernel code and data selectors (ring 0).
pub const KERNEL_CS: u64 = 0x08;
pub const KERNEL_SS: u64 = 0x10;
/// User code and data selectors (ring 3).
pub const USER_CS: u64 = 0x23;
pub const USER_SS: u64 = 0x1B;

/// The registers saved across a context switch.
#[derive(Debug, Clone, Copy, PartialEq, Eq, Structural)]
pub struct ArchContext {
    pub r15: u64,
    pub r14: u64,
    pub r13: u64,
    pub r12: u64,
    pub rbx: u64,
    pub rbp: u64,
    pub rip: u64,
    pub rsp: u64,
    pub rflags: u64,
    pub cs: u64,
    pub ss: u64,
    pub rax: u64,
    pub rcx: u64,
    pub rdx: u64,
    pub rsi: u64,
    pub rdi: u64,
    pub r8: u64,
    pub r9: u64,
    pub r10: u64,
    pub r11: u64,
    /// FPU/SSE save area pointer.
    pub fxsave_area: u64,
}

/// A context with every register zero.
pub open spec fn zero_context() -> ArchContext {
    ArchContext {
        r15: 0,
        r14: 0,
        r13: 0,
        r12: 0,
        rbx: 0,
        rbp: 0,
        rip: 0,
        rsp: 0,
        rflags: 0,
        cs: 0,
        ss: 0,
        rax: 0,
        rcx: 0,
        rdx: 0,
        rsi: 0,
        rdi: 0,
        r8: 0,
        r9: 0,
        r10: 0,
        r11: 0,
        fxsave_area: 0,
    }
}

impl Default for ArchContext {
    fn default() -> (c: ArchContext)
        ensures
            c == zero_context(),
    {
        ArchContext {
            r15: 0,
            r14: 0,
            r13: 0,
            r12: 0,
            rbx: 0,
            rbp: 0,
            rip: 0,
            rsp: 0,
            rflags: 0,
            cs: 0,
            ss: 0,
            rax: 0,
            rcx: 0,
            rdx: 0,
            rsi: 0,
            rdi: 0,
            r8: 0,
            r9: 0,
            r10: 0,
            r11: 0,
            fxsave_area: 0,
        }
    }
}

impl ArchContext {
    /// A kernel thread at `entry_point` on `stack_pointer` (also its frame
    /// pointer), interrupts enabled, kernel code and data selectors.
    pub fn new_kernel(entry_point: usize, stack_pointer: usize) -> (c: ArchContext)
        ensures
            c == (ArchContext {
                rip: entry_point as u64,
                rsp: stack_pointer as u64,
                rbp: stack_pointer as u64,
                rflags: RFLAGS_IF,
                cs: KERNEL_CS,
                ss: KERNEL_SS,
                ..zero_context()
            }),
    {
        let mut ctx = ArchContext::default();
        ctx.rip = entry_point as u64;
        ctx.rsp = stack_pointer as u64;
        ctx.rbp = stack_pointer as u64;
        ctx.rflags = RFLAGS_IF;
        ctx.cs = KERNEL_CS;
        ctx.ss = KERNEL_SS;
        ctx
    }

    /// A user thread at `entry_point` on `stack_pointer` (also its frame
    /// pointer), interrupts enabled, user code and data selectors (RPL 3).
    pub fn new_user(entry_point: usize, stack_pointer: usize) -> (c: ArchContext)
        ensures
            c == (ArchContext {
                rip: entry_point as u64,
                rsp: stack_pointer as u64,
                rbp: stack_pointer as u64,
                rflags: RFLAGS_IF,
                cs: USER_CS,
                ss: USER_SS,
                ..zero_context()
            }),
    {
        let mut ctx = ArchContext::default();
        ctx.rip = entry_point as u64;
        ctx.rsp = stack_pointer as u64;
        ctx.rbp = stack_pointer as u64;
        ctx.rflags = RFLAGS_IF;
        ctx.cs = USER_CS;
        ctx.ss = USER_SS;
        ctx
    }
}

impl Context for ArchContext {
    fn new_kernel(entry_point: usize, stack_pointer: usize) -> (c: ArchContext)
        ensures
            c == (ArchContext {
                rip: entry_point as u64,
                rsp: stack_pointer as u64,
                rbp: stack_pointer as u64,
                rflags: RFLAGS_IF,
                cs: KERNEL_CS,
                ss: KERNEL_SS,
                ..zero_context()
            }),
    {
        ArchContext::new_kernel(entry_point, stack_pointer)
    }

    fn new_user(entry_point: usize, stack_pointer: usize) -> (c: ArchContext)
        ensures
            c == (ArchContext {
                rip: entry_point as u64,
                rsp: stack_pointer as u64,
                rbp: stack_pointer as u64,
                rflags: RFLAGS_IF,
                cs: USER_CS,
                ss: USER_SS,
                ..zero_context()
            }),
    {
        ArchContext::new_user(entry_point, stack_pointer)
    }
}

/// A new thread's code and stack selectors are the GDT's selectors for its
/// ring: kernel code and data for a kernel thread, user code and data at
/// RPL 3 for a user thread.
pub proof fn law_context_selectors_match_gdt()
    ensures
        KERNEL_CS == selector(KERNEL_CODE_INDEX, RING0),
        KERNEL_SS == selector(KERNEL_DATA_INDEX, RING0),
        USER_CS == selector(USER_CODE_INDEX, RING3),
        USER_SS == selector(USER_DATA_INDEX, RING3),
{
}

} // verus!
