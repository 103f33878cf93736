//! AArch64 exception decoding.
//!
//! The vector table and the register save/restore stay with the boot code;
//! what is decided here is what a saved synchronous exception means.
use vstd::prelude::*;

verus! {

/// The registers saved on the stack on exception entry.
#[derive(Debug, Clone, Copy)]
pub struct ExceptionContext {
    /// General purpose registers X0-X30.
    pub gpr: [u64; 31],
    /// Exception Link Register (return address).
    pub elr: u64,
    /// Saved Program Status Register.
    pub spsr: u64,
    /// Exception Syndrome Register.
    pub esr: u64,
    /// Fault Address Register.
    pub far: u64,
}

/// Exception class of an SVC from AArch64.
pub const EC_SVC64: u64 = 0x15;
/// Exception classes of instruction aborts (lower EL, same EL).
pub const EC_IABT_LOWER: u64 = 0x20;
pub const EC_IABT_SAME: u64 = 0x21;
/// Exception classes of data aborts (lower EL, same EL).
pub const EC_DABT_LOWER: u64 = 0x24;
pub const EC_DABT_SAME: u64 = 0x25;

/// What a synchronous exception is.
#[derive(Debug, Clone, Copy, PartialEq, Eq, Structural)]
pub enum SyncException {
    /// A system call with its immediate.
    Svc(u16),
    /// An instruction abort at `elr` on address `far`: fatal.
    InstructionAbort { elr: u64, far: u64, esr: u64 },
    /// A data abort at `elr` on address `far`: fatal.
    DataAbort { elr: u64, far: u64, esr: u64 },
    /// Anything else: fatal.
    Unknown { ec: u64, iss: u64, elr: u64 },
}

/// Exception class: bits 31..26 of the syndrome.
pub open spec fn exception_class(esr: u64) -> u64 {
    (esr >> 26u64) & 0x3Fu64
}

/// Instruction-specific syndrome: bits 24..0.
pub open spec fn syndrome(esr: u64) -> u64 {
    esr & 0x1FF_FFFFu64
}

/// The meaning of the saved context's syndrome.
pub open spec fn classify(ctx: ExceptionContext) -> SyncException {
    let ec = exception_class(ctx.esr);
    let iss = syndrome(ctx.esr);
    if ec == EC_SVC64 {
        SyncException::Svc(iss as u16)
    } else if ec == EC_IABT_LOWER || ec == EC_IABT_SAME {
        SyncException::InstructionAbort { elr: ctx.elr, far: ctx.far, esr: ctx.esr }
    } else if ec == EC_DABT_LOWER || ec == EC_DABT_SAME {
        SyncException::DataAbort { elr: ctx.elr, far: ctx.far, esr: ctx.esr }
    } else {
        SyncException::Unknown { ec, iss, elr: ctx.elr }
    }
}

impl SyncException {
    /// Whether the exception stops the kernel (everything but a system call).
    pub fn is_fatal(&self) -> (b: bool)
        ensures
            b == !(*self is Svc),
    {
        match self {
            SyncException::Svc(_) => false,
            _ => true,
        }
    }
}

/// Decode a synchronous exception from the saved context: the exception class
/// and syndrome come from ESR_EL1, the addresses from ELR_EL1 and FAR_EL1.
pub fn handle_sync_exception(ctx: &ExceptionContext) -> (e: SyncException)
    ensures
        e == classify(*ctx),
{
    let esr = ctx.esr;
    let ec = (esr >> 26u64) & 0x3Fu64;
    let iss = esr & 0x1FF_FFFFu64;
    if ec == EC_SVC64 {
        SyncException::Svc(iss as u16)
    } else if ec == EC_IABT_LOWER || ec == EC_IABT_SAME {
        SyncException::InstructionAbort { elr: ctx.elr, far: ctx.far, esr }
    } else if ec == EC_DABT_LOWER || ec == EC_DABT_SAME {
        SyncException::DataAbort { elr: ctx.elr, far: ctx.far, esr }
    } else {
        SyncException::Unknown { ec, iss, elr: ctx.elr }
    }
}

} // verus!
