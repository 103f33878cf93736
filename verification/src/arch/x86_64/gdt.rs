//! The GDT's layout and the segment selectors it yields.
//!
//! Loading the table and the TSS is done by the platform code; the layout is
//! decided here: null, kernel code, kernel data, user data, user code, then
//! the TSS (a 16-byte descriptor).
use vstd::prelude::*;

verus! {

/// Size of each interrupt stack (16 KiB).
pub const INTERRUPT_STACK_SIZE: usize = 16384;

/// IST slot of the double-fault stack.
pub const DOUBLE_FAULT_IST_INDEX: u16 = 0;

/// Descriptor slots, in the order they are appended.
pub const KERNEL_CODE_INDEX: u16 = 1;
pub const KERNEL_DATA_INDEX: u16 = 2;
pub const USER_DATA_INDEX: u16 = 3;
pub const USER_CODE_INDEX: u16 = 4;
pub const TSS_INDEX: u16 = 5;

/// Requested privilege levels.
pub const RING0: u16 = 0;
pub const RING3: u16 = 3;

/// A segment selector: descriptor index, table indicator 0 (GDT) and
/// requested privilege level.
pub open spec fn selector(index: u16, rpl: u16) -> u16 {
    (index * 8 + rpl) as u16
}

/// The selectors of the kernel's GDT.
#[derive(Debug, Clone, Copy, PartialEq, Eq, Structural)]
pub struct Selectors {
    pub kernel_code_selector: u16,
    pub kernel_data_selector: u16,
    pub user_code_selector: u16,
    pub user_data_selector: u16,
    pub tss_selector: u16,
}

/// A selector for descriptor `index` at privilege `rpl`.
pub fn make_selector(index: u16, rpl: u16) -> (s: u16)
    requires
        index < 8192,
        rpl < 4,
    ensures
        s == selector(index, rpl),
        s == index * 8 + rpl,
{
    index * 8 + rpl
}

/// The selectors that appending the kernel's descriptors yields.
pub fn selectors() -> (s: Selectors)
    ensures
        s == (Selectors {
            kernel_code_selector: selector(KERNEL_CODE_INDEX, RING0),
            kernel_data_selector: selector(KERNEL_DATA_INDEX, RING0),
            user_code_selector: selector(USER_CODE_INDEX, RING3),
            user_data_selector: selector(USER_DATA_INDEX, RING3),
            tss_selector: selector(TSS_INDEX, RING0),
        }),
        s.kernel_code_selector == 0x08,
        s.kernel_data_selector == 0x10,
        s.user_code_selector == 0x23,
        s.user_data_selector == 0x1B,
        s.tss_selector == 0x28,
{
    Selectors {
        kernel_code_selector: make_selector(KERNEL_CODE_INDEX, RING0),
        kernel_data_selector: make_selector(KERNEL_DATA_INDEX, RING0),
        user_code_selector: make_selector(USER_CODE_INDEX, RING3),
        user_data_selector: make_selector(USER_DATA_INDEX, RING3),
        tss_selector: make_selector(TSS_INDEX, RING0),
    }
}

/// The kernel code segment selector.
pub fn kernel_code_selector() -> (s: u16)
    ensures
        s == selector(KERNEL_CODE_INDEX, RING0),
{
    selectors().kernel_code_selector
}

/// The kernel data segment selector.
pub fn kernel_data_selector() -> (s: u16)
    ensures
        s == selector(KERNEL_DATA_INDEX, RING0),
{
    selectors().kernel_data_selector
}

/// The user code segment selector.
pub fn user_code_selector() -> (s: u16)
    ensures
        s == selector(USER_CODE_INDEX, RING3),
{
    selectors().user_code_selector
}

/// The user data segment selector.
pub fn user_data_selector() -> (s: u16)
    ensures
        s == selector(USER_DATA_INDEX, RING3),
{
    selectors().user_data_selector
}

} // verus!
