//! x86_64: thread contexts and the segment selectors of the GDT.
pub mod context;
pub mod gdt;
