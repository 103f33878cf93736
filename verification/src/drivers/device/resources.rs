//! Device resources: the MMIO regions, IRQ lines, DMA buffers and I/O port ranges
//! assigned to a device.
use vstd::prelude::*;

verus! {

/// Memory-Mapped I/O region
#[derive(Debug, Clone, Copy, PartialEq, Eq, Structural)]
pub struct MmioRegion {
    /// Physical base address
    pub phys_base: usize,
    /// Virtual base address (after mapping)
    pub virt_base: Option<usize>,
    /// Size in bytes
    pub size: usize,
    /// Cacheability (false = device memory)
    pub cacheable: bool,
}

impl MmioRegion {
    /// An unmapped, uncached region
    pub fn new(phys_base: usize, size: usize) -> (r: MmioRegion)
        ensures
            r == (MmioRegion { phys_base, virt_base: None, size, cacheable: false }),
    {
        MmioRegion { phys_base, virt_base: None, size, cacheable: false }
    }
}

/// I/O Port range (x86 only)
#[derive(Debug, Clone, Copy, PartialEq, Eq, Structural)]
pub struct IoPortRange {
    /// Base I/O port
    pub base: u16,
    /// Number of ports
    pub size: u16,
}

impl IoPortRange {
    /// The ports `base` to `base + size`
    pub fn new(base: u16, size: u16) -> (r: IoPortRange)
        ensures
            r == (IoPortRange { base, size }),
    {
        IoPortRange { base, size }
    }
}

/// DMA buffer
#[derive(Debug, Clone, Copy, PartialEq, Eq, Structural)]
pub struct DmaBuffer {
    /// Physical address (for DMA)
    pub phys_addr: usize,
    /// Virtual address (for CPU)
    pub virt_addr: usize,
    /// Size in bytes
    pub size: usize,
    /// Direction
    pub direction: DmaDirection,
}

/// DMA direction
#[derive(Debug, Clone, Copy, PartialEq, Eq, Structural)]
pub enum DmaDirection {
    /// Device to memory
    ToDevice,
    /// Memory to device
    FromDevice,
    /// Bidirectional
    Bidirectional,
}

/// IRQ number
pub type IrqNumber = u32;

/// Device resources
#[derive(Debug, Clone)]
pub struct DeviceResources {
    /// Memory-mapped I/O regions
    pub mmio: Vec<MmioRegion>,
    /// Assigned IRQ lines
    pub irqs: Vec<IrqNumber>,
    /// DMA buffers
    pub dma: Vec<DmaBuffer>,
    /// I/O ports (x86 only)
    pub io_ports: Vec<IoPortRange>,
}

impl DeviceResources {
    /// Create empty resources
    pub fn empty() -> (r: DeviceResources)
        ensures
            r.mmio@.len() == 0,
            r.irqs@.len() == 0,
            r.dma@.len() == 0,
            r.io_ports@.len() == 0,
    {
        DeviceResources { mmio: Vec::new(), irqs: Vec::new(), dma: Vec::new(), io_ports: Vec::new() }
    }

    /// Add MMIO region
    pub fn add_mmio(&mut self, base: usize, size: usize)
        ensures
            final(self).mmio@ == old(self).mmio@.push(MmioRegion { phys_base: base, virt_base: None, size, cacheable: false }),
            final(self).irqs@ == old(self).irqs@,
            final(self).dma@ == old(self).dma@,
            final(self).io_ports@ == old(self).io_ports@,
    {
        self.mmio.push(MmioRegion::new(base, size));
    }

    /// Add an IRQ line, unless it is already assigned
    pub fn add_irq(&mut self, irq: IrqNumber)
        ensures
            final(self).irqs@ == if old(self).irqs@.contains(irq) { old(self).irqs@ } else { old(self).irqs@.push(irq) },
            final(self).mmio@ == old(self).mmio@,
            final(self).dma@ == old(self).dma@,
            final(self).io_ports@ == old(self).io_ports@,
    {
        let mut found = false;
        let mut i: usize = 0;
        while i < self.irqs.len()
            invariant
                i <= self.irqs@.len(),
                found == exists|j: int| 0 <= j < i && self.irqs@[j] == irq,
            decreases self.irqs@.len() - i,
        {
            if self.irqs[i] == irq {
                found = true;
            }
            i = i + 1;
        }
        if !found {
            self.irqs.push(irq);
        } else {
            assert(self.irqs@.contains(irq));
        }
    }

    /// Add I/O port range
    pub fn add_io_port(&mut self, base: u16, size: u16)
        ensures
            final(self).io_ports@ == old(self).io_ports@.push(IoPortRange { base, size }),
            final(self).mmio@ == old(self).mmio@,
            final(self).irqs@ == old(self).irqs@,
            final(self).dma@ == old(self).dma@,
    {
        self.io_ports.push(IoPortRange::new(base, size));
    }

    /// Add DMA buffer
    pub fn add_dma(&mut self, phys: usize, virt: usize, size: usize, direction: DmaDirection)
        ensures
            final(self).dma@ == old(self).dma@.push(DmaBuffer { phys_addr: phys, virt_addr: virt, size, direction }),
            final(self).mmio@ == old(self).mmio@,
            final(self).irqs@ == old(self).irqs@,
            final(self).io_ports@ == old(self).io_ports@,
    {
        self.dma.push(DmaBuffer { phys_addr: phys, virt_addr: virt, size, direction });
    }

    /// Get first MMIO region
    pub fn first_mmio(&self) -> (r: Option<&MmioRegion>)
        ensures
            r == (if self.mmio@.len() > 0 { Some(&self.mmio@[0]) } else { None }),
    {
        if self.mmio.len() > 0 { Some(&self.mmio[0]) } else { None }
    }

    /// Get first IRQ
    pub fn first_irq(&self) -> (r: Option<IrqNumber>)
        ensures
            r == (if self.irqs@.len() > 0 { Some(self.irqs@[0]) } else { None }),
    {
        if self.irqs.len() > 0 { Some(self.irqs[0]) } else { None }
    }

    /// Get first I/O port range
    pub fn first_io_port(&self) -> (r: Option<&IoPortRange>)
        ensures
            r == (if self.io_ports@.len() > 0 { Some(&self.io_ports@[0]) } else { None }),
    {
        if self.io_ports.len() > 0 { Some(&self.io_ports[0]) } else { None }
    }
}

impl Default for DeviceResources {
    fn default() -> (r: DeviceResources)
        ensures
            r.mmio@.len() == 0,
            r.irqs@.len() == 0,
            r.dma@.len() == 0,
            r.io_ports@.len() == 0,
    {
        DeviceResources::empty()
    }
}

} // verus!
