//! GICv2 interrupt controller: the register writes that configure it, and
//! what to do with an acknowledged interrupt.
//!
//! The writes themselves are volatile stores done by the platform code; each
//! write here names the register block, the byte offset in it and the value.
use vstd::prelude::*;

verus! {

/// Distributor base address on the QEMU virt machine.
pub const GICD_BASE: usize = 0x0800_0000;
/// CPU interface base address on the QEMU virt machine.
pub const GICC_BASE: usize = 0x0801_0000;

/// Distributor control register.
pub const GICD_CTLR: usize = 0x000;
/// Interrupt set-enable registers.
pub const GICD_ISENABLER: usize = 0x100;
/// Interrupt clear-enable registers.
pub const GICD_ICENABLER: usize = 0x180;
/// Interrupt priority registers.
pub const GICD_IPRIORITYR: usize = 0x400;
/// Interrupt processor-target registers.
pub const GICD_ITARGETSR: usize = 0x800;

/// CPU interface control register.
pub const GICC_CTLR: usize = 0x000;
/// Priority mask register.
pub const GICC_PMR: usize = 0x004;
/// Interrupt acknowledge register.
pub const GICC_IAR: usize = 0x00C;
/// End of interrupt register.
pub const GICC_EOIR: usize = 0x010;

/// Timer interrupt (ARM architectural timer).
pub const TIMER_IRQ: u32 = 30;
/// UART interrupt.
pub const UART_IRQ: u32 = 33;
/// Interrupt IDs from this one up are spurious.
pub const SPURIOUS_IRQ: u32 = 1020;

/// Which register block of the GIC a write goes to.
#[derive(Debug, Clone, Copy, PartialEq, Eq, Structural)]
pub enum GicBlock {
    Distributor,
    CpuInterface,
}

/// One 32-bit register write.
#[derive(Debug, Clone, Copy, PartialEq, Eq, Structural)]
pub struct GicWrite {
    pub block: GicBlock,
    pub offset: usize,
    pub value: u32,
}

/// A GICv2 at the given register bases.
#[derive(Debug, Clone, Copy, PartialEq, Eq, Structural)]
pub struct Gic {
    pub gicd_base: usize,
    pub gicc_base: usize,
}

/// What the interrupt handler does with an acknowledged interrupt.
#[derive(Debug, Clone, Copy, PartialEq, Eq, Structural)]
pub enum IrqAction {
    /// Spurious: nothing to do, no end-of-interrupt.
    Spurious,
    /// Timer tick: run the scheduler, then signal end of interrupt.
    Timer,
    /// UART receive: drain the receive FIFO, then signal end of interrupt.
    UartRx,
    /// Anything else: report it and signal end of interrupt.
    Unknown(u32),
}

/// The `k`-th write of the controller's initialisation: the distributor is
/// disabled, the shared interrupts (registers 8 to 31) are routed to CPU 0 and
/// given the lowest priority, then the distributor is enabled, every priority
/// is let through and the CPU interface is enabled.
pub open spec fn init_write(k: int) -> GicWrite {
    if k == 0 {
        GicWrite { block: GicBlock::Distributor, offset: GICD_CTLR, value: 0 }
    } else if 1 <= k < 25 {
        GicWrite {
            block: GicBlock::Distributor,
            offset: (GICD_ITARGETSR + (k + 7) * 4) as usize,
            value: 0x0101_0101,
        }
    } else if 25 <= k < 49 {
        GicWrite {
            block: GicBlock::Distributor,
            offset: (GICD_IPRIORITYR + (k - 17) * 4) as usize,
            value: 0xA0A0_A0A0,
        }
    } else if k == 49 {
        GicWrite { block: GicBlock::Distributor, offset: GICD_CTLR, value: 1 }
    } else if k == 50 {
        GicWrite { block: GicBlock::CpuInterface, offset: GICC_PMR, value: 0xFF }
    } else {
        GicWrite { block: GicBlock::CpuInterface, offset: GICC_CTLR, value: 1 }
    }
}

/// The number of initialisation writes.
pub const GIC_INIT_WRITES: usize = 52;

/// The write that sets (`reg_base` = set-enable) or clears (clear-enable) the
/// enable bit of `irq`: one bit per interrupt, 32 to a register.
pub open spec fn enable_bit_write(reg_base: usize, irq: u32) -> GicWrite {
    GicWrite {
        block: GicBlock::Distributor,
        offset: (reg_base + (irq / 32) * 4) as usize,
        value: 1u32 << (irq % 32),
    }
}

/// The action for an acknowledged interrupt ID.
pub open spec fn irq_action(irq: u32) -> IrqAction {
    if irq >= SPURIOUS_IRQ {
        IrqAction::Spurious
    } else if irq == TIMER_IRQ {
        IrqAction::Timer
    } else if irq == UART_IRQ {
        IrqAction::UartRx
    } else {
        IrqAction::Unknown(irq)
    }
}

impl Gic {
    /// A controller at the given bases.
    pub fn new(gicd_base: usize, gicc_base: usize) -> (g: Self)
        ensures
            g.gicd_base == gicd_base,
            g.gicc_base == gicc_base,
    {
        Gic { gicd_base, gicc_base }
    }

    /// The writes that initialise the controller, in order.
    pub fn init(&self) -> (writes: Vec<GicWrite>)
        ensures
            writes@.len() == GIC_INIT_WRITES,
            forall|k: int| 0 <= k < GIC_INIT_WRITES ==> #[trigger] writes@[k] == init_write(k),
    {
        let mut writes: Vec<GicWrite> = Vec::new();
        writes.push(GicWrite { block: GicBlock::Distributor, offset: GICD_CTLR, value: 0 });
        let mut i: usize = 8;
        while i < 32
            invariant
                8 <= i <= 32,
                writes@.len() == i - 7,
                forall|k: int| 0 <= k < writes@.len() ==> #[trigger] writes@[k] == init_write(k),
            decreases 32 - i,
        {
            writes.push(
                GicWrite {
                    block: GicBlock::Distributor,
                    offset: GICD_ITARGETSR + i * 4,
                    value: 0x0101_0101,
                },
            );
            i = i + 1;
        }
        let mut i: usize = 8;
        while i < 32
            invariant
                8 <= i <= 32,
                writes@.len() == i + 17,
                forall|k: int| 0 <= k < writes@.len() ==> #[trigger] writes@[k] == init_write(k),
            decreases 32 - i,
        {
            writes.push(
                GicWrite {
                    block: GicBlock::Distributor,
                    offset: GICD_IPRIORITYR + i * 4,
                    value: 0xA0A0_A0A0,
                },
            );
            i = i + 1;
        }
        writes.push(GicWrite { block: GicBlock::Distributor, offset: GICD_CTLR, value: 1 });
        writes.push(GicWrite { block: GicBlock::CpuInterface, offset: GICC_PMR, value: 0xFF });
        writes.push(GicWrite { block: GicBlock::CpuInterface, offset: GICC_CTLR, value: 1 });
        writes
    }

    /// The write that enables `irq`.
    pub fn enable_interrupt(&self, irq: u32) -> (w: GicWrite)
        ensures
            w == enable_bit_write(GICD_ISENABLER, irq),
    {
        let reg = irq / 32;
        let bit = irq % 32;
        GicWrite {
            block: GicBlock::Distributor,
            offset: GICD_ISENABLER + reg as usize * 4,
            value: 1u32 << bit,
        }
    }

    /// The write that disables `irq`.
    pub fn disable_interrupt(&self, irq: u32) -> (w: GicWrite)
        ensures
            w == enable_bit_write(GICD_ICENABLER, irq),
    {
        let reg = irq / 32;
        let bit = irq % 32;
        GicWrite {
            block: GicBlock::Distributor,
            offset: GICD_ICENABLER + reg as usize * 4,
            value: 1u32 << bit,
        }
    }

    /// The register read that acknowledges the pending interrupt.
    pub fn acknowledge(&self) -> (offset: usize)
        ensures
            offset == GICC_IAR,
    {
        GICC_IAR
    }

    /// The write that ends interrupt `irq`.
    pub fn end_interrupt(&self, irq: u32) -> (w: GicWrite)
        ensures
            w == (GicWrite { block: GicBlock::CpuInterface, offset: GICC_EOIR, value: irq }),
    {
        GicWrite { block: GicBlock::CpuInterface, offset: GICC_EOIR, value: irq }
    }
}

/// The writes of the kernel's interrupt setup: the controller's
/// initialisation, then the timer and UART interrupts enabled.
pub fn init(gic: &Gic) -> (writes: Vec<GicWrite>)
    ensures
        writes@.len() == GIC_INIT_WRITES + 2,
        forall|k: int| 0 <= k < GIC_INIT_WRITES ==> #[trigger] writes@[k] == init_write(k),
        writes@[GIC_INIT_WRITES as int] == enable_bit_write(GICD_ISENABLER, TIMER_IRQ),
        writes@[GIC_INIT_WRITES + 1] == enable_bit_write(GICD_ISENABLER, UART_IRQ),
{
    let mut writes = gic.init();
    let t = gic.enable_interrupt(TIMER_IRQ);
    writes.push(t);
    let u = gic.enable_interrupt(UART_IRQ);
    writes.push(u);
    writes
}

/// What to do with the interrupt ID read from the acknowledge register.
pub fn handle_interrupt(irq: u32) -> (a: IrqAction)
    ensures
        a == irq_action(irq),
{
    if irq >= SPURIOUS_IRQ {
        IrqAction::Spurious
    } else if irq == TIMER_IRQ {
        IrqAction::Timer
    } else if irq == UART_IRQ {
        IrqAction::UartRx
    } else {
        IrqAction::Unknown(irq)
    }
}

/// Enabling and disabling an interrupt touch the same bit, in the set-enable
/// and clear-enable banks respectively.
pub proof fn law_enable_disable_same_bit(irq: u32)
    ensures
        enable_bit_write(GICD_ICENABLER, irq).offset == enable_bit_write(GICD_ISENABLER, irq).offset
            + 0x80,
        enable_bit_write(GICD_ICENABLER, irq).value == enable_bit_write(GICD_ISENABLER, irq).value,
{
}

} // verus!
