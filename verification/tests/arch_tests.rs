use kernel::arch::aarch64::context::ArchContext as ArmContext;
use kernel::arch::aarch64::exceptions::{handle_sync_exception, ExceptionContext, SyncException};
use kernel::arch::aarch64::gic::{
    handle_interrupt, init as gic_init, Gic, GicBlock, GicWrite, IrqAction, GICD_BASE, GICC_BASE,
    TIMER_IRQ, UART_IRQ,
};
use kernel::arch::aarch64::mmu::{map_page, FrameAllocator, PageTable, PageTableEntry, PAGE_SIZE};
use kernel::arch::aarch64::uart::{RxRing, Uart, UART_BASE};
use kernel::arch::x86_64::context::ArchContext as X86Context;
use kernel::arch::x86_64::gdt::{
    kernel_code_selector, kernel_data_selector, selectors, user_code_selector, user_data_selector,
};
use kernel::arch::Context;

fn exc(esr: u64) -> ExceptionContext {
    ExceptionContext { gpr: [0; 31], elr: 0x4000_1000, spsr: 0, esr, far: 0xdead_0000 }
}

#[test]
fn arm_kernel_context_starts_in_el1h() {
    let c = ArmContext::new_kernel(0x4008_0000, 0x4100_0000);
    assert_eq!(c.pc, 0x4008_0000);
    assert_eq!(c.sp, 0x4100_0000);
    assert_eq!(c.x29, 0x4100_0000);
    assert_eq!(c.spsr, 0b0101);
    assert_eq!(c.x30, 0);
    assert_eq!(c.tpidr, 0);
}

#[test]
fn arm_user_context_starts_in_el0t() {
    let c = <ArmContext as Context>::new_user(0x1000, 0x2000);
    assert_eq!(c.pc, 0x1000);
    assert_eq!(c.sp, 0x2000);
    assert_eq!(c.spsr, 0);
}

#[test]
fn svc_is_decoded_with_its_immediate() {
    // EC 0x15, ISS 0x2a
    let e = handle_sync_exception(&exc((0x15u64 << 26) | 0x2a));
    assert_eq!(e, SyncException::Svc(0x2a));
    assert!(!e.is_fatal());
}

#[test]
fn aborts_and_unknown_exceptions_are_fatal() {
    let e = handle_sync_exception(&exc(0x21u64 << 26));
    assert_eq!(e, SyncException::InstructionAbort { elr: 0x4000_1000, far: 0xdead_0000, esr: 0x21u64 << 26 });
    assert!(e.is_fatal());
    let e = handle_sync_exception(&exc((0x25u64 << 26) | 7));
    assert!(matches!(e, SyncException::DataAbort { .. }));
    let e = handle_sync_exception(&exc((0x07u64 << 26) | 0x123));
    assert_eq!(e, SyncException::Unknown { ec: 7, iss: 0x123, elr: 0x4000_1000 });
    assert!(e.is_fatal());
}

#[test]
fn gic_init_writes() {
    let g = Gic::new(GICD_BASE, GICC_BASE);
    let w = g.init();
    assert_eq!(w.len(), 52);
    assert_eq!(w[0], GicWrite { block: GicBlock::Distributor, offset: 0, value: 0 });
    assert_eq!(w[1], GicWrite { block: GicBlock::Distributor, offset: 0x800 + 8 * 4, value: 0x0101_0101 });
    assert_eq!(w[24], GicWrite { block: GicBlock::Distributor, offset: 0x800 + 31 * 4, value: 0x0101_0101 });
    assert_eq!(w[25], GicWrite { block: GicBlock::Distributor, offset: 0x400 + 8 * 4, value: 0xA0A0_A0A0 });
    assert_eq!(w[49], GicWrite { block: GicBlock::Distributor, offset: 0, value: 1 });
    assert_eq!(w[50], GicWrite { block: GicBlock::CpuInterface, offset: 4, value: 0xFF });
    assert_eq!(w[51], GicWrite { block: GicBlock::CpuInterface, offset: 0, value: 1 });
    let all = gic_init(&g);
    assert_eq!(all.len(), 54);
    assert_eq!(all[52], GicWrite { block: GicBlock::Distributor, offset: 0x100, value: 1 << 30 });
    assert_eq!(all[53], GicWrite { block: GicBlock::Distributor, offset: 0x104, value: 1 << 1 });
}

#[test]
fn gic_enable_and_disable_touch_the_same_bit() {
    let g = Gic::new(GICD_BASE, GICC_BASE);
    let e = g.enable_interrupt(UART_IRQ);
    let d = g.disable_interrupt(UART_IRQ);
    assert_eq!(e.offset, 0x104);
    assert_eq!(d.offset, 0x184);
    assert_eq!(e.value, d.value);
    assert_eq!(g.end_interrupt(TIMER_IRQ), GicWrite { block: GicBlock::CpuInterface, offset: 0x10, value: 30 });
    assert_eq!(g.acknowledge(), 0x0C);
}

#[test]
fn gic_interrupt_actions() {
    assert_eq!(handle_interrupt(30), IrqAction::Timer);
    assert_eq!(handle_interrupt(33), IrqAction::UartRx);
    assert_eq!(handle_interrupt(40), IrqAction::Unknown(40));
    assert_eq!(handle_interrupt(1020), IrqAction::Spurious);
    assert_eq!(handle_interrupt(1023), IrqAction::Spurious);
}

#[test]
fn page_entries() {
    assert!(!PageTableEntry::empty().is_valid());
    let t = PageTableEntry::new_table(0x4000_1000);
    assert!(t.is_valid());
    assert_eq!(t.address(), 0x4000_1000);
    let k = PageTableEntry::new_page(0x4020_0abc, true, true, false);
    assert!(k.is_valid());
    assert_eq!(k.address(), 0x4020_0000);
    let u = PageTableEntry::new_page(0x8000_0000, false, false, false);
    assert_eq!(u.address(), 0x8000_0000);
    let _ = PageTable::empty();
}

#[test]
fn frames_come_a_page_apart() {
    let mut a = FrameAllocator::new(0x4100_0000);
    assert_eq!(a.allocate_frame(), Some(0x4100_0000));
    assert_eq!(a.allocate_frame(), Some(0x4100_0000 + PAGE_SIZE));
    assert_eq!(map_page(0, 0, true, true, true), Ok(()));
}

#[test]
fn rx_ring_is_fifo() {
    let mut r = RxRing::new();
    assert!(r.is_empty());
    assert_eq!(r.rx_pop(), None);
    assert!(r.rx_push(b'a'));
    assert!(r.rx_push(b'b'));
    assert_eq!(r.rx_pop(), Some(b'a'));
    assert_eq!(r.rx_pop(), Some(b'b'));
    assert_eq!(r.rx_pop(), None);
}

#[test]
fn rx_ring_drops_when_full_and_wraps() {
    let mut r = RxRing::new();
    for i in 0..255u32 {
        assert!(r.rx_push(i as u8));
    }
    assert!(!r.rx_push(0xEE));
    for i in 0..255u32 {
        assert_eq!(r.rx_pop(), Some(i as u8));
    }
    assert!(r.is_empty());
    // wrap around the end of the buffer
    for i in 0..10u8 {
        assert!(r.rx_push(i));
    }
    for i in 0..10u8 {
        assert_eq!(r.rx_pop(), Some(i));
    }
}

#[test]
fn rx_receive_skips_errors() {
    let mut r = RxRing::new();
    assert!(r.receive(0x100 | 0x41));
    assert!(r.is_empty());
    assert!(!r.receive(0x41));
    assert_eq!(r.rx_pop(), Some(0x41));
}

#[test]
fn uart_setup_and_line_endings() {
    let u = Uart::new(UART_BASE);
    let w = u.init();
    assert_eq!(w.len(), 8);
    assert_eq!(w[0].offset, 0x30);
    assert_eq!(w[0].value, 0);
    assert_eq!(w[6].offset, 0x38);
    assert_eq!(w[6].value, 0x50);
    assert_eq!(w[7].value, 0x301);
    assert_eq!(u.encode_str(b"a\nb\n"), b"a\r\nb\r\n".to_vec());
    assert_eq!(u.encode_str(b""), Vec::<u8>::new());
}

#[test]
fn x86_contexts_use_gdt_selectors() {
    let k = X86Context::new_kernel(0x1000, 0x8000);
    assert_eq!(k.rip, 0x1000);
    assert_eq!(k.rsp, 0x8000);
    assert_eq!(k.rbp, 0x8000);
    assert_eq!(k.rflags, 0x200);
    assert_eq!(k.cs, kernel_code_selector() as u64);
    assert_eq!(k.ss, kernel_data_selector() as u64);
    let u = X86Context::new_user(0x40_0000, 0x7fff_0000);
    assert_eq!(u.cs, 0x23);
    assert_eq!(u.ss, 0x1B);
    assert_eq!(u.cs, user_code_selector() as u64);
    assert_eq!(u.ss, user_data_selector() as u64);
    assert_eq!(selectors().tss_selector, 0x28);
}

#[test]
fn receive_ring_keeps_the_first_255_bytes_in_order() {
    let mut r = RxRing::new();
    for i in 0..300u32 {
        let kept = r.rx_push((i % 256) as u8);
        assert_eq!(kept, i < 255);
    }
    for i in 0..255u32 {
        assert_eq!(r.rx_pop(), Some(i as u8));
    }
    assert_eq!(r.rx_pop(), None);
}
