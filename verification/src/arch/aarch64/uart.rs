//! PL011 UART: the receive ring filled from the interrupt handler, the
//! register writes that set the UART up, and line-ending translation on output.
use vstd::prelude::*;
use crate::drivers::virtio::mmio::RegWrite;

verus! {

/// Base address of the PL011 on the QEMU virt machine.
pub const UART_BASE: usize = 0x0900_0000;

/// Data register.
pub const DR: usize = 0x00;
/// Receive status / error clear register.
pub const RSR: usize = 0x04;
/// Flag register.
pub const FR: usize = 0x18;
/// Integer baud rate divisor.
pub const IBRD: usize = 0x24;
/// Fractional baud rate divisor.
pub const FBRD: usize = 0x28;
/// Line control register.
pub const LCR_H: usize = 0x2C;
/// Control register.
pub const CR: usize = 0x30;
/// Interrupt FIFO level select.
pub const IFLS: usize = 0x34;
/// Interrupt mask set/clear.
pub const IMSC: usize = 0x38;
/// Masked interrupt status.
pub const MIS: usize = 0x40;
/// Interrupt clear register.
pub const ICR: usize = 0x44;

/// Flag register: transmit FIFO full.
pub const FR_TXFF: u32 = 0x20;
/// Flag register: receive FIFO empty.
pub const FR_RXFE: u32 = 0x10;

/// Receive interrupt mask bit.
pub const RXIM: u32 = 0x10;
/// Receive timeout interrupt mask bit.
pub const RTIM: u32 = 0x40;

/// Slots of the receive ring; one is kept free, so it holds 255 bytes.
pub const RX_BUF_SIZE: usize = 256;

/// The receive ring: the interrupt handler pushes at `head`, the reader
/// pops at `tail`; a byte that arrives while the ring is full is dropped.
pub struct RxRing {
    buf: Vec<u8>,
    head: usize,
    tail: usize,
}

/// Error bits (framing, parity, break, overrun) of a data register read.
pub const DR_ERROR_BITS: u32 = 0xF00;

impl RxRing {
    pub closed spec fn wf(&self) -> bool {
        &&& self.buf@.len() == RX_BUF_SIZE
        &&& self.head < RX_BUF_SIZE
        &&& self.tail < RX_BUF_SIZE
    }

    /// The number of bytes waiting.
    pub closed spec fn count(&self) -> nat {
        ((self.head + RX_BUF_SIZE - self.tail) % (RX_BUF_SIZE as int)) as nat
    }

    /// The bytes waiting, oldest first.
    pub closed spec fn contents(&self) -> Seq<u8> {
        Seq::new(self.count(), |i: int| self.buf@[(self.tail + i) % (RX_BUF_SIZE as int)])
    }

    /// An empty ring.
    pub fn new() -> (r: Self)
        ensures
            r.wf(),
            r.contents() == Seq::<u8>::empty(),
    {
        let mut buf: Vec<u8> = Vec::new();
        let mut i: usize = 0;
        while i < RX_BUF_SIZE
            invariant
                i <= RX_BUF_SIZE,
                buf@.len() == i,
            decreases RX_BUF_SIZE - i,
        {
            buf.push(0);
            i = i + 1;
        }
        let r = RxRing { buf, head: 0, tail: 0 };
        assert(r.contents() =~= Seq::<u8>::empty());
        r
    }

    /// Whether no byte is waiting.
    pub fn is_empty(&self) -> (b: bool)
        requires
            self.wf(),
        ensures
            b == (self.contents().len() == 0),
    {
        self.head == self.tail
    }

    /// Append `byte` unless the ring already holds 255 bytes; returns whether
    /// it was kept.
    pub fn rx_push(&mut self, byte: u8) -> (kept: bool)
        requires
            old(self).wf(),
        ensures
            final(self).wf(),
            kept == (old(self).contents().len() < RX_BUF_SIZE - 1),
            kept ==> final(self).contents() == old(self).contents().push(byte),
            !kept ==> final(self).contents() == old(self).contents(),
    {
        let head = self.head;
        let next = (head + 1) % RX_BUF_SIZE;
        if next != self.tail {
            let ghost old_contents = self.contents();
            self.buf.set(head, byte);
            self.head = next;
            assert(self.contents() =~= old_contents.push(byte));
            true
        } else {
            false
        }
    }

    /// Take the oldest byte, if any.
    pub fn rx_pop(&mut self) -> (b: Option<u8>)
        requires
            old(self).wf(),
        ensures
            final(self).wf(),
            old(self).contents().len() == 0 ==> b is None && final(self).contents() == old(self).contents(),
            old(self).contents().len() > 0 ==> b == Some(old(self).contents()[0])
                && final(self).contents() == old(self).contents().drop_first(),
    {
        let tail = self.tail;
        if tail == self.head {
            return None;
        }
        let byte = self.buf[tail];
        let ghost old_contents = self.contents();
        self.tail = (tail + 1) % RX_BUF_SIZE;
        assert(self.contents() =~= old_contents.drop_first());
        Some(byte)
    }

    /// Handle one data register read from the receive FIFO: a read with an
    /// error bit set is skipped (the error is cleared by writing RSR), any
    /// other is pushed as its low byte. Returns whether the read was an error.
    pub fn receive(&mut self, data: u32) -> (error: bool)
        requires
            old(self).wf(),
        ensures
            final(self).wf(),
            error == (data & DR_ERROR_BITS != 0),
            error ==> final(self).contents() == old(self).contents(),
            !error && old(self).contents().len() < RX_BUF_SIZE - 1 ==> final(self).contents()
                == old(self).contents().push((data & 0xFF) as u8),
            !error && old(self).contents().len() >= RX_BUF_SIZE - 1 ==> final(self).contents()
                == old(self).contents(),
    {
        if data & DR_ERROR_BITS != 0 {
            true
        } else {
            self.rx_push((data & 0xFF) as u8);
            false
        }
    }
}

/// Bytes in the ring come out in the order they went in: pushing into a ring
/// with room and then popping everything yields what was there, then the byte.
pub proof fn law_rx_fifo(before: Seq<u8>, byte: u8, after: Seq<u8>)
    requires
        after == before.push(byte),
    ensures
        after.len() > 0,
        before.len() == 0 ==> after[0] == byte,
        before.len() > 0 ==> after[0] == before[0] && after.drop_first() == before.drop_first().push(
            byte,
        ),
{
    if before.len() > 0 {
        assert(after.drop_first() =~= before.drop_first().push(byte));
    }
}

/// The receive ring's contents after each of `bs` is pushed in turn onto `c`; a
/// byte that finds the ring full (`RX_BUF_SIZE - 1` bytes) is dropped.
pub open spec fn after_pushes(c: Seq<u8>, bs: Seq<u8>) -> Seq<u8>
    decreases bs.len(),
{
    if bs.len() == 0 {
        c
    } else {
        let p = after_pushes(c, bs.drop_last());
        if p.len() < RX_BUF_SIZE - 1 {
            p.push(bs.last())
        } else {
            p
        }
    }
}

/// Bytes pushed onto an empty receive ring come out in the order they came, the
/// first `RX_BUF_SIZE - 1` of them kept and the rest dropped.
pub proof fn law_rx_keeps_first(bs: Seq<u8>)
    ensures
        after_pushes(Seq::empty(), bs) == bs.take(if bs.len() < RX_BUF_SIZE - 1 { bs.len() as int } else { RX_BUF_SIZE - 1 }),
    decreases bs.len(),
{
    if bs.len() > 0 {
        let d = bs.drop_last();
        law_rx_keeps_first(d);
        if d.len() < RX_BUF_SIZE - 1 {
            assert(d.take(d.len() as int) =~= d);
            assert(d.push(bs.last()) =~= bs);
            assert(bs.take(bs.len() as int) =~= bs);
        } else {
            assert(d.take(RX_BUF_SIZE - 1) =~= bs.take(RX_BUF_SIZE - 1));
        }
    } else {
        assert(bs.take(0) =~= Seq::<u8>::empty());
    }
}

/// Popping repeatedly gives the contents front to back: with `i` bytes popped the
/// ring holds `c.skip(i)`, whose first byte is `c[i]` and whose pop leaves
/// `c.skip(i + 1)`; once all are popped nothing is left, and the next pop gives none.
pub proof fn law_rx_pops_in_order(c: Seq<u8>, i: int)
    requires
        0 <= i < c.len(),
    ensures
        c.skip(i).len() > 0,
        c.skip(i)[0] == c[i],
        c.skip(i).drop_first() == c.skip(i + 1),
        c.skip(c.len() as int).len() == 0,
{
    assert(c.skip(i).drop_first() =~= c.skip(i + 1));
}

/// The PL011 transmitter.
#[derive(Debug, Clone, Copy, PartialEq, Eq, Structural)]
pub struct Uart {
    pub base: usize,
}

/// `s` with each line feed preceded by a carriage return.
pub open spec fn crlf(s: Seq<u8>) -> Seq<u8>
    decreases s.len(),
{
    if s.len() == 0 {
        Seq::empty()
    } else {
        let rest = crlf(s.drop_last());
        if s.last() == 10u8 {
            rest.push(13u8).push(10u8)
        } else {
            rest.push(s.last())
        }
    }
}

impl Uart {
    /// A UART at `base`.
    pub fn new(base: usize) -> (u: Self)
        ensures
            u.base == base,
    {
        Uart { base }
    }

    /// The setup writes: disabled, interrupts cleared, 115200 baud from the
    /// 24 MHz clock, 8N1 with FIFOs, receive interrupt at 1/8 full, receive
    /// and receive-timeout interrupts unmasked, then enabled with TX and RX.
    pub fn init(&self) -> (writes: Vec<RegWrite>)
        ensures
            writes@ == seq![
                RegWrite { offset: CR, value: 0 },
                RegWrite { offset: ICR, value: 0x7FF },
                RegWrite { offset: IBRD, value: 13 },
                RegWrite { offset: FBRD, value: 1 },
                RegWrite { offset: LCR_H, value: 0x70 },
                RegWrite { offset: IFLS, value: 0 },
                RegWrite { offset: IMSC, value: RXIM | RTIM },
                RegWrite { offset: CR, value: 0x301 },
            ],
    {
        let mut w: Vec<RegWrite> = Vec::new();
        w.push(RegWrite { offset: CR, value: 0 });
        w.push(RegWrite { offset: ICR, value: 0x7FF });
        w.push(RegWrite { offset: IBRD, value: 13 });
        w.push(RegWrite { offset: FBRD, value: 1 });
        w.push(RegWrite { offset: LCR_H, value: 0x70 });
        w.push(RegWrite { offset: IFLS, value: 0 });
        w.push(RegWrite { offset: IMSC, value: RXIM | RTIM });
        w.push(RegWrite { offset: CR, value: 0x301 });
        w
    }

    /// The bytes sent for `s`: a carriage return goes before each line feed.
    pub fn encode_str(&self, s: &[u8]) -> (out: Vec<u8>)
        ensures
            out@ == crlf(s@),
    {
        let mut out: Vec<u8> = Vec::new();
        let mut i: usize = 0;
        let n = s.len();
        while i < n
            invariant
                i <= n,
                n == s@.len(),
                out@ == crlf(s@.subrange(0, i as int)),
            decreases n - i,
        {
            let b = s[i];
            assert(s@.subrange(0, i + 1).drop_last() =~= s@.subrange(0, i as int));
            if b == 10u8 {
                out.push(13u8);
            }
            out.push(b);
            i = i + 1;
        }
        assert(s@.subrange(0, n as int) =~= s@);
        out
    }
}

} // verus!
