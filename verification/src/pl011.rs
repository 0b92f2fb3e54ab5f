//! Emulated PL011 UART: the register file a guest sees, with a receive FIFO
//! the hypervisor fills from the physical UART. Characters the guest
//! transmits are handed back to the caller to print.

use vstd::prelude::*;

verus! {

/// Guest-physical base of the UART.
pub const UART_BASE: u64 = 0x0900_0000;
/// Size of the UART window.
pub const UART_SIZE: u64 = 0x1000;

pub const UARTDR: u64 = 0x000;
pub const UARTRSR: u64 = 0x004;
pub const UARTFR: u64 = 0x018;
pub const UARTILPR: u64 = 0x020;
pub const UARTIBRD: u64 = 0x024;
pub const UARTFBRD: u64 = 0x028;
pub const UARTLCR_H: u64 = 0x02C;
pub const UARTCR: u64 = 0x030;
pub const UARTIFLS: u64 = 0x034;
pub const UARTIMSC: u64 = 0x038;
pub const UARTRIS: u64 = 0x03C;
pub const UARTMIS: u64 = 0x040;
pub const UARTICR: u64 = 0x044;
pub const UARTDMACR: u64 = 0x048;
pub const UART_PERIPHID0: u64 = 0xFE0;
pub const UART_PERIPHID1: u64 = 0xFE4;
pub const UART_PERIPHID2: u64 = 0xFE8;
pub const UART_PERIPHID3: u64 = 0xFEC;
pub const UART_PCELLID0: u64 = 0xFF0;
pub const UART_PCELLID1: u64 = 0xFF4;
pub const UART_PCELLID2: u64 = 0xFF8;
pub const UART_PCELLID3: u64 = 0xFFC;

/// Flag: transmit FIFO empty.
pub const FR_TXFE: u32 = 0x80;
/// Flag: receive FIFO full.
pub const FR_RXFF: u32 = 0x40;
/// Flag: transmit FIFO full.
pub const FR_TXFF: u32 = 0x20;
/// Flag: receive FIFO empty.
pub const FR_RXFE: u32 = 0x10;
/// Interrupt: receive.
pub const INT_RX: u32 = 0x10;
/// Interrupt: transmit.
pub const INT_TX: u32 = 0x20;
/// Interrupt: receive timeout.
pub const INT_RT: u32 = 0x40;
/// SPI of the UART (SPI 1).
pub const UART_SPI_INTID: u32 = 33;
/// Slots of the receive ring (one stays free, so it holds 63 characters).
pub const RX_BUF_SIZE: usize = 64;

/// The UART's registers and received characters, as values.
pub struct UartView {
    pub cr: u32,
    pub lcr_h: u32,
    pub ibrd: u32,
    pub fbrd: u32,
    pub ifls: u32,
    pub imsc: u32,
    pub ris: u32,
    pub dmacr: u32,
    /// Received characters not yet read, oldest first.
    pub rx: Seq<u8>,
}

/// Emulated PL011.
pub struct VirtualUart {
    cr: u32,
    lcr_h: u32,
    ibrd: u32,
    fbrd: u32,
    ifls: u32,
    imsc: u32,
    ris: u32,
    dmacr: u32,
    rx_buf: [u8; 64],
    rx_head: usize,
    rx_tail: usize,
}

/// Outcome of a guest write to the UART.
#[derive(Clone, Copy, Debug, PartialEq, Eq, Structural)]
pub struct UartWrite {
    /// The access had a supported width.
    pub accepted: bool,
    /// Character to transmit on the physical UART.
    pub tx: Option<u8>,
}

impl View for VirtualUart {
    type V = UartView;

    closed spec fn view(&self) -> UartView {
        UartView {
            cr: self.cr,
            lcr_h: self.lcr_h,
            ibrd: self.ibrd,
            fbrd: self.fbrd,
            ifls: self.ifls,
            imsc: self.imsc,
            ris: self.ris,
            dmacr: self.dmacr,
            rx: Seq::new(
                ((self.rx_tail + 64 - self.rx_head) % 64) as nat,
                |i: int| self.rx_buf@[(self.rx_head + i) % 64],
            ),
        }
    }
}

/// FR as the guest reads it: TX always empty, RX empty/full from the FIFO.
pub open spec fn uart_flags(rx_len: nat) -> u32 {
    FR_TXFE | (if rx_len == 0 { FR_RXFE } else { 0 }) | (if rx_len >= 63 { FR_RXFF } else { 0 })
}

/// The three values FR takes, bit by bit.
proof fn lemma_fr_values()
    by (bit_vector)
    ensures
        ((0x80u32 | 0x10u32 | 0u32) as u64) & 0x10 != 0 && ((0x80u32 | 0x10u32 | 0u32) as u64) & 0x40 == 0
            && ((0x80u32 | 0x10u32 | 0u32) as u64) & 0x80 != 0,
        ((0x80u32 | 0u32 | 0u32) as u64) & 0x10 == 0 && ((0x80u32 | 0u32 | 0u32) as u64) & 0x40 == 0
            && ((0x80u32 | 0u32 | 0u32) as u64) & 0x80 != 0,
        ((0x80u32 | 0u32 | 0x40u32) as u64) & 0x10 == 0 && ((0x80u32 | 0u32 | 0x40u32) as u64) & 0x40 != 0
            && ((0x80u32 | 0u32 | 0x40u32) as u64) & 0x80 != 0,
{
}

/// Reading FR: RXFE (bit 4) is set exactly when the receive FIFO is empty,
/// RXFF (bit 6) exactly when it holds 63 characters or more, and TXFE
/// (bit 7) always (the transmitter never holds data).
pub proof fn law_flags_follow_rx_fifo(v: UartView)
    ensures
        uart_reg(v, UARTFR) & 0x10 != 0 <==> v.rx.len() == 0,
        uart_reg(v, UARTFR) & 0x40 != 0 <==> v.rx.len() >= 63,
        uart_reg(v, UARTFR) & 0x80 != 0,
{
    lemma_fr_values();
}

/// A supported access width.
pub open spec fn uart_width_ok(size: u8) -> bool {
    size == 1 || size == 2 || size == 4
}

/// What a read of a register other than DR returns.
pub open spec fn uart_reg(v: UartView, offset: u64) -> u64 {
    if offset == UARTFR {
        uart_flags(v.rx.len()) as u64
    } else if offset == UARTIBRD {
        v.ibrd as u64
    } else if offset == UARTFBRD {
        v.fbrd as u64
    } else if offset == UARTLCR_H {
        v.lcr_h as u64
    } else if offset == UARTCR {
        v.cr as u64
    } else if offset == UARTIFLS {
        v.ifls as u64
    } else if offset == UARTIMSC {
        v.imsc as u64
    } else if offset == UARTRIS {
        v.ris as u64
    } else if offset == UARTMIS {
        (v.ris & v.imsc) as u64
    } else if offset == UARTDMACR {
        v.dmacr as u64
    } else if offset == UART_PERIPHID0 {
        0x11
    } else if offset == UART_PERIPHID1 {
        0x10
    } else if offset == UART_PERIPHID2 {
        0x14
    } else if offset == UART_PCELLID0 {
        0x0D
    } else if offset == UART_PCELLID1 {
        0xF0
    } else if offset == UART_PCELLID2 {
        0x05
    } else if offset == UART_PCELLID3 {
        0xB1
    } else {
        0
    }
}

/// The UART after the oldest received character is read: it leaves the
/// FIFO, and the receive interrupt drops when the FIFO becomes empty.
pub open spec fn uart_after_pop(v: UartView) -> UartView {
    if v.rx.len() == 0 {
        v
    } else if v.rx.len() == 1 {
        UartView { rx: v.rx.drop_first(), ris: v.ris & !INT_RX, ..v }
    } else {
        UartView { rx: v.rx.drop_first(), ..v }
    }
}

/// The UART after a guest write of a supported width.
pub open spec fn uart_write(v: UartView, offset: u64, value: u64) -> UartView {
    if offset == UARTDR {
        UartView { ris: v.ris | INT_TX, ..v }
    } else if offset == UARTIBRD {
        UartView { ibrd: (value & 0xFFFF) as u32, ..v }
    } else if offset == UARTFBRD {
        UartView { fbrd: (value & 0x3F) as u32, ..v }
    } else if offset == UARTLCR_H {
        UartView { lcr_h: (value & 0xFF) as u32, ..v }
    } else if offset == UARTCR {
        UartView { cr: (value & 0xFFFF) as u32, ..v }
    } else if offset == UARTIFLS {
        UartView { ifls: (value & 0x3F) as u32, ..v }
    } else if offset == UARTIMSC {
        UartView { imsc: (value & 0x7FF) as u32, ..v }
    } else if offset == UARTICR {
        UartView { ris: v.ris & !(value as u32), ..v }
    } else if offset == UARTDMACR {
        UartView { dmacr: (value & 0x07) as u32, ..v }
    } else {
        v
    }
}

impl VirtualUart {
    pub closed spec fn wf(&self) -> bool {
        self.rx_head < 64 && self.rx_tail < 64
    }

    /// Enabled (TX and RX), 8N1, empty FIFO, no interrupts.
    pub fn new() -> (r: Self)
        ensures
            r.wf(),
            r@ == (UartView {
                cr: 0x0301,
                lcr_h: 0x60,
                ibrd: 1,
                fbrd: 0,
                ifls: 0x12,
                imsc: 0,
                ris: 0,
                dmacr: 0,
                rx: Seq::empty(),
            }),
    {
        let r = VirtualUart {
            cr: 0x0301,
            lcr_h: 0x60,
            ibrd: 1,
            fbrd: 0,
            ifls: 0x12,
            imsc: 0,
            ris: 0,
            dmacr: 0,
            rx_buf: [0; 64],
            rx_head: 0,
            rx_tail: 0,
        };
        assert(r@.rx =~= Seq::<u8>::empty());
        r
    }

    /// Queue a character received on the physical UART; it is dropped when
    /// the FIFO is full. Raises the receive interrupt.
    pub fn push_rx(&mut self, ch: u8)
        requires
            old(self).wf(),
        ensures
            final(self).wf(),
            old(self)@.rx.len() >= 63 ==> final(self)@ == old(self)@,
            old(self)@.rx.len() < 63 ==> final(self)@ == (UartView {
                rx: old(self)@.rx.push(ch),
                ris: old(self)@.ris | INT_RX,
                ..old(self)@
            }),
    {
        let next_tail = (self.rx_tail + 1) % RX_BUF_SIZE;
        if next_tail == self.rx_head {
            return;
        }
        let ghost old_rx = self@.rx;
        self.rx_buf[self.rx_tail] = ch;
        self.rx_tail = next_tail;
        self.ris = self.ris | INT_RX;
        assert(self@.rx =~= old_rx.push(ch));
    }

    /// Take the oldest received character.
    pub fn pop_rx(&mut self) -> (r: Option<u8>)
        requires
            old(self).wf(),
        ensures
            final(self).wf(),
            final(self)@ == uart_after_pop(old(self)@),
            old(self)@.rx.len() == 0 ==> r.is_none(),
            old(self)@.rx.len() > 0 ==> r == Some(old(self)@.rx[0]),
    {
        if self.rx_head == self.rx_tail {
            return None;
        }
        let ghost old_rx = self@.rx;
        let ch = self.rx_buf[self.rx_head];
        self.rx_head = (self.rx_head + 1) % RX_BUF_SIZE;
        if self.rx_head == self.rx_tail {
            self.ris = self.ris & !INT_RX;
        }
        assert(self@.rx =~= old_rx.drop_first());
        Some(ch)
    }

    /// Whether received characters are waiting.
    pub fn rx_has_data(&self) -> (r: bool)
        requires
            self.wf(),
        ensures
            r == (self@.rx.len() > 0),
    {
        self.rx_head != self.rx_tail
    }

    /// The flag register.
    pub fn get_flags(&self) -> (r: u32)
        requires
            self.wf(),
        ensures
            r == uart_flags(self@.rx.len()),
    {
        let mut fr = FR_TXFE;
        if !self.rx_has_data() {
            fr = fr | FR_RXFE;
        }
        let count = (self.rx_tail + RX_BUF_SIZE - self.rx_head) % RX_BUF_SIZE;
        if count >= RX_BUF_SIZE - 1 {
            fr = fr | FR_RXFF;
        }
        assert(FR_TXFE | 0u32 == FR_TXFE) by (bit_vector);
        assert(FR_TXFE | FR_RXFE | 0u32 == FR_TXFE | FR_RXFE) by (bit_vector);
        fr
    }

    /// A guest read. Reading DR takes the oldest received character (0 when
    /// none); unsupported widths read as 0.
    pub fn read(&mut self, offset: u64, size: u8) -> (r: Option<u64>)
        requires
            old(self).wf(),
        ensures
            final(self).wf(),
            !uart_width_ok(size) ==> r == Some(0u64) && final(self)@ == old(self)@,
            uart_width_ok(size) && offset == UARTDR ==> final(self)@ == uart_after_pop(old(self)@)
                && r == Some(if old(self)@.rx.len() > 0 { old(self)@.rx[0] as u64 } else { 0 }),
            uart_width_ok(size) && offset != UARTDR ==> final(self)@ == old(self)@
                && r == Some(uart_reg(old(self)@, offset)),
    {
        if size != 1 && size != 2 && size != 4 {
            return Some(0);
        }
        let value: u64 = if offset == UARTDR {
            match self.pop_rx() {
                Some(ch) => ch as u64,
                None => 0,
            }
        } else if offset == UARTFR {
            self.get_flags() as u64
        } else if offset == UARTIBRD {
            self.ibrd as u64
        } else if offset == UARTFBRD {
            self.fbrd as u64
        } else if offset == UARTLCR_H {
            self.lcr_h as u64
        } else if offset == UARTCR {
            self.cr as u64
        } else if offset == UARTIFLS {
            self.ifls as u64
        } else if offset == UARTIMSC {
            self.imsc as u64
        } else if offset == UARTRIS {
            self.ris as u64
        } else if offset == UARTMIS {
            (self.ris & self.imsc) as u64
        } else if offset == UARTDMACR {
            self.dmacr as u64
        } else if offset == UART_PERIPHID0 {
            0x11
        } else if offset == UART_PERIPHID1 {
            0x10
        } else if offset == UART_PERIPHID2 {
            0x14
        } else if offset == UART_PCELLID0 {
            0x0D
        } else if offset == UART_PCELLID1 {
            0xF0
        } else if offset == UART_PCELLID2 {
            0x05
        } else if offset == UART_PCELLID3 {
            0xB1
        } else {
            0
        };
        Some(value)
    }

    /// A guest write. A write to DR transmits its low byte and raises the
    /// transmit interrupt; unsupported widths are refused.
    pub fn write(&mut self, offset: u64, value: u64, size: u8) -> (r: UartWrite)
        requires
            old(self).wf(),
        ensures
            final(self).wf(),
            !uart_width_ok(size) ==> r == (UartWrite { accepted: false, tx: None }) && final(self)@ == old(self)@,
            uart_width_ok(size) ==> r.accepted && final(self)@ == uart_write(old(self)@, offset, value),
            uart_width_ok(size) && offset == UARTDR ==> r.tx == Some((value & 0xFF) as u8),
            uart_width_ok(size) && offset != UARTDR ==> r.tx.is_none(),
    {
        if size != 1 && size != 2 && size != 4 {
            return UartWrite { accepted: false, tx: None };
        }
        if offset == UARTDR {
            self.ris = self.ris | INT_TX;
            return UartWrite { accepted: true, tx: Some((value & 0xFF) as u8) };
        }
        if offset == UARTIBRD {
            self.ibrd = (value & 0xFFFF) as u32;
        } else if offset == UARTFBRD {
            self.fbrd = (value & 0x3F) as u32;
        } else if offset == UARTLCR_H {
            self.lcr_h = (value & 0xFF) as u32;
        } else if offset == UARTCR {
            self.cr = (value & 0xFFFF) as u32;
        } else if offset == UARTIFLS {
            self.ifls = (value & 0x3F) as u32;
        } else if offset == UARTIMSC {
            self.imsc = (value & 0x7FF) as u32;
        } else if offset == UARTICR {
            self.ris = self.ris & !(value as u32);
        } else if offset == UARTDMACR {
            self.dmacr = (value & 0x07) as u32;
        }
        UartWrite { accepted: true, tx: None }
    }

    /// The SPI to raise when an enabled interrupt is asserted.
    pub fn pending_irq(&self) -> (r: Option<u32>)
        ensures
            r == (if self@.ris & self@.imsc != 0 { Some(UART_SPI_INTID) } else { None }),
    {
        if (self.ris & self.imsc) != 0 {
            Some(UART_SPI_INTID)
        } else {
            None
        }
    }

    /// Base address of the UART window.
    pub fn base_address(&self) -> (r: u64)
        ensures
            r == UART_BASE,
    {
        UART_BASE
    }

    /// Size of the UART window.
    pub fn size(&self) -> (r: u64)
        ensures
            r == UART_SIZE,
    {
        UART_SIZE
    }
}

/// Characters come out of the receive FIFO in the order they went in: after
/// pushing `a` then `b` into an empty FIFO, reads give `a`, then `b`.
pub proof fn law_rx_fifo_order(v: UartView, a: u8, b: u8)
    requires
        v.rx.len() == 0,
    ensures
        ({
            let v1 = UartView { rx: v.rx.push(a), ris: v.ris | INT_RX, ..v };
            let v2 = UartView { rx: v1.rx.push(b), ris: v1.ris | INT_RX, ..v1 };
            &&& v2.rx[0] == a
            &&& uart_after_pop(v2).rx[0] == b
            &&& uart_after_pop(uart_after_pop(v2)).rx.len() == 0
        }),
{
}

} // verus!
