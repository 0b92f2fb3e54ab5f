//! Minimal emulated PL011 for guests that only print: transmit only,
//! nothing is ever received.

use vstd::prelude::*;

verus! {

/// Guest-physical base of the UART.
pub const UART_BASE: u64 = 0x0900_0000;
/// Size of the UART window.
pub const UART_SIZE: u64 = 0x1000;
pub const UARTDR: u64 = 0x000;
pub const UARTFR: u64 = 0x018;
pub const UARTCR: u64 = 0x030;
/// Flag: transmit FIFO full.
pub const FR_TXFF: u32 = 0x20;
/// Flag: receive FIFO empty.
pub const FR_RXFE: u32 = 0x10;

/// Minimal UART: a control register and a constant flag register.
#[derive(Clone, Copy, Debug)]
pub struct VirtualUart {
    pub cr: u32,
    pub fr: u32,
}

/// Outcome of a guest write.
#[derive(Clone, Copy, Debug, PartialEq, Eq, Structural)]
pub struct SimpleUartWrite {
    /// The write was accepted.
    pub accepted: bool,
    /// Character to transmit on the physical UART.
    pub tx: Option<u8>,
}

impl VirtualUart {
    /// Control register zero; transmit never full, receive always empty.
    pub fn new() -> (r: Self)
        ensures
            r.cr == 0,
            r.fr == FR_RXFE,
    {
        VirtualUart { cr: 0, fr: FR_RXFE }
    }

    /// A guest read: FR and CR as held, everything else 0; only 32-bit reads.
    pub fn read(&self, offset: u64, size: u8) -> (r: Option<u64>)
        ensures
            r == Some(if size != 4 {
                0u64
            } else if offset == UARTFR {
                self.fr as u64
            } else if offset == UARTCR {
                self.cr as u64
            } else {
                0u64
            }),
    {
        if size != 4 {
            return Some(0);
        }
        if offset == UARTFR {
            Some(self.fr as u64)
        } else if offset == UARTCR {
            Some(self.cr as u64)
        } else {
            Some(0)
        }
    }

    /// A guest write: DR transmits its low byte (any width), CR is stored,
    /// FR is read-only; other registers must be written 32 bits wide.
    pub fn write(&mut self, offset: u64, value: u64, size: u8) -> (r: SimpleUartWrite)
        ensures
            size != 4 && offset != UARTDR ==> r == (SimpleUartWrite { accepted: false, tx: None })
                && *final(self) == *old(self),
            offset == UARTDR ==> r == (SimpleUartWrite { accepted: true, tx: Some((value & 0xFF) as u8) })
                && *final(self) == *old(self),
            size == 4 && offset == UARTCR ==> r == (SimpleUartWrite { accepted: true, tx: None })
                && *final(self) == (VirtualUart { cr: (value & 0xFFFF_FFFF) as u32, ..*old(self) }),
            size == 4 && offset == UARTFR ==> r == (SimpleUartWrite { accepted: false, tx: None })
                && *final(self) == *old(self),
            size == 4 && offset != UARTDR && offset != UARTCR && offset != UARTFR
                ==> r == (SimpleUartWrite { accepted: true, tx: None }) && *final(self) == *old(self),
    {
        if size != 4 && offset != UARTDR {
            return SimpleUartWrite { accepted: false, tx: None };
        }
        if offset == UARTDR {
            SimpleUartWrite { accepted: true, tx: Some((value & 0xFF) as u8) }
        } else if offset == UARTCR {
            self.cr = (value & 0xFFFF_FFFF) as u32;
            SimpleUartWrite { accepted: true, tx: None }
        } else if offset == UARTFR {
            SimpleUartWrite { accepted: false, tx: None }
        } else {
            SimpleUartWrite { accepted: true, tx: None }
        }
    }

    /// Base address of the UART window.
    pub fn base_address(&self) -> (r: u64)
        ensures
            r == UART_BASE,
    {
        UART_BASE
    }

    /// Size of the UART window.
    pub fn size(&self) -> (r: u64)
        ensures
            r == UART_SIZE,
    {
        UART_SIZE
    }
}

} // verus!
