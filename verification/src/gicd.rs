//! Minimal emulated GIC distributor: control register and interrupt
//! enables only.

use vstd::prelude::*;

verus! {

/// Guest-physical base of the distributor.
pub const GICD_BASE: u64 = 0x0800_0000;
/// Size of the distributor window.
pub const GICD_SIZE: u64 = 0x1_0000;
pub const GICD_CTLR: u64 = 0x000;
pub const GICD_TYPER: u64 = 0x004;
pub const GICD_ISENABLER: u64 = 0x100;
pub const GICD_ICENABLER: u64 = 0x180;

/// Minimal distributor.
pub struct VirtualGicd {
    ctlr: u32,
    enabled: [u32; 32],
}

/// Change a distributor write makes to the enable bits, if any.
pub open spec fn simple_gicd_enabled_after(enabled: Seq<u32>, offset: u64, val: u32) -> Seq<u32> {
    if GICD_ISENABLER <= offset && offset <= 0x17F {
        let r = ((offset - GICD_ISENABLER) / 4) as int;
        enabled.update(r, enabled[r] | val)
    } else if GICD_ICENABLER <= offset && offset <= 0x1FF {
        let r = ((offset - GICD_ICENABLER) / 4) as int;
        enabled.update(r, enabled[r] & !val)
    } else {
        enabled
    }
}

impl VirtualGicd {
    /// Control register.
    pub closed spec fn spec_ctlr(&self) -> u32 {
        self.ctlr
    }

    /// Enable bits, 32 interrupts per register.
    pub closed spec fn spec_enabled(&self) -> Seq<u32> {
        self.enabled@
    }

    /// Distributor disabled, every interrupt disabled.
    pub fn new() -> (r: Self)
        ensures
            r.spec_ctlr() == 0,
            r.spec_enabled() == Seq::new(32, |i: int| 0u32),
    {
        let r = VirtualGicd { ctlr: 0, enabled: [0; 32] };
        assert(r.spec_enabled() =~= Seq::new(32, |i: int| 0u32));
        r
    }

    /// A guest read (32-bit only): CTLR, TYPER (1024 lines, one CPU), and
    /// the enable bits through either the set or the clear bank.
    pub fn read(&self, offset: u64, size: u8) -> (r: Option<u64>)
        ensures
            r == Some(if size != 4 {
                0u64
            } else if offset == GICD_CTLR {
                self.spec_ctlr() as u64
            } else if offset == GICD_TYPER {
                31u64
            } else if GICD_ISENABLER <= offset && offset <= 0x17F {
                self.spec_enabled()[((offset - GICD_ISENABLER) / 4) as int] as u64
            } else if GICD_ICENABLER <= offset && offset <= 0x1FF {
                self.spec_enabled()[((offset - GICD_ICENABLER) / 4) as int] as u64
            } else {
                0u64
            }),
    {
        if size != 4 {
            return Some(0);
        }
        if offset == GICD_CTLR {
            Some(self.ctlr as u64)
        } else if offset == GICD_TYPER {
            Some(31)
        } else if GICD_ISENABLER <= offset && offset <= 0x17F {
            Some(self.enabled[((offset - GICD_ISENABLER) / 4) as usize] as u64)
        } else if GICD_ICENABLER <= offset && offset <= 0x1FF {
            Some(self.enabled[((offset - GICD_ICENABLER) / 4) as usize] as u64)
        } else {
            Some(0)
        }
    }

    /// A guest write (32-bit only; other widths are refused).
    pub fn write(&mut self, offset: u64, value: u64, size: u8) -> (r: bool)
        ensures
            r == (size == 4),
            size != 4 ==> final(self).spec_ctlr() == old(self).spec_ctlr()
                && final(self).spec_enabled() == old(self).spec_enabled(),
            size == 4 ==> final(self).spec_ctlr() == (if offset == GICD_CTLR {
                (value & 0xFFFF_FFFF) as u32
            } else {
                old(self).spec_ctlr()
            }),
            size == 4 ==> final(self).spec_enabled() == simple_gicd_enabled_after(old(self).spec_enabled(), offset,
                (value & 0xFFFF_FFFF) as u32),
    {
        if size != 4 {
            return false;
        }
        let val = (value & 0xFFFF_FFFF) as u32;
        if offset == GICD_CTLR {
            self.ctlr = val;
        } else if GICD_ISENABLER <= offset && offset <= 0x17F {
            let reg = ((offset - GICD_ISENABLER) / 4) as usize;
            self.enabled[reg] = self.enabled[reg] | val;
        } else if GICD_ICENABLER <= offset && offset <= 0x1FF {
            let reg = ((offset - GICD_ICENABLER) / 4) as usize;
            self.enabled[reg] = self.enabled[reg] & !val;
        }
        true
    }

    /// Base address of the distributor window.
    pub fn base_address(&self) -> (r: u64)
        ensures
            r == GICD_BASE,
    {
        GICD_BASE
    }

    /// Size of the distributor window.
    pub fn size(&self) -> (r: u64)
        ensures
            r == GICD_SIZE,
    {
        GICD_SIZE
    }
}

} // verus!
