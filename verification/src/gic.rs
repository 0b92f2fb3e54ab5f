//! GICv2 distributor and CPU interface, as the 32-bit register writes
//! that program them.

use vstd::prelude::*;

verus! {

pub const GICD_CTLR: u64 = 0x000;
pub const GICD_TYPER: u64 = 0x004;
pub const GICD_ISENABLER: u64 = 0x100;
pub const GICD_ICENABLER: u64 = 0x180;
pub const GICD_ICPENDR: u64 = 0x280;
pub const GICD_IPRIORITYR: u64 = 0x400;
pub const GICC_CTLR: u64 = 0x000;
pub const GICC_PMR: u64 = 0x004;
pub const GICC_IAR: u64 = 0x00C;
pub const GICC_EOIR: u64 = 0x010;

/// Base addresses are physical (below 2^48).
pub const GIC_ADDR_LIMIT: u64 = 0x1_0000_0000_0000;

/// A 32-bit register write at an absolute address.
#[derive(Clone, Copy, Debug, PartialEq, Eq, Structural)]
pub struct RegWrite32 {
    pub addr: u64,
    pub value: u32,
}

/// GICv2 distributor at `base`.
pub struct GicDistributor {
    pub base: u64,
}

/// Number of interrupt lines a GICD_TYPER value reports.
pub open spec fn spec_it_lines(typer: u32) -> int {
    ((typer & 0x1F) + 1) * 32
}

/// The writes that initialise the distributor: off, every interrupt
/// disabled and not pending, every priority 0xA0, on.
pub open spec fn spec_gicd_init_writes(base: u64, typer: u32) -> Seq<RegWrite32> {
    let words = spec_it_lines(typer) / 32;
    seq![RegWrite32 { addr: base, value: 0 }]
        + Seq::new(words as nat, |i: int| RegWrite32 { addr: (base + GICD_ICENABLER + i * 4) as u64, value: 0xFFFF_FFFF })
        + Seq::new(words as nat, |i: int| RegWrite32 { addr: (base + GICD_ICPENDR + i * 4) as u64, value: 0xFFFF_FFFF })
        + Seq::new(spec_it_lines(typer) as nat, |i: int| RegWrite32 { addr: (base + GICD_IPRIORITYR + i) as u64, value: 0xA0 })
        + seq![RegWrite32 { addr: base, value: 1 }]
}

impl GicDistributor {
    pub fn new(base: u64) -> (r: Self)
        ensures
            r.base == base,
    {
        GicDistributor { base }
    }

    /// Initialise, given the GICD_TYPER value read from the hardware.
    pub fn init(&self, typer: u32) -> (r: Vec<RegWrite32>)
        requires
            self.base < GIC_ADDR_LIMIT,
        ensures
            r@ == spec_gicd_init_writes(self.base, typer),
    {
        let base = self.base;
        let lines_field = typer & 0x1F;
        assert(lines_field <= 31) by (bit_vector) requires lines_field == typer & 0x1F;
        let it_lines: u64 = ((lines_field as u64) + 1) * 32;
        let words = it_lines / 32;
        let mut w: Vec<RegWrite32> = Vec::new();
        w.push(RegWrite32 { addr: base + GICD_CTLR, value: 0 });
        let ghost s0 = w@;
        let mut i: u64 = 0;
        while i < words
            invariant
                i <= words,
                words == spec_it_lines(typer) / 32,
                words <= 32,
                base < GIC_ADDR_LIMIT,
                w@ == s0 + Seq::new(i as nat, |k: int| RegWrite32 { addr: (base + GICD_ICENABLER + k * 4) as u64, value: 0xFFFF_FFFF }),
            decreases words - i,
        {
            w.push(RegWrite32 { addr: base + GICD_ICENABLER + i * 4, value: 0xFFFF_FFFF });
            i = i + 1;
            assert(w@ =~= s0 + Seq::new(i as nat, |k: int| RegWrite32 { addr: (base + GICD_ICENABLER + k * 4) as u64, value: 0xFFFF_FFFF }));
        }
        let ghost s1 = w@;
        let mut i: u64 = 0;
        while i < words
            invariant
                i <= words,
                words <= 32,
                base < GIC_ADDR_LIMIT,
                w@ == s1 + Seq::new(i as nat, |k: int| RegWrite32 { addr: (base + GICD_ICPENDR + k * 4) as u64, value: 0xFFFF_FFFF }),
            decreases words - i,
        {
            w.push(RegWrite32 { addr: base + GICD_ICPENDR + i * 4, value: 0xFFFF_FFFF });
            i = i + 1;
            assert(w@ =~= s1 + Seq::new(i as nat, |k: int| RegWrite32 { addr: (base + GICD_ICPENDR + k * 4) as u64, value: 0xFFFF_FFFF }));
        }
        let ghost s2 = w@;
        let mut i: u64 = 0;
        while i < it_lines
            invariant
                i <= it_lines,
                it_lines == spec_it_lines(typer),
                it_lines <= 1024,
                base < GIC_ADDR_LIMIT,
                w@ == s2 + Seq::new(i as nat, |k: int| RegWrite32 { addr: (base + GICD_IPRIORITYR + k) as u64, value: 0xA0 }),
            decreases it_lines - i,
        {
            w.push(RegWrite32 { addr: base + GICD_IPRIORITYR + i, value: 0xA0 });
            i = i + 1;
            assert(w@ =~= s2 + Seq::new(i as nat, |k: int| RegWrite32 { addr: (base + GICD_IPRIORITYR + k) as u64, value: 0xA0 }));
        }
        w.push(RegWrite32 { addr: base + GICD_CTLR, value: 1 });
        assert(w@ =~= spec_gicd_init_writes(base, typer));
        w
    }

    /// Enable interrupt `irq` (its bit in GICD_ISENABLERn).
    pub fn enable_irq(&self, irq: u32) -> (r: RegWrite32)
        requires
            self.base < GIC_ADDR_LIMIT,
        ensures
            r == (RegWrite32 { addr: (self.base + GICD_ISENABLER + (irq / 32) * 4) as u64, value: 1u32 << (irq % 32) }),
    {
        let reg = irq / 32;
        let bit = irq % 32;
        RegWrite32 { addr: self.base + GICD_ISENABLER + (reg as u64) * 4, value: 1u32 << bit }
    }

    /// Disable interrupt `irq` (its bit in GICD_ICENABLERn).
    pub fn disable_irq(&self, irq: u32) -> (r: RegWrite32)
        requires
            self.base < GIC_ADDR_LIMIT,
        ensures
            r == (RegWrite32 { addr: (self.base + GICD_ICENABLER + (irq / 32) * 4) as u64, value: 1u32 << (irq % 32) }),
    {
        let reg = irq / 32;
        let bit = irq % 32;
        RegWrite32 { addr: self.base + GICD_ICENABLER + (reg as u64) * 4, value: 1u32 << bit }
    }

    /// Set the priority of `irq` (a 32-bit write at its priority byte).
    pub fn set_priority(&self, irq: u32, priority: u8) -> (r: RegWrite32)
        requires
            self.base < GIC_ADDR_LIMIT,
        ensures
            r == (RegWrite32 { addr: (self.base + GICD_IPRIORITYR + irq) as u64, value: priority as u32 }),
    {
        RegWrite32 { addr: self.base + GICD_IPRIORITYR + (irq as u64), value: priority as u32 }
    }
}

/// GICv2 CPU interface at `base`.
pub struct GicCpuInterface {
    pub base: u64,
}

impl GicCpuInterface {
    pub fn new(base: u64) -> (r: Self)
        ensures
            r.base == base,
    {
        GicCpuInterface { base }
    }

    /// Initialise: all priorities unmasked, then the interface on.
    pub fn init(&self) -> (r: Vec<RegWrite32>)
        requires
            self.base < GIC_ADDR_LIMIT,
        ensures
            r@ == seq![RegWrite32 { addr: (self.base + GICC_PMR) as u64, value: 0xFF },
                RegWrite32 { addr: (self.base + GICC_CTLR) as u64, value: 1 }],
    {
        let mut w: Vec<RegWrite32> = Vec::new();
        w.push(RegWrite32 { addr: self.base + GICC_PMR, value: 0xFF });
        w.push(RegWrite32 { addr: self.base + GICC_CTLR, value: 1 });
        assert(w@ =~= seq![RegWrite32 { addr: (self.base + GICC_PMR) as u64, value: 0xFF },
            RegWrite32 { addr: (self.base + GICC_CTLR) as u64, value: 1 }]);
        w
    }

    /// Address of GICC_IAR, whose read acknowledges the highest pending
    /// interrupt and returns its ID.
    pub fn acknowledge(&self) -> (r: u64)
        requires
            self.base < GIC_ADDR_LIMIT,
        ensures
            r == self.base + GICC_IAR,
    {
        self.base + GICC_IAR
    }

    /// Signal the end of interrupt `irq`.
    pub fn end_of_interrupt(&self, irq: u32) -> (r: RegWrite32)
        requires
            self.base < GIC_ADDR_LIMIT,
        ensures
            r == (RegWrite32 { addr: (self.base + GICC_EOIR) as u64, value: irq }),
    {
        RegWrite32 { addr: self.base + GICC_EOIR, value: irq }
    }
}

} // verus!
