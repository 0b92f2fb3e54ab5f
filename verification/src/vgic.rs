//! Emulated GICv3 distributor (GICD) and redistributors (GICR) that a guest
//! programs through trapped MMIO accesses.

use vstd::prelude::*;

verus! {

/// Guest-physical base of the distributor.
pub const GICD_BASE: u64 = 0x0800_0000;
/// Size of the distributor window.
pub const GICD_SIZE: u64 = 0x1_0000;

pub const GICD_CTLR: u64 = 0x000;
pub const GICD_TYPER: u64 = 0x004;
pub const GICD_IIDR: u64 = 0x008;
pub const GICD_IGROUPR_BASE: u64 = 0x080;
pub const GICD_IGROUPR_END: u64 = 0x0FC;
pub const GICD_ISENABLER_BASE: u64 = 0x100;
pub const GICD_ISENABLER_END: u64 = 0x17C;
pub const GICD_ICENABLER_BASE: u64 = 0x180;
pub const GICD_ICENABLER_END: u64 = 0x1FC;
pub const GICD_ISPENDR_BASE: u64 = 0x200;
pub const GICD_ISPENDR_END: u64 = 0x27C;
pub const GICD_ICPENDR_BASE: u64 = 0x280;
pub const GICD_ICPENDR_END: u64 = 0x2FC;
pub const GICD_ISACTIVER_BASE: u64 = 0x300;
pub const GICD_ISACTIVER_END: u64 = 0x37C;
pub const GICD_ICACTIVER_BASE: u64 = 0x380;
pub const GICD_ICACTIVER_END: u64 = 0x3FC;
pub const GICD_IPRIORITYR_BASE: u64 = 0x400;
pub const GICD_IPRIORITYR_END: u64 = 0x7FC;
pub const GICD_ICFGR_BASE: u64 = 0xC00;
pub const GICD_ICFGR_END: u64 = 0xCFC;
pub const GICD_IROUTER_BASE: u64 = 0x6100;
pub const GICD_IROUTER_END: u64 = 0x7FD8;
pub const GICD_PIDR2: u64 = 0xFFE8;
/// Number of SPI routing registers (SPIs 32-1019).
pub const GICD_IROUTER_COUNT: usize = 988;

/// Distributor registers, as values.
pub struct GicdView {
    pub ctlr: u32,
    pub enabled: Seq<u32>,
    pub igroupr: Seq<u32>,
    pub ipriorityr: Seq<u32>,
    pub icfgr: Seq<u32>,
    pub ispendr: Seq<u32>,
    pub isactiver: Seq<u32>,
    pub irouter: Seq<u64>,
    pub num_cpus: u32,
}

/// Emulated distributor.
pub struct VirtualGicd {
    ctlr: u32,
    enabled: [u32; 32],
    igroupr: [u32; 32],
    ipriorityr: [u32; 256],
    icfgr: [u32; 64],
    ispendr: [u32; 32],
    isactiver: [u32; 32],
    irouter: [u64; 988],
    num_cpus: u32,
}

impl View for VirtualGicd {
    type V = GicdView;

    closed spec fn view(&self) -> GicdView {
        GicdView {
            ctlr: self.ctlr,
            enabled: self.enabled@,
            igroupr: self.igroupr@,
            ipriorityr: self.ipriorityr@,
            icfgr: self.icfgr@,
            ispendr: self.ispendr@,
            isactiver: self.isactiver@,
            irouter: self.irouter@,
            num_cpus: self.num_cpus,
        }
    }
}

/// `offset` lies in the register bank `[base, end]`.
pub open spec fn in_bank(offset: u64, base: u64, end: u64) -> bool {
    base <= offset && offset <= end
}

/// Index of the 32-bit register of a bank that `offset` selects.
pub open spec fn bank_reg(offset: u64, base: u64) -> int {
    ((offset - base) / 4) as int
}

/// SPI routing register read at `offset` (8-byte aligned within the bank).
pub open spec fn irouter_at(irouter: Seq<u64>, offset: u64) -> u64 {
    let b = (offset - GICD_IROUTER_BASE) as u64;
    if b & 7 != 0 {
        0
    } else if b / 8 < 988 {
        irouter[(b / 8) as int]
    } else {
        0
    }
}

/// TYPER: 1024 interrupt lines, CPUNumber = number of CPUs - 1 (3 bits).
pub open spec fn gicd_typer(num_cpus: u32) -> u64 {
    (31u32 | ((((if num_cpus == 0 { 0u32 } else { (num_cpus - 1) as u32 }) & 7u32) << 5u32))) as u64
}

/// A 32-bit distributor register read.
pub open spec fn gicd_reg32(v: GicdView, offset: u64) -> u64 {
    if offset == GICD_CTLR {
        v.ctlr as u64
    } else if offset == GICD_TYPER {
        gicd_typer(v.num_cpus)
    } else if offset == GICD_IIDR {
        0x43B
    } else if in_bank(offset, GICD_IGROUPR_BASE, GICD_IGROUPR_END) {
        v.igroupr[bank_reg(offset, GICD_IGROUPR_BASE)] as u64
    } else if in_bank(offset, GICD_ISENABLER_BASE, GICD_ISENABLER_END) {
        v.enabled[bank_reg(offset, GICD_ISENABLER_BASE)] as u64
    } else if in_bank(offset, GICD_ICENABLER_BASE, GICD_ICENABLER_END) {
        v.enabled[bank_reg(offset, GICD_ICENABLER_BASE)] as u64
    } else if in_bank(offset, GICD_ISPENDR_BASE, GICD_ISPENDR_END) {
        v.ispendr[bank_reg(offset, GICD_ISPENDR_BASE)] as u64
    } else if in_bank(offset, GICD_ICPENDR_BASE, GICD_ICPENDR_END) {
        v.ispendr[bank_reg(offset, GICD_ICPENDR_BASE)] as u64
    } else if in_bank(offset, GICD_ISACTIVER_BASE, GICD_ISACTIVER_END) {
        v.isactiver[bank_reg(offset, GICD_ISACTIVER_BASE)] as u64
    } else if in_bank(offset, GICD_ICACTIVER_BASE, GICD_ICACTIVER_END) {
        v.isactiver[bank_reg(offset, GICD_ICACTIVER_BASE)] as u64
    } else if in_bank(offset, GICD_IPRIORITYR_BASE, GICD_IPRIORITYR_END) {
        v.ipriorityr[bank_reg(offset, GICD_IPRIORITYR_BASE)] as u64
    } else if in_bank(offset, GICD_ICFGR_BASE, GICD_ICFGR_END) {
        v.icfgr[bank_reg(offset, GICD_ICFGR_BASE)] as u64
    } else if offset == GICD_PIDR2 {
        0x30
    } else {
        0
    }
}

/// What a distributor read of `size` bytes at `offset` returns.
pub open spec fn gicd_read(v: GicdView, offset: u64, size: u8) -> u64 {
    if in_bank(offset, GICD_IROUTER_BASE, GICD_IROUTER_END) && size == 8 {
        irouter_at(v.irouter, offset)
    } else if in_bank(offset, GICD_IROUTER_BASE, GICD_IROUTER_END) && size == 4 {
        let full = irouter_at(v.irouter, offset & !7u64);
        if offset & 4 == 0 { full & 0xFFFF_FFFF } else { full >> 32u64 }
    } else if size != 4 {
        0
    } else {
        gicd_reg32(v, offset)
    }
}

/// Routing registers after a 64-bit write at `offset`.
pub open spec fn irouter_write(irouter: Seq<u64>, offset: u64, value: u64) -> Seq<u64> {
    let b = (offset - GICD_IROUTER_BASE) as u64;
    if b & 7 != 0 || b / 8 >= 988 {
        irouter
    } else {
        irouter.update((b / 8) as int, value)
    }
}

/// Distributor after a write of `size` bytes of `value` at `offset`.
pub open spec fn gicd_write(v: GicdView, offset: u64, value: u64, size: u8) -> GicdView {
    let val = (value & 0xFFFF_FFFF) as u32;
    if in_bank(offset, GICD_IROUTER_BASE, GICD_IROUTER_END) && size == 8 {
        GicdView { irouter: irouter_write(v.irouter, offset, value), ..v }
    } else if in_bank(offset, GICD_IROUTER_BASE, GICD_IROUTER_END) && size == 4 {
        let aligned = offset & !7u64;
        let before = irouter_at(v.irouter, aligned);
        let val32 = value & 0xFFFF_FFFF;
        let after = if offset & 4 == 0 {
            (before & 0xFFFF_FFFF_0000_0000) | val32
        } else {
            (before & 0x0000_0000_FFFF_FFFF) | (val32 << 32u64)
        };
        GicdView { irouter: irouter_write(v.irouter, aligned, after), ..v }
    } else if size != 4 {
        v
    } else if offset == GICD_CTLR {
        GicdView { ctlr: val, ..v }
    } else if in_bank(offset, GICD_IGROUPR_BASE, GICD_IGROUPR_END) {
        GicdView { igroupr: v.igroupr.update(bank_reg(offset, GICD_IGROUPR_BASE), val), ..v }
    } else if in_bank(offset, GICD_ISENABLER_BASE, GICD_ISENABLER_END) {
        let r = bank_reg(offset, GICD_ISENABLER_BASE);
        GicdView { enabled: v.enabled.update(r, v.enabled[r] | val), ..v }
    } else if in_bank(offset, GICD_ICENABLER_BASE, GICD_ICENABLER_END) {
        let r = bank_reg(offset, GICD_ICENABLER_BASE);
        GicdView { enabled: v.enabled.update(r, v.enabled[r] & !val), ..v }
    } else if in_bank(offset, GICD_ISPENDR_BASE, GICD_ISPENDR_END) {
        let r = bank_reg(offset, GICD_ISPENDR_BASE);
        GicdView { ispendr: v.ispendr.update(r, v.ispendr[r] | val), ..v }
    } else if in_bank(offset, GICD_ICPENDR_BASE, GICD_ICPENDR_END) {
        let r = bank_reg(offset, GICD_ICPENDR_BASE);
        GicdView { ispendr: v.ispendr.update(r, v.ispendr[r] & !val), ..v }
    } else if in_bank(offset, GICD_ISACTIVER_BASE, GICD_ISACTIVER_END) {
        let r = bank_reg(offset, GICD_ISACTIVER_BASE);
        GicdView { isactiver: v.isactiver.update(r, v.isactiver[r] | val), ..v }
    } else if in_bank(offset, GICD_ICACTIVER_BASE, GICD_ICACTIVER_END) {
        let r = bank_reg(offset, GICD_ICACTIVER_BASE);
        GicdView { isactiver: v.isactiver.update(r, v.isactiver[r] & !val), ..v }
    } else if in_bank(offset, GICD_IPRIORITYR_BASE, GICD_IPRIORITYR_END) {
        GicdView { ipriorityr: v.ipriorityr.update(bank_reg(offset, GICD_IPRIORITYR_BASE), val), ..v }
    } else if in_bank(offset, GICD_ICFGR_BASE, GICD_ICFGR_END) {
        GicdView { icfgr: v.icfgr.update(bank_reg(offset, GICD_ICFGR_BASE), val), ..v }
    } else {
        v
    }
}

/// The vCPU an SPI is routed to: Aff0 of its routing register; 0 for SGIs,
/// PPIs and out-of-range IDs.
pub open spec fn gicd_route(v: GicdView, intid: u32) -> usize {
    if intid < 32 || intid >= 1020 {
        0
    } else {
        (v.irouter[(intid - 32) as int] & 0xFF) as usize
    }
}

impl VirtualGicd {
    /// A distributor with every register zero and four CPUs.
    pub fn new() -> (r: Self)
        ensures
            r@.ctlr == 0,
            r@.enabled == Seq::new(32, |i: int| 0u32),
            r@.igroupr == Seq::new(32, |i: int| 0u32),
            r@.ipriorityr == Seq::new(256, |i: int| 0u32),
            r@.icfgr == Seq::new(64, |i: int| 0u32),
            r@.ispendr == Seq::new(32, |i: int| 0u32),
            r@.isactiver == Seq::new(32, |i: int| 0u32),
            r@.irouter == Seq::new(988, |i: int| 0u64),
            r@.num_cpus == 4,
    {
        let r = VirtualGicd {
            ctlr: 0,
            enabled: [0; 32],
            igroupr: [0; 32],
            ipriorityr: [0; 256],
            icfgr: [0; 64],
            ispendr: [0; 32],
            isactiver: [0; 32],
            irouter: [0; 988],
            num_cpus: 4,
        };
        assert(r@.enabled =~= Seq::new(32, |i: int| 0u32));
        assert(r@.igroupr =~= Seq::new(32, |i: int| 0u32));
        assert(r@.ipriorityr =~= Seq::new(256, |i: int| 0u32));
        assert(r@.icfgr =~= Seq::new(64, |i: int| 0u32));
        assert(r@.ispendr =~= Seq::new(32, |i: int| 0u32));
        assert(r@.isactiver =~= Seq::new(32, |i: int| 0u32));
        assert(r@.irouter =~= Seq::new(988, |i: int| 0u64));
        r
    }

    /// Number of online vCPUs reported in TYPER.
    pub fn set_num_cpus(&mut self, n: u32)
        ensures
            final(self)@ == (GicdView { num_cpus: n, ..old(self)@ }),
    {
        self.num_cpus = n;
    }

    /// The vCPU an SPI is routed to.
    pub fn route_spi(&self, intid: u32) -> (r: usize)
        ensures
            r == gicd_route(self@, intid),
    {
        if intid < 32 || intid >= 1020 {
            return 0;
        }
        let idx = (intid - 32) as usize;
        (self.irouter[idx] & 0xFF) as usize
    }

    fn read_irouter(&self, offset: u64) -> (r: u64)
        requires
            offset >= GICD_IROUTER_BASE,
        ensures
            r == irouter_at(self@.irouter, offset),
    {
        let byte_off = offset - GICD_IROUTER_BASE;
        if byte_off & 0x7 != 0 {
            return 0;
        }
        let idx = byte_off / 8;
        if idx < 988 {
            self.irouter[idx as usize]
        } else {
            0
        }
    }

    fn write_irouter(&mut self, offset: u64, value: u64)
        requires
            offset >= GICD_IROUTER_BASE,
        ensures
            final(self)@ == (GicdView { irouter: irouter_write(old(self)@.irouter, offset, value), ..old(self)@ }),
    {
        let byte_off = offset - GICD_IROUTER_BASE;
        if byte_off & 0x7 != 0 {
            return;
        }
        let idx = byte_off / 8;
        if idx < 988 {
            self.irouter[idx as usize] = value;
            assert(self@.irouter =~= irouter_write(old(self)@.irouter, offset, value));
        }
    }

    /// A read of `size` bytes at distributor offset `offset`.
    pub fn read(&self, offset: u64, size: u8) -> (r: Option<u64>)
        ensures
            r == Some(gicd_read(self@, offset, size)),
    {
        if GICD_IROUTER_BASE <= offset && offset <= GICD_IROUTER_END && size == 8 {
            return Some(self.read_irouter(offset));
        }
        if GICD_IROUTER_BASE <= offset && offset <= GICD_IROUTER_END && size == 4 {
            let aligned = offset & !0x7;
            assert(aligned >= 0x6100) by (bit_vector)
                requires aligned == offset & !7u64, offset >= 0x6100u64;
            let full = self.read_irouter(aligned);
            if offset & 0x4 == 0 {
                return Some(full & 0xFFFF_FFFF);
            } else {
                return Some(full >> 32);
            }
        }
        if size != 4 {
            return Some(0);
        }
        let v: u64 = if offset == GICD_CTLR {
            self.ctlr as u64
        } else if offset == GICD_TYPER {
            let n = if self.num_cpus == 0 { 0 } else { self.num_cpus - 1 };
            let cpu_num = (n & 0x7) << 5;
            (31 | cpu_num) as u64
        } else if offset == GICD_IIDR {
            0x0000_043B
        } else if GICD_IGROUPR_BASE <= offset && offset <= GICD_IGROUPR_END {
            self.igroupr[((offset - GICD_IGROUPR_BASE) / 4) as usize] as u64
        } else if GICD_ISENABLER_BASE <= offset && offset <= GICD_ISENABLER_END {
            self.enabled[((offset - GICD_ISENABLER_BASE) / 4) as usize] as u64
        } else if GICD_ICENABLER_BASE <= offset && offset <= GICD_ICENABLER_END {
            self.enabled[((offset - GICD_ICENABLER_BASE) / 4) as usize] as u64
        } else if GICD_ISPENDR_BASE <= offset && offset <= GICD_ISPENDR_END {
            self.ispendr[((offset - GICD_ISPENDR_BASE) / 4) as usize] as u64
        } else if GICD_ICPENDR_BASE <= offset && offset <= GICD_ICPENDR_END {
            self.ispendr[((offset - GICD_ICPENDR_BASE) / 4) as usize] as u64
        } else if GICD_ISACTIVER_BASE <= offset && offset <= GICD_ISACTIVER_END {
            self.isactiver[((offset - GICD_ISACTIVER_BASE) / 4) as usize] as u64
        } else if GICD_ICACTIVER_BASE <= offset && offset <= GICD_ICACTIVER_END {
            self.isactiver[((offset - GICD_ICACTIVER_BASE) / 4) as usize] as u64
        } else if GICD_IPRIORITYR_BASE <= offset && offset <= GICD_IPRIORITYR_END {
            self.ipriorityr[((offset - GICD_IPRIORITYR_BASE) / 4) as usize] as u64
        } else if GICD_ICFGR_BASE <= offset && offset <= GICD_ICFGR_END {
            self.icfgr[((offset - GICD_ICFGR_BASE) / 4) as usize] as u64
        } else if offset == GICD_PIDR2 {
            0x30
        } else {
            0
        };
        Some(v)
    }

    /// A write of `size` bytes of `value` at distributor offset `offset`.
    /// Writes to unimplemented registers, and non-32-bit writes outside
    /// the routing registers, are ignored.
    pub fn write(&mut self, offset: u64, value: u64, size: u8) -> (r: bool)
        ensures
            r,
            final(self)@ == gicd_write(old(self)@, offset, value, size),
    {
        if GICD_IROUTER_BASE <= offset && offset <= GICD_IROUTER_END && size == 8 {
            self.write_irouter(offset, value);
            return true;
        }
        if GICD_IROUTER_BASE <= offset && offset <= GICD_IROUTER_END && size == 4 {
            let aligned = offset & !0x7;
            assert(aligned >= 0x6100) by (bit_vector)
                requires aligned == offset & !7u64, offset >= 0x6100u64;
            let before = self.read_irouter(aligned);
            let val32 = value & 0xFFFF_FFFF;
            let after = if offset & 0x4 == 0 {
                (before & 0xFFFF_FFFF_0000_0000) | val32
            } else {
                (before & 0x0000_0000_FFFF_FFFF) | (val32 << 32)
            };
            self.write_irouter(aligned, after);
            return true;
        }
        if size != 4 {
            return true;
        }
        let val = (value & 0xFFFF_FFFF) as u32;
        if offset == GICD_CTLR {
            self.ctlr = val;
        } else if GICD_IGROUPR_BASE <= offset && offset <= GICD_IGROUPR_END {
            let reg = ((offset - GICD_IGROUPR_BASE) / 4) as usize;
            self.igroupr[reg] = val;
        } else if GICD_ISENABLER_BASE <= offset && offset <= GICD_ISENABLER_END {
            let reg = ((offset - GICD_ISENABLER_BASE) / 4) as usize;
            self.enabled[reg] = self.enabled[reg] | val;
        } else if GICD_ICENABLER_BASE <= offset && offset <= GICD_ICENABLER_END {
            let reg = ((offset - GICD_ICENABLER_BASE) / 4) as usize;
            self.enabled[reg] = self.enabled[reg] & !val;
        } else if GICD_ISPENDR_BASE <= offset && offset <= GICD_ISPENDR_END {
            let reg = ((offset - GICD_ISPENDR_BASE) / 4) as usize;
            self.ispendr[reg] = self.ispendr[reg] | val;
        } else if GICD_ICPENDR_BASE <= offset && offset <= GICD_ICPENDR_END {
            let reg = ((offset - GICD_ICPENDR_BASE) / 4) as usize;
            self.ispendr[reg] = self.ispendr[reg] & !val;
        } else if GICD_ISACTIVER_BASE <= offset && offset <= GICD_ISACTIVER_END {
            let reg = ((offset - GICD_ISACTIVER_BASE) / 4) as usize;
            self.isactiver[reg] = self.isactiver[reg] | val;
        } else if GICD_ICACTIVER_BASE <= offset && offset <= GICD_ICACTIVER_END {
            let reg = ((offset - GICD_ICACTIVER_BASE) / 4) as usize;
            self.isactiver[reg] = self.isactiver[reg] & !val;
        } else if GICD_IPRIORITYR_BASE <= offset && offset <= GICD_IPRIORITYR_END {
            let reg = ((offset - GICD_IPRIORITYR_BASE) / 4) as usize;
            self.ipriorityr[reg] = val;
        } else if GICD_ICFGR_BASE <= offset && offset <= GICD_ICFGR_END {
            let reg = ((offset - GICD_ICFGR_BASE) / 4) as usize;
            self.icfgr[reg] = val;
        }
        assert(self@ =~= gicd_write(old(self)@, offset, value, size));
        true
    }

    /// Base address of the distributor window.
    pub fn base_address(&self) -> (r: u64)
        ensures
            r == GICD_BASE,
    {
        GICD_BASE
    }

    /// Size of the distributor window.
    pub fn size(&self) -> (r: u64)
        ensures
            r == GICD_SIZE,
    {
        GICD_SIZE
    }
}

/// Enabling an SPI through ISENABLER and routing it through IROUTER is what
/// a distributor read of the same registers shows afterwards.
pub proof fn law_gicd_route_after_write(v: GicdView, intid: u32, value: u64)
    requires
        32 <= intid < 1020,
        v.irouter.len() == 988,
    ensures
        gicd_route(gicd_write(v, (GICD_IROUTER_BASE + 8 * (intid - 32)) as u64, value, 8), intid)
            == (value & 0xFF) as usize,
{
    let off = (GICD_IROUTER_BASE + 8 * (intid - 32)) as u64;
    let b = (off - GICD_IROUTER_BASE) as u64;
    assert(b == 8 * (intid - 32));
    assert(b & 7 == 0) by (bit_vector)
        requires b == 8 * (intid - 32), 32 <= intid < 1020;
    assert(b / 8 == intid - 32);
}

/// Bytes of redistributor space per vCPU (RD frame + SGI frame).
pub const GICR_PER_CPU: u64 = 0x2_0000;
/// Largest number of vCPUs a redistributor array covers.
pub const GICR_MAX_VCPUS: usize = 8;

pub const GICR_CTLR: u64 = 0x0000;
pub const GICR_IIDR: u64 = 0x0004;
pub const GICR_TYPER: u64 = 0x0008;
pub const GICR_STATUSR: u64 = 0x0010;
pub const GICR_WAKER: u64 = 0x0014;
pub const GICR_PIDR2: u64 = 0xFFE8;
pub const GICR_IGROUPR0: u64 = 0x0080;
pub const GICR_ISENABLER0: u64 = 0x0100;
pub const GICR_ICENABLER0: u64 = 0x0180;
pub const GICR_ISPENDR0: u64 = 0x0200;
pub const GICR_ICPENDR0: u64 = 0x0280;
pub const GICR_ISACTIVER0: u64 = 0x0300;
pub const GICR_ICACTIVER0: u64 = 0x0380;
pub const GICR_IPRIORITYR_BASE: u64 = 0x0400;
pub const GICR_IPRIORITYR_END: u64 = 0x041C;
pub const GICR_ICFGR0: u64 = 0x0C00;
pub const GICR_ICFGR1: u64 = 0x0C04;

/// Redistributor registers of one vCPU (SGIs and PPIs, INTIDs 0-31).
#[derive(Clone, Copy, Debug)]
pub struct GicrState {
    pub ctlr: u32,
    pub waker: u32,
    pub igroupr0: u32,
    pub isenabler0: u32,
    pub ispendr0: u32,
    pub isactiver0: u32,
    pub ipriorityr: [u32; 8],
    pub icfgr: [u32; 2],
}

/// The registers of one vCPU's redistributor, as values.
pub struct GicrView {
    pub ctlr: u32,
    pub waker: u32,
    pub igroupr0: u32,
    pub isenabler0: u32,
    pub ispendr0: u32,
    pub isactiver0: u32,
    pub ipriorityr: Seq<u32>,
    pub icfgr: Seq<u32>,
}

impl View for GicrState {
    type V = GicrView;

    open spec fn view(&self) -> GicrView {
        GicrView {
            ctlr: self.ctlr,
            waker: self.waker,
            igroupr0: self.igroupr0,
            isenabler0: self.isenabler0,
            ispendr0: self.ispendr0,
            isactiver0: self.isactiver0,
            ipriorityr: self.ipriorityr@,
            icfgr: self.icfgr@,
        }
    }
}

impl GicrState {
    /// Reset state: asleep (WAKER = ProcessorSleep | ChildrenAsleep), SGIs
    /// edge-triggered, PPIs level-triggered.
    pub fn new() -> (r: Self)
        ensures
            r@ == (GicrView {
                ctlr: 0,
                waker: 0x06,
                igroupr0: 0,
                isenabler0: 0,
                ispendr0: 0,
                isactiver0: 0,
                ipriorityr: Seq::new(8, |i: int| 0u32),
                icfgr: seq![0xAAAA_AAAAu32, 0u32],
            }),
    {
        let r = GicrState {
            ctlr: 0,
            waker: 0x06,
            igroupr0: 0,
            isenabler0: 0,
            ispendr0: 0,
            isactiver0: 0,
            ipriorityr: [0; 8],
            icfgr: [0xAAAA_AAAA, 0x0000_0000],
        };
        assert(r@.ipriorityr =~= Seq::new(8, |i: int| 0u32));
        assert(r@.icfgr =~= seq![0xAAAA_AAAAu32, 0u32]);
        r
    }
}

/// TYPER of vCPU `id` among `n`: Aff0 = id, Processor_Number = id, Last
/// for the last one.
pub open spec fn gicr_typer(id: usize, n: usize) -> u64 {
    ((id as u64) << 32u64) | ((id as u64) << 8u64) | (if id as int == n - 1 { 0x10u64 } else { 0u64 })
}

/// A read in the RD frame of vCPU `id`.
pub open spec fn gicr_read_rd(st: GicrView, id: usize, n: usize, offset: u64, size: u8) -> u64 {
    if offset == GICR_CTLR {
        st.ctlr as u64
    } else if offset == GICR_IIDR {
        0x43B
    } else if offset == GICR_TYPER && size == 8 {
        gicr_typer(id, n)
    } else if offset == GICR_TYPER && size == 4 {
        gicr_typer(id, n) & 0xFFFF_FFFF
    } else if offset == 0x000C && size == 4 {
        gicr_typer(id, n) >> 32u64
    } else if offset == GICR_STATUSR {
        0
    } else if offset == GICR_WAKER {
        st.waker as u64
    } else if offset == GICR_PIDR2 {
        0x30
    } else {
        0
    }
}

/// A read in the SGI frame.
pub open spec fn gicr_read_sgi(st: GicrView, offset: u64) -> u64 {
    if offset == GICR_IGROUPR0 {
        st.igroupr0 as u64
    } else if offset == GICR_ISENABLER0 || offset == GICR_ICENABLER0 {
        st.isenabler0 as u64
    } else if offset == GICR_ISPENDR0 || offset == GICR_ICPENDR0 {
        st.ispendr0 as u64
    } else if offset == GICR_ISACTIVER0 || offset == GICR_ICACTIVER0 {
        st.isactiver0 as u64
    } else if in_bank(offset, GICR_IPRIORITYR_BASE, GICR_IPRIORITYR_END) {
        st.ipriorityr[bank_reg(offset, GICR_IPRIORITYR_BASE)] as u64
    } else if offset == GICR_ICFGR0 {
        st.icfgr[0] as u64
    } else if offset == GICR_ICFGR1 {
        st.icfgr[1] as u64
    } else {
        0
    }
}

/// The RD frame after a write: CTLR, and WAKER where clearing
/// ProcessorSleep wakes the redistributor and setting it puts it asleep.
pub open spec fn gicr_write_rd(st: GicrView, offset: u64, value: u64) -> GicrView {
    if offset == GICR_CTLR {
        GicrView { ctlr: value as u32, ..st }
    } else if offset == GICR_WAKER {
        if (value as u32) & 2 == 0 { GicrView { waker: 0, ..st } } else { GicrView { waker: 6, ..st } }
    } else {
        st
    }
}

/// The SGI frame after a write (set/clear registers are write-1-to-act;
/// ICFGR0 is read-only).
pub open spec fn gicr_write_sgi(st: GicrView, offset: u64, value: u64) -> GicrView {
    let val = value as u32;
    if offset == GICR_IGROUPR0 {
        GicrView { igroupr0: val, ..st }
    } else if offset == GICR_ISENABLER0 {
        GicrView { isenabler0: st.isenabler0 | val, ..st }
    } else if offset == GICR_ICENABLER0 {
        GicrView { isenabler0: st.isenabler0 & !val, ..st }
    } else if offset == GICR_ISPENDR0 {
        GicrView { ispendr0: st.ispendr0 | val, ..st }
    } else if offset == GICR_ICPENDR0 {
        GicrView { ispendr0: st.ispendr0 & !val, ..st }
    } else if offset == GICR_ISACTIVER0 {
        GicrView { isactiver0: st.isactiver0 | val, ..st }
    } else if offset == GICR_ICACTIVER0 {
        GicrView { isactiver0: st.isactiver0 & !val, ..st }
    } else if in_bank(offset, GICR_IPRIORITYR_BASE, GICR_IPRIORITYR_END) {
        GicrView { ipriorityr: st.ipriorityr.update(bank_reg(offset, GICR_IPRIORITYR_BASE), val), ..st }
    } else if offset == GICR_ICFGR1 {
        GicrView { icfgr: st.icfgr.update(1, val), ..st }
    } else {
        st
    }
}

/// Which vCPU's redistributor, which frame, and the offset in the frame.
pub open spec fn gicr_decode(offset: u64, n: usize) -> Option<(usize, bool, u64)> {
    let id = (offset / GICR_PER_CPU) as usize;
    let within = offset % GICR_PER_CPU;
    if id >= n {
        None
    } else if within < 0x1_0000 {
        Some((id, false, within))
    } else {
        Some((id, true, (within - 0x1_0000) as u64))
    }
}

/// Emulated redistributors of all vCPUs.
pub struct VirtualGicr {
    state: [GicrState; 8],
    num_vcpus: usize,
    base: u64,
}

/// Guest-physical base of the redistributors on the QEMU virt board.
pub const GICR_DEFAULT_BASE: u64 = 0x080A_0000;

impl VirtualGicr {
    /// Redistributor states, by vCPU.
    pub closed spec fn states(&self) -> Seq<GicrView> {
        Seq::new(8, |i: int| self.state@[i]@)
    }

    /// Number of vCPUs covered.
    pub closed spec fn spec_num_vcpus(&self) -> usize {
        self.num_vcpus
    }

    /// Base address of the redistributor window.
    pub closed spec fn spec_base(&self) -> u64 {
        self.base
    }

    /// One redistributor state per vCPU slot, and at most that many vCPUs.
    pub open spec fn wf(&self) -> bool {
        &&& self.states().len() == 8
        &&& self.spec_num_vcpus() <= GICR_MAX_VCPUS
    }

    /// Redistributors for `num_vcpus` vCPUs, all in reset state.
    pub fn new(num_vcpus: usize) -> (r: Self)
        requires
            num_vcpus <= GICR_MAX_VCPUS,
        ensures
            r.wf(),
            r.spec_num_vcpus() == num_vcpus,
            r.spec_base() == GICR_DEFAULT_BASE,
            forall|i: int| 0 <= i < 8 ==> #[trigger] r.states()[i] == GicrState::new_view(),
    {
        let s = GicrState::new();
        VirtualGicr { state: [s; 8], num_vcpus, base: GICR_DEFAULT_BASE }
    }

    /// Place the redistributor window at `base` (the platform's GICR base).
    pub fn set_base(&mut self, base: u64)
        ensures
            final(self).spec_base() == base,
            final(self).spec_num_vcpus() == old(self).spec_num_vcpus(),
            final(self).states() == old(self).states(),
            final(self).wf() == old(self).wf(),
    {
        self.base = base;
    }

    /// Base address of the redistributor window.
    pub fn base_address(&self) -> (r: u64)
        ensures
            r == self.spec_base(),
    {
        self.base
    }

    fn typer_value(&self, vcpu_id: usize) -> (r: u64)
        requires
            vcpu_id < self.num_vcpus,
            self.num_vcpus <= GICR_MAX_VCPUS,
        ensures
            r == gicr_typer(vcpu_id, self.num_vcpus),
    {
        let aff0 = (vcpu_id as u64) << 32;
        let proc_num = (vcpu_id as u64) << 8;
        let last: u64 = if vcpu_id == self.num_vcpus - 1 { 0x10 } else { 0 };
        aff0 | proc_num | last
    }

    fn decode_offset(&self, offset: u64) -> (r: Option<(usize, bool, u64)>)
        ensures
            r == gicr_decode(offset, self.num_vcpus),
    {
        let vcpu_id = (offset / GICR_PER_CPU) as usize;
        if vcpu_id >= self.num_vcpus {
            return None;
        }
        let within = offset % GICR_PER_CPU;
        if within < 0x1_0000 {
            Some((vcpu_id, false, within))
        } else {
            Some((vcpu_id, true, within - 0x1_0000))
        }
    }

    /// A read at redistributor offset `offset`; `None` beyond the covered vCPUs.
    pub fn read(&self, offset: u64, size: u8) -> (r: Option<u64>)
        requires
            self.wf(),
        ensures
            match gicr_decode(offset, self.spec_num_vcpus()) {
                None => r.is_none(),
                Some((id, sgi, off)) => r == Some(if sgi {
                    gicr_read_sgi(self.states()[id as int], off)
                } else {
                    gicr_read_rd(self.states()[id as int], id, self.spec_num_vcpus(), off, size)
                }),
            },
    {
        let (vcpu_id, is_sgi, off) = match self.decode_offset(offset) {
            Some(d) => d,
            None => { return None; },
        };
        let st = self.state[vcpu_id];
        if is_sgi {
            let v: u64 = if off == GICR_IGROUPR0 {
                st.igroupr0 as u64
            } else if off == GICR_ISENABLER0 || off == GICR_ICENABLER0 {
                st.isenabler0 as u64
            } else if off == GICR_ISPENDR0 || off == GICR_ICPENDR0 {
                st.ispendr0 as u64
            } else if off == GICR_ISACTIVER0 || off == GICR_ICACTIVER0 {
                st.isactiver0 as u64
            } else if GICR_IPRIORITYR_BASE <= off && off <= GICR_IPRIORITYR_END {
                st.ipriorityr[((off - GICR_IPRIORITYR_BASE) / 4) as usize] as u64
            } else if off == GICR_ICFGR0 {
                st.icfgr[0] as u64
            } else if off == GICR_ICFGR1 {
                st.icfgr[1] as u64
            } else {
                0
            };
            Some(v)
        } else {
            let v: u64 = if off == GICR_CTLR {
                st.ctlr as u64
            } else if off == GICR_IIDR {
                0x0000_043B
            } else if off == GICR_TYPER && size == 8 {
                self.typer_value(vcpu_id)
            } else if off == GICR_TYPER && size == 4 {
                self.typer_value(vcpu_id) & 0xFFFF_FFFF
            } else if off == 0x000C && size == 4 {
                self.typer_value(vcpu_id) >> 32
            } else if off == GICR_STATUSR {
                0
            } else if off == GICR_WAKER {
                st.waker as u64
            } else if off == GICR_PIDR2 {
                0x30
            } else {
                0
            };
            Some(v)
        }
    }

    /// A write at redistributor offset `offset`; ignored beyond the covered vCPUs.
    pub fn write(&mut self, offset: u64, value: u64, size: u8) -> (r: bool)
        requires
            old(self).wf(),
        ensures
            r,
            final(self).wf(),
            final(self).spec_num_vcpus() == old(self).spec_num_vcpus(),
            final(self).spec_base() == old(self).spec_base(),
            match gicr_decode(offset, old(self).spec_num_vcpus()) {
                None => final(self).states() == old(self).states(),
                Some((id, sgi, off)) => final(self).states() == old(self).states().update(id as int,
                    if sgi {
                        gicr_write_sgi(old(self).states()[id as int], off, value)
                    } else {
                        gicr_write_rd(old(self).states()[id as int], off, value)
                    }),
            },
    {
        let (vcpu_id, is_sgi, off) = match self.decode_offset(offset) {
            Some(d) => d,
            None => { return true; },
        };
        let mut st = self.state[vcpu_id];
        if is_sgi {
            let val = value as u32;
            if off == GICR_IGROUPR0 {
                st.igroupr0 = val;
            } else if off == GICR_ISENABLER0 {
                st.isenabler0 = st.isenabler0 | val;
            } else if off == GICR_ICENABLER0 {
                st.isenabler0 = st.isenabler0 & !val;
            } else if off == GICR_ISPENDR0 {
                st.ispendr0 = st.ispendr0 | val;
            } else if off == GICR_ICPENDR0 {
                st.ispendr0 = st.ispendr0 & !val;
            } else if off == GICR_ISACTIVER0 {
                st.isactiver0 = st.isactiver0 | val;
            } else if off == GICR_ICACTIVER0 {
                st.isactiver0 = st.isactiver0 & !val;
            } else if GICR_IPRIORITYR_BASE <= off && off <= GICR_IPRIORITYR_END {
                let idx = ((off - GICR_IPRIORITYR_BASE) / 4) as usize;
                st.ipriorityr[idx] = val;
            } else if off == GICR_ICFGR1 {
                st.icfgr[1] = val;
            }
            assert(st@ =~= gicr_write_sgi(old(self).states()[vcpu_id as int], off, value));
        } else {
            if off == GICR_CTLR {
                st.ctlr = value as u32;
            } else if off == GICR_WAKER {
                let sleep = (value as u32) & 2;
                if sleep == 0 {
                    st.waker = 0;
                } else {
                    st.waker = 6;
                }
            }
        }
        self.state[vcpu_id] = st;
        assert(self.states() =~= old(self).states().update(vcpu_id as int, st@));
        true
    }

    /// Size of the redistributor window.
    pub fn size(&self) -> (r: u64)
        requires
            self.wf(),
        ensures
            r == GICR_PER_CPU * self.spec_num_vcpus(),
    {
        GICR_PER_CPU * self.num_vcpus as u64
    }
}

impl GicrState {
    /// The reset state, as values.
    pub open spec fn new_view() -> GicrView {
        GicrView {
            ctlr: 0,
            waker: 0x06,
            igroupr0: 0,
            isenabler0: 0,
            ispendr0: 0,
            isactiver0: 0,
            ipriorityr: Seq::new(8, |i: int| 0u32),
            icfgr: seq![0xAAAA_AAAAu32, 0u32],
        }
    }
}

} // verus!
