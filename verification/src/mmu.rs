//! Stage-2 translation (guest physical → host physical) for a 48-bit IPA
//! space with a 4 KiB granule.
//!
//! Levels: L0 covers bits [47:39], L1 bits [38:30] (1 GiB blocks), L2 bits
//! [29:21] (2 MiB blocks), L3 bits [20:12] (4 KiB pages).

use vstd::prelude::*;
use crate::table_store::{lemma_desc_bits, TableStore, TlbOp, PHYS_LIMIT};
use crate::defs::{
    BLOCK_MASK_2MB, BLOCK_SIZE_2MB, HCR_VM, PAGE_MASK_4KB, PAGE_OFFSET_MASK, PAGE_SIZE_4KB, PTE_ADDR_MASK,
    PTE_SW_MASK, PTE_SW_SHIFT, PTE_TABLE, PTE_VALID, PT_INDEX_MASK, S2AP_MASK, S2AP_SHIFT,
    VTCR_IRGN0_WB, VTCR_ORGN0_WB, VTCR_PS_48BIT, VTCR_SH0_INNER, VTCR_SL0_LEVEL0, VTCR_T0SZ_48BIT,
    VTCR_TG0_4KB,
};

verus! {

/// Page size (4 KiB).
pub const PAGE_SIZE: usize = 4096;
pub const PAGE_SHIFT: usize = 12;
/// Entries per translation table.
pub const ENTRIES: usize = 512;

/// Stage-2 page table entry.
#[derive(Clone, Copy)]
pub struct S2PageTableEntry(u64);

impl View for S2PageTableEntry {
    type V = u64;

    closed spec fn view(&self) -> u64 {
        self.0
    }
}

/// The valid bit of a descriptor.
pub open spec fn spec_is_valid(e: u64) -> bool {
    e & PTE_VALID != 0
}

/// A valid descriptor with the table/page bit set.
pub open spec fn spec_is_table(e: u64) -> bool {
    e & (PTE_VALID | PTE_TABLE) == (PTE_VALID | PTE_TABLE)
}


impl S2PageTableEntry {
    /// An invalid entry.
    pub fn invalid() -> (r: Self)
        ensures
            r@ == 0,
    {
        S2PageTableEntry(0)
    }

    /// A block descriptor (level 1 or 2) for `addr` with `attrs`.
    pub fn block(addr: u64, attrs: MemoryAttributes) -> (r: Self)
        requires
            attrs.wf(),
        ensures
            r@ == (addr & PTE_ADDR_MASK) | PTE_VALID | (attrs@ << 2u64),
    {
        S2PageTableEntry((addr & PTE_ADDR_MASK) | PTE_VALID | (attrs.bits() << 2u64))
    }

    /// A level-3 page descriptor for `addr` with `attrs`.
    pub fn page(addr: u64, attrs: MemoryAttributes) -> (r: Self)
        requires
            attrs.wf(),
        ensures
            r@ == (addr & PTE_ADDR_MASK) | PTE_VALID | PTE_TABLE | (attrs@ << 2u64),
    {
        S2PageTableEntry((addr & PTE_ADDR_MASK) | PTE_VALID | PTE_TABLE | (attrs.bits() << 2u64))
    }

    /// A table descriptor pointing at the next-level table `next_level_addr`.
    pub fn table(next_level_addr: u64) -> (r: Self)
        ensures
            r@ == (next_level_addr & PTE_ADDR_MASK) | PTE_VALID | PTE_TABLE,
    {
        S2PageTableEntry((next_level_addr & PTE_ADDR_MASK) | PTE_VALID | PTE_TABLE)
    }

    /// Whether the entry is valid.
    pub fn is_valid(&self) -> (r: bool)
        ensures
            r == spec_is_valid(self@),
    {
        (self.0 & PTE_VALID) != 0
    }

    /// Whether the entry is a valid table descriptor.
    pub fn is_table(&self) -> (r: bool)
        ensures
            r == spec_is_table(self@),
    {
        let e = self.0;
        proof { lemma_desc_bits(e); }
        self.is_valid() && ((e & (PTE_VALID | PTE_TABLE)) == (PTE_VALID | PTE_TABLE))
    }

    /// Output address held by the entry.
    pub fn addr(&self) -> (r: u64)
        ensures
            r == self@ & PTE_ADDR_MASK,
    {
        self.0 & PTE_ADDR_MASK
    }

    /// Raw descriptor value.
    pub fn raw(&self) -> (r: u64)
        ensures
            r == self@,
    {
        self.0
    }
}

/// Memory attributes of a Stage-2 block/page (placed at descriptor bit 2):
/// MemAttr[3:0], S2AP[5:4], SH[7:6], AF[8].
#[derive(Clone, Copy, Debug)]
pub struct MemoryAttributes {
    bits: u64,
}

impl View for MemoryAttributes {
    type V = u64;

    closed spec fn view(&self) -> u64 {
        self.bits
    }
}

/// Attribute bits of normal write-back read-write memory.
pub open spec fn spec_normal_bits() -> u64 {
    0x1FF
}

/// Attribute bits of device (nGnRnE) read-write memory.
pub open spec fn spec_device_bits() -> u64 {
    0x130
}

/// Attribute bits of normal read-only memory.
pub open spec fn spec_readonly_bits() -> u64 {
    0x1DF
}

impl MemoryAttributes {
    /// The attribute bits fit the nine-bit field.
    pub open spec fn wf(&self) -> bool {
        self@ < 0x200
    }

    /// Normal memory, write-back cacheable, read-write, inner shareable.
    pub fn normal() -> (r: Self)
        ensures
            r@ == spec_normal_bits(),
            r.wf(),
    {
        // MemAttr = 0b1111, S2AP = RW (0b11), SH = inner (0b11), AF = 1
        MemoryAttributes { bits: 0x1FF }
    }

    /// Device memory (MMIO), read-write, non-shareable.
    pub fn device() -> (r: Self)
        ensures
            r@ == spec_device_bits(),
            r.wf(),
    {
        // MemAttr = Device-nGnRnE, S2AP = RW (0b11), SH = non-shareable, AF = 1
        MemoryAttributes { bits: 0x130 }
    }

    /// Normal memory, read-only, inner shareable.
    pub fn readonly() -> (r: Self)
        ensures
            r@ == spec_readonly_bits(),
            r.wf(),
    {
        // MemAttr = 0b1111, S2AP = RO (0b01), SH = inner (0b11), AF = 1
        MemoryAttributes { bits: 0x1DF }
    }

    /// Raw bits.
    pub fn bits(&self) -> (r: u64)
        ensures
            r == self@,
    {
        self.bits
    }
}

/// A 512-entry Stage-2 translation table at a 4 KiB-aligned physical address.
pub struct PageTable {
    entries: Vec<S2PageTableEntry>,
    base: u64,
}

impl PageTable {
    pub closed spec fn wf(&self) -> bool {
        self.entries@.len() == ENTRIES
    }

    /// The raw descriptors.
    pub closed spec fn entries(&self) -> Seq<u64> {
        self.entries@.map_values(|e: S2PageTableEntry| e@)
    }

    /// Physical address of the table.
    pub closed spec fn spec_addr(&self) -> u64 {
        self.base
    }

    /// An empty table (all entries invalid) located at `addr`.
    pub fn new(addr: u64) -> (r: Self)
        ensures
            r.wf(),
            r.spec_addr() == addr,
            forall|i: int| 0 <= i < ENTRIES ==> #[trigger] r.entries()[i] == 0,
    {
        let mut entries: Vec<S2PageTableEntry> = Vec::new();
        let mut i: usize = 0;
        while i < ENTRIES
            invariant
                i <= ENTRIES,
                entries@.len() == i,
                forall|k: int| 0 <= k < i ==> #[trigger] entries@[k]@ == 0,
            decreases ENTRIES - i,
        {
            entries.push(S2PageTableEntry::invalid());
            i = i + 1;
        }
        PageTable { entries, base: addr }
    }

    /// Entry at `index`.
    pub fn entry(&self, index: usize) -> (r: S2PageTableEntry)
        requires
            self.wf(),
            index < ENTRIES,
        ensures
            r@ == self.entries()[index as int],
    {
        self.entries[index]
    }

    /// Replace the entry at `index`.
    pub fn set_entry(&mut self, index: usize, entry: S2PageTableEntry)
        requires
            old(self).wf(),
            index < ENTRIES,
        ensures
            final(self).wf(),
            final(self).spec_addr() == old(self).spec_addr(),
            final(self).entries() == old(self).entries().update(index as int, entry@),
    {
        self.entries.set(index, entry);
        assert(self.entries() =~= old(self).entries().update(index as int, entry@));
    }

    /// Physical address of this table.
    pub fn addr(&self) -> (r: u64)
        ensures
            r == self.spec_addr(),
    {
        self.base
    }
}

/// VTCR_EL2 value: 4 KiB granule, 48-bit IPA, start at level 0, inner
/// shareable write-back walks.
pub open spec fn spec_vtcr() -> u64 {
    VTCR_T0SZ_48BIT | VTCR_SL0_LEVEL0 | VTCR_IRGN0_WB | VTCR_ORGN0_WB | VTCR_SH0_INNER | VTCR_TG0_4KB | VTCR_PS_48BIT
}

/// Stage-2 translation configuration.
pub struct Stage2Config {
    /// VTTBR_EL2: VMID[63:48] | table base[47:1].
    pub vttbr: u64,
    /// VTCR_EL2.
    pub vtcr: u64,
}

impl Stage2Config {
    /// Configuration for VMID 0.
    pub fn new(page_table_addr: u64) -> (r: Self)
        ensures
            r.vtcr == spec_vtcr(),
            r.vttbr == page_table_addr & 0x0000_FFFF_FFFF_FFFE,
    {
        let r = Self::new_with_vmid(page_table_addr, 0);
        proof { lemma_desc_bits(page_table_addr); }
        r
    }

    /// Configuration with an explicit VMID in VTTBR_EL2[63:48].
    pub fn new_with_vmid(page_table_addr: u64, vmid: u16) -> (r: Self)
        ensures
            r.vtcr == spec_vtcr(),
            r.vttbr == (page_table_addr & 0x0000_FFFF_FFFF_FFFE) | ((vmid as u64) << 48u64),
    {
        let vtcr = VTCR_T0SZ_48BIT | VTCR_SL0_LEVEL0 | VTCR_IRGN0_WB | VTCR_ORGN0_WB
            | VTCR_SH0_INNER | VTCR_TG0_4KB | VTCR_PS_48BIT;
        let vttbr = (page_table_addr & 0x0000_FFFF_FFFF_FFFE) | ((vmid as u64) << 48u64);
        Stage2Config { vttbr, vtcr }
    }
}


/// Index into the level-`level` table for `addr` (level 0 uses bits [47:39]).
pub open spec fn spec_index(addr: u64, shift: u64) -> u64 {
    (addr >> shift) & PT_INDEX_MASK
}

/// The table index selected by `addr` at the level whose index starts at bit `shift`.
pub fn table_index(addr: u64, shift: u64) -> (r: usize)
    requires
        shift < 64,
    ensures
        r as u64 == spec_index(addr, shift),
        r < ENTRIES,
{
    let x = (addr >> shift) & PT_INDEX_MASK;
    proof { lemma_index_bound(addr, shift); }
    x as usize
}

/// Every table index is below 512.
pub proof fn lemma_index_bound(addr: u64, shift: u64)
    by (bit_vector)
    ensures
        spec_index(addr, shift) < 512,
{
}

/// Table descriptor value pointing at a 4 KiB-aligned table address below 2^48.
pub open spec fn spec_table_desc(addr: u64) -> u64 {
    (addr & PTE_ADDR_MASK) | PTE_VALID | PTE_TABLE
}

/// Block descriptor value for `addr` with attribute bits `attrs`.
pub open spec fn spec_block_desc(addr: u64, attrs: u64) -> u64 {
    (addr & PTE_ADDR_MASK) | PTE_VALID | (attrs << 2u64)
}

/// A 4 KiB-aligned address below 2^48 survives the table-descriptor encoding.
pub proof fn lemma_table_desc_roundtrip(a: u64)
    by (bit_vector)
    requires
        a % 4096 == 0,
        a < 0x1_0000_0000_0000,
    ensures
        spec_table_desc(a) & PTE_ADDR_MASK == a,
        spec_is_valid(spec_table_desc(a)),
        spec_is_table(spec_table_desc(a)),
        spec_table_desc(a) == a | 3,
{
}

/// A block descriptor is valid and not a table descriptor.
pub proof fn lemma_block_desc_is_block(addr: u64, attrs: u64)
    by (bit_vector)
    requires
        attrs < 0x200,
    ensures
        spec_is_valid(spec_block_desc(addr, attrs)),
        !spec_is_table(spec_block_desc(addr, attrs)),
{
}

/// Number of level-2 tables an `IdentityMapper` owns.
pub const IDENTITY_L2_TABLES: usize = 4;

/// Identity mapper with statically placed tables: L0 → L1 → four L2 tables of
/// 2 MiB blocks. The six tables occupy consecutive 4 KiB pages starting at
/// the L0 table.
pub struct IdentityMapper {
    l0_table: PageTable,
    l1_table: PageTable,
    l2_tables: Vec<PageTable>,
    l2_count: usize,
}

impl IdentityMapper {
    /// Physical address of the L0 table (the first of the six pages).
    pub closed spec fn base(&self) -> u64 {
        self.l0_table.spec_addr()
    }

    /// Address of the `i`-th level-2 table.
    pub open spec fn l2_addr(&self, i: int) -> u64 {
        (self.base() + (2 + i) * 4096) as u64
    }

    /// Number of level-2 tables in use.
    pub closed spec fn spec_l2_count(&self) -> usize {
        self.l2_count
    }

    /// Whether L0 slot `i` points at the L1 table.
    pub closed spec fn l0_valid(&self, i: int) -> bool {
        spec_is_valid(self.l0_table.entries()[i])
    }

    /// Raw L1 descriptor `j`.
    pub closed spec fn l1_entry(&self, j: int) -> u64 {
        self.l1_table.entries()[j]
    }

    /// Which level-2 table a valid L1 descriptor points at.
    pub open spec fn l2_slot_of(&self, l1e: u64) -> int {
        ((l1e & PTE_ADDR_MASK) - self.base()) / 4096 - 2
    }

    /// Descriptor `k` of the level-2 table behind L1 slot `j` (0 when the slot
    /// has no table).
    pub closed spec fn l2_entry(&self, j: int, k: int) -> u64 {
        if spec_is_valid(self.l1_entry(j)) {
            self.l2_tables@[self.l2_slot_of(self.l1_entry(j))].entries()[k]
        } else {
            0
        }
    }

    pub closed spec fn wf(&self) -> bool {
        &&& self.l0_table.wf()
        &&& self.l1_table.wf()
        &&& self.l2_tables@.len() == IDENTITY_L2_TABLES
        &&& forall|i: int| 0 <= i < IDENTITY_L2_TABLES ==> (#[trigger] self.l2_tables@[i]).wf()
        &&& self.l2_count <= IDENTITY_L2_TABLES
        &&& self.base() % 4096 == 0
        &&& self.base() + 6 * 4096 <= 0x1_0000_0000_0000
        &&& self.l1_table.spec_addr() == self.base() + 4096
        &&& forall|i: int| 0 <= i < IDENTITY_L2_TABLES ==> (#[trigger] self.l2_tables@[i]).spec_addr() == self.l2_addr(i)
        &&& forall|i: int| 0 <= i < ENTRIES && spec_is_valid(#[trigger] self.l0_table.entries()[i])
            ==> self.l0_table.entries()[i] == spec_table_desc(self.l1_table.spec_addr())
        &&& forall|j: int| 0 <= j < ENTRIES && spec_is_valid(#[trigger] self.l1_table.entries()[j])
            ==> {
                let t = self.l2_slot_of(self.l1_table.entries()[j]);
                &&& 0 <= t < self.l2_count
                &&& self.l1_table.entries()[j] == spec_table_desc(self.l2_addr(t))
            }
        &&& forall|j1: int, j2: int| 0 <= j1 < ENTRIES && 0 <= j2 < ENTRIES && j1 != j2
            && spec_is_valid(#[trigger] self.l1_table.entries()[j1]) && spec_is_valid(#[trigger] self.l1_table.entries()[j2])
            ==> self.l1_table.entries()[j1] != self.l1_table.entries()[j2]
        &&& forall|t: int, k: int| self.l2_count <= t < IDENTITY_L2_TABLES && 0 <= k < ENTRIES
            ==> #[trigger] self.l2_tables@[t].entries()[k] == 0
    }

    /// A mapper whose six tables start at `base`, with nothing mapped.
    pub fn new(base: u64) -> (r: Self)
        requires
            base % 4096 == 0,
            base + 6 * 4096 <= 0x1_0000_0000_0000,
        ensures
            r.wf(),
            r.base() == base,
            r.spec_l2_count() == 0,
            forall|i: int| 0 <= i < ENTRIES ==> !#[trigger] r.l0_valid(i),
            forall|j: int, k: int| 0 <= j < ENTRIES && 0 <= k < ENTRIES ==> #[trigger] r.l2_entry(j, k) == 0,
    {
        let l0_table = PageTable::new(base);
        let l1_table = PageTable::new(base + 4096);
        let mut l2_tables: Vec<PageTable> = Vec::new();
        let mut i: usize = 0;
        while i < IDENTITY_L2_TABLES
            invariant
                i <= IDENTITY_L2_TABLES,
                l2_tables@.len() == i,
                base + 6 * 4096 <= 0x1_0000_0000_0000,
                forall|k: int| 0 <= k < i ==> (#[trigger] l2_tables@[k]).wf()
                    && l2_tables@[k].spec_addr() == base + (2 + k) * 4096
                    && forall|m: int| 0 <= m < ENTRIES ==> #[trigger] l2_tables@[k].entries()[m] == 0,
            decreases IDENTITY_L2_TABLES - i,
        {
            l2_tables.push(PageTable::new(base + 4096 * (2 + i as u64)));
            i = i + 1;
        }
        let r = IdentityMapper { l0_table, l1_table, l2_tables, l2_count: 0 };
        proof { lemma_desc_bits(0); }
        r
    }

    /// Clear all mappings.
    #[verifier::loop_isolation(false)]
    pub fn reset(&mut self)
        requires
            old(self).wf(),
        ensures
            final(self).wf(),
            final(self).base() == old(self).base(),
            final(self).spec_l2_count() == 0,
            forall|i: int| 0 <= i < ENTRIES ==> !#[trigger] final(self).l0_valid(i),
            forall|j: int, k: int| 0 <= j < ENTRIES && 0 <= k < ENTRIES ==> #[trigger] final(self).l2_entry(j, k) == 0,
    {
        let ghost base = self.base();
        proof { lemma_desc_bits(0); }
        let mut i: usize = 0;
        while i < ENTRIES
            invariant
                i <= ENTRIES,
                self.l0_table.wf(),
                self.l0_table.spec_addr() == base,
                forall|k: int| 0 <= k < i ==> #[trigger] self.l0_table.entries()[k] == 0,
                self.l1_table == old(self).l1_table,
                self.l2_tables == old(self).l2_tables,
            decreases ENTRIES - i,
        {
            self.l0_table.set_entry(i, S2PageTableEntry(0));
            i = i + 1;
        }
        let mut i: usize = 0;
        while i < ENTRIES
            invariant
                i <= ENTRIES,
                self.l1_table.wf(),
                self.l1_table.spec_addr() == base + 4096,
                forall|k: int| 0 <= k < i ==> #[trigger] self.l1_table.entries()[k] == 0,
                self.l0_table.wf(),
                self.l0_table.spec_addr() == base,
                forall|k: int| 0 <= k < ENTRIES ==> #[trigger] self.l0_table.entries()[k] == 0,
                self.l2_tables == old(self).l2_tables,
            decreases ENTRIES - i,
        {
            self.l1_table.set_entry(i, S2PageTableEntry(0));
            i = i + 1;
        }
        let mut t: usize = 0;
        while t < IDENTITY_L2_TABLES
            invariant
                t <= IDENTITY_L2_TABLES,
                self.l2_tables@.len() == IDENTITY_L2_TABLES,
                self.l0_table.wf(),
                self.l0_table.spec_addr() == base,
                forall|k: int| 0 <= k < ENTRIES ==> #[trigger] self.l0_table.entries()[k] == 0,
                self.l1_table.wf(),
                self.l1_table.spec_addr() == base + 4096,
                forall|k: int| 0 <= k < ENTRIES ==> #[trigger] self.l1_table.entries()[k] == 0,
                forall|k: int| 0 <= k < IDENTITY_L2_TABLES ==> (#[trigger] self.l2_tables@[k]).wf()
                    && self.l2_tables@[k].spec_addr() == old(self).l2_tables@[k].spec_addr(),
                forall|k: int, m: int| 0 <= k < t && 0 <= m < ENTRIES ==> #[trigger] self.l2_tables@[k].entries()[m] == 0,
            decreases IDENTITY_L2_TABLES - t,
        {
            let mut i: usize = 0;
            while i < ENTRIES
                invariant
                    t < IDENTITY_L2_TABLES,
                    i <= ENTRIES,
                    self.l0_table.wf(),
                    self.l0_table.spec_addr() == base,
                    forall|k: int| 0 <= k < ENTRIES ==> #[trigger] self.l0_table.entries()[k] == 0,
                    self.l1_table.wf(),
                    self.l1_table.spec_addr() == base + 4096,
                    forall|k: int| 0 <= k < ENTRIES ==> #[trigger] self.l1_table.entries()[k] == 0,
                    self.l2_tables@.len() == IDENTITY_L2_TABLES,
                    forall|k: int| 0 <= k < IDENTITY_L2_TABLES ==> (#[trigger] self.l2_tables@[k]).wf()
                        && self.l2_tables@[k].spec_addr() == old(self).l2_tables@[k].spec_addr(),
                    forall|k: int, m: int| 0 <= k < t && 0 <= m < ENTRIES ==> #[trigger] self.l2_tables@[k].entries()[m] == 0,
                    forall|m: int| 0 <= m < i ==> #[trigger] self.l2_tables@[t as int].entries()[m] == 0,
                decreases ENTRIES - i,
            {
                self.l2_tables[t].set_entry(i, S2PageTableEntry(0));
                i = i + 1;
            }
            t = t + 1;
        }
        self.l2_count = 0;
    }
}


impl IdentityMapper {
    /// Facts about the fixed level-2 table addresses.
    proof fn lemma_l2_addrs(&self)
        requires
            self.base() % 4096 == 0,
            self.base() + 6 * 4096 <= 0x1_0000_0000_0000,
        ensures
            forall|t: int| 0 <= t < IDENTITY_L2_TABLES ==> {
                &&& #[trigger] self.l2_addr(t) % 4096 == 0
                &&& self.l2_addr(t) < 0x1_0000_0000_0000
                &&& self.l2_addr(t) == self.base() + (2 + t) * 4096
                &&& spec_table_desc(self.l2_addr(t)) & PTE_ADDR_MASK == self.l2_addr(t)
                &&& self.l2_slot_of(spec_table_desc(self.l2_addr(t))) == t
                &&& spec_is_valid(spec_table_desc(self.l2_addr(t)))
            },
            (self.base() + 4096) as u64 % 4096 == 0,
            spec_is_valid(spec_table_desc((self.base() + 4096) as u64)),
    {
        assert forall|t: int| 0 <= t < IDENTITY_L2_TABLES implies {
            &&& #[trigger] self.l2_addr(t) % 4096 == 0
            &&& self.l2_addr(t) < 0x1_0000_0000_0000
            &&& self.l2_addr(t) == self.base() + (2 + t) * 4096
            &&& spec_table_desc(self.l2_addr(t)) & PTE_ADDR_MASK == self.l2_addr(t)
            &&& self.l2_slot_of(spec_table_desc(self.l2_addr(t))) == t
            &&& spec_is_valid(spec_table_desc(self.l2_addr(t)))
        } by {
            let a = self.l2_addr(t);
            assert(a == self.base() + (2 + t) * 4096);
            assert(a % 4096 == 0);
            lemma_table_desc_roundtrip(a);
            assert(((a - self.base()) / 4096) == 2 + t);
        }
        lemma_table_desc_roundtrip((self.base() + 4096) as u64);
    }

    /// Map one 2 MiB block at `addr` (identity mapping).
    ///
    /// The L0 slot of `addr` is pointed at the L1 table; a level-2 table is
    /// linked into the L1 slot when it has none, and the block is written
    /// there. Nothing is mapped when all four level-2 tables are in use.
    fn map_2mb_block(&mut self, addr: u64, attrs: MemoryAttributes)
        requires
            old(self).wf(),
            attrs.wf(),
        ensures
            final(self).wf(),
            final(self).base() == old(self).base(),
            forall|i: int| 0 <= i < ENTRIES ==> #[trigger] final(self).l0_valid(i)
                == (old(self).l0_valid(i) || i == spec_index(addr, 39)),
            ({
                let j0 = spec_index(addr, 30) as int;
                let k0 = spec_index(addr, 21) as int;
                if !spec_is_valid(old(self).l1_entry(j0)) && old(self).spec_l2_count() >= IDENTITY_L2_TABLES {
                    &&& final(self).spec_l2_count() == old(self).spec_l2_count()
                    &&& forall|j: int| 0 <= j < ENTRIES ==> #[trigger] final(self).l1_entry(j) == old(self).l1_entry(j)
                    &&& forall|j: int, k: int| 0 <= j < ENTRIES && 0 <= k < ENTRIES
                        ==> #[trigger] final(self).l2_entry(j, k) == old(self).l2_entry(j, k)
                } else {
                    &&& spec_is_valid(final(self).l1_entry(j0))
                    &&& final(self).spec_l2_count() == old(self).spec_l2_count()
                        + if spec_is_valid(old(self).l1_entry(j0)) { 0int } else { 1int }
                    &&& forall|j: int| 0 <= j < ENTRIES && j != j0 ==> #[trigger] final(self).l1_entry(j) == old(self).l1_entry(j)
                    &&& final(self).l2_entry(j0, k0) == spec_block_desc(addr, attrs@)
                    &&& forall|j: int, k: int| 0 <= j < ENTRIES && 0 <= k < ENTRIES && !(j == j0 && k == k0)
                        ==> #[trigger] final(self).l2_entry(j, k) == old(self).l2_entry(j, k)
                }
            }),
    {
        proof { self.lemma_l2_addrs(); }
        let l0_index = table_index(addr, 39);
        let l1_index = table_index(addr, 30);
        let l2_index = table_index(addr, 21);
        let ghost j0 = l1_index as int;
        let ghost k0 = l2_index as int;

        if !self.l0_table.entry(l0_index).is_valid() {
            let l1_addr = self.l1_table.addr();
            self.l0_table.set_entry(l0_index, S2PageTableEntry::table(l1_addr));
        }
        let ghost mid = *self;
        assert(forall|j: int, k: int| 0 <= j < ENTRIES && 0 <= k < ENTRIES
            ==> #[trigger] mid.l2_entry(j, k) == old(self).l2_entry(j, k));
        assert forall|i: int| 0 <= i < ENTRIES && spec_is_valid(#[trigger] mid.l0_table.entries()[i])
            implies mid.l0_table.entries()[i] == spec_table_desc(mid.l1_table.spec_addr()) by {
            if i != l0_index as int {
                assert(mid.l0_table.entries()[i] == old(self).l0_table.entries()[i]);
            }
        }
        assert(mid.l0_table.wf());
        assert(mid.l1_table == old(self).l1_table);
        assert(mid.l2_tables == old(self).l2_tables);
        assert(mid.base() == old(self).base());
        assert(mid.wf());

        let l2_table_idx = if !self.l1_table.entry(l1_index).is_valid() {
            if self.l2_count >= self.l2_tables.len() {
                return;
            }
            let idx = self.l2_count;
            let l2_addr = self.l2_tables[idx].addr();
            self.l1_table.set_entry(l1_index, S2PageTableEntry::table(l2_addr));
            self.l2_count = self.l2_count + 1;
            proof {
                assert(self.l1_entry(j0) == spec_table_desc(self.l2_addr(idx as int)));
                assert forall|j: int| 0 <= j < ENTRIES && spec_is_valid(#[trigger] self.l1_table.entries()[j])
                    implies ({
                        let t = self.l2_slot_of(self.l1_table.entries()[j]);
                        &&& 0 <= t < self.l2_count
                        &&& self.l1_table.entries()[j] == spec_table_desc(self.l2_addr(t))
                    }) by {
                    if j != j0 {
                        assert(self.l1_table.entries()[j] == mid.l1_table.entries()[j]);
                        assert(spec_is_valid(mid.l1_table.entries()[j]));
                    }
                }
                assert forall|j1: int, j2: int| 0 <= j1 < ENTRIES && 0 <= j2 < ENTRIES && j1 != j2
                    && spec_is_valid(#[trigger] self.l1_table.entries()[j1]) && spec_is_valid(#[trigger] self.l1_table.entries()[j2])
                    implies self.l1_table.entries()[j1] != self.l1_table.entries()[j2] by {
                    if j1 == j0 {
                        assert(spec_is_valid(mid.l1_table.entries()[j2]));
                    } else if j2 == j0 {
                        assert(spec_is_valid(mid.l1_table.entries()[j1]));
                    }
                }
                assert forall|j: int, k: int| 0 <= j < ENTRIES && 0 <= k < ENTRIES
                    implies #[trigger] self.l2_entry(j, k) == old(self).l2_entry(j, k) by {
                    if j != j0 {
                        assert(self.l1_entry(j) == mid.l1_entry(j));
                    } else {
                        assert(self.l2_tables@[idx as int].entries()[k] == 0);
                    }
                }
            }
            idx
        } else {
            let l1_entry = self.l1_table.entry(l1_index);
            let l2_addr = l1_entry.addr();
            let ghost t0 = self.l2_slot_of(self.l1_table.entries()[j0]);
            assert(spec_is_valid(self.l1_table.entries()[j0]));
            let mut found_idx: Option<usize> = None;
            let mut i: usize = 0;
            while i < self.l2_count
                invariant_except_break
                    found_idx.is_none(),
                    forall|m: int| 0 <= m < i ==> #[trigger] self.l2_addr(m) != l2_addr,
                invariant
                    *self == mid,
                    self.wf(),
                    i <= self.l2_count,
                    l2_addr == self.l2_addr(t0),
                    0 <= t0 < self.l2_count,
                    forall|t: int| 0 <= t < IDENTITY_L2_TABLES ==> #[trigger] self.l2_addr(t) == self.base() + (2 + t) * 4096,
                ensures
                    *self == mid,
                    found_idx.is_some() ==> found_idx.unwrap() == t0,
                    found_idx.is_none() ==> forall|m: int| 0 <= m < self.l2_count ==> #[trigger] self.l2_addr(m) != l2_addr,
                decreases self.l2_count - i,
            {
                if self.l2_tables[i].addr() == l2_addr {
                    found_idx = Some(i);
                    break;
                }
                i = i + 1;
            }
            match found_idx {
                Some(idx) => idx,
                None => {
                    assert(self.l2_addr(t0) != l2_addr);
                    return;
                },
            }
        };
        let ghost pre = *self;
        self.l2_tables[l2_table_idx].set_entry(l2_index, S2PageTableEntry::block(addr, attrs));
        proof {
            let t = l2_table_idx as int;
            assert(self.l2_slot_of(self.l1_entry(j0)) == t);
            assert forall|j: int, k: int| 0 <= j < ENTRIES && 0 <= k < ENTRIES && !(j == j0 && k == k0)
                implies #[trigger] self.l2_entry(j, k) == pre.l2_entry(j, k) by {
                if spec_is_valid(self.l1_entry(j)) && j != j0 {
                    assert(spec_is_valid(self.l1_table.entries()[j]));
                    assert(self.l1_entry(j) != self.l1_entry(j0));
                }
            }
        }
    }
}


/// Number of 2 MiB blocks covering `size` bytes.
pub open spec fn spec_num_blocks(size: u64) -> int {
    (size + BLOCK_MASK_2MB) / (BLOCK_SIZE_2MB as int)
}

/// Start address of the `k`-th 2 MiB block of a region starting at `start`.
pub open spec fn spec_block_addr(start: u64, k: int) -> u64 {
    (start + k * BLOCK_SIZE_2MB) as u64
}

/// Blocks `k` and `m` of a region land in the same L1/L2 slots.
pub open spec fn same_slot(start: u64, k: int, m: int) -> bool {
    &&& spec_index(spec_block_addr(start, k), 30) == spec_index(spec_block_addr(start, m), 30)
    &&& spec_index(spec_block_addr(start, k), 21) == spec_index(spec_block_addr(start, m), 21)
}

impl IdentityMapper {
    /// Outcome of mapping block `k` of a region, given the blocks mapped so
    /// far (`n` of them): the block descriptor is in place, a later block of
    /// the region took the same slot, or the block was dropped because all
    /// level-2 tables were in use.
    pub open spec fn block_outcome(&self, start: u64, attrs: u64, k: int, n: int) -> bool {
        let a = spec_block_addr(start, k);
        let j = spec_index(a, 30) as int;
        let m = spec_index(a, 21) as int;
        ||| self.l2_entry(j, m) == spec_block_desc(a, attrs)
        ||| exists|k2: int| k < k2 < n && #[trigger] same_slot(start, k, k2)
        ||| (!spec_is_valid(self.l1_entry(j)) && self.spec_l2_count() == IDENTITY_L2_TABLES)
    }

    /// Identity-map `[start, start + size)` with 2 MiB blocks.
    ///
    /// Blocks that need a fifth level-2 table are silently skipped; a block
    /// whose slot is reused by a later block of the region (512 GiB apart)
    /// is replaced by it.
    pub fn map_region(&mut self, start: u64, size: u64, attrs: MemoryAttributes)
        requires
            old(self).wf(),
            attrs.wf(),
            size as int + BLOCK_SIZE_2MB <= u64::MAX,
            spec_num_blocks(size) == 0 || start + (spec_num_blocks(size) - 1) * BLOCK_SIZE_2MB <= u64::MAX,
        ensures
            final(self).wf(),
            final(self).base() == old(self).base(),
            forall|k: int| 0 <= k < spec_num_blocks(size)
                ==> #[trigger] final(self).block_outcome(start, attrs@, k, spec_num_blocks(size)),
            forall|k: int| 0 <= k < spec_num_blocks(size)
                ==> #[trigger] final(self).l0_valid(spec_index(spec_block_addr(start, k), 39) as int),
    {
        let num_blocks = (size + BLOCK_SIZE_2MB - 1) / BLOCK_SIZE_2MB;
        assert(num_blocks == spec_num_blocks(size));
        let mut i: u64 = 0;
        while i < num_blocks
            invariant
                self.wf(),
                self.base() == old(self).base(),
                attrs.wf(),
                i <= num_blocks,
                num_blocks == spec_num_blocks(size),
                num_blocks == 0 || start + (num_blocks - 1) * BLOCK_SIZE_2MB <= u64::MAX,
                forall|k: int| 0 <= k < i ==> #[trigger] self.block_outcome(start, attrs@, k, i as int),
                forall|k: int| 0 <= k < i ==> #[trigger] self.l0_valid(spec_index(spec_block_addr(start, k), 39) as int),
            decreases num_blocks - i,
        {
            assert(i * BLOCK_SIZE_2MB <= (num_blocks - 1) * BLOCK_SIZE_2MB) by (nonlinear_arith)
                requires i < num_blocks;
            let addr = start + i * BLOCK_SIZE_2MB;
            assert(addr == spec_block_addr(start, i as int));
            let ghost pre = *self;
            self.map_2mb_block(addr, attrs);
            proof {
                let n = i as int;
                let j0 = spec_index(addr, 30) as int;
                let k0 = spec_index(addr, 21) as int;
                assert forall|k: int| 0 <= k < n + 1 implies #[trigger] self.block_outcome(start, attrs@, k, n + 1) by {
                    if k == n {
                        assert(spec_block_addr(start, k) == addr);
                        if !spec_is_valid(pre.l1_entry(j0)) && pre.spec_l2_count() >= IDENTITY_L2_TABLES {
                            assert(self.l1_entry(j0) == pre.l1_entry(j0)) by { lemma_index_bound(addr, 30); }
                        }
                    } else {
                        assert(pre.block_outcome(start, attrs@, k, n));
                        let a = spec_block_addr(start, k);
                        let j = spec_index(a, 30) as int;
                        let m = spec_index(a, 21) as int;
                        if same_slot(start, k, n) {
                        } else if exists|k2: int| k < k2 < n && #[trigger] same_slot(start, k, k2) {
                            let k2 = choose|k2: int| k < k2 < n && #[trigger] same_slot(start, k, k2);
                            assert(k < k2 < n + 1 && same_slot(start, k, k2));
                        } else if pre.l2_entry(j, m) == spec_block_desc(a, attrs@) {
                            assert(!(j == j0 && m == k0));
                            assert(0 <= j < ENTRIES && 0 <= m < ENTRIES) by {
                                lemma_index_bound(a, 30);
                                lemma_index_bound(a, 21);
                            }
                            assert(self.l2_entry(j, m) == pre.l2_entry(j, m));
                        } else {
                            assert(!spec_is_valid(pre.l1_entry(j)) && pre.spec_l2_count() == IDENTITY_L2_TABLES);
                            assert(0 <= j < ENTRIES) by { lemma_index_bound(a, 30); }
                            if j == j0 {
                                assert(!spec_is_valid(pre.l1_entry(j0)) && pre.spec_l2_count() >= IDENTITY_L2_TABLES);
                            }
                            assert(self.l1_entry(j) == pre.l1_entry(j));
                        }
                    }
                }
                assert forall|k: int| 0 <= k < n + 1 implies #[trigger] self.l0_valid(spec_index(spec_block_addr(start, k), 39) as int) by {
                    lemma_index_bound(spec_block_addr(start, k), 39);
                    if k < n {
                        assert(pre.l0_valid(spec_index(spec_block_addr(start, k), 39) as int));
                    } else {
                        assert(spec_block_addr(start, k) == addr);
                    }
                }
            }
            i = i + 1;
        }
    }

    /// Stage-2 configuration rooted at this mapper's L0 table.
    pub fn config(&self) -> (r: Stage2Config)
        ensures
            r.vtcr == spec_vtcr(),
            r.vttbr == self.base() & 0x0000_FFFF_FFFF_FFFE,
    {
        Stage2Config::new(self.l0_table.addr())
    }

    /// Address of the L0 table (the initial lookup level).
    pub fn l0_addr(&self) -> (r: u64)
        ensures
            r == self.base(),
    {
        self.l0_table.addr()
    }
}


/// Register values that switch Stage-2 translation on.
pub struct Stage2Enable {
    /// HCR_EL2 with VM set.
    pub hcr: u64,
    /// VTTBR_EL2 / VTCR_EL2.
    pub config: Stage2Config,
}

/// Turn Stage-2 translation on with `config`, given the current HCR_EL2
/// value (all Stage-2 TLB entries are to be invalidated afterwards).
pub fn init_stage2_from_config(config: &Stage2Config, hcr: u64) -> (r: Stage2Enable)
    ensures
        r.hcr == hcr | HCR_VM,
        r.config == *config,
{
    Stage2Enable { hcr: hcr | HCR_VM, config: Stage2Config { vttbr: config.vttbr, vtcr: config.vtcr } }
}

/// Turn Stage-2 translation on for the tables of `mapper`.
pub fn init_stage2(mapper: &IdentityMapper, hcr: u64) -> (r: Stage2Enable)
    ensures
        r.hcr == hcr | HCR_VM,
        r.config.vtcr == spec_vtcr(),
        r.config.vttbr == mapper.base() & 0x0000_FFFF_FFFF_FFFE,
{
    let config = mapper.config();
    init_stage2_from_config(&config, hcr)
}

/// Memory attribute selector of the dynamic mapper.
#[derive(Clone, Copy, Debug, PartialEq, Eq, Structural)]
pub enum MemoryAttribute {
    /// Normal memory, write-back cacheable.
    Normal,
    /// Device memory (MMIO).
    Device,
    /// Read-only normal memory.
    ReadOnly,
    /// Read-only device memory.
    DeviceReadOnly,
}

/// Descriptor attribute bits (MemAttr[5:2], S2AP[7:6], SH[9:8], AF[10]) of a selector.
pub open spec fn spec_attr_bits(attr: MemoryAttribute) -> u64 {
    match attr {
        MemoryAttribute::Normal => 0x7FC,
        MemoryAttribute::Device => 0x4C0,
        MemoryAttribute::ReadOnly => 0x77C,
        MemoryAttribute::DeviceReadOnly => 0x440,
    }
}

fn attr_bits(attr: MemoryAttribute) -> (r: u64)
    ensures
        r == spec_attr_bits(attr),
{
    match attr {
        // MemAttr 0b1111, S2AP RW, SH inner, AF
        MemoryAttribute::Normal => 0x7FC,
        // MemAttr Device-nGnRnE, S2AP RW, SH none, AF
        MemoryAttribute::Device => 0x4C0,
        // MemAttr 0b1111, S2AP RO, SH inner, AF
        MemoryAttribute::ReadOnly => 0x77C,
        // MemAttr Device-nGnRnE, S2AP RO, SH none, AF
        MemoryAttribute::DeviceReadOnly => 0x440,
    }
}

/// 2 MiB block descriptor for `pa`.
pub open spec fn spec_dyn_block(pa: u64, attr: MemoryAttribute) -> u64 {
    (pa & !BLOCK_MASK_2MB) | spec_attr_bits(attr) | PTE_VALID
}

/// 4 KiB page descriptor for `pa`.
pub open spec fn spec_dyn_page(pa: u64, attr: MemoryAttribute) -> u64 {
    (pa & !PAGE_MASK_4KB) | spec_attr_bits(attr) | PTE_TABLE | PTE_VALID
}

/// Block descriptors are valid leaves; page descriptors are valid with bit 1 set.
pub proof fn lemma_dyn_desc_kinds(pa: u64, attr: MemoryAttribute)
    ensures
        spec_is_valid(spec_dyn_block(pa, attr)),
        spec_dyn_block(pa, attr) & PTE_TABLE == 0,
        !spec_is_table(spec_dyn_block(pa, attr)),
        spec_is_valid(spec_dyn_page(pa, attr)),
        spec_dyn_page(pa, attr) & PTE_TABLE != 0,
{
    let b = spec_attr_bits(attr);
    lemma_desc_bits(0);
    assert(b & 3 == 0 && b < 0x800);
    lemma_leaf_bits(pa, b);
}

/// The type bits of a block or page descriptor built from attribute bits `b`
/// whose two low bits are clear.
proof fn lemma_leaf_bits(pa: u64, b: u64)
    by (bit_vector)
    requires
        b & 3 == 0,
    ensures
        ((pa & !0x1F_FFFFu64) | b | 1u64) & 1u64 != 0,
        ((pa & !0x1F_FFFFu64) | b | 1u64) & 2u64 == 0,
        ((pa & !0x1F_FFFFu64) | b | 1u64) & (1u64 | 2u64) != (1u64 | 2u64),
        ((pa & !0xFFFu64) | b | 2u64 | 1u64) & 1u64 != 0,
        ((pa & !0xFFFu64) | b | 2u64 | 1u64) & 2u64 != 0,
{
}

/// Number of level-2 tables a `DynamicIdentityMapper` may create.
pub const DYN_L2_TABLES: usize = 4;

/// Identity mapper whose tables live in a `TableStore`: L0[0] → L1 →
/// level-2 tables of 2 MiB blocks, split into level-3 tables of 4 KiB pages
/// on demand.
pub struct DynamicIdentityMapper {
    l0_table: u64,
    l1_table: u64,
    l2_tables: [u64; 4],
    l2_count: usize,
}

impl DynamicIdentityMapper {
    /// Address of the L0 table.
    pub closed spec fn l0(&self) -> u64 {
        self.l0_table
    }

    /// Address of the L1 table.
    pub closed spec fn l1(&self) -> u64 {
        self.l1_table
    }

    /// Number of level-2 tables created.
    pub closed spec fn l2_used(&self) -> int {
        self.l2_count as int
    }

    /// The mapper's tables are in `store`: L0 at level 0 whose slot 0 links L1.
    pub closed spec fn wf(&self, store: &TableStore) -> bool {
        &&& store.wf()
        &&& store.table_of(self.l0_table).is_some()
        &&& store.level(store.table_of(self.l0_table).unwrap()) == 0
        &&& store.table_of(self.l1_table).is_some()
        &&& store.level(store.table_of(self.l1_table).unwrap()) == 1
        &&& store.entry(store.table_of(self.l0_table).unwrap(), 0) == spec_table_desc(self.l1_table)
        &&& self.l2_count <= DYN_L2_TABLES
    }

    /// The mapper's root is a level-0 table of a well-formed store.
    pub proof fn lemma_root(&self, store: &TableStore)
        requires
            self.wf(store),
        ensures
            store.wf(),
            store.table_of(self.l0()).is_some(),
            store.level(store.table_of(self.l0()).unwrap()) == 0,
    {
    }

    /// The L0 table index.
    pub open spec fn t0(&self, store: &TableStore) -> int {
        store.table_of(self.l0()).unwrap()
    }

    /// The L1 table index.
    pub open spec fn t1(&self, store: &TableStore) -> int {
        store.table_of(self.l1()).unwrap()
    }

    /// Allocate the L0 and L1 tables and link L0[0] to L1.
    pub fn new(store: &mut TableStore) -> (r: Self)
        requires
            old(store).wf(),
            old(store).capacity() - old(store).count() >= 2,
        ensures
            r.wf(final(store)),
            r.l2_used() == 0,
            final(store).count() == old(store).count() + 2,
            r.t0(final(store)) == old(store).count(),
            r.t1(final(store)) == old(store).count() + 1,
            forall|i: int| 1 <= i < ENTRIES ==> #[trigger] final(store).entry(r.t0(final(store)), i) == 0,
            forall|i: int| 0 <= i < ENTRIES ==> #[trigger] final(store).entry(r.t1(final(store)), i) == 0,
            forall|u: int, j: int| 0 <= u < old(store).count() && 0 <= j < ENTRIES
                ==> #[trigger] final(store).entry(u, j) == old(store).entry(u, j),
            forall|u: int| 0 <= u < old(store).count() ==> #[trigger] final(store).level(u) == old(store).level(u),
            final(store).tlb_ops() == old(store).tlb_ops(),
    {
        let ghost c: int = old(store).count() as int;
        let l0 = store.alloc_table(Ghost(0)).unwrap();
        assert(l0 == store.addr_of(c));
        let l1 = store.alloc_table(Ghost(1)).unwrap();
        assert(l1 == store.addr_of(c + 1));
        proof {
            assert(store.capacity() == old(store).capacity());
            assert(c + 1 < store.capacity());
            store.lemma_addr(c);
            store.lemma_addr(c + 1);
        }
        let t0 = store.table_at(l0).unwrap();
        let desc = l1 | (PTE_VALID | PTE_TABLE);
        assert(desc == spec_table_desc(l1)) by {
            lemma_desc_bits(l1);
            assert(spec_table_desc(store.addr_of(c + 1)) == store.addr_of(c + 1) | 3);
        }
        proof {
            assert(t0 == c);
            assert(store.target(desc) == c + 1);
            assert(store.level(c) == 0);
            assert(store.level(c + 1) == 1);
            assert(desc == spec_table_desc(store.addr_of(c + 1)));
            old(store).lemma_wf();
            assert forall|u: int, j: int| 0 <= u < store.count() && 0 <= j < ENTRIES && !(u == t0 && j == 0)
                && store.level(u) < 3 && spec_is_table(#[trigger] store.entry(u, j))
                implies store.target(store.entry(u, j)) != c + 1 by {
                if u < c {
                    assert(store.entry(u, j) == old(store).entry(u, j));
                    assert(store.level(u) == old(store).level(u));
                } else {
                    assert(store.entry(u, j) == 0);
                    lemma_desc_bits(0);
                }
            }
        }
        store.write(t0, 0, desc);
        DynamicIdentityMapper { l0_table: l0, l1_table: l1, l2_tables: [0; 4], l2_count: 0 }
    }

    /// VTTBR value (the L0 table address).
    pub fn vttbr(&self) -> (r: u64)
        ensures
            r == self.l0(),
    {
        self.l0_table
    }

    /// Stage-2 configuration rooted at the L0 table.
    pub fn config(&self) -> (r: Stage2Config)
        ensures
            r.vtcr == spec_vtcr(),
            r.vttbr == self.l0() & 0x0000_FFFF_FFFF_FFFE,
    {
        Stage2Config::new(self.l0_table)
    }

    /// Root table address.
    pub fn root_table_addr(&self) -> (r: u64)
        ensures
            r == self.l0(),
    {
        self.l0_table
    }

    /// A 2 MiB block descriptor for `pa`.
    fn make_block_entry(&self, pa: u64, attr: MemoryAttribute) -> (r: u64)
        ensures
            r == spec_dyn_block(pa, attr),
    {
        (pa & !BLOCK_MASK_2MB) | attr_bits(attr) | PTE_VALID
    }

    /// A 4 KiB page descriptor for `pa`.
    fn make_page_entry(&self, pa: u64, attr: MemoryAttribute) -> (r: u64)
        ensures
            r == spec_dyn_page(pa, attr),
    {
        (pa & !PAGE_MASK_4KB) | attr_bits(attr) | PTE_TABLE | PTE_VALID
    }
}


/// Largest IPA (exclusive) that the mapper's single L0 slot covers.
pub const DYN_IPA_LIMIT: u64 = 0x80_0000_0000;

/// Two addresses below 2^39 with the same L1 and L2 indices lie in the same 2 MiB block.
pub proof fn lemma_same_l1_l2_index(a: u64, b: u64)
    requires
        a < DYN_IPA_LIMIT,
        b < DYN_IPA_LIMIT,
        spec_index(a, 30) == spec_index(b, 30),
        spec_index(a, 21) == spec_index(b, 21),
    ensures
        a / 0x20_0000 == b / 0x20_0000,
{
    lemma_same_l1_l2_shift(a, b);
}

proof fn lemma_same_l1_l2_shift(a: u64, b: u64)
    by (bit_vector)
    requires
        a < 0x80_0000_0000u64,
        b < 0x80_0000_0000u64,
        (a >> 30u64) & 0x1FFu64 == (b >> 30u64) & 0x1FFu64,
        (a >> 21u64) & 0x1FFu64 == (b >> 21u64) & 0x1FFu64,
    ensures
        a / 0x20_0000u64 == b / 0x20_0000u64,
{
}

/// An address below 2^39 selects L0 slot 0.
pub proof fn lemma_l0_index_zero(a: u64)
    by (bit_vector)
    requires
        a < DYN_IPA_LIMIT,
    ensures
        spec_index(a, 39) == 0,
{
}

/// Clearing the offset bits of a table descriptor gives back the table address.
proof fn lemma_desc_page_addr(a: u64)
    by (bit_vector)
    requires
        a % 4096 == 0,
    ensures
        (a | 3u64) & !0xFFFu64 == a,
{
}

impl DynamicIdentityMapper {
    /// The descriptor for `ipa` is the block `v`, in a level-2 table linked from
    /// the L1 table.
    pub open spec fn block_mapped(&self, store: &TableStore, ipa: u64, v: u64) -> bool {
        let e1 = store.entry(self.t1(store), spec_index(ipa, 30) as int);
        let t2 = store.target(e1);
        &&& spec_is_table(e1)
        &&& 0 <= t2 < store.count()
        &&& store.level(t2) == 2
        &&& e1 == spec_table_desc(store.addr_of(t2))
        &&& store.entry(t2, spec_index(ipa, 21) as int) == v
    }

    /// What well-formedness gives callers.
    pub proof fn lemma_wf(&self, store: &TableStore)
        requires
            self.wf(store),
        ensures
            store.wf(),
            store.table_of(self.l0()) == Some(self.t0(store)),
            store.table_of(self.l1()) == Some(self.t1(store)),
            0 <= self.t0(store) < store.count(),
            0 <= self.t1(store) < store.count(),
            store.level(self.t0(store)) == 0,
            store.level(self.t1(store)) == 1,
            self.l0() == store.addr_of(self.t0(store)),
            self.l1() == store.addr_of(self.t1(store)),
            store.entry(self.t0(store), 0) == spec_table_desc(store.addr_of(self.t1(store))),
            0 <= self.l2_used() <= DYN_L2_TABLES,
    {
        store.lemma_wf();
    }

    /// A block that is in place is what the walk for `ipa` finds.
    pub proof fn lemma_block_mapped_leaf(&self, store: &TableStore, ipa: u64, v: u64)
        requires
            self.wf(store),
            self.block_mapped(store, ipa, v),
            ipa < DYN_IPA_LIMIT,
            spec_is_valid(v),
            v & PTE_TABLE == 0,
        ensures
            store.leaf(self.l0(), ipa) == Some(v),
    {
        self.lemma_wf(store);
        lemma_l0_index_zero(ipa);
        let t1 = self.t1(store);
        let t2 = store.target(store.entry(t1, spec_index(ipa, 30) as int));
        store.lemma_walk_l2_block(self.l0(), ipa, t1, t2);
    }

    /// The level-2 table linked from L1 slot `l1_idx`, created (zeroed, and
    /// linked) when the slot holds no table descriptor yet.
    fn get_or_create_l2(&mut self, store: &mut TableStore, l1_idx: usize) -> (r: Result<u64, &'static str>)
        requires
            old(self).wf(old(store)),
            l1_idx < ENTRIES,
        ensures
            final(self).wf(final(store)),
            final(self).l0() == old(self).l0(),
            final(self).l1() == old(self).l1(),
            final(self).t0(final(store)) == old(self).t0(old(store)),
            final(self).t1(final(store)) == old(self).t1(old(store)),
            final(store).tlb_ops() == old(store).tlb_ops(),
            final(store).base() == old(store).base(),
            final(store).capacity() == old(store).capacity(),
            final(store).count() >= old(store).count(),
            forall|u: int| 0 <= u < old(store).count() ==> #[trigger] final(store).level(u) == old(store).level(u),
            forall|u: int, j: int| 0 <= u < old(store).count() && 0 <= j < ENTRIES
                && !(u == old(self).t1(old(store)) && j == l1_idx)
                ==> #[trigger] final(store).entry(u, j) == old(store).entry(u, j),
            r is Err ==> r == Err::<u64, &'static str>("Too many L2 tables")
                || r == Err::<u64, &'static str>("Failed to allocate L2 table"),
            spec_is_table(old(store).entry(old(self).t1(old(store)), l1_idx as int)) ==> {
                &&& *final(store) == *old(store)
                &&& *final(self) == *old(self)
                &&& r == Ok::<u64, &'static str>(old(store).entry(old(self).t1(old(store)), l1_idx as int) & !0xFFFu64)
            },
            !spec_is_table(old(store).entry(old(self).t1(old(store)), l1_idx as int)) ==> {
                &&& old(self).l2_used() >= DYN_L2_TABLES ==> r == Err::<u64, &'static str>("Too many L2 tables")
                &&& old(self).l2_used() < DYN_L2_TABLES && old(store).count() == old(store).capacity()
                    ==> r == Err::<u64, &'static str>("Failed to allocate L2 table")
                &&& old(self).l2_used() < DYN_L2_TABLES && old(store).count() < old(store).capacity() ==> {
                    &&& r is Ok
                    &&& final(self).l2_used() == old(self).l2_used() + 1
                    &&& final(store).count() == old(store).count() + 1
                    &&& forall|j: int| 0 <= j < ENTRIES ==> #[trigger] final(store).entry(old(store).count() as int, j) == 0
                    &&& r->Ok_0 == old(store).addr_of(old(store).count() as int)
                }
                &&& r is Err ==> *final(store) == *old(store) && *final(self) == *old(self)
            },
            r is Ok ==> {
                let t2 = final(store).target(spec_table_desc(r->Ok_0));
                &&& final(store).table_of(r->Ok_0) == Some(t2)
                &&& r->Ok_0 == final(store).addr_of(t2)
                &&& final(store).level(t2) == 2
                &&& final(store).entry(final(self).t1(final(store)), l1_idx as int) == spec_table_desc(r->Ok_0)
            },
    {
        proof {
            self.lemma_wf(store);
            store.lemma_wf();
        }
        let ghost t1g = self.t1(store);
        let t1 = store.table_at(self.l1_table).unwrap();
        let l1_entry = store.read(t1, l1_idx);
        if l1_entry & (PTE_VALID | PTE_TABLE) == (PTE_VALID | PTE_TABLE) {
            proof {
                store.lemma_wf();
                assert(spec_is_table(store.entry(t1g, l1_idx as int)));
                let t2 = store.target(l1_entry);
                store.lemma_addr(t2);
                lemma_desc_page_addr(store.addr_of(t2));
            }
            return Ok(l1_entry & !PAGE_OFFSET_MASK);
        }
        if self.l2_count >= 4 {
            return Err("Too many L2 tables");
        }
        let ghost c: int = store.count() as int;
        let l2 = match store.alloc_table(Ghost(2)) {
            Some(a) => a,
            None => { return Err("Failed to allocate L2 table"); },
        };
        proof {
            store.lemma_addr(c);
            store.lemma_addr(self.t0(old(store)));
            store.lemma_addr(t1g);
        }
        self.l2_tables[self.l2_count] = l2;
        self.l2_count = self.l2_count + 1;
        let desc = l2 | (PTE_VALID | PTE_TABLE);
        assert(desc == spec_table_desc(l2)) by {
            lemma_desc_bits(l2);
        }
        proof {
            old(store).lemma_wf();
            assert forall|u: int, j: int| 0 <= u < store.count() && 0 <= j < ENTRIES && !(u == t1 && j == l1_idx)
                && store.level(u) < 3 && spec_is_table(#[trigger] store.entry(u, j))
                implies store.target(store.entry(u, j)) != c by {
                if u < c {
                    assert(store.entry(u, j) == old(store).entry(u, j));
                    assert(store.level(u) == old(store).level(u));
                } else {
                    assert(store.entry(u, j) == 0);
                    lemma_desc_bits(0);
                }
            }
        }
        store.write(t1, l1_idx, desc);
        proof {
            store.lemma_addr(c);
        }
        Ok(l2)
    }
}


/// `a` uses the L1 and L2 slots of one of the blocks of `[ipa, ipa + size)`.
pub open spec fn map_clash(ipa: u64, size: u64, a: u64) -> bool {
    exists|k: int| 0 <= k < spec_num_blocks(size)
        && spec_index(a, 30) == spec_index(#[trigger] spec_block_addr(ipa, k), 30)
        && spec_index(a, 21) == spec_index(spec_block_addr(ipa, k), 21)
}

/// Distinct blocks of a region below 2^39 lie in distinct 2 MiB frames.
proof fn lemma_blocks_distinct(ipa: u64, size: u64, j: int, k: int)
    requires
        ipa + size <= DYN_IPA_LIMIT,
        0 <= j < k,
        k * BLOCK_SIZE_2MB < size,
    ensures
        spec_block_addr(ipa, j) < DYN_IPA_LIMIT,
        spec_block_addr(ipa, k) < DYN_IPA_LIMIT,
        spec_block_addr(ipa, j) / 0x20_0000 != spec_block_addr(ipa, k) / 0x20_0000,
{
    assert(j * 0x20_0000 < k * 0x20_0000) by (nonlinear_arith)
        requires 0 <= j < k;
    let a = ipa + j * 0x20_0000;
    let b = ipa + k * 0x20_0000;
    assert(b - a >= 0x20_0000) by (nonlinear_arith)
        requires a == ipa + j * 0x20_0000, b == ipa + k * 0x20_0000, j < k;
    assert(a / 0x20_0000 < b / 0x20_0000) by (nonlinear_arith)
        requires b - a >= 0x20_0000, a >= 0;
}

impl DynamicIdentityMapper {
    /// Identity-map `[ipa, ipa + size)` with 2 MiB blocks of kind `attr`,
    /// creating level-2 tables as needed.
    pub fn map_region(&mut self, store: &mut TableStore, ipa: u64, size: u64, attr: MemoryAttribute)
        -> (r: Result<(), &'static str>)
        requires
            old(self).wf(old(store)),
            ipa + size <= u64::MAX,
            size <= u64::MAX - BLOCK_SIZE_2MB,
        ensures
            final(self).wf(final(store)),
            final(self).l0() == old(self).l0(),
            final(store).tlb_ops() == old(store).tlb_ops(),
            r is Err ==> r == Err::<(), &'static str>("Too many L2 tables")
                || r == Err::<(), &'static str>("Failed to allocate L2 table"),
            r is Err ==> exists|k: int| 0 <= k < spec_num_blocks(size)
                && !spec_is_table(old(store).entry(old(self).t1(old(store)), spec_index(#[trigger] spec_block_addr(ipa, k), 30) as int)),
            r is Ok && ipa + size <= DYN_IPA_LIMIT ==> forall|k: int| 0 <= k < spec_num_blocks(size)
                ==> #[trigger] final(store).leaf(final(self).l0(), spec_block_addr(ipa, k))
                    == Some(spec_dyn_block(spec_block_addr(ipa, k), attr)),
            r is Ok && ipa + size <= DYN_IPA_LIMIT ==> forall|k: int| 0 <= k < spec_num_blocks(size)
                ==> #[trigger] final(self).block_mapped(final(store), spec_block_addr(ipa, k),
                    spec_dyn_block(spec_block_addr(ipa, k), attr)),
            r is Ok ==> forall|a: u64, v: u64| #[trigger] old(self).block_mapped(old(store), a, v)
                && !map_clash(ipa, size, a) ==> final(self).block_mapped(final(store), a, v),
    {
        let ghost fits: bool = ipa + size <= DYN_IPA_LIMIT;
        let ghost t1: int = self.t1(store);
        let mut offset: u64 = 0;
        let ghost mut k: int = 0;
        proof { self.lemma_wf(store); }
        while offset < size
            invariant
                self.wf(store),
                self.l0() == old(self).l0(),
                self.l1() == old(self).l1(),
                self.t1(store) == t1,
                t1 == old(self).t1(old(store)),
                store.tlb_ops() == old(store).tlb_ops(),
                ipa + size <= u64::MAX,
                size <= u64::MAX - BLOCK_SIZE_2MB,
                fits == (ipa + size <= DYN_IPA_LIMIT),
                offset == k * BLOCK_SIZE_2MB,
                0 <= k,
                k == 0 || (k - 1) * BLOCK_SIZE_2MB < size,
                forall|i: int| 0 <= i < ENTRIES && spec_is_table(#[trigger] old(store).entry(t1, i))
                    ==> store.entry(t1, i) == old(store).entry(t1, i),
                fits ==> forall|j: int| 0 <= j < k ==> #[trigger] self.block_mapped(store, spec_block_addr(ipa, j),
                    spec_dyn_block(spec_block_addr(ipa, j), attr)),
                forall|a: u64, v: u64| #[trigger] old(self).block_mapped(old(store), a, v)
                    && !map_clash(ipa, size, a) ==> self.block_mapped(store, a, v),
            decreases size + BLOCK_SIZE_2MB - offset,
        {
            let current_ipa = ipa + offset;
            assert(current_ipa == spec_block_addr(ipa, k));
            let l1_idx = table_index(current_ipa, 30);
            let ghost pre = *store;
            let ghost pre_self = *self;
            proof { self.lemma_wf(store); }
            let l2_table = match self.get_or_create_l2(store, l1_idx) {
                Ok(a) => a,
                Err(e) => {
                    proof {
                        assert(!spec_is_table(old(store).entry(t1, spec_index(spec_block_addr(ipa, k), 30) as int)));
                        assert(k * BLOCK_SIZE_2MB < size);
                        assert(k < spec_num_blocks(size)) by (nonlinear_arith)
                            requires k * 0x20_0000 < size, spec_num_blocks(size) == (size + 0x1F_FFFF) / 0x20_0000;
                    }
                    return Err(e);
                },
            };
            let ghost mid = *store;
            proof {
                self.lemma_wf(store);
                store.lemma_wf();
                assert forall|i: int| 0 <= i < ENTRIES && spec_is_table(#[trigger] old(store).entry(t1, i))
                    implies store.entry(t1, i) == old(store).entry(t1, i) by {
                    assert(pre.entry(t1, i) == old(store).entry(t1, i));
                }
            }
            let t2 = store.table_at(l2_table).unwrap();
            let l2_idx = table_index(current_ipa, 21);
            let entry = self.make_block_entry(current_ipa, attr);
            proof { lemma_dyn_desc_kinds(current_ipa, attr); }
            store.write(t2, l2_idx, entry);
            proof {
                self.lemma_wf(store);
                assert(store.entry(t1, l1_idx as int) == mid.entry(t1, l1_idx as int));
                if fits {
                    assert(k * BLOCK_SIZE_2MB < size);
                    assert forall|j: int| 0 <= j <= k implies #[trigger] self.block_mapped(store, spec_block_addr(ipa, j),
                        spec_dyn_block(spec_block_addr(ipa, j), attr)) by {
                        if j == k {
                            let a = l2_table;
                            let t2g = mid.target(spec_table_desc(a));
                            assert(mid.table_of(a) == Some(t2g));
                            assert(t2 as int == t2g);
                            assert(spec_index(current_ipa, 30) as int == l1_idx as int);
                            assert(spec_index(current_ipa, 21) as int == l2_idx as int);
                            assert(store.entry(t1, l1_idx as int) == spec_table_desc(a));
                            store.lemma_addr(t2g);
                            assert(store.level(t2g) == 2);
                            assert(store.entry(t2g, l2_idx as int) == entry);
                        } else {
                            let bj = spec_block_addr(ipa, j);
                            let i1j = spec_index(bj, 30) as int;
                            let i2j = spec_index(bj, 21) as int;
                            assert(pre_self.block_mapped(&pre, bj, spec_dyn_block(bj, attr)));
                            let e1 = pre.entry(t1, i1j);
                            let t2j = pre.target(e1);
                            lemma_index_bound(bj, 30);
                            lemma_index_bound(bj, 21);
                            assert(mid.entry(t1, i1j) == e1);
                            assert(mid.entry(t2j, i2j) == pre.entry(t2j, i2j));
                            assert(store.entry(t1, i1j) == e1);
                            if t2j == t2 as int && i2j == l2_idx as int {
                                assert(spec_is_table(mid.entry(t1, i1j)));
                                assert(spec_is_table(mid.entry(t1, l1_idx as int)));
                                if i1j != l1_idx as int {
                                    assert(mid.target(mid.entry(t1, i1j)) != mid.target(mid.entry(t1, l1_idx as int)));
                                }
                                lemma_blocks_distinct(ipa, size, j, k);
                                lemma_same_l1_l2_index(bj, current_ipa);
                            }
                        }
                    }
                }
            }
            proof {
                assert(k < spec_num_blocks(size)) by (nonlinear_arith)
                    requires k * 0x20_0000 < size, spec_num_blocks(size) == (size + 0x1F_FFFF) / 0x20_0000;
                assert forall|a: u64, v: u64| #[trigger] old(self).block_mapped(old(store), a, v)
                    && !map_clash(ipa, size, a) implies self.block_mapped(store, a, v) by {
                    assert(pre_self.block_mapped(&pre, a, v));
                    let i1a = spec_index(a, 30) as int;
                    let i2a = spec_index(a, 21) as int;
                    lemma_index_bound(a, 30);
                    lemma_index_bound(a, 21);
                    let e1 = pre.entry(t1, i1a);
                    let t2a = pre.target(e1);
                    assert(mid.entry(t1, i1a) == e1);
                    assert(mid.entry(t2a, i2a) == pre.entry(t2a, i2a));
                    assert(store.entry(t1, i1a) == e1);
                    if t2a == t2 as int && i2a == l2_idx as int {
                        assert(spec_is_table(mid.entry(t1, i1a)));
                        assert(spec_is_table(mid.entry(t1, l1_idx as int)));
                        if i1a != l1_idx as int {
                            assert(mid.target(mid.entry(t1, i1a)) != mid.target(mid.entry(t1, l1_idx as int)));
                        }
                        assert(spec_index(a, 30) == spec_index(spec_block_addr(ipa, k), 30));
                        assert(map_clash(ipa, size, a));
                    }
                }
            }
            offset = offset + BLOCK_SIZE_2MB;
            proof { k = k + 1; }
        }
        proof {
            if fits {
                assert(k == spec_num_blocks(size)) by (nonlinear_arith)
                    requires k * 0x20_0000 >= size, k == 0 || (k - 1) * 0x20_0000 < size,
                        spec_num_blocks(size) == (size + 0x1F_FFFF) / 0x20_0000, k >= 0;
                assert forall|j: int| 0 <= j < spec_num_blocks(size) implies
                    #[trigger] store.leaf(self.l0(), spec_block_addr(ipa, j))
                        == Some(spec_dyn_block(spec_block_addr(ipa, j), attr)) by {
                    assert(k == spec_num_blocks(size)) by (nonlinear_arith)
                        requires k * 0x20_0000 >= size, k == 0 || (k - 1) * 0x20_0000 < size,
                            spec_num_blocks(size) == (size + 0x1F_FFFF) / 0x20_0000, k >= 0;
                    assert(j * BLOCK_SIZE_2MB < size) by (nonlinear_arith)
                        requires j < k, (k - 1) * 0x20_0000 < size, j >= 0;
                    let bj = spec_block_addr(ipa, j);
                    assert(bj < DYN_IPA_LIMIT);
                    lemma_dyn_desc_kinds(bj, attr);
                    self.lemma_block_mapped_leaf(store, bj, spec_dyn_block(bj, attr));
                }
            }
        }
        Ok(())
    }
}


/// Page `i` of the level-3 table that replaces the 2 MiB block `e`: the
/// block's output address advanced by `i` pages, its attributes, and the
/// page/valid bits.
pub open spec fn spec_split_page(e: u64, i: int) -> u64 {
    (((e & !BLOCK_MASK_2MB) + i * PAGE_SIZE_4KB) as u64) | (e & BLOCK_MASK_2MB & !3u64) | PTE_TABLE | PTE_VALID
}

/// The two software bits [56:55] of a descriptor.
pub open spec fn spec_sw_bits(e: u64) -> u8 {
    ((e >> PTE_SW_SHIFT) & 3) as u8
}

/// Descriptor `e` with its software bits replaced by the low two bits of `bits`.
pub open spec fn spec_with_sw_bits(e: u64, bits: u8) -> u64 {
    (e & !PTE_SW_MASK) | (((bits as u64) & 3) << PTE_SW_SHIFT)
}

/// Writing the software bits leaves the low two bits alone, and reading them
/// back gives what was written.
pub proof fn lemma_sw_bits(e: u64, bits: u8)
    by (bit_vector)
    ensures
        spec_with_sw_bits(e, bits) & 3u64 == e & 3u64,
        spec_sw_bits(spec_with_sw_bits(e, bits)) == bits & 3,
{
}

impl DynamicIdentityMapper {
    /// Request invalidation of every Stage-2 TLB entry.
    fn tlbi_all(store: &mut TableStore)
        requires
            old(store).wf(),
        ensures
            final(store).wf(),
            final(store).tlb_ops() == old(store).tlb_ops().push(TlbOp::All),
            old(store).same_tables(final(store)),
    {
        store.tlbi(TlbOp::All);
    }

    /// Request invalidation of the Stage-2 TLB entries for `ipa` (the
    /// operand is the IPA's page number).
    fn tlbi_ipa(store: &mut TableStore, ipa: u64)
        requires
            old(store).wf(),
        ensures
            final(store).wf(),
            final(store).tlb_ops() == old(store).tlb_ops().push(TlbOp::Ipa((ipa >> 12u64) & 0x0000_00FF_FFFF_FFFF)),
            old(store).same_tables(final(store)),
    {
        store.tlbi(TlbOp::Ipa((ipa >> 12) & 0x0000_00FF_FFFF_FFFF));
    }

    /// Replace the 2 MiB block `block_entry` in slot `l2_idx` of the level-2
    /// table at `l2_table` by a new level-3 table of 512 pages with the same
    /// output addresses and attributes (break-before-make: the slot is
    /// cleared and the TLB flushed before the table descriptor goes in).
    fn split_2mb_block(&self, store: &mut TableStore, l2_table: u64, l2_idx: usize, block_entry: u64)
        -> (r: Result<u64, &'static str>)
        requires
            self.wf(old(store)),
            old(store).table_of(l2_table).is_some(),
            old(store).level(old(store).table_of(l2_table).unwrap()) == 2,
            l2_idx < ENTRIES,
            block_entry == old(store).entry(old(store).table_of(l2_table).unwrap(), l2_idx as int),
        ensures
            self.wf(final(store)),
            final(store).base() == old(store).base(),
            final(store).capacity() == old(store).capacity(),
            forall|u: int| 0 <= u < old(store).count() ==> #[trigger] final(store).level(u) == old(store).level(u),
            old(store).count() == old(store).capacity() ==> r == Err::<u64, &'static str>("Failed to allocate L3 table for split")
                && *final(store) == *old(store),
            old(store).count() < old(store).capacity() ==> {
                let c = old(store).count() as int;
                let t2 = old(store).table_of(l2_table).unwrap();
                &&& r == Ok::<u64, &'static str>(old(store).addr_of(c))
                &&& final(store).count() == c + 1
                &&& final(store).level(c) == 3
                &&& forall|i: int| 0 <= i < ENTRIES ==> #[trigger] final(store).entry(c, i) == spec_split_page(block_entry, i)
                &&& final(store).entry(t2, l2_idx as int) == spec_table_desc(old(store).addr_of(c))
                &&& forall|u: int, j: int| 0 <= u < c && 0 <= j < ENTRIES && !(u == t2 && j == l2_idx)
                    ==> #[trigger] final(store).entry(u, j) == old(store).entry(u, j)
                &&& final(store).tlb_ops() == old(store).tlb_ops().push(TlbOp::All).push(TlbOp::All)
            },
    {
        proof {
            self.lemma_wf(store);
            store.lemma_wf();
        }
        let block_pa = block_entry & !BLOCK_MASK_2MB;
        let block_attr_bits = block_entry & BLOCK_MASK_2MB & !0x3;
        let ghost c: int = store.count() as int;
        let ghost s0 = *store;
        let l3 = match store.alloc_table(Ghost(3)) {
            Some(a) => a,
            None => { return Err("Failed to allocate L3 table for split"); },
        };
        proof { store.lemma_addr(c); }
        let t3 = store.table_at(l3).unwrap();
        let ghost s1 = *store;
        proof { lemma_desc_bits(block_entry); }
        let mut i: u64 = 0;
        while i < 512
            invariant
                store.wf(),
                t3 as int == c,
                i <= 512,
                block_pa == block_entry & !BLOCK_MASK_2MB,
                block_attr_bits == block_entry & BLOCK_MASK_2MB & !3u64,
                block_pa <= 0xFFFF_FFFF_FFE0_0000u64,
                store.count() == c + 1,
                store.base() == s1.base(),
                store.capacity() == s1.capacity(),
                store.tlb_ops() == s1.tlb_ops(),
                store.level(c) == 3,
                forall|u: int| 0 <= u <= c ==> #[trigger] store.level(u) == s1.level(u),
                forall|u: int, j: int| 0 <= u < c && 0 <= j < ENTRIES ==> #[trigger] store.entry(u, j) == s1.entry(u, j),
                forall|j: int| 0 <= j < i ==> #[trigger] store.entry(c, j) == spec_split_page(block_entry, j),
            decreases 512 - i,
        {
            let pa = block_pa + i * PAGE_SIZE_4KB;
            let page = pa | block_attr_bits | PTE_TABLE | PTE_VALID;
            store.write(t3, i as usize, page);
            i = i + 1;
        }
        let t2 = store.table_at(l2_table).unwrap();
        proof {
            store.lemma_addr(c);
            store.lemma_addr(t2 as int);
            lemma_desc_bits(0);
        }
        store.write(t2, l2_idx, 0);
        Self::tlbi_all(store);
        let desc = l3 | PTE_VALID | PTE_TABLE;
        assert(desc == spec_table_desc(l3)) by {
            lemma_desc_bits(l3);
        }
        proof {
            store.lemma_wf();
            s0.lemma_wf();
            assert forall|u: int, j: int| 0 <= u < store.count() && 0 <= j < ENTRIES && !(u == t2 && j == l2_idx)
                && store.level(u) < 3 && spec_is_table(#[trigger] store.entry(u, j))
                implies store.target(store.entry(u, j)) != c by {
                if u < c {
                    assert(store.entry(u, j) == s0.entry(u, j));
                    assert(store.level(u) == s0.level(u));
                }
            }
        }
        store.write(t2, l2_idx, desc);
        Self::tlbi_all(store);
        proof { self.lemma_wf(&s0); }
        Ok(l3)
    }
}


impl DynamicIdentityMapper {
    /// The path for `ipa` runs L0[0] → L1 → the level-2 table `t2` → the
    /// level-3 table `t3`.
    pub open spec fn page_path(&self, store: &TableStore, ipa: u64, t2: int, t3: int) -> bool {
        &&& 0 <= t2 < store.count()
        &&& 0 <= t3 < store.count()
        &&& store.entry(self.t1(store), spec_index(ipa, 30) as int) == spec_table_desc(store.addr_of(t2))
        &&& store.entry(t2, spec_index(ipa, 21) as int) == spec_table_desc(store.addr_of(t3))
    }

    /// Map the 4 KiB page containing `ipa` to itself with kind `attr`. A
    /// 2 MiB block covering it is first split into 512 pages with the
    /// block's attributes; a missing level-3 table is created.
    pub fn map_4kb_page(&mut self, store: &mut TableStore, ipa: u64, attr: MemoryAttribute)
        -> (r: Result<(), &'static str>)
        requires
            old(self).wf(old(store)),
        ensures
            final(self).wf(final(store)),
            final(self).l0() == old(self).l0(),
            r is Err ==> r == Err::<(), &'static str>("Too many L2 tables")
                || r == Err::<(), &'static str>("Failed to allocate L2 table")
                || r == Err::<(), &'static str>("Failed to allocate L3 table for split")
                || r == Err::<(), &'static str>("Failed to allocate L3 table"),
            old(store).capacity() >= old(store).count() + 2
                && (old(self).l2_used() < DYN_L2_TABLES
                    || spec_is_table(old(store).entry(old(self).t1(old(store)), spec_index(ipa, 30) as int)))
                ==> r is Ok,
            r is Ok ==> final(store).tlb_ops().last() == TlbOp::Ipa((ipa >> 12u64) & 0x0000_00FF_FFFF_FFFF),
            r is Ok && ipa < DYN_IPA_LIMIT ==> final(store).leaf(final(self).l0(), ipa)
                == Some(spec_dyn_page(ipa & !PAGE_MASK_4KB, attr)),
    {
        proof {
            self.lemma_wf(store);
            store.lemma_wf();
        }
        let ghost t1: int = self.t1(store);
        let l1_idx = table_index(ipa, 30);
        let l2_table = match self.get_or_create_l2(store, l1_idx) {
            Ok(a) => a,
            Err(e) => { return Err(e); },
        };
        let ghost s1 = *store;
        proof {
            self.lemma_wf(store);
            store.lemma_wf();
        }
        let t2 = store.table_at(l2_table).unwrap();
        let l2_idx = table_index(ipa, 21);
        let l3_idx = table_index(ipa, 12);
        let l2_entry = store.read(t2, l2_idx);
        proof {
            store.lemma_addr(t2 as int);
            assert(store.entry(t1, l1_idx as int) == spec_table_desc(store.addr_of(t2 as int)));
        }
        let ghost mut t3g: int = 0;
        let l3_table = if l2_entry & PTE_VALID != 0 && l2_entry & PTE_TABLE == 0 {
            let ghost c: int = store.count() as int;
            let a = match self.split_2mb_block(store, l2_table, l2_idx, l2_entry) {
                Ok(a) => a,
                Err(e) => { return Err(e); },
            };
            proof {
                t3g = c;
                store.lemma_addr(c);
                assert(store.entry(t1, l1_idx as int) == s1.entry(t1, l1_idx as int));
            }
            a
        } else if l2_entry & (PTE_VALID | PTE_TABLE) == (PTE_VALID | PTE_TABLE) {
            proof {
                t3g = store.target(l2_entry);
                store.lemma_addr(t3g);
            }
            l2_entry & PTE_ADDR_MASK
        } else {
            let ghost c: int = store.count() as int;
            let l3 = match store.alloc_table(Ghost(3)) {
                Some(a) => a,
                None => { return Err("Failed to allocate L3 table"); },
            };
            proof {
                store.lemma_addr(c);
                store.lemma_addr(t2 as int);
                s1.lemma_wf();
            }
            let l3_desc = l3 | PTE_VALID | PTE_TABLE;
            assert(l3_desc == spec_table_desc(l3)) by {
                lemma_desc_bits(l3);
            }
            proof {
                assert forall|u: int, j: int| 0 <= u < store.count() && 0 <= j < ENTRIES && !(u == t2 && j == l2_idx)
                    && store.level(u) < 3 && spec_is_table(#[trigger] store.entry(u, j))
                    implies store.target(store.entry(u, j)) != c by {
                    if u < c {
                        assert(store.entry(u, j) == s1.entry(u, j));
                        assert(store.level(u) == s1.level(u));
                    } else {
                        assert(store.entry(u, j) == 0);
                        lemma_desc_bits(0);
                    }
                }
            }
            store.write(t2, l2_idx, l3_desc);
            proof {
                t3g = c;
                store.lemma_addr(c);
            }
            l3
        };
        proof {
            assert(store.table_of(l3_table) == Some(t3g));
            assert(store.level(t3g) == 3);
            assert(store.entry(t2 as int, l2_idx as int) == spec_table_desc(store.addr_of(t3g)));
            assert(store.entry(t1, l1_idx as int) == spec_table_desc(store.addr_of(t2 as int)));
        }
        let ghost s2 = *store;
        proof {
            self.lemma_wf(store);
            store.lemma_wf();
        }
        let t3 = store.table_at(l3_table).unwrap();
        proof {
            assert(self.page_path(store, ipa, t2 as int, t3 as int));
        }
        let page_entry = self.make_page_entry(ipa & !PAGE_MASK_4KB, attr);
        store.write(t3, l3_idx, page_entry);
        Self::tlbi_ipa(store, ipa);
        proof {
            self.lemma_wf(store);
            assert(self.page_path(store, ipa, t2 as int, t3 as int));
            lemma_dyn_desc_kinds(ipa & !PAGE_MASK_4KB, attr);
            if ipa < DYN_IPA_LIMIT {
                lemma_l0_index_zero(ipa);
                store.lemma_walk_l3_page(self.l0(), ipa, t1, t2 as int, t3 as int);
            }
        }
        Ok(())
    }
}


impl DynamicIdentityMapper {
    /// Descriptor in the L1 slot for `ipa`.
    pub open spec fn l1_desc(&self, store: &TableStore, ipa: u64) -> u64 {
        store.entry(self.t1(store), spec_index(ipa, 30) as int)
    }

    /// Descriptor in the L2 slot for `ipa`, below a table descriptor in L1.
    pub open spec fn l2_desc(&self, store: &TableStore, ipa: u64) -> u64 {
        store.entry(store.target(self.l1_desc(store, ipa)), spec_index(ipa, 21) as int)
    }

    /// Remove the 4 KiB mapping of `ipa` (its level-3 descriptor becomes
    /// invalid). A 2 MiB block covering it is first split into pages.
    pub fn unmap_4kb_page(&mut self, store: &mut TableStore, ipa: u64) -> (r: Result<(), &'static str>)
        requires
            old(self).wf(old(store)),
        ensures
            final(self).wf(final(store)),
            *final(self) == *old(self),
            !spec_is_table(old(self).l1_desc(old(store), ipa)) ==> r == Err::<(), &'static str>("L1 entry not valid")
                && *final(store) == *old(store),
            spec_is_table(old(self).l1_desc(old(store), ipa)) && !spec_is_valid(old(self).l2_desc(old(store), ipa))
                ==> r == Err::<(), &'static str>("L2 entry not valid") && *final(store) == *old(store),
            spec_is_table(old(self).l1_desc(old(store), ipa)) && spec_is_valid(old(self).l2_desc(old(store), ipa))
                && old(self).l2_desc(old(store), ipa) & PTE_TABLE == 0 && old(store).count() == old(store).capacity()
                ==> r == Err::<(), &'static str>("Failed to allocate L3 table for split") && *final(store) == *old(store),
            spec_is_table(old(self).l1_desc(old(store), ipa)) && spec_is_valid(old(self).l2_desc(old(store), ipa))
                && (old(self).l2_desc(old(store), ipa) & PTE_TABLE != 0 || old(store).count() < old(store).capacity())
                ==> r is Ok,
            r is Ok ==> final(store).tlb_ops().last() == TlbOp::Ipa((ipa >> 12u64) & 0x0000_00FF_FFFF_FFFF),
            r is Ok && ipa < DYN_IPA_LIMIT ==> final(store).leaf(final(self).l0(), ipa).is_none(),
    {
        proof {
            self.lemma_wf(store);
            store.lemma_wf();
        }
        let ghost t1g: int = self.t1(store);
        let t1 = store.table_at(self.l1_table).unwrap();
        let l1_idx = table_index(ipa, 30);
        let l1_entry = store.read(t1, l1_idx);
        if l1_entry & (PTE_VALID | PTE_TABLE) != (PTE_VALID | PTE_TABLE) {
            return Err("L1 entry not valid");
        }
        let ghost t2g: int = store.target(l1_entry);
        proof { store.lemma_addr(t2g); }
        let l2_table = l1_entry & PTE_ADDR_MASK;
        let t2 = store.table_at(l2_table).unwrap();
        let l2_idx = table_index(ipa, 21);
        let l2_entry = store.read(t2, l2_idx);
        let ghost s1 = *store;
        let ghost mut t3g: int = 0;
        let l3_table = if l2_entry & PTE_VALID != 0 && l2_entry & PTE_TABLE == 0 {
            let ghost c: int = store.count() as int;
            let a = match self.split_2mb_block(store, l2_table, l2_idx, l2_entry) {
                Ok(a) => a,
                Err(e) => { return Err(e); },
            };
            proof {
                t3g = c;
                store.lemma_addr(c);
                assert(store.entry(t1g, l1_idx as int) == s1.entry(t1g, l1_idx as int));
            }
            a
        } else if l2_entry & (PTE_VALID | PTE_TABLE) == (PTE_VALID | PTE_TABLE) {
            proof {
                t3g = store.target(l2_entry);
                store.lemma_addr(t3g);
            }
            l2_entry & PTE_ADDR_MASK
        } else {
            proof { crate::table_store::lemma_desc_bits(l2_entry); }
            return Err("L2 entry not valid");
        };
        proof {
            self.lemma_wf(store);
            store.lemma_wf();
            assert(store.table_of(l3_table) == Some(t3g));
            assert(store.level(t3g) == 3);
        }
        let t3 = store.table_at(l3_table).unwrap();
        let l3_idx = table_index(ipa, 12);
        store.write(t3, l3_idx, 0);
        Self::tlbi_ipa(store, ipa);
        proof {
            self.lemma_wf(store);
            assert(self.page_path(store, ipa, t2 as int, t3 as int));
            lemma_desc_bits(0);
            if ipa < DYN_IPA_LIMIT {
                lemma_l0_index_zero(ipa);
                store.lemma_walk_l3_page(self.l0(), ipa, t1g, t2 as int, t3 as int);
            }
        }
        Ok(())
    }

    /// Position (table, slot) of the leaf descriptor that translates `ipa`.
    fn walk_to_leaf_ptr(&self, store: &TableStore, ipa: u64) -> (r: Option<(usize, usize)>)
        requires
            self.wf(store),
        ensures
            match store.walk(self.l0(), ipa) {
                Some((t, i)) => r.is_some() && r.unwrap().0 as int == t && r.unwrap().1 as int == i
                    && 0 <= t < store.count() && 0 <= i < ENTRIES,
                None => r.is_none(),
            },
    {
        store.walk_leaf(self.l0_table, ipa)
    }

    /// The leaf descriptor that translates `ipa`.
    fn walk_to_leaf(&self, store: &TableStore, ipa: u64) -> (r: Option<u64>)
        requires
            self.wf(store),
        ensures
            r == store.leaf(self.l0(), ipa),
    {
        match self.walk_to_leaf_ptr(store, ipa) {
            Some((t, i)) => Some(store.read(t, i)),
            None => None,
        }
    }

    /// The software bits [56:55] of the leaf that translates `ipa`, or
    /// `None` when `ipa` is not mapped.
    pub fn read_sw_bits(&self, store: &TableStore, ipa: u64) -> (r: Option<u8>)
        requires
            self.wf(store),
        ensures
            match store.leaf(self.l0(), ipa) {
                Some(e) => r == Some(spec_sw_bits(e)),
                None => r.is_none(),
            },
    {
        match self.walk_to_leaf(store, ipa) {
            Some(pte) => Some(((pte >> PTE_SW_SHIFT) & 0x3) as u8),
            None => None,
        }
    }

    /// Set the software bits [56:55] of the leaf that translates `ipa` to
    /// the low two bits of `bits`; nothing else in the tables changes and no
    /// TLB maintenance is requested (the bits do not affect translation).
    pub fn write_sw_bits(&mut self, store: &mut TableStore, ipa: u64, bits: u8) -> (r: Result<(), &'static str>)
        requires
            old(self).wf(old(store)),
        ensures
            final(self).wf(final(store)),
            *final(self) == *old(self),
            final(store).tlb_ops() == old(store).tlb_ops(),
            old(store).leaf(old(self).l0(), ipa).is_none() ==> r == Err::<(), &'static str>("IPA not mapped")
                && *final(store) == *old(store),
            old(store).leaf(old(self).l0(), ipa).is_some() ==> {
                let (t, i) = old(store).walk(old(self).l0(), ipa).unwrap();
                &&& r is Ok
                &&& old(store).write_of(final(store), t, i, spec_with_sw_bits(old(store).entry(t, i), bits))
                &&& final(store).leaf(final(self).l0(), ipa) == Some(spec_with_sw_bits(old(store).entry(t, i), bits))
                &&& spec_sw_bits(final(store).leaf(final(self).l0(), ipa).unwrap()) == bits & 3
            },
    {
        proof {
            self.lemma_wf(store);
            store.lemma_wf();
        }
        let (t, i) = match self.walk_to_leaf_ptr(store, ipa) {
            Some(p) => p,
            None => { return Err("IPA not mapped"); },
        };
        let pte = store.read(t, i);
        let new_pte = (pte & !PTE_SW_MASK) | (((bits as u64) & 0x3) << PTE_SW_SHIFT);
        proof {
            store.lemma_walk_levels(self.l0(), ipa);
            lemma_sw_bits(pte, bits);
            crate::table_store::lemma_same_kind(new_pte, pte);
            crate::table_store::lemma_desc_bits(pte);
        }
        let ghost s0 = *store;
        store.write(t, i, new_pte);
        proof {
            s0.lemma_walk_update_leaf(store, self.l0(), ipa, new_pte);
            self.lemma_wf(store);
        }
        Ok(())
    }
}

} // verus!
