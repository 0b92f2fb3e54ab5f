//! A Stage-2 page table walker rooted at a VM's level-0 table (the base
//! address held in VTTBR_EL2), used to track and change page ownership
//! during FF-A memory operations.
//!
//! The tables live in a `TableStore`; TLB maintenance is recorded there for
//! the caller to carry out.

use vstd::prelude::*;
use crate::defs::{
    BLOCK_MASK_2MB, PAGE_MASK_4KB, PTE_ADDR_MASK, PTE_SW_MASK, PTE_SW_SHIFT, PTE_TABLE, PTE_VALID, S2AP_MASK,
    S2AP_SHIFT,
};
use crate::mmu::{spec_index, spec_is_table, spec_is_valid, spec_sw_bits, spec_table_desc, spec_with_sw_bits, table_index, ENTRIES};
use crate::table_store::{lemma_desc_bits, lemma_same_kind, TableStore, TlbOp};

verus! {

/// Walker over the Stage-2 tables rooted at `l0_table`.
pub struct Stage2Walker {
    pub l0_table: u64,
}

/// The S2AP field [7:6] of a descriptor.
pub open spec fn spec_s2ap(e: u64) -> u8 {
    ((e >> S2AP_SHIFT) & 3) as u8
}

/// Descriptor `e` with its S2AP field replaced by the low two bits of `ap`.
pub open spec fn spec_with_s2ap(e: u64, ap: u8) -> u64 {
    (e & !S2AP_MASK) | (((ap as u64) & 3) << S2AP_SHIFT)
}

/// Page `i` of the level-3 table that replaces the 2 MiB block `e`: the
/// block's output address advanced by `i` pages, its software bits, its
/// low attributes, and the page/valid bits.
pub open spec fn spec_walker_split_page(e: u64, i: int) -> u64 {
    (((e & !BLOCK_MASK_2MB) + i * 4096) as u64) | (e & PTE_SW_MASK) | (e & BLOCK_MASK_2MB & !3u64) | PTE_TABLE
        | PTE_VALID
}

/// Normal-memory attributes of a page mapped by `map_page`: MemAttr 0b1111,
/// inner shareable, access flag.
pub const WALKER_NORMAL_ATTRS: u64 = 0x73C;

/// The 4 KiB page descriptor `map_page` writes for `ipa`.
pub open spec fn spec_walker_page(ipa: u64, s2ap: u8, sw: u8) -> u64 {
    (ipa & !PAGE_MASK_4KB) | WALKER_NORMAL_ATTRS | (((s2ap as u64) & 3) << S2AP_SHIFT) | (((sw as u64) & 3)
        << PTE_SW_SHIFT) | PTE_TABLE | PTE_VALID
}

/// The TLB invalidation for one IPA.
pub open spec fn tlbi_ipa_op(ipa: u64) -> TlbOp {
    TlbOp::Ipa((ipa >> 12u64) & 0x0000_00FF_FFFF_FFFF)
}

proof fn lemma_split_page_valid(e: u64, i: u64)
    requires
        i < 512,
        e & !BLOCK_MASK_2MB <= 0xFFFF_FFFF_FFE0_0000u64,
    ensures
        spec_walker_split_page(e, i as int) & 3u64 == 3u64,
        spec_is_valid(spec_walker_split_page(e, i as int)),
{
    let pa = ((e & !0x1F_FFFFu64) + i * 4096) as u64;
    lemma_desc_bits(pa | (e & 0x0180_0000_0000_0000u64) | (e & 0x1F_FFFFu64 & !3u64));
    lemma_desc_bits(spec_walker_split_page(e, i as int));
}

pub(crate) proof fn lemma_s2ap_bits(e: u64, ap: u8)
    by (bit_vector)
    ensures
        spec_with_s2ap(e, ap) & 3u64 == e & 3u64,
        spec_s2ap(spec_with_s2ap(e, ap)) == ap & 3,
{
}

/// Software bits and S2AP of the leaf that translates `ipa`.
pub open spec fn page_attrs(store: &TableStore, l0: u64, ipa: u64) -> Option<(u8, u8)> {
    match store.leaf(l0, ipa) {
        Some(e) => Some((spec_sw_bits(e), spec_s2ap(e))),
        None => None,
    }
}

/// Splitting a block keeps each page's software bits and S2AP, and each of
/// the two writers leaves the other field alone.
pub(crate) proof fn lemma_attr_bits(e: u64, i: u64, b: u8)
    by (bit_vector)
    requires
        i < 512,
    ensures
        spec_sw_bits(spec_walker_split_page(e, i as int)) == spec_sw_bits(e),
        spec_s2ap(spec_walker_split_page(e, i as int)) == spec_s2ap(e),
        spec_s2ap(spec_with_sw_bits(e, b)) == spec_s2ap(e),
        spec_sw_bits(spec_with_s2ap(e, b)) == spec_sw_bits(e),
{
}

/// After a 2 MiB block `e` at slot `i2` of level-2 table `t2` was replaced
/// by a link to the new level-3 table `c` holding its 512 pages, every IPA
/// keeps its software bits and S2AP (and stays mapped or unmapped).
proof fn lemma_split_frame(s0: &TableStore, s: &TableStore, l0: u64, t2: int, i2: int, c: int, e: u64, q: u64)
    requires
        s0.wf(),
        s.wf(),
        s0.table_of(l0).is_some(),
        s0.level(s0.table_of(l0).unwrap()) == 0,
        c == s0.count(),
        s.count() == c + 1,
        s.base() == s0.base(),
        0 <= t2 < c,
        0 <= i2 < ENTRIES,
        s0.level(t2) == 2,
        s.level(c) == 3,
        forall|u: int| 0 <= u < c ==> #[trigger] s.level(u) == s0.level(u),
        forall|u: int, j: int| 0 <= u < c && 0 <= j < ENTRIES && !(u == t2 && j == i2)
            ==> #[trigger] s.entry(u, j) == s0.entry(u, j),
        s0.entry(t2, i2) == e,
        spec_is_valid(e),
        e & PTE_TABLE == 0,
        e & !BLOCK_MASK_2MB <= 0xFFFF_FFFF_FFE0_0000u64,
        s.entry(t2, i2) == spec_table_desc(s.addr_of(c)),
        forall|j: int| 0 <= j < ENTRIES ==> #[trigger] s.entry(c, j) == spec_walker_split_page(e, j),
    ensures
        page_attrs(s, l0, q) == page_attrs(s0, l0, q),
{
    s0.lemma_wf();
    s.lemma_wf();
    crate::mmu::lemma_index_bound(q, 39);
    crate::mmu::lemma_index_bound(q, 30);
    crate::mmu::lemma_index_bound(q, 21);
    crate::mmu::lemma_index_bound(q, 12);
    let t0 = s0.table_of(l0).unwrap();
    assert(s.table_of(l0) == s0.table_of(l0));
    let i0 = spec_index(q, 39) as int;
    let e0 = s0.entry(t0, i0);
    assert(s.entry(t0, i0) == e0);
    if spec_is_table(e0) {
        let t1 = s0.target(e0);
        s0.lemma_addr(t1);
        assert(s.table_of(e0 & PTE_ADDR_MASK) == s0.table_of(e0 & PTE_ADDR_MASK));
        let i1 = spec_index(q, 30) as int;
        let e1 = s0.entry(t1, i1);
        assert(s0.level(t1) == 1);
        assert(s.entry(t1, i1) == e1);
        lemma_desc_bits(e1);
        if spec_is_valid(e1) && e1 & PTE_TABLE != 0 {
            let t2q = s0.target(e1);
            s0.lemma_addr(t2q);
            assert(s.table_of(e1 & PTE_ADDR_MASK) == s0.table_of(e1 & PTE_ADDR_MASK));
            let i2q = spec_index(q, 21) as int;
            if t2q == t2 && i2q == i2 {
                let i3 = spec_index(q, 12) as int;
                s.lemma_addr(c);
                lemma_desc_bits(spec_table_desc(s.addr_of(c)));
                lemma_split_page_valid(e, i3 as u64);
                lemma_attr_bits(e, i3 as u64, 0);
                assert(s.entry(c, i3) == spec_walker_split_page(e, i3));
                assert(s.leaf(l0, q) == Some(spec_walker_split_page(e, i3)));
                assert(s0.leaf(l0, q) == Some(e));
            } else {
                let e2 = s0.entry(t2q, i2q);
                assert(s.entry(t2q, i2q) == e2);
                lemma_desc_bits(e2);
                if spec_is_valid(e2) && e2 & PTE_TABLE != 0 {
                    assert(s0.level(t2q) == 2);
                    let t3 = s0.target(e2);
                    s0.lemma_addr(t3);
                    assert(s.table_of(e2 & PTE_ADDR_MASK) == s0.table_of(e2 & PTE_ADDR_MASK));
                    let i3 = spec_index(q, 12) as int;
                    assert(s0.level(t3) == 3);
                    assert(s.entry(t3, i3) == s0.entry(t3, i3));
                }
            }
        }
    }
}

/// Tables that hold the same descriptors translate alike.
pub proof fn lemma_same_tables_walk(a: &TableStore, b: &TableStore, l0: u64, ipa: u64)
    requires
        a.wf(),
        a.same_tables(b),
    ensures
        a.walk(l0, ipa) == b.walk(l0, ipa),
        a.leaf(l0, ipa) == b.leaf(l0, ipa),
{
    a.lemma_wf();
    crate::mmu::lemma_index_bound(ipa, 39);
    crate::mmu::lemma_index_bound(ipa, 30);
    crate::mmu::lemma_index_bound(ipa, 21);
    crate::mmu::lemma_index_bound(ipa, 12);
    assert(a.table_of(l0) == b.table_of(l0));
    if let Some(t0) = a.table_of(l0) {
        let e0 = a.entry(t0, spec_index(ipa, 39) as int);
        assert(b.entry(t0, spec_index(ipa, 39) as int) == e0);
        assert(a.table_of(e0 & PTE_ADDR_MASK) == b.table_of(e0 & PTE_ADDR_MASK));
        if let Some(t1) = a.table_of(e0 & PTE_ADDR_MASK) {
            let e1 = a.entry(t1, spec_index(ipa, 30) as int);
            assert(b.entry(t1, spec_index(ipa, 30) as int) == e1);
            assert(a.table_of(e1 & PTE_ADDR_MASK) == b.table_of(e1 & PTE_ADDR_MASK));
            if let Some(t2) = a.table_of(e1 & PTE_ADDR_MASK) {
                let e2 = a.entry(t2, spec_index(ipa, 21) as int);
                assert(b.entry(t2, spec_index(ipa, 21) as int) == e2);
                assert(a.table_of(e2 & PTE_ADDR_MASK) == b.table_of(e2 & PTE_ADDR_MASK));
                if let Some(t3) = a.table_of(e2 & PTE_ADDR_MASK) {
                    assert(b.entry(t3, spec_index(ipa, 12) as int) == a.entry(t3, spec_index(ipa, 12) as int));
                }
            }
        }
    }
}

impl Stage2Walker {
    /// The walker's root is a level-0 table of `store`.
    pub open spec fn wf(&self, store: &TableStore) -> bool {
        &&& store.wf()
        &&& store.table_of(self.l0_table).is_some()
        &&& store.level(store.table_of(self.l0_table).unwrap()) == 0
    }

    /// The walker for the tables named by a VTTBR_EL2 value (base address
    /// bits [47:12]).
    pub fn from_vttbr(vttbr: u64) -> (r: Self)
        ensures
            r.l0_table == vttbr & PTE_ADDR_MASK,
    {
        Stage2Walker { l0_table: vttbr & PTE_ADDR_MASK }
    }

    /// The walker rooted at the level-0 table at `l0_table`.
    pub fn new(l0_table: u64) -> (r: Self)
        ensures
            r.l0_table == l0_table,
    {
        Stage2Walker { l0_table }
    }

    /// A Stage-2 table is configured (the root address is not 0).
    pub fn has_stage2(&self) -> (r: bool)
        ensures
            r == (self.l0_table != 0),
    {
        self.l0_table != 0
    }

    /// The leaf descriptor that translates `ipa`.
    fn walk_to_leaf(&self, store: &TableStore, ipa: u64) -> (r: Option<u64>)
        requires
            store.wf(),
        ensures
            r == store.leaf(self.l0_table, ipa),
    {
        match store.walk_leaf(self.l0_table, ipa) {
            Some((t, i)) => Some(store.read(t, i)),
            None => None,
        }
    }

    /// The software bits [56:55] of the leaf that translates `ipa`.
    pub fn read_sw_bits(&self, store: &TableStore, ipa: u64) -> (r: Option<u8>)
        requires
            store.wf(),
        ensures
            r == match store.leaf(self.l0_table, ipa) {
                Some(e) => Some(spec_sw_bits(e)),
                None => None::<u8>,
            },
    {
        match self.walk_to_leaf(store, ipa) {
            Some(pte) => Some(((pte >> PTE_SW_SHIFT) & 0x3) as u8),
            None => None,
        }
    }

    /// The S2AP field [7:6] of the leaf that translates `ipa`.
    pub fn read_s2ap(&self, store: &TableStore, ipa: u64) -> (r: Option<u8>)
        requires
            store.wf(),
        ensures
            r == match store.leaf(self.l0_table, ipa) {
                Some(e) => Some(spec_s2ap(e)),
                None => None::<u8>,
            },
    {
        match self.walk_to_leaf(store, ipa) {
            Some(pte) => Some(((pte >> S2AP_SHIFT) & 0x3) as u8),
            None => None,
        }
    }
}

/// The walk for `ipa` ends in a 2 MiB block (a leaf in a level-2 table).
pub open spec fn at_l2_block(store: &TableStore, l0: u64, ipa: u64) -> bool {
    store.walk(l0, ipa) matches Some((t, i)) && store.level(t) == 2
}

/// The leaf for `ipa` once a 2 MiB block over it is split into pages.
pub open spec fn leaf_after_split(store: &TableStore, l0: u64, ipa: u64) -> Option<u64> {
    match store.leaf(l0, ipa) {
        Some(e) => if at_l2_block(store, l0, ipa) {
            Some(spec_walker_split_page(e, spec_index(ipa, 12) as int))
        } else {
            Some(e)
        },
        None => None,
    }
}

impl Stage2Walker {
    /// When `ipa` is mapped by a 2 MiB block, replace the block by a
    /// level-3 table of 512 pages with the same output addresses, software
    /// bits and low attributes (break-before-make, flushing the TLB after
    /// clearing and after linking).
    fn split_block_if_needed(&self, store: &mut TableStore, ipa: u64) -> (r: Result<(), &'static str>)
        requires
            self.wf(old(store)),
        ensures
            self.wf(final(store)),
            !at_l2_block(old(store), self.l0_table, ipa) ==> r is Ok && *final(store) == *old(store),
            at_l2_block(old(store), self.l0_table, ipa) && old(store).count() == old(store).capacity()
                ==> r == Err::<(), &'static str>("Failed to allocate L3 table for block split")
                && *final(store) == *old(store),
            at_l2_block(old(store), self.l0_table, ipa) && old(store).count() < old(store).capacity() ==> {
                &&& r is Ok
                &&& final(store).walk(self.l0_table, ipa) matches Some((t, i)) && final(store).level(t) == 3
                &&& final(store).leaf(self.l0_table, ipa) == leaf_after_split(old(store), self.l0_table, ipa)
                &&& final(store).tlb_ops() == old(store).tlb_ops().push(TlbOp::All).push(TlbOp::All)
            },
            forall|q: u64| #[trigger] page_attrs(final(store), self.l0_table, q) == page_attrs(old(store), self.l0_table, q),
            old(store).grows_to(final(store)),
    {
        proof {
            store.lemma_wf();
            crate::mmu::lemma_index_bound(ipa, 39);
            crate::mmu::lemma_index_bound(ipa, 30);
            crate::mmu::lemma_index_bound(ipa, 21);
            crate::mmu::lemma_index_bound(ipa, 12);
        }
        let ghost s0 = *store;
        let t0 = store.table_at(self.l0_table).unwrap();
        let l0_idx = table_index(ipa, 39);
        let l0_entry = store.read(t0, l0_idx);
        proof { lemma_desc_bits(l0_entry); }
        if l0_entry & (PTE_VALID | PTE_TABLE) != (PTE_VALID | PTE_TABLE) {
            assert(!spec_is_table(l0_entry));
            return Ok(());
        }
        assert(spec_is_table(l0_entry));
        let ghost t1g = store.target(l0_entry);
        proof { store.lemma_addr(t1g); }
        let t1 = store.table_at(l0_entry & PTE_ADDR_MASK).unwrap();
        let l1_idx = table_index(ipa, 30);
        let l1_entry = store.read(t1, l1_idx);
        proof { lemma_desc_bits(l1_entry); }
        if l1_entry & PTE_VALID == 0 || l1_entry & PTE_TABLE == 0 {
            return Ok(());
        }
        let ghost t2g = store.target(l1_entry);
        proof { store.lemma_addr(t2g); }
        let l2_table = l1_entry & PTE_ADDR_MASK;
        let t2 = store.table_at(l2_table).unwrap();
        let l2_idx = table_index(ipa, 21);
        let l2_entry = store.read(t2, l2_idx);
        proof { lemma_desc_bits(l2_entry); }
        if !(l2_entry & PTE_VALID != 0 && l2_entry & PTE_TABLE == 0) {
            proof {
                if spec_is_valid(l2_entry) && l2_entry & PTE_TABLE != 0 {
                    let t3 = store.target(l2_entry);
                    store.lemma_addr(t3);
                }
            }
            return Ok(());
        }
        assert(store.walk(self.l0_table, ipa) == Some((t2 as int, l2_idx as int)));
        // Split the block.
        let block_pa = l2_entry & !BLOCK_MASK_2MB;
        let block_attr_bits = l2_entry & BLOCK_MASK_2MB & !0x3;
        let block_sw_bits = l2_entry & PTE_SW_MASK;
        let ghost c: int = store.count() as int;
        let l3 = match store.alloc_table(Ghost(3)) {
            Some(a) => a,
            None => { return Err("Failed to allocate L3 table for block split"); },
        };
        proof { store.lemma_addr(c); }
        let t3 = store.table_at(l3).unwrap();
        let ghost s1 = *store;
        proof { lemma_desc_bits(l2_entry); }
        let mut i: u64 = 0;
        while i < 512
            invariant
                store.wf(),
                t3 as int == c,
                i <= 512,
                block_pa == l2_entry & !BLOCK_MASK_2MB,
                block_attr_bits == l2_entry & BLOCK_MASK_2MB & !3u64,
                block_sw_bits == l2_entry & PTE_SW_MASK,
                block_pa <= 0xFFFF_FFFF_FFE0_0000u64,
                store.count() == c + 1,
                store.base() == s1.base(),
                store.capacity() == s1.capacity(),
                store.tlb_ops() == s1.tlb_ops(),
                store.level(c) == 3,
                forall|u: int| 0 <= u <= c ==> #[trigger] store.level(u) == s1.level(u),
                forall|u: int, j: int| 0 <= u < c && 0 <= j < ENTRIES ==> #[trigger] store.entry(u, j) == s1.entry(u, j),
                forall|j: int| 0 <= j < i ==> #[trigger] store.entry(c, j) == spec_walker_split_page(l2_entry, j),
            decreases 512 - i,
        {
            let pa = block_pa + i * 4096;
            let page = pa | block_sw_bits | block_attr_bits | PTE_TABLE | PTE_VALID;
            store.write(t3, i as usize, page);
            i = i + 1;
        }
        proof {
            store.lemma_addr(c);
            store.lemma_addr(t2 as int);
            lemma_desc_bits(0);
        }
        store.write(t2, l2_idx, 0);
        store.tlbi(TlbOp::All);
        let desc = l3 | PTE_VALID | PTE_TABLE;
        assert(desc == spec_table_desc(l3)) by {
            lemma_desc_bits(l3);
        }
        proof {
            store.lemma_wf();
            s0.lemma_wf();
            assert forall|u: int, j: int| 0 <= u < store.count() && 0 <= j < ENTRIES && !(u == t2 && j == l2_idx)
                && store.level(u) < 3 && spec_is_table(#[trigger] store.entry(u, j))
                implies store.target(store.entry(u, j)) != c by {
                if u < c {
                    assert(store.entry(u, j) == s0.entry(u, j));
                    assert(store.level(u) == s0.level(u));
                }
            }
        }
        store.write(t2, l2_idx, desc);
        store.tlbi(TlbOp::All);
        proof {
            let i3 = spec_index(ipa, 12) as int;
            lemma_split_page_valid(l2_entry, i3 as u64);
            assert(store.entry(t0 as int, l0_idx as int) == l0_entry);
            assert(store.entry(t1g, l1_idx as int) == l1_entry);
            store.lemma_walk_l3_page(self.l0_table, ipa, t1g, t2 as int, c);
            assert(store.level(c) == 3);
            assert(store.table_of(self.l0_table) == s0.table_of(self.l0_table));
            assert forall|q: u64| #[trigger] page_attrs(store, self.l0_table, q) == page_attrs(&s0, self.l0_table, q) by {
                lemma_split_frame(&s0, store, self.l0_table, t2 as int, l2_idx as int, c, l2_entry, q);
            }
        }
        Ok(())
    }

    /// Set the software bits [56:55] of the leaf that translates `ipa` to
    /// the low two bits of `bits`, splitting a 2 MiB block over it first.
    /// The bits do not affect translation: no TLB maintenance beyond the
    /// split's.
    pub fn write_sw_bits(&self, store: &mut TableStore, ipa: u64, bits: u8) -> (r: Result<(), &'static str>)
        requires
            self.wf(old(store)),
        ensures
            self.wf(final(store)),
            old(store).grows_to(final(store)),
            old(store).leaf(self.l0_table, ipa).is_none() ==> r == Err::<(), &'static str>("IPA not mapped")
                && *final(store) == *old(store),
            at_l2_block(old(store), self.l0_table, ipa) && old(store).count() == old(store).capacity()
                ==> r == Err::<(), &'static str>("Failed to allocate L3 table for block split")
                && *final(store) == *old(store),
            old(store).leaf(self.l0_table, ipa).is_some()
                && (!at_l2_block(old(store), self.l0_table, ipa) || old(store).count() < old(store).capacity()) ==> {
                &&& r is Ok
                &&& final(store).leaf(self.l0_table, ipa)
                    == Some(spec_with_sw_bits(leaf_after_split(old(store), self.l0_table, ipa).unwrap(), bits))
            },
            forall|q: u64| #![trigger page_attrs(final(store), self.l0_table, q)]
                page_attrs(final(store), self.l0_table, q) == page_attrs(old(store), self.l0_table, q)
                || (page_attrs(old(store), self.l0_table, q) matches Some((sw, ap))
                    && page_attrs(final(store), self.l0_table, q) == Some((bits & 3, ap))),
    {
        self.split_block_if_needed(store, ipa)?;
        proof { store.lemma_wf(); }
        let (t, i) = match store.walk_leaf(self.l0_table, ipa) {
            Some(p) => p,
            None => { return Err("IPA not mapped"); },
        };
        let pte = store.read(t, i);
        let new_pte = (pte & !PTE_SW_MASK) | (((bits as u64) & 0x3) << PTE_SW_SHIFT);
        proof {
            store.lemma_walk_levels(self.l0_table, ipa);
            crate::mmu::lemma_sw_bits(pte, bits);
            lemma_same_kind(new_pte, pte);
            lemma_desc_bits(pte);
        }
        let ghost s1 = *store;
        store.write(t, i, new_pte);
        proof {
            s1.lemma_walk_update_leaf(store, self.l0_table, ipa, new_pte);
            assert forall|q: u64| #![trigger page_attrs(store, self.l0_table, q)]
                page_attrs(store, self.l0_table, q) == page_attrs(old(store), self.l0_table, q)
                || (page_attrs(old(store), self.l0_table, q) matches Some((sw, ap))
                    && page_attrs(store, self.l0_table, q) == Some((bits & 3, ap))) by {
                assert(page_attrs(&s1, self.l0_table, q) == page_attrs(old(store), self.l0_table, q));
                s1.lemma_walk_update_leaf_frame(store, self.l0_table, ipa, new_pte, q);
                lemma_attr_bits(pte, 0, bits);
            }
        }
        Ok(())
    }

    /// Set the S2AP field [7:6] of the leaf that translates `ipa` to the low
    /// two bits of `s2ap`, splitting a 2 MiB block over it first, and
    /// invalidate the IPA's TLB entries.
    pub fn set_s2ap(&self, store: &mut TableStore, ipa: u64, s2ap: u8) -> (r: Result<(), &'static str>)
        requires
            self.wf(old(store)),
        ensures
            self.wf(final(store)),
            old(store).grows_to(final(store)),
            old(store).leaf(self.l0_table, ipa).is_none() ==> r == Err::<(), &'static str>("IPA not mapped")
                && *final(store) == *old(store),
            at_l2_block(old(store), self.l0_table, ipa) && old(store).count() == old(store).capacity()
                ==> r == Err::<(), &'static str>("Failed to allocate L3 table for block split")
                && *final(store) == *old(store),
            old(store).leaf(self.l0_table, ipa).is_some()
                && (!at_l2_block(old(store), self.l0_table, ipa) || old(store).count() < old(store).capacity()) ==> {
                &&& r is Ok
                &&& final(store).leaf(self.l0_table, ipa)
                    == Some(spec_with_s2ap(leaf_after_split(old(store), self.l0_table, ipa).unwrap(), s2ap))
                &&& final(store).tlb_ops().last() == tlbi_ipa_op(ipa)
            },
            forall|q: u64| #![trigger page_attrs(final(store), self.l0_table, q)]
                page_attrs(final(store), self.l0_table, q) == page_attrs(old(store), self.l0_table, q)
                || (page_attrs(old(store), self.l0_table, q) matches Some((sw, ap))
                    && page_attrs(final(store), self.l0_table, q) == Some((sw, s2ap & 3))),
    {
        self.split_block_if_needed(store, ipa)?;
        proof { store.lemma_wf(); }
        let (t, i) = match store.walk_leaf(self.l0_table, ipa) {
            Some(p) => p,
            None => { return Err("IPA not mapped"); },
        };
        let pte = store.read(t, i);
        let new_pte = (pte & !S2AP_MASK) | (((s2ap as u64) & 0x3) << S2AP_SHIFT);
        proof {
            store.lemma_walk_levels(self.l0_table, ipa);
            lemma_s2ap_bits(pte, s2ap);
            lemma_same_kind(new_pte, pte);
            lemma_desc_bits(pte);
        }
        let ghost s1 = *store;
        store.write(t, i, new_pte);
        proof {
            s1.lemma_walk_update_leaf(store, self.l0_table, ipa, new_pte);
        }
        let ghost s2 = *store;
        store.tlbi(TlbOp::Ipa((ipa >> 12) & 0x0000_00FF_FFFF_FFFF));
        proof {
            lemma_same_tables_walk(&s2, store, self.l0_table, ipa);
            assert forall|q: u64| #![trigger page_attrs(store, self.l0_table, q)]
                page_attrs(store, self.l0_table, q) == page_attrs(old(store), self.l0_table, q)
                || (page_attrs(old(store), self.l0_table, q) matches Some((sw, ap))
                    && page_attrs(store, self.l0_table, q) == Some((sw, s2ap & 3))) by {
                assert(page_attrs(&s1, self.l0_table, q) == page_attrs(old(store), self.l0_table, q));
                s1.lemma_walk_update_leaf_frame(&s2, self.l0_table, ipa, new_pte, q);
                lemma_same_tables_walk(&s2, store, self.l0_table, q);
                lemma_attr_bits(pte, 0, s2ap);
                lemma_s2ap_bits(pte, s2ap);
            }
        }
        Ok(())
    }
}


/// What `map_page` answers for `ipa`, from the tables before the call.
pub open spec fn map_page_result(store: &TableStore, l0: u64, ipa: u64) -> Result<(), &'static str> {
    let t0 = store.table_of(l0).unwrap();
    let e0 = store.entry(t0, spec_index(ipa, 39) as int);
    if !spec_is_table(e0) {
        Err("L0 entry not a valid table")
    } else {
        let e1 = store.entry(store.target(e0), spec_index(ipa, 30) as int);
        if !spec_is_valid(e1) {
            if store.count() == store.capacity() {
                Err("Failed to allocate L2 table")
            } else if store.count() + 1 == store.capacity() {
                Err("Failed to allocate L3 table")
            } else {
                Ok(())
            }
        } else if e1 & PTE_TABLE == 0 {
            Err("L1 entry is a 1GB block")
        } else {
            let e2 = store.entry(store.target(e1), spec_index(ipa, 21) as int);
            if !spec_is_valid(e2) {
                if store.count() == store.capacity() { Err("Failed to allocate L3 table") } else { Ok(()) }
            } else if e2 & PTE_TABLE == 0 {
                Err("L2 entry is a 2MB block")
            } else if spec_is_valid(store.entry(store.target(e2), spec_index(ipa, 12) as int)) {
                Err("L3 entry already mapped")
            } else {
                Ok(())
            }
        }
    }
}

/// The descriptor position of `ipa` when it is mapped by a 4 KiB page.
pub open spec fn l3_slot(store: &TableStore, l0: u64, ipa: u64) -> Option<(int, int)> {
    match store.walk(l0, ipa) {
        Some((t, i)) => if store.level(t) == 3 { Some((t, i)) } else { None },
        None => None,
    }
}

proof fn lemma_walker_page_valid(ipa: u64, s2ap: u8, sw: u8)
    ensures
        spec_walker_page(ipa, s2ap, sw) & 3u64 == 3u64,
        spec_is_valid(spec_walker_page(ipa, s2ap, sw)),
{
    let a = ((s2ap as u64) & 3) << 6u64;
    let b = ((sw as u64) & 3) << 55u64;
    let p = ipa & !0xFFFu64;
    lemma_desc_bits(p | 0x73Cu64 | a | b);
    lemma_desc_bits(spec_walker_page(ipa, s2ap, sw));
}

impl Stage2Walker {
    /// Create a fresh table of `level` and link it from slot `i` of table
    /// `t` (whose level is `level - 1`).
    fn link_new_table(store: &mut TableStore, t: usize, i: usize, level: Ghost<int>) -> (r: Option<usize>)
        requires
            old(store).wf(),
            t < old(store).count(),
            i < ENTRIES,
            1 <= level@ <= 3,
            old(store).level(t as int) == level@ - 1,
            !spec_is_table(old(store).entry(t as int, i as int)),
        ensures
            final(store).wf(),
            !spec_is_valid(old(store).entry(t as int, i as int)) ==> old(store).keeps_leaves(final(store)),
            final(store).base() == old(store).base(),
            final(store).capacity() == old(store).capacity(),
            final(store).tlb_ops() == old(store).tlb_ops(),
            forall|u: int| 0 <= u < old(store).count() ==> #[trigger] final(store).level(u) == old(store).level(u),
            old(store).count() == old(store).capacity() ==> r.is_none() && *final(store) == *old(store),
            old(store).count() < old(store).capacity() ==> {
                let c = old(store).count() as int;
                &&& r == Some(c as usize)
                &&& final(store).count() == c + 1
                &&& final(store).level(c) == level@
                &&& forall|j: int| 0 <= j < ENTRIES ==> #[trigger] final(store).entry(c, j) == 0
                &&& final(store).entry(t as int, i as int) == spec_table_desc(final(store).addr_of(c))
                &&& forall|u: int, j: int| 0 <= u < c && 0 <= j < ENTRIES && !(u == t && j == i)
                    ==> #[trigger] final(store).entry(u, j) == old(store).entry(u, j)
            },
    {
        let ghost c: int = store.count() as int;
        let ghost s0 = *store;
        let a = match store.alloc_table(level) {
            Some(a) => a,
            None => {
                proof { s0.lemma_wf(); }
                return None;
            },
        };
        proof {
            s0.lemma_wf();
            assert(s0.count() < s0.capacity());
            store.lemma_addr(c);
        }
        let n = store.table_at(a).unwrap();
        let desc = a | PTE_VALID | PTE_TABLE;
        assert(desc == spec_table_desc(a)) by {
            lemma_desc_bits(a);
        }
        proof {
            assert forall|u: int, j: int| 0 <= u < store.count() && 0 <= j < ENTRIES && !(u == t && j == i)
                && store.level(u) < 3 && spec_is_table(#[trigger] store.entry(u, j))
                implies store.target(store.entry(u, j)) != c by {
                if u < c {
                    assert(store.entry(u, j) == s0.entry(u, j));
                    assert(store.level(u) == s0.level(u));
                } else {
                    assert(store.entry(u, j) == 0);
                    lemma_desc_bits(0);
                }
            }
        }
        store.write(t, i, desc);
        Some(n)
    }

    /// The next-level table below slot `i` of table `t` (of level
    /// `level - 1`): the one its table descriptor names, or a fresh one
    /// linked there when the slot is invalid. `Err(true)` when the slot
    /// holds a block, `Err(false)` when no table is left to create.
    fn descend_or_create(store: &mut TableStore, t: usize, i: usize, level: Ghost<int>) -> (r: Result<usize, bool>)
        requires
            old(store).wf(),
            t < old(store).count(),
            i < ENTRIES,
            2 <= level@ <= 3,
            old(store).level(t as int) == level@ - 1,
        ensures
            final(store).wf(),
            old(store).keeps_leaves(final(store)),
            final(store).base() == old(store).base(),
            final(store).capacity() == old(store).capacity(),
            final(store).tlb_ops() == old(store).tlb_ops(),
            forall|u: int| 0 <= u < old(store).count() ==> #[trigger] final(store).level(u) == old(store).level(u),
            ({
                let e = old(store).entry(t as int, i as int);
                if !spec_is_valid(e) {
                    if old(store).count() == old(store).capacity() {
                        r == Err::<usize, bool>(false) && *final(store) == *old(store)
                    } else {
                        let c = old(store).count() as int;
                        &&& r == Ok::<usize, bool>(c as usize)
                        &&& final(store).count() == c + 1
                        &&& final(store).level(c) == level@
                        &&& forall|j: int| 0 <= j < ENTRIES ==> #[trigger] final(store).entry(c, j) == 0
                        &&& final(store).entry(t as int, i as int) == spec_table_desc(final(store).addr_of(c))
                        &&& forall|u: int, j: int| 0 <= u < c && 0 <= j < ENTRIES && !(u == t && j == i)
                            ==> #[trigger] final(store).entry(u, j) == old(store).entry(u, j)
                    }
                } else if e & PTE_TABLE == 0 {
                    r == Err::<usize, bool>(true) && *final(store) == *old(store)
                } else {
                    &&& r == Ok::<usize, bool>(old(store).target(e) as usize)
                    &&& *final(store) == *old(store)
                    &&& 0 <= old(store).target(e) < old(store).count()
                    &&& old(store).level(old(store).target(e)) == level@
                    &&& e == spec_table_desc(old(store).addr_of(old(store).target(e)))
                }
            }),
    {
        proof { store.lemma_wf(); }
        let e = store.read(t, i);
        proof { lemma_desc_bits(e); }
        if e & PTE_VALID == 0 {
            match Self::link_new_table(store, t, i, level) {
                Some(n) => Ok(n),
                None => Err(false),
            }
        } else if e & PTE_TABLE != 0 {
            proof { store.lemma_addr(store.target(e)); }
            Ok(store.table_at(e & PTE_ADDR_MASK).unwrap())
        } else {
            Err(true)
        }
    }

    /// Map the 4 KiB page of `ipa` to itself as normal memory with access
    /// `s2ap` and software bits `sw_bits` (low two bits of each), creating
    /// the level-2 and level-3 tables it needs. The level-0 link must
    /// exist; a 1 GiB or 2 MiB block over `ipa`, or a page already there,
    /// is refused. The IPA's TLB entries are invalidated.
    pub fn map_page(&self, store: &mut TableStore, ipa: u64, s2ap: u8, sw_bits: u8) -> (r: Result<(), &'static str>)
        requires
            self.wf(old(store)),
        ensures
            self.wf(final(store)),
            old(store).grows_to(final(store)),
            old(store).keeps_leaves(final(store)),
            r == map_page_result(old(store), self.l0_table, ipa),
            r is Err && r != Err::<(), &'static str>("Failed to allocate L3 table") ==> *final(store) == *old(store),
            r is Ok ==> final(store).leaf(self.l0_table, ipa) == Some(spec_walker_page(ipa, s2ap, sw_bits))
                && final(store).tlb_ops().last() == tlbi_ipa_op(ipa),
    {
        proof {
            store.lemma_wf();
            crate::mmu::lemma_index_bound(ipa, 39);
            crate::mmu::lemma_index_bound(ipa, 30);
            crate::mmu::lemma_index_bound(ipa, 21);
            crate::mmu::lemma_index_bound(ipa, 12);
        }
        let ghost s0 = *store;
        let t0 = store.table_at(self.l0_table).unwrap();
        let l0_idx = table_index(ipa, 39);
        let l0_entry = store.read(t0, l0_idx);
        proof { lemma_desc_bits(l0_entry); }
        if l0_entry & (PTE_VALID | PTE_TABLE) != (PTE_VALID | PTE_TABLE) {
            return Err("L0 entry not a valid table");
        }
        let ghost t1g = store.target(l0_entry);
        proof { store.lemma_addr(t1g); }
        let t1 = store.table_at(l0_entry & PTE_ADDR_MASK).unwrap();
        assert(store.level(t1 as int) == 1);
        let l1_idx = table_index(ipa, 30);
        let ghost l1_entry = store.entry(t1 as int, l1_idx as int);
        let t2 = match Self::descend_or_create(store, t1, l1_idx, Ghost(2)) {
            Ok(n) => n,
            Err(true) => { return Err("L1 entry is a 1GB block"); },
            Err(false) => { return Err("Failed to allocate L2 table"); },
        };
        let ghost s1 = *store;
        proof {
            store.lemma_wf();
            store.lemma_addr(t2 as int);
            assert(store.entry(t0 as int, l0_idx as int) == l0_entry);
        }
        let l2_idx = table_index(ipa, 21);
        let ghost l2_entry = store.entry(t2 as int, l2_idx as int);
        proof {
            if !spec_is_valid(l1_entry) {
                assert(l2_entry == 0);
                lemma_desc_bits(0);
            }
        }
        let t3 = match Self::descend_or_create(store, t2, l2_idx, Ghost(3)) {
            Ok(n) => n,
            Err(true) => { return Err("L2 entry is a 2MB block"); },
            Err(false) => { return Err("Failed to allocate L3 table"); },
        };
        proof {
            store.lemma_wf();
            store.lemma_addr(t3 as int);
            assert(store.entry(t1 as int, l1_idx as int) == spec_table_desc(store.addr_of(t2 as int)));
            assert(store.entry(t0 as int, l0_idx as int) == l0_entry);
        }
        let l3_idx = table_index(ipa, 12);
        let l3_entry = store.read(t3, l3_idx);
        proof {
            if !spec_is_valid(l2_entry) {
                assert(l3_entry == 0);
                lemma_desc_bits(0);
            }
        }
        if l3_entry & PTE_VALID != 0 {
            return Err("L3 entry already mapped");
        }
        let normal_attrs: u64 = WALKER_NORMAL_ATTRS;
        let s2ap_bits = ((s2ap as u64) & 0x3) << S2AP_SHIFT;
        let sw = ((sw_bits as u64) & 0x3) << PTE_SW_SHIFT;
        let pa = ipa & !PAGE_MASK_4KB;
        let page_entry = pa | normal_attrs | s2ap_bits | sw | PTE_TABLE | PTE_VALID;
        proof { lemma_walker_page_valid(ipa, s2ap, sw_bits); }
        store.write(t3, l3_idx, page_entry);
        proof {
            store.lemma_walk_l3_page(self.l0_table, ipa, t1 as int, t2 as int, t3 as int);
        }
        let ghost s2 = *store;
        store.tlbi(TlbOp::Ipa((ipa >> 12) & 0x0000_00FF_FFFF_FFFF));
        proof { lemma_same_tables_walk(&s2, store, self.l0_table, ipa); }
        Ok(())
    }

    /// Remove the 4 KiB page mapping of `ipa` (its level-3 descriptor is
    /// cleared) and invalidate the IPA's TLB entries. Tables are not freed.
    pub fn unmap_page(&self, store: &mut TableStore, ipa: u64) -> (r: Result<(), &'static str>)
        requires
            self.wf(old(store)),
        ensures
            self.wf(final(store)),
            old(store).grows_to(final(store)),
            l3_slot(old(store), self.l0_table, ipa).is_none() ==> r == Err::<(), &'static str>(
                "IPA not mapped as 4KB page") && *final(store) == *old(store),
            l3_slot(old(store), self.l0_table, ipa) matches Some((t, i)) ==> {
                &&& r is Ok
                &&& old(store).write_of(final(store), t, i, 0)
                &&& final(store).leaf(self.l0_table, ipa).is_none()
                &&& final(store).tlb_ops().last() == tlbi_ipa_op(ipa)
            },
    {
        proof {
            store.lemma_wf();
            crate::mmu::lemma_index_bound(ipa, 39);
            crate::mmu::lemma_index_bound(ipa, 30);
            crate::mmu::lemma_index_bound(ipa, 21);
            crate::mmu::lemma_index_bound(ipa, 12);
        }
        proof { lemma_desc_bits(0); }
        let t0 = store.table_at(self.l0_table).unwrap();
        let l0_idx = table_index(ipa, 39);
        let l0_entry = store.read(t0, l0_idx);
        proof { lemma_desc_bits(l0_entry); }
        if l0_entry & (PTE_VALID | PTE_TABLE) != (PTE_VALID | PTE_TABLE) {
            return Err("IPA not mapped as 4KB page");
        }
        proof { store.lemma_addr(store.target(l0_entry)); }
        let t1 = store.table_at(l0_entry & PTE_ADDR_MASK).unwrap();
        let l1_idx = table_index(ipa, 30);
        let l1_entry = store.read(t1, l1_idx);
        proof { lemma_desc_bits(l1_entry); }
        if l1_entry & (PTE_VALID | PTE_TABLE) != (PTE_VALID | PTE_TABLE) {
            return Err("IPA not mapped as 4KB page");
        }
        proof { store.lemma_addr(store.target(l1_entry)); }
        let t2 = store.table_at(l1_entry & PTE_ADDR_MASK).unwrap();
        let l2_idx = table_index(ipa, 21);
        let l2_entry = store.read(t2, l2_idx);
        proof { lemma_desc_bits(l2_entry); }
        if l2_entry & (PTE_VALID | PTE_TABLE) != (PTE_VALID | PTE_TABLE) {
            return Err("IPA not mapped as 4KB page");
        }
        proof { store.lemma_addr(store.target(l2_entry)); }
        let t3 = store.table_at(l2_entry & PTE_ADDR_MASK).unwrap();
        let l3_idx = table_index(ipa, 12);
        let l3_entry = store.read(t3, l3_idx);
        if l3_entry & PTE_VALID == 0 {
            return Err("IPA not mapped as 4KB page");
        }
        assert(store.walk(self.l0_table, ipa) == Some((t3 as int, l3_idx as int)));
        proof { lemma_desc_bits(0); }
        store.write(t3, l3_idx, 0);
        proof {
            lemma_desc_bits(0);
            store.lemma_walk_l3_page(self.l0_table, ipa, t1 as int, t2 as int, t3 as int);
        }
        let ghost s2 = *store;
        store.tlbi(TlbOp::Ipa((ipa >> 12) & 0x0000_00FF_FFFF_FFFF));
        proof { lemma_same_tables_walk(&s2, store, self.l0_table, ipa); }
        Ok(())
    }
}

/// A page `map_page` put in place sits in a level-3 table, so `unmap_page`
/// finds it and removes it: mapping a page and unmapping it leaves the IPA
/// without translation.
pub proof fn law_unmap_finds_mapped_page(w: Stage2Walker, store: TableStore, ipa: u64, s2ap: u8, sw_bits: u8)
    requires
        w.wf(&store),
        store.leaf(w.l0_table, ipa) == Some(spec_walker_page(ipa, s2ap, sw_bits)),
    ensures
        l3_slot(&store, w.l0_table, ipa).is_some(),
{
    store.lemma_walk_levels(w.l0_table, ipa);
    lemma_walker_page_valid(ipa, s2ap, sw_bits);
    lemma_desc_bits(spec_walker_page(ipa, s2ap, sw_bits));
}

} // verus!
