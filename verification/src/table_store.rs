//! The physical pages that hold Stage-2 translation tables, modelled as an
//! array of 512-entry tables at consecutive 4 KiB-aligned addresses, with
//! the walk that the MMU performs over them.

use vstd::prelude::*;
use crate::defs::{PTE_ADDR_MASK, PTE_TABLE, PTE_VALID};
use crate::mmu::{
    lemma_table_desc_roundtrip, spec_index, spec_is_table, spec_is_valid, spec_table_desc, ENTRIES,
};

verus! {

/// Number of bytes in a table page.
pub const TABLE_BYTES: u64 = 4096;
/// Highest output address (exclusive) of a 48-bit physical address space.
pub const PHYS_LIMIT: u64 = 0x1_0000_0000_0000;

/// A TLB maintenance request recorded for the hardware to carry out.
#[derive(Clone, Copy, PartialEq, Eq, Structural, Debug)]
pub enum TlbOp {
    /// Invalidate all Stage-2 entries (TLBI VMALLS12E1IS).
    All,
    /// Invalidate one IPA (TLBI IPAS2E1IS).
    Ipa(u64),
}

/// Translation-table pages.
pub struct TableStore {
    base: u64,
    capacity: usize,
    count: usize,
    entries: Vec<u64>,
    levels: Ghost<Seq<int>>,
    tlb_ops: Vec<TlbOp>,
}

impl TableStore {
    /// Physical address of the first page.
    pub closed spec fn base(&self) -> u64 {
        self.base
    }

    /// Number of tables allocated so far.
    pub closed spec fn count(&self) -> nat {
        self.count as nat
    }

    /// Number of tables the store can hold.
    pub closed spec fn capacity(&self) -> nat {
        self.capacity as nat
    }

    /// Translation level a table was allocated for (0 to 3).
    pub closed spec fn level(&self, t: int) -> int {
        self.levels@[t]
    }

    /// TLB maintenance requested so far, oldest first.
    pub closed spec fn tlb_ops(&self) -> Seq<TlbOp> {
        self.tlb_ops@
    }

    /// Physical address of table `t`.
    pub open spec fn addr_of(&self, t: int) -> u64 {
        (self.base() + t * 4096) as u64
    }

    /// Descriptor `i` of table `t`.
    pub closed spec fn entry(&self, t: int, i: int) -> u64 {
        self.entries@[t * 512 + i]
    }

    /// The table that starts at address `a`.
    pub open spec fn table_of(&self, a: u64) -> Option<int> {
        if a >= self.base() && (a - self.base()) % 4096 == 0 && (a - self.base()) / 4096 < self.count() {
            Some((a - self.base()) / 4096)
        } else {
            None
        }
    }

    /// The table a table descriptor points at.
    pub open spec fn target(&self, e: u64) -> int {
        ((e & PTE_ADDR_MASK) - self.base()) / 4096
    }

    /// Every table descriptor in a level 0-2 table points at an allocated
    /// table of the next level, encoded exactly as `address | 0b11`.
    pub open spec fn links_ok(&self) -> bool {
        forall|t: int, i: int| 0 <= t < self.count() && 0 <= i < ENTRIES && self.level(t) < 3
            && spec_is_table(#[trigger] self.entry(t, i)) ==> {
                let t2 = self.target(self.entry(t, i));
                &&& 0 <= t2 < self.count()
                &&& self.level(t2) == self.level(t) + 1
                &&& self.entry(t, i) == spec_table_desc(self.addr_of(t2))
            }
    }

    /// No two table descriptors point at the same table.
    pub open spec fn tree_ok(&self) -> bool {
        forall|t: int, i: int, u: int, j: int|
            0 <= t < self.count() && 0 <= i < ENTRIES && 0 <= u < self.count() && 0 <= j < ENTRIES
            && !(t == u && i == j) && self.level(t) < 3 && self.level(u) < 3
            && spec_is_table(#[trigger] self.entry(t, i)) && spec_is_table(#[trigger] self.entry(u, j))
            ==> self.target(self.entry(t, i)) != self.target(self.entry(u, j))
    }

    pub closed spec fn wf(&self) -> bool {
        &&& self.tree_ok()
        &&& self.entries@.len() == self.count * 512
        &&& self.count <= self.capacity
        &&& self.base % 4096 == 0
        &&& self.base + self.capacity * 4096 <= PHYS_LIMIT
        &&& self.levels@.len() == self.count
        &&& forall|t: int| 0 <= t < self.count ==> 0 <= #[trigger] self.levels@[t] <= 3
        &&& self.links_ok()
    }

    /// `other` differs from `self` only at descriptor `(t, i)`, holding `v` there.
    pub open spec fn write_of(&self, other: &Self, t: int, i: int, v: u64) -> bool {
        &&& other.count() == self.count()
        &&& other.base() == self.base()
        &&& other.capacity() == self.capacity()
        &&& forall|u: int| 0 <= u < self.count() ==> #[trigger] other.level(u) == self.level(u)
        &&& other.entry(t, i) == v
        &&& forall|u: int, j: int| 0 <= u < self.count() && 0 <= j < ENTRIES && !(u == t && j == i)
            ==> #[trigger] other.entry(u, j) == self.entry(u, j)
    }

    /// `other` keeps the place, capacity and tables of `self` at their
    /// levels, and may hold more tables.
    pub open spec fn grows_to(&self, other: &Self) -> bool {
        &&& other.base() == self.base()
        &&& other.capacity() == self.capacity()
        &&& other.count() >= self.count()
        &&& forall|u: int| 0 <= u < self.count() ==> #[trigger] other.level(u) == self.level(u)
    }

    /// `other` grows from `self` and keeps every valid descriptor of it.
    pub open spec fn keeps_leaves(&self, other: &Self) -> bool {
        &&& self.grows_to(other)
        &&& forall|u: int, j: int| 0 <= u < self.count() && 0 <= j < ENTRIES && spec_is_valid(#[trigger] self.entry(u, j))
            ==> other.entry(u, j) == self.entry(u, j)
    }

    /// `other` holds the same tables as `self` (only the TLB request log may differ).
    pub open spec fn same_tables(&self, other: &Self) -> bool {
        &&& other.count() == self.count()
        &&& other.base() == self.base()
        &&& other.capacity() == self.capacity()
        &&& forall|u: int| 0 <= u < self.count() ==> #[trigger] other.level(u) == self.level(u)
        &&& forall|u: int, j: int| 0 <= u < self.count() && 0 <= j < ENTRIES
            ==> #[trigger] other.entry(u, j) == self.entry(u, j)
    }

    /// An empty store for `capacity` tables starting at `base`.
    pub fn new(base: u64, capacity: usize) -> (r: Self)
        requires
            base % 4096 == 0,
            base + capacity * 4096 <= PHYS_LIMIT,
        ensures
            r.wf(),
            r.base() == base,
            r.capacity() == capacity,
            r.count() == 0,
            r.tlb_ops() == Seq::<TlbOp>::empty(),
    {
        TableStore {
            base,
            capacity,
            count: 0,
            entries: Vec::new(),
            levels: Ghost(Seq::empty()),
            tlb_ops: Vec::new(),
        }
    }

    /// Whether another table can be allocated.
    pub fn has_free(&self) -> (r: bool)
        requires
            self.wf(),
        ensures
            r == (self.count() < self.capacity()),
    {
        self.count < self.capacity
    }

    /// Number of tables that can still be allocated.
    pub fn free_tables(&self) -> (r: usize)
        requires
            self.wf(),
        ensures
            r == self.capacity() - self.count(),
    {
        self.capacity - self.count
    }

    /// Facts about table addresses.
    pub proof fn lemma_addr(&self, t: int)
        requires
            self.wf(),
            0 <= t < self.capacity(),
        ensures
            self.addr_of(t) == self.base() + t * 4096,
            self.addr_of(t) % 4096 == 0,
            self.addr_of(t) < PHYS_LIMIT,
            spec_table_desc(self.addr_of(t)) & PTE_ADDR_MASK == self.addr_of(t),
            self.target(spec_table_desc(self.addr_of(t))) == t,
            spec_is_table(spec_table_desc(self.addr_of(t))),
            spec_is_valid(spec_table_desc(self.addr_of(t))),
            spec_table_desc(self.addr_of(t)) == self.addr_of(t) | 3,
            t < self.count() ==> self.table_of(self.addr_of(t)) == Some(t),
    {
        assert(self.base() + t * 4096 < PHYS_LIMIT) by (nonlinear_arith)
            requires self.base() + self.capacity() * 4096 <= PHYS_LIMIT, 0 <= t < self.capacity();
        let a = self.addr_of(t);
        assert(a % 4096 == 0);
        lemma_table_desc_roundtrip(a);
        assert((a - self.base()) / 4096 == t);
    }

    /// Allocate a zeroed table for translation level `level`, returning its address.
    pub(crate) fn alloc_table(&mut self, level: Ghost<int>) -> (r: Option<u64>)
        requires
            old(self).wf(),
            0 <= level@ <= 3,
        ensures
            final(self).wf(),
            final(self).base() == old(self).base(),
            final(self).capacity() == old(self).capacity(),
            final(self).tlb_ops() == old(self).tlb_ops(),
            forall|u: int| 0 <= u < old(self).count() ==> #[trigger] final(self).level(u) == old(self).level(u),
            forall|u: int, j: int| 0 <= u < old(self).count() && 0 <= j < ENTRIES
                ==> #[trigger] final(self).entry(u, j) == old(self).entry(u, j),
            old(self).count() == old(self).capacity() ==> r.is_none() && *final(self) == *old(self),
            old(self).count() < old(self).capacity() ==> {
                let t = old(self).count() as int;
                &&& r == Some(old(self).addr_of(t))
                &&& final(self).count() == t + 1
                &&& final(self).level(t) == level@
                &&& forall|j: int| 0 <= j < ENTRIES ==> #[trigger] final(self).entry(t, j) == 0
            },
    {
        if self.count >= self.capacity {
            return None;
        }
        let ghost s0 = *self;
        proof { s0.lemma_addr(s0.count() as int); }
        let ghost old_entries = self.entries@;
        let mut i: usize = 0;
        while i < ENTRIES
            invariant
                self.count < self.capacity,
                self.count <= self.capacity,
                i <= ENTRIES,
                self.entries@.len() == self.count * 512 + i,
                old_entries.len() == self.count * 512,
                forall|k: int| 0 <= k < old_entries.len() ==> self.entries@[k] == old_entries[k],
                forall|k: int| old_entries.len() <= k < self.entries@.len() ==> self.entries@[k] == 0,
                self.base + self.capacity * 4096 <= PHYS_LIMIT,
                self.levels == s0.levels,
                self.base == s0.base,
                self.count == s0.count,
                self.capacity == s0.capacity,
                self.tlb_ops == s0.tlb_ops,
            decreases ENTRIES - i,
        {
            self.entries.push(0);
            i = i + 1;
        }
        let t = self.count;
        let addr = self.base + 4096 * (t as u64);
        self.levels = Ghost(self.levels@.push(level@));
        self.count = t + 1;
        proof {
            assert forall|u: int, j: int| 0 <= u < old(self).count() && 0 <= j < ENTRIES
                implies #[trigger] self.entry(u, j) == old(self).entry(u, j) by {
                let c = old(self).count();
                assert(u * 512 + j < c * 512) by (nonlinear_arith)
                    requires 0 <= u < c, 0 <= j < 512;
            }
            assert forall|j: int| 0 <= j < ENTRIES implies #[trigger] self.entry(t as int, j) == 0 by {}
            assert forall|u: int, j: int| 0 <= u < self.count() && 0 <= j < ENTRIES && self.level(u) < 3
                && spec_is_table(#[trigger] self.entry(u, j)) implies {
                    let t2 = self.target(self.entry(u, j));
                    &&& 0 <= t2 < self.count()
                    &&& self.level(t2) == self.level(u) + 1
                    &&& self.entry(u, j) == spec_table_desc(self.addr_of(t2))
                } by {
                if u == t as int {
                    assert(self.entry(u, j) == 0);
                    lemma_desc_bits(0);
                } else {
                    assert(self.entry(u, j) == old(self).entry(u, j));
                    assert(spec_is_table(old(self).entry(u, j)));
                    assert(old(self).level(u) < 3);
                    let t2 = old(self).target(old(self).entry(u, j));
                    assert(0 <= t2 < old(self).count());
                    assert(self.level(t2) == old(self).level(t2));
                }
            }
            lemma_desc_bits(0);
            assert forall|a: int, b: int, c: int, d: int|
                0 <= a < self.count() && 0 <= b < ENTRIES && 0 <= c < self.count() && 0 <= d < ENTRIES
                && !(a == c && b == d) && self.level(a) < 3 && self.level(c) < 3
                && spec_is_table(#[trigger] self.entry(a, b)) && spec_is_table(#[trigger] self.entry(c, d))
                implies self.target(self.entry(a, b)) != self.target(self.entry(c, d)) by {
                assert(a != t as int);
                assert(c != t as int);
                assert(self.entry(a, b) == old(self).entry(a, b));
                assert(self.entry(c, d) == old(self).entry(c, d));
                assert(spec_is_table(old(self).entry(a, b)));
                assert(spec_is_table(old(self).entry(c, d)));
            }
        }
        Some(addr)
    }

    /// The table at address `a`, if it is one of ours.
    pub fn table_at(&self, a: u64) -> (r: Option<usize>)
        requires
            self.wf(),
        ensures
            match self.table_of(a) {
                Some(t) => r.is_some() && r.unwrap() as int == t,
                None => r.is_none(),
            },
    {
        if a < self.base {
            return None;
        }
        let off = a - self.base;
        if off % 4096 != 0 {
            return None;
        }
        let t = off / 4096;
        if t >= self.count as u64 {
            return None;
        }
        Some(t as usize)
    }

    /// Descriptor `i` of table `t`.
    pub fn read(&self, t: usize, i: usize) -> (r: u64)
        requires
            self.wf(),
            t < self.count(),
            i < ENTRIES,
        ensures
            r == self.entry(t as int, i as int),
    {
        let n = self.entries.len();
        assert(t * 512 + i < self.count() * 512) by (nonlinear_arith)
            requires t < self.count(), i < 512;
        self.entries[t * 512 + i]
    }

    /// Replace descriptor `i` of table `t`. A table descriptor may only be
    /// written into a level 0-2 table when it points at a table of the next
    /// level.
    pub(crate) fn write(&mut self, t: usize, i: usize, v: u64)
        requires
            old(self).wf(),
            t < old(self).count(),
            i < ENTRIES,
            old(self).level(t as int) < 3 && spec_is_table(v) ==> {
                let t2 = old(self).target(v);
                &&& 0 <= t2 < old(self).count()
                &&& old(self).level(t2) == old(self).level(t as int) + 1
                &&& v == spec_table_desc(old(self).addr_of(t2))
                &&& forall|u: int, j: int| 0 <= u < old(self).count() && 0 <= j < ENTRIES && !(u == t && j == i)
                    && old(self).level(u) < 3 && spec_is_table(#[trigger] old(self).entry(u, j))
                    ==> old(self).target(old(self).entry(u, j)) != t2
            },
        ensures
            final(self).wf(),
            old(self).write_of(final(self), t as int, i as int, v),
            final(self).tlb_ops() == old(self).tlb_ops(),
    {
        let n = self.entries.len();
        assert(t * 512 + i < self.count() * 512) by (nonlinear_arith)
            requires t < self.count(), i < 512;
        self.entries.set(t * 512 + i, v);
        proof {
            assert forall|u: int, j: int| 0 <= u < self.count() && 0 <= j < ENTRIES && !(u == t && j == i)
                implies #[trigger] self.entry(u, j) == old(self).entry(u, j) by {
                assert(u * 512 + j != t * 512 + i) by (nonlinear_arith)
                    requires 0 <= u < self.count(), 0 <= j < 512, !(u == t && j == i), t < self.count(), i < 512;
                assert(0 <= u * 512 + j < self.count() * 512) by (nonlinear_arith)
                    requires 0 <= u < self.count(), 0 <= j < 512;
            }
            assert forall|u: int, j: int| 0 <= u < self.count() && 0 <= j < ENTRIES && self.level(u) < 3
                && spec_is_table(#[trigger] self.entry(u, j)) implies {
                    let t2 = self.target(self.entry(u, j));
                    &&& 0 <= t2 < self.count()
                    &&& self.level(t2) == self.level(u) + 1
                    &&& self.entry(u, j) == spec_table_desc(self.addr_of(t2))
                } by {
                if !(u == t && j == i) {
                    assert(spec_is_table(old(self).entry(u, j)));
                }
            }
            assert forall|a: int, b: int, c: int, d: int|
                0 <= a < self.count() && 0 <= b < ENTRIES && 0 <= c < self.count() && 0 <= d < ENTRIES
                && !(a == c && b == d) && self.level(a) < 3 && self.level(c) < 3
                && spec_is_table(#[trigger] self.entry(a, b)) && spec_is_table(#[trigger] self.entry(c, d))
                implies self.target(self.entry(a, b)) != self.target(self.entry(c, d)) by {
                if a == t && b == i {
                    assert(spec_is_table(old(self).entry(c, d)));
                } else if c == t && d == i {
                    assert(spec_is_table(old(self).entry(a, b)));
                } else {
                    assert(spec_is_table(old(self).entry(a, b)));
                    assert(spec_is_table(old(self).entry(c, d)));
                }
            }
        }
    }

    /// Record a TLB maintenance request.
    pub(crate) fn tlbi(&mut self, op: TlbOp)
        requires
            old(self).wf(),
        ensures
            final(self).wf(),
            final(self).tlb_ops() == old(self).tlb_ops().push(op),
            old(self).same_tables(final(self)),
    {
        self.tlb_ops.push(op);
        assert(self.entries == old(self).entries && self.levels == old(self).levels);
        assert(self.base == old(self).base && self.count == old(self).count && self.capacity == old(self).capacity);
        assert(forall|u: int, j: int| #[trigger] self.entry(u, j) == old(self).entry(u, j));
        assert(forall|u: int| #[trigger] self.level(u) == old(self).level(u));
    }

    /// Hand the recorded TLB maintenance requests to the caller, oldest first.
    pub fn take_tlb_ops(&mut self) -> (r: Vec<TlbOp>)
        requires
            old(self).wf(),
        ensures
            final(self).wf(),
            r@ == old(self).tlb_ops(),
            final(self).tlb_ops() == Seq::<TlbOp>::empty(),
            old(self).same_tables(final(self)),
    {
        let mut ops: Vec<TlbOp> = Vec::new();
        std::mem::swap(&mut ops, &mut self.tlb_ops);
        assert(self.entries == old(self).entries && self.levels == old(self).levels);
        assert(self.base == old(self).base && self.count == old(self).count && self.capacity == old(self).capacity);
        assert(forall|u: int, j: int| #[trigger] self.entry(u, j) == old(self).entry(u, j));
        assert(forall|u: int| #[trigger] self.level(u) == old(self).level(u));
        ops
    }
}


impl TableStore {
    /// The descriptor position (table, index) at which the walk for `ipa`
    /// starting from the level-0 table at `l0` ends in a valid leaf: an L1 or
    /// L2 block, or an L3 page. `None` when the walk meets an invalid entry.
    pub open spec fn walk(&self, l0: u64, ipa: u64) -> Option<(int, int)> {
        match self.table_of(l0) {
            None => None,
            Some(t0) => {
                let e0 = self.entry(t0, spec_index(ipa, 39) as int);
                if !spec_is_table(e0) {
                    None
                } else {
                    match self.table_of(e0 & PTE_ADDR_MASK) {
                        None => None,
                        Some(t1) => {
                            let i1 = spec_index(ipa, 30) as int;
                            let e1 = self.entry(t1, i1);
                            if !spec_is_valid(e1) {
                                None
                            } else if e1 & PTE_TABLE == 0 {
                                Some((t1, i1))
                            } else {
                                match self.table_of(e1 & PTE_ADDR_MASK) {
                                    None => None,
                                    Some(t2) => {
                                        let i2 = spec_index(ipa, 21) as int;
                                        let e2 = self.entry(t2, i2);
                                        if !spec_is_valid(e2) {
                                            None
                                        } else if e2 & PTE_TABLE == 0 {
                                            Some((t2, i2))
                                        } else {
                                            match self.table_of(e2 & PTE_ADDR_MASK) {
                                                None => None,
                                                Some(t3) => {
                                                    let i3 = spec_index(ipa, 12) as int;
                                                    if !spec_is_valid(self.entry(t3, i3)) {
                                                        None
                                                    } else {
                                                        Some((t3, i3))
                                                    }
                                                },
                                            }
                                        }
                                    },
                                }
                            }
                        },
                    }
                }
            },
        }
    }

    /// The leaf descriptor that translates `ipa`, if any.
    pub open spec fn leaf(&self, l0: u64, ipa: u64) -> Option<u64> {
        match self.walk(l0, ipa) {
            Some((t, i)) => Some(self.entry(t, i)),
            None => None,
        }
    }

    /// Walk the tables for `ipa` from the level-0 table at `l0`, returning
    /// the position of the leaf descriptor.
    pub fn walk_leaf(&self, l0: u64, ipa: u64) -> (r: Option<(usize, usize)>)
        requires
            self.wf(),
        ensures
            match self.walk(l0, ipa) {
                Some((t, i)) => r.is_some() && r.unwrap().0 as int == t && r.unwrap().1 as int == i
                    && 0 <= t < self.count() && 0 <= i < ENTRIES,
                None => r.is_none(),
            },
    {
        let t0 = match self.table_at(l0) {
            Some(t) => t,
            None => return None,
        };
        let i0 = crate::mmu::table_index(ipa, 39);
        let e0 = self.read(t0, i0);
        if e0 & (PTE_VALID | PTE_TABLE) != (PTE_VALID | PTE_TABLE) {
            return None;
        }
        let t1 = match self.table_at(e0 & PTE_ADDR_MASK) {
            Some(t) => t,
            None => return None,
        };
        let i1 = crate::mmu::table_index(ipa, 30);
        let e1 = self.read(t1, i1);
        if e1 & PTE_VALID == 0 {
            return None;
        }
        if e1 & PTE_TABLE == 0 {
            return Some((t1, i1));
        }
        let t2 = match self.table_at(e1 & PTE_ADDR_MASK) {
            Some(t) => t,
            None => return None,
        };
        let i2 = crate::mmu::table_index(ipa, 21);
        let e2 = self.read(t2, i2);
        if e2 & PTE_VALID == 0 {
            return None;
        }
        if e2 & PTE_TABLE == 0 {
            return Some((t2, i2));
        }
        let t3 = match self.table_at(e2 & PTE_ADDR_MASK) {
            Some(t) => t,
            None => return None,
        };
        let i3 = crate::mmu::table_index(ipa, 12);
        let e3 = self.read(t3, i3);
        if e3 & PTE_VALID == 0 {
            return None;
        }
        Some((t3, i3))
    }
}


/// Facts about descriptor bits: the two type bits decide validity and kind,
/// the zero entry is invalid, `| 1 | 2` is `| 3`, and the attribute encodings
/// leave the two type bits clear.
pub proof fn lemma_desc_bits(e: u64)
    by (bit_vector)
    ensures
        (e & 3u64 == 3u64) == spec_is_table(e),
        spec_is_table(e) ==> spec_is_valid(e) && e & PTE_TABLE != 0,
        (spec_is_valid(e) && e & PTE_TABLE != 0) ==> spec_is_table(e),
        !spec_is_valid(0),
        !spec_is_table(0),
        PTE_VALID | PTE_TABLE == 3u64,
        e | 1u64 | 2u64 == e | 3u64,
        e | (1u64 | 2u64) == e | 3u64,
        (e | 2u64 | 1u64) & 3u64 == 3u64,
        (e & 0x0000_FFFF_FFFF_FFFEu64) | (0u64 << 48u64) == e & 0x0000_FFFF_FFFF_FFFEu64,
        e & !0x1F_FFFFu64 <= 0xFFFF_FFFF_FFE0_0000u64,
        0x7FCu64 & 3 == 0 && 0x4C0u64 & 3 == 0 && 0x77Cu64 & 3 == 0 && 0x440u64 & 3 == 0,
{
}

/// Two descriptors with the same low two bits agree on validity and kind.
pub proof fn lemma_same_kind(v: u64, e: u64)
    by (bit_vector)
    requires
        v & 3u64 == e & 3u64,
    ensures
        spec_is_valid(v) == spec_is_valid(e),
        (v & PTE_TABLE == 0) == (e & PTE_TABLE == 0),
        spec_is_table(v) == spec_is_table(e),
{
}

impl TableStore {
    /// What well-formedness gives callers.
    pub proof fn lemma_wf(&self)
        requires
            self.wf(),
        ensures
            self.links_ok(),
            self.tree_ok(),
            self.count() <= self.capacity(),
            self.capacity() <= usize::MAX,
            forall|t: int| 0 <= t < self.count() ==> 0 <= #[trigger] self.level(t) <= 3,
    {
    }

    /// A walk that goes through the tables `t1` and `t2` and ends in a 2 MiB
    /// block at level 2.
    pub proof fn lemma_walk_l2_block(&self, l0: u64, ipa: u64, t1: int, t2: int)
        requires
            self.wf(),
            self.table_of(l0).is_some(),
            0 <= t1 < self.count(),
            0 <= t2 < self.count(),
            self.entry(self.table_of(l0).unwrap(), spec_index(ipa, 39) as int) == spec_table_desc(self.addr_of(t1)),
            self.entry(t1, spec_index(ipa, 30) as int) == spec_table_desc(self.addr_of(t2)),
            spec_is_valid(self.entry(t2, spec_index(ipa, 21) as int)),
            self.entry(t2, spec_index(ipa, 21) as int) & PTE_TABLE == 0,
        ensures
            self.walk(l0, ipa) == Some((t2, spec_index(ipa, 21) as int)),
            self.leaf(l0, ipa) == Some(self.entry(t2, spec_index(ipa, 21) as int)),
    {
        self.lemma_addr(t1);
        self.lemma_addr(t2);
        lemma_desc_bits(spec_table_desc(self.addr_of(t1)));
        lemma_desc_bits(spec_table_desc(self.addr_of(t2)));
    }

    /// A walk that goes through the tables `t1`, `t2` and `t3` and ends in a
    /// 4 KiB page at level 3.
    pub proof fn lemma_walk_l3_page(&self, l0: u64, ipa: u64, t1: int, t2: int, t3: int)
        requires
            self.wf(),
            self.table_of(l0).is_some(),
            0 <= t1 < self.count(),
            0 <= t2 < self.count(),
            0 <= t3 < self.count(),
            self.entry(self.table_of(l0).unwrap(), spec_index(ipa, 39) as int) == spec_table_desc(self.addr_of(t1)),
            self.entry(t1, spec_index(ipa, 30) as int) == spec_table_desc(self.addr_of(t2)),
            self.entry(t2, spec_index(ipa, 21) as int) == spec_table_desc(self.addr_of(t3)),
        ensures
            spec_is_valid(self.entry(t3, spec_index(ipa, 12) as int))
                ==> self.walk(l0, ipa) == Some((t3, spec_index(ipa, 12) as int))
                && self.leaf(l0, ipa) == Some(self.entry(t3, spec_index(ipa, 12) as int)),
            !spec_is_valid(self.entry(t3, spec_index(ipa, 12) as int)) ==> self.walk(l0, ipa).is_none()
                && self.leaf(l0, ipa).is_none(),
    {
        self.lemma_addr(t1);
        self.lemma_addr(t2);
        self.lemma_addr(t3);
        lemma_desc_bits(spec_table_desc(self.addr_of(t1)));
        lemma_desc_bits(spec_table_desc(self.addr_of(t2)));
        lemma_desc_bits(spec_table_desc(self.addr_of(t3)));
    }

    /// Starting at a level-0 table, a walk visits tables of levels 1, 2, 3
    /// and ends on a valid leaf: a block (table bit clear) at level 1 or 2,
    /// or a page at level 3.
    pub proof fn lemma_walk_levels(&self, l0: u64, ipa: u64)
        requires
            self.wf(),
            self.table_of(l0).is_some(),
            self.level(self.table_of(l0).unwrap()) == 0,
            self.walk(l0, ipa).is_some(),
        ensures
            ({
                let (t, i) = self.walk(l0, ipa).unwrap();
                &&& 0 <= t < self.count()
                &&& 0 <= i < ENTRIES
                &&& 1 <= self.level(t) <= 3
                &&& self.level(t) < 3 ==> self.entry(t, i) & PTE_TABLE == 0
                &&& spec_is_valid(self.entry(t, i))
            }),
    {
        let t0 = self.table_of(l0).unwrap();
        crate::mmu::lemma_index_bound(ipa, 39);
        crate::mmu::lemma_index_bound(ipa, 30);
        crate::mmu::lemma_index_bound(ipa, 21);
        crate::mmu::lemma_index_bound(ipa, 12);
        let i0 = spec_index(ipa, 39) as int;
        let e0 = self.entry(t0, i0);
        assert(spec_is_table(e0));
        let t1 = self.target(e0);
        self.lemma_addr(t1);
        let i1 = spec_index(ipa, 30) as int;
        let e1 = self.entry(t1, i1);
        lemma_desc_bits(e1);
        if e1 & PTE_TABLE != 0 {
            let t2 = self.target(e1);
            self.lemma_addr(t2);
            let i2 = spec_index(ipa, 21) as int;
            let e2 = self.entry(t2, i2);
            lemma_desc_bits(e2);
            if e2 & PTE_TABLE != 0 {
                let t3 = self.target(e2);
                self.lemma_addr(t3);
            }
        }
    }

    /// A store that keeps every valid descriptor keeps every walk that
    /// reached a leaf.
    pub proof fn lemma_keeps_walk(&self, other: &Self, l0: u64, q: u64)
        requires
            self.wf(),
            self.keeps_leaves(other),
            self.walk(l0, q).is_some(),
        ensures
            other.walk(l0, q) == self.walk(l0, q),
            other.leaf(l0, q) == self.leaf(l0, q),
    {
        crate::mmu::lemma_index_bound(q, 39);
        crate::mmu::lemma_index_bound(q, 30);
        crate::mmu::lemma_index_bound(q, 21);
        crate::mmu::lemma_index_bound(q, 12);
        let t0 = self.table_of(l0).unwrap();
        assert(other.table_of(l0) == self.table_of(l0));
        let i0 = spec_index(q, 39) as int;
        let e0 = self.entry(t0, i0);
        lemma_desc_bits(e0);
        assert(other.entry(t0, i0) == e0);
        let t1 = self.table_of(e0 & PTE_ADDR_MASK).unwrap();
        assert(other.table_of(e0 & PTE_ADDR_MASK) == Some(t1));
        let i1 = spec_index(q, 30) as int;
        let e1 = self.entry(t1, i1);
        assert(other.entry(t1, i1) == e1);
        if e1 & PTE_TABLE != 0 {
            let t2 = self.table_of(e1 & PTE_ADDR_MASK).unwrap();
            assert(other.table_of(e1 & PTE_ADDR_MASK) == Some(t2));
            let i2 = spec_index(q, 21) as int;
            let e2 = self.entry(t2, i2);
            assert(other.entry(t2, i2) == e2);
            if e2 & PTE_TABLE != 0 {
                let t3 = self.table_of(e2 & PTE_ADDR_MASK).unwrap();
                assert(other.table_of(e2 & PTE_ADDR_MASK) == Some(t3));
                let i3 = spec_index(q, 12) as int;
                assert(other.entry(t3, i3) == self.entry(t3, i3));
            }
        }
    }

    /// Clearing descriptor `i` of level-3 table `t` ends the walks that
    /// ended there and leaves every other walk as it was.
    pub proof fn lemma_clear_page_frame(&self, after: &Self, l0: u64, t: int, i: int, q: u64)
        requires
            self.wf(),
            self.table_of(l0).is_some(),
            self.level(self.table_of(l0).unwrap()) == 0,
            0 <= t < self.count(),
            0 <= i < ENTRIES,
            self.level(t) == 3,
            self.write_of(after, t, i, 0),
        ensures
            after.walk(l0, q) == if self.walk(l0, q) == Some((t, i)) { None } else { self.walk(l0, q) },
    {
        lemma_desc_bits(0);
        crate::mmu::lemma_index_bound(q, 39);
        crate::mmu::lemma_index_bound(q, 30);
        crate::mmu::lemma_index_bound(q, 21);
        crate::mmu::lemma_index_bound(q, 12);
        let t0 = self.table_of(l0).unwrap();
        assert(after.table_of(l0) == self.table_of(l0));
        let i0 = spec_index(q, 39) as int;
        let e0 = self.entry(t0, i0);
        assert(after.entry(t0, i0) == e0);
        if spec_is_table(e0) {
            let t1 = self.target(e0);
            self.lemma_addr(t1);
            assert(after.table_of(e0 & PTE_ADDR_MASK) == self.table_of(e0 & PTE_ADDR_MASK));
            let i1 = spec_index(q, 30) as int;
            let e1 = self.entry(t1, i1);
            assert(self.level(t1) == 1);
            assert(after.entry(t1, i1) == e1);
            lemma_desc_bits(e1);
            if spec_is_valid(e1) && e1 & PTE_TABLE != 0 {
                let t2 = self.target(e1);
                self.lemma_addr(t2);
                assert(after.table_of(e1 & PTE_ADDR_MASK) == self.table_of(e1 & PTE_ADDR_MASK));
                let i2 = spec_index(q, 21) as int;
                let e2 = self.entry(t2, i2);
                assert(self.level(t2) == 2);
                assert(after.entry(t2, i2) == e2);
                lemma_desc_bits(e2);
                if spec_is_valid(e2) && e2 & PTE_TABLE != 0 {
                    let t3 = self.target(e2);
                    self.lemma_addr(t3);
                    assert(after.table_of(e2 & PTE_ADDR_MASK) == self.table_of(e2 & PTE_ADDR_MASK));
                    let i3 = spec_index(q, 12) as int;
                    if !(t3 == t && i3 == i) {
                        assert(after.entry(t3, i3) == self.entry(t3, i3));
                    }
                }
            }
        }
    }

    /// Rewriting the leaf of `ipa`'s walk with a value of the same kind moves
    /// no walk: the walk of any `q` stays, and its leaf changes only when it
    /// ends at the rewritten descriptor.
    pub proof fn lemma_walk_update_leaf_frame(&self, after: &Self, l0: u64, ipa: u64, v: u64, q: u64)
        requires
            self.wf(),
            self.table_of(l0).is_some(),
            self.level(self.table_of(l0).unwrap()) == 0,
            self.walk(l0, ipa).is_some(),
            self.write_of(after, self.walk(l0, ipa).unwrap().0, self.walk(l0, ipa).unwrap().1, v),
            v & 3u64 == self.entry(self.walk(l0, ipa).unwrap().0, self.walk(l0, ipa).unwrap().1) & 3u64,
        ensures
            after.walk(l0, q) == self.walk(l0, q),
            after.leaf(l0, q) == if self.walk(l0, q) == self.walk(l0, ipa) {
                Some(v)
            } else {
                self.leaf(l0, q)
            },
    {
        let (t, i) = self.walk(l0, ipa).unwrap();
        self.lemma_walk_levels(l0, ipa);
        lemma_same_kind(v, self.entry(t, i));
        lemma_desc_bits(v);
        let t0 = self.table_of(l0).unwrap();
        crate::mmu::lemma_index_bound(q, 39);
        crate::mmu::lemma_index_bound(q, 30);
        crate::mmu::lemma_index_bound(q, 21);
        crate::mmu::lemma_index_bound(q, 12);
        let i0 = spec_index(q, 39) as int;
        let e0 = self.entry(t0, i0);
        assert(after.table_of(l0) == self.table_of(l0));
        assert(after.entry(t0, i0) == e0);
        if spec_is_table(e0) {
            let t1 = self.target(e0);
            self.lemma_addr(t1);
            assert(after.table_of(e0 & PTE_ADDR_MASK) == self.table_of(e0 & PTE_ADDR_MASK));
            let i1 = spec_index(q, 30) as int;
            let e1 = self.entry(t1, i1);
            lemma_desc_bits(e1);
            if t1 == t && i1 == i {
                assert(after.entry(t1, i1) == v);
            } else {
                assert(after.entry(t1, i1) == e1);
                if spec_is_valid(e1) && e1 & PTE_TABLE != 0 {
                    assert(self.level(t1) == 1);
                    let t2 = self.target(e1);
                    self.lemma_addr(t2);
                    assert(after.table_of(e1 & PTE_ADDR_MASK) == self.table_of(e1 & PTE_ADDR_MASK));
                    let i2 = spec_index(q, 21) as int;
                    let e2 = self.entry(t2, i2);
                    lemma_desc_bits(e2);
                    if t2 == t && i2 == i {
                        assert(after.entry(t2, i2) == v);
                    } else {
                        assert(after.entry(t2, i2) == e2);
                        if spec_is_valid(e2) && e2 & PTE_TABLE != 0 {
                            assert(self.level(t2) == 2);
                            let t3 = self.target(e2);
                            self.lemma_addr(t3);
                            assert(after.table_of(e2 & PTE_ADDR_MASK) == self.table_of(e2 & PTE_ADDR_MASK));
                            let i3 = spec_index(q, 12) as int;
                            if t3 == t && i3 == i {
                                assert(after.entry(t3, i3) == v);
                            } else {
                                assert(after.entry(t3, i3) == self.entry(t3, i3));
                            }
                        }
                    }
                }
            }
        }
    }

    /// Rewriting the leaf of a walk from a level-0 table with a value of the
    /// same kind (same low two bits) leaves the walk in place.
    pub proof fn lemma_walk_update_leaf(&self, after: &Self, l0: u64, ipa: u64, v: u64)
        requires
            self.wf(),
            self.table_of(l0).is_some(),
            self.level(self.table_of(l0).unwrap()) == 0,
            self.walk(l0, ipa).is_some(),
            self.write_of(after, self.walk(l0, ipa).unwrap().0, self.walk(l0, ipa).unwrap().1, v),
            v & 3u64 == self.entry(self.walk(l0, ipa).unwrap().0, self.walk(l0, ipa).unwrap().1) & 3u64,
        ensures
            after.walk(l0, ipa) == self.walk(l0, ipa),
            after.leaf(l0, ipa) == Some(v),
    {
        let (t, i) = self.walk(l0, ipa).unwrap();
        self.lemma_walk_levels(l0, ipa);
        lemma_same_kind(v, self.entry(t, i));
        let t0 = self.table_of(l0).unwrap();
        crate::mmu::lemma_index_bound(ipa, 39);
        crate::mmu::lemma_index_bound(ipa, 30);
        crate::mmu::lemma_index_bound(ipa, 21);
        crate::mmu::lemma_index_bound(ipa, 12);
        let i0 = spec_index(ipa, 39) as int;
        let e0 = self.entry(t0, i0);
        assert(after.table_of(l0) == self.table_of(l0));
        assert(after.entry(t0, i0) == e0);
        let t1 = self.target(e0);
        self.lemma_addr(t1);
        assert(after.table_of(e0 & PTE_ADDR_MASK) == self.table_of(e0 & PTE_ADDR_MASK));
        let i1 = spec_index(ipa, 30) as int;
        let e1 = self.entry(t1, i1);
        lemma_desc_bits(e1);
        if e1 & PTE_TABLE != 0 {
            assert(self.level(t1) == 1);
            assert(after.entry(t1, i1) == e1);
            let t2 = self.target(e1);
            self.lemma_addr(t2);
            assert(after.table_of(e1 & PTE_ADDR_MASK) == self.table_of(e1 & PTE_ADDR_MASK));
            let i2 = spec_index(ipa, 21) as int;
            let e2 = self.entry(t2, i2);
            lemma_desc_bits(e2);
            if e2 & PTE_TABLE != 0 {
                assert(self.level(t2) == 2);
                assert(after.entry(t2, i2) == e2);
                let t3 = self.target(e2);
                self.lemma_addr(t3);
                assert(after.table_of(e2 & PTE_ADDR_MASK) == self.table_of(e2 & PTE_ADDR_MASK));
            }
        }
    }
}

} // verus!
