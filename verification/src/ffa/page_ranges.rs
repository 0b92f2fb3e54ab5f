//! The pages of an FF-A memory region in a VM's Stage-2 tables: checking
//! that the owner holds them exclusively, and moving them between
//! ownership states and access rights.
//!
//! A region is a list of (base IPA, page count) ranges; page `p` of a range
//! sits `p` pages above its base, wrapping at the top of the address space.

use vstd::prelude::*;
use crate::ffa::memory::{spec_ownership, spec_ownership_bits, validate_page_for_share, PageOwnership};
use crate::ffa::stage2_walker::{l3_slot, leaf_after_split, page_attrs, spec_walker_page, Stage2Walker};
use crate::ffa::FFA_MAX_VMS;
use crate::mmu::{spec_index, spec_sw_bits, DynamicIdentityMapper};
use crate::table_store::TableStore;

verus! {

/// IPA of page `p` of range `r`.
pub open spec fn range_page(r: (u64, u32), p: int) -> u64 {
    r.0.wrapping_add((p * 4096) as u64)
}

/// Page `p` of range `i` is one of the first `n` ranges of `rs`.
pub open spec fn in_region(rs: Seq<(u64, u32)>, n: int, i: int, p: int) -> bool {
    0 <= i < n && i < rs.len() && 0 <= p < rs[i].1
}

/// The page at `ipa` is mapped and exclusively owned.
pub open spec fn page_owned(s: &TableStore, l0: u64, ipa: u64) -> bool {
    match page_attrs(s, l0, ipa) {
        Some((sw, _ap)) => spec_ownership(sw) == PageOwnership::Owned,
        None => false,
    }
}

/// Every page of the first `n` ranges of `rs` is mapped and exclusively owned.
pub open spec fn pages_owned(s: &TableStore, l0: u64, rs: Seq<(u64, u32)>, n: int) -> bool {
    forall|i: int, p: int| #[trigger] in_region(rs, n, i, p) ==> page_owned(s, l0, range_page(rs[i], p))
}

/// The pages of the region that are mapped in `b` are those mapped in `a`.
pub open spec fn same_pages_mapped(a: &TableStore, b: &TableStore, l0: u64, rs: Seq<(u64, u32)>, n: int) -> bool {
    forall|i: int, p: int| #[trigger] in_region(rs, n, i, p)
        ==> page_attrs(b, l0, range_page(rs[i], p)).is_some() == page_attrs(a, l0, range_page(rs[i], p)).is_some()
}

/// Every page of the region that is mapped in `b` has software bits `sw`
/// and access `ap`.
pub open spec fn pages_marked(b: &TableStore, l0: u64, rs: Seq<(u64, u32)>, n: int, sw: u8, ap: u8) -> bool {
    forall|i: int, p: int| #[trigger] in_region(rs, n, i, p) && page_attrs(b, l0, range_page(rs[i], p)).is_some()
        ==> page_attrs(b, l0, range_page(rs[i], p)) == Some((sw, ap))
}

/// The Stage-2 tables of the VMs: the pages that hold them, and the level-0
/// table of each VM (0 while it has none).
pub struct VmStage2 {
    pub store: TableStore,
    pub roots: Vec<u64>,
}

impl VmStage2 {
    pub open spec fn wf(&self) -> bool {
        &&& self.store.wf()
        &&& self.roots@.len() == FFA_MAX_VMS
        &&& forall|v: int| 0 <= v < FFA_MAX_VMS && #[trigger] self.roots@[v] != 0
            ==> (Stage2Walker { l0_table: self.roots@[v] }).wf(&self.store)
    }

    /// Tables in `store`, no VM attached yet.
    pub fn new(store: TableStore) -> (r: Self)
        requires
            store.wf(),
        ensures
            r.wf(),
            r.store == store,
            r.roots@ == seq![0u64, 0u64, 0u64, 0u64],
    {
        VmStage2 { store, roots: vec![0, 0, 0, 0] }
    }

    /// VM `vm_id` translates through the tables `mapper` built in the store.
    pub fn attach(&mut self, vm_id: usize, mapper: &DynamicIdentityMapper)
        requires
            old(self).wf(),
            vm_id < FFA_MAX_VMS,
            mapper.wf(&old(self).store),
        ensures
            final(self).wf(),
            final(self).store == old(self).store,
            final(self).roots@ == old(self).roots@.update(vm_id as int, mapper.l0()),
    {
        proof { mapper.lemma_root(&self.store); }
        self.roots.set(vm_id, mapper.vttbr());
    }
}

/// A store that grew keeps every root it had.
pub proof fn lemma_roots_kept(t: &VmStage2, s: &TableStore)
    requires
        t.wf(),
        s.wf(),
        t.store.grows_to(s),
    ensures
        (VmStage2 { store: *s, roots: t.roots }).wf(),
{
    assert forall|v: int| 0 <= v < FFA_MAX_VMS && #[trigger] t.roots@[v] != 0
        implies (Stage2Walker { l0_table: t.roots@[v] }).wf(s) by {
        let tt = t.store.table_of(t.roots@[v]).unwrap();
        assert(s.table_of(t.roots@[v]) == Some(tt));
    }
}

/// Whether every page of the first `n` ranges is mapped and exclusively
/// owned in the walker's tables.
pub fn check_pages_owned(w: &Stage2Walker, store: &TableStore, rs: &[(u64, u32)], n: usize) -> (r: bool)
    requires
        store.wf(),
        n <= rs@.len(),
    ensures
        r == pages_owned(store, w.l0_table, rs@, n as int),
{
    let mut i: usize = 0;
    while i < n
        invariant
            store.wf(),
            n <= rs@.len(),
            i <= n,
            forall|j: int, p: int| #[trigger] in_region(rs@, n as int, j, p) && j < i
                ==> page_owned(store, w.l0_table, range_page(rs@[j], p)),
        decreases n - i,
    {
        let (base, count) = rs[i];
        let mut p: u64 = 0;
        while p < count as u64
            invariant
                store.wf(),
                n <= rs@.len(),
                i < n,
                (base, count) == rs@[i as int],
                p <= count,
                forall|j: int, q: int| #[trigger] in_region(rs@, n as int, j, q) && j < i
                    ==> page_owned(store, w.l0_table, range_page(rs@[j], q)),
                forall|q: int| 0 <= q < p ==> #[trigger] page_owned(store, w.l0_table, range_page(rs@[i as int], q)),
            decreases count - p,
        {
            let ipa: u64 = base.wrapping_add(p * 4096);
            assert(ipa == range_page(rs@[i as int], p as int));
            let ok = match w.read_sw_bits(store, ipa) {
                Some(sw) => validate_page_for_share(sw).is_ok(),
                None => false,
            };
            if !ok {
                assert(in_region(rs@, n as int, i as int, p as int));
                assert(!page_owned(store, w.l0_table, range_page(rs@[i as int], p as int)));
                return false;
            }
            p = p + 1;
        }
        i = i + 1;
    }
    true
}

/// The low two bits of a two-bit value are the value.
proof fn lemma_two_bits(b: u8)
    by (bit_vector)
    requires
        b < 4,
    ensures
        b & 3 == b,
{
}

/// The page at `ipa` is unmapped, carries `(sw, ap)`, or the store is full.
pub open spec fn marked_or_full(s: &TableStore, l0: u64, ipa: u64, sw: u8, ap: u8) -> bool {
    ||| page_attrs(s, l0, ipa).is_none()
    ||| page_attrs(s, l0, ipa) == Some((sw, ap))
    ||| s.count() == s.capacity()
}

/// Give the page at `ipa`, when mapped, software bits `sw` and then access
/// `ap` (each splitting a 2 MiB block first when needed); a write that
/// finds no table left for a split changes nothing.
fn mark_page(w: &Stage2Walker, store: &mut TableStore, ipa: u64, sw: u8, ap: u8)
    requires
        w.wf(old(store)),
        sw < 4,
        ap < 4,
    ensures
        w.wf(final(store)),
        old(store).grows_to(final(store)),
        marked_or_full(final(store), w.l0_table, ipa, sw, ap),
        forall|q: u64| #![trigger page_attrs(final(store), w.l0_table, q)]
            page_attrs(final(store), w.l0_table, q).is_some() == page_attrs(old(store), w.l0_table, q).is_some(),
        forall|q: u64| #![trigger page_attrs(final(store), w.l0_table, q)]
            marked_or_full(old(store), w.l0_table, q, sw, ap) ==> marked_or_full(final(store), w.l0_table, q, sw, ap),
{
    let ghost s0 = *store;
    let r1 = w.write_sw_bits(store, ipa, sw);
    let ghost s1 = *store;
    let r2 = w.set_s2ap(store, ipa, ap);
    proof {
        lemma_two_bits(sw);
        lemma_two_bits(ap);
        s0.lemma_wf();
        s1.lemma_wf();
        store.lemma_wf();
        let l0 = w.l0_table;
        assert(page_attrs(&s1, l0, ipa).is_some() == page_attrs(&s0, l0, ipa).is_some());
        assert(page_attrs(store, l0, ipa).is_some() == page_attrs(&s1, l0, ipa).is_some());
        if s0.leaf(l0, ipa).is_some() && store.count() < store.capacity() {
            assert(s1.count() < s1.capacity());
            assert(s0.count() < s0.capacity());
            assert(r1 is Ok);
            let e1 = s1.leaf(l0, ipa).unwrap();
            crate::mmu::lemma_sw_bits(leaf_after_split(&s0, l0, ipa).unwrap(), sw);
            assert(spec_sw_bits(e1) == sw);
            assert(r2 is Ok);
            let l = leaf_after_split(&s1, l0, ipa).unwrap();
            crate::mmu::lemma_index_bound(ipa, 12);
            crate::ffa::stage2_walker::lemma_attr_bits(e1, spec_index(ipa, 12) as u64, sw);
            assert(spec_sw_bits(l) == sw);
            crate::ffa::stage2_walker::lemma_attr_bits(l, 0, ap);
            crate::ffa::stage2_walker::lemma_s2ap_bits(l, ap);
        }
        assert forall|q: u64| #![trigger page_attrs(store, l0, q)]
            marked_or_full(&s0, l0, q, sw, ap) implies marked_or_full(store, l0, q, sw, ap) by {
            assert(page_attrs(&s1, l0, q) == page_attrs(&s0, l0, q) || (page_attrs(&s0, l0, q) matches Some((a, b))
                && page_attrs(&s1, l0, q) == Some((sw & 3, b))));
        }
    }
}

/// Give every mapped page of the first `n` ranges software bits `sw` and
/// access `ap`, page by page (see `mark_page`). Unmapped pages stay
/// unmapped; when a split finds no table left the page keeps its state,
/// and the store is then full.
pub fn mark_pages(w: &Stage2Walker, store: &mut TableStore, rs: &[(u64, u32)], n: usize, sw: u8, ap: u8)
    requires
        w.wf(old(store)),
        n <= rs@.len(),
        sw < 4,
        ap < 4,
    ensures
        w.wf(final(store)),
        old(store).grows_to(final(store)),
        same_pages_mapped(old(store), final(store), w.l0_table, rs@, n as int),
        final(store).count() < final(store).capacity() ==> pages_marked(final(store), w.l0_table, rs@, n as int, sw, ap),
{
    let mut i: usize = 0;
    while i < n
        invariant
            w.wf(store),
            old(store).grows_to(store),
            n <= rs@.len(),
            i <= n,
            sw < 4,
            ap < 4,
            same_pages_mapped(old(store), store, w.l0_table, rs@, n as int),
            forall|j: int, p: int| #[trigger] in_region(rs@, n as int, j, p) && j < i
                ==> marked_or_full(store, w.l0_table, range_page(rs@[j], p), sw, ap),
        decreases n - i,
    {
        let (base, count) = rs[i];
        let mut p: u64 = 0;
        while p < count as u64
            invariant
                w.wf(store),
                old(store).grows_to(store),
                n <= rs@.len(),
                i < n,
                sw < 4,
                ap < 4,
                (base, count) == rs@[i as int],
                p <= count,
                same_pages_mapped(old(store), store, w.l0_table, rs@, n as int),
                forall|j: int, q: int| #[trigger] in_region(rs@, n as int, j, q) && j < i
                    ==> marked_or_full(store, w.l0_table, range_page(rs@[j], q), sw, ap),
                forall|q: int| 0 <= q < p ==> #[trigger] marked_or_full(store, w.l0_table, range_page(rs@[i as int], q), sw, ap),
            decreases count - p,
        {
            let ipa: u64 = base.wrapping_add(p * 4096);
            assert(ipa == range_page(rs@[i as int], p as int));
            let ghost s0 = *store;
            mark_page(w, store, ipa, sw, ap);
            proof {
                assert forall|j: int, q: int| #[trigger] in_region(rs@, n as int, j, q) implies
                    page_attrs(store, w.l0_table, range_page(rs@[j], q)).is_some()
                        == page_attrs(old(store), w.l0_table, range_page(rs@[j], q)).is_some() by {
                    assert(page_attrs(store, w.l0_table, range_page(rs@[j], q)).is_some()
                        == page_attrs(&s0, w.l0_table, range_page(rs@[j], q)).is_some());
                }
                assert forall|j: int, q: int| #[trigger] in_region(rs@, n as int, j, q) && j < i implies
                    marked_or_full(store, w.l0_table, range_page(rs@[j], q), sw, ap) by {
                    assert(marked_or_full(&s0, w.l0_table, range_page(rs@[j], q), sw, ap));
                    assert(page_attrs(store, w.l0_table, range_page(rs@[j], q)).is_some()
                        == page_attrs(&s0, w.l0_table, range_page(rs@[j], q)).is_some());
                }
                assert forall|q: int| 0 <= q < p + 1 implies
                    #[trigger] marked_or_full(store, w.l0_table, range_page(rs@[i as int], q), sw, ap) by {
                    if q < p {
                        assert(marked_or_full(&s0, w.l0_table, range_page(rs@[i as int], q), sw, ap));
                        assert(page_attrs(store, w.l0_table, range_page(rs@[i as int], q)).is_some()
                            == page_attrs(&s0, w.l0_table, range_page(rs@[i as int], q)).is_some());
                    }
                }
            }
            p = p + 1;
        }
        proof {
            assert forall|j: int, q: int| #[trigger] in_region(rs@, n as int, j, q) && j < i + 1 implies
                marked_or_full(store, w.l0_table, range_page(rs@[j], q), sw, ap) by {
                if j == i {
                    assert(marked_or_full(store, w.l0_table, range_page(rs@[i as int], q), sw, ap));
                }
            }
        }
        i = i + 1;
    }
    proof {
        store.lemma_wf();
        assert forall|j: int, q: int| #[trigger] in_region(rs@, n as int, j, q)
            && page_attrs(store, w.l0_table, range_page(rs@[j], q)).is_some() && store.count() < store.capacity()
            implies page_attrs(store, w.l0_table, range_page(rs@[j], q)) == Some((sw, ap)) by {
            assert(marked_or_full(store, w.l0_table, range_page(rs@[j], q), sw, ap));
        }
    }
}

/// Pages left marked shared by their owner are not exclusively owned any
/// more, so a second share or lend of a region holding one is denied.
pub proof fn law_shared_pages_not_shareable(s: &TableStore, l0: u64, rs: Seq<(u64, u32)>, n: int, ap: u8)
    requires
        pages_marked(s, l0, rs, n, spec_ownership_bits(PageOwnership::SharedOwned), ap),
        in_region(rs, n, 0, 0),
        page_attrs(s, l0, range_page(rs[0], 0)).is_some(),
    ensures
        !pages_owned(s, l0, rs, n),
{
    lemma_two_bits(1);
    assert(!page_owned(s, l0, range_page(rs[0], 0)));
}

/// Giving back pages that were exclusively owned, mapped as before, makes
/// them exclusively owned again, with read-write access: reclaiming undoes
/// a share or lend.
pub proof fn law_reclaim_restores_owner(a: &TableStore, b: &TableStore, c: &TableStore, l0: u64, rs: Seq<(u64, u32)>, n: int)
    requires
        pages_owned(a, l0, rs, n),
        same_pages_mapped(a, b, l0, rs, n),
        same_pages_mapped(b, c, l0, rs, n),
        pages_marked(c, l0, rs, n, spec_ownership_bits(PageOwnership::Owned), 3),
    ensures
        pages_owned(c, l0, rs, n),
        forall|i: int, p: int| #[trigger] in_region(rs, n, i, p) ==> page_attrs(c, l0, range_page(rs[i], p)) == Some((0u8, 3u8)),
{
    assert forall|i: int, p: int| #[trigger] in_region(rs, n, i, p) implies page_owned(c, l0, range_page(rs[i], p))
        && page_attrs(c, l0, range_page(rs[i], p)) == Some((0u8, 3u8)) by {
        assert(page_owned(a, l0, range_page(rs[i], p)));
        lemma_two_bits(0);
    }
}

/// Every page of the region is mapped by `map_page`'s descriptor for it,
/// with access `ap` and software bits `sw`.
pub open spec fn pages_mapped_as(s: &TableStore, l0: u64, rs: Seq<(u64, u32)>, n: int, ap: u8, sw: u8) -> bool {
    forall|i: int, p: int| #[trigger] in_region(rs, n, i, p)
        ==> s.leaf(l0, range_page(rs[i], p)) == Some(spec_walker_page(range_page(rs[i], p), ap, sw))
}

/// No page of the region is mapped by a 4 KiB page.
pub open spec fn pages_unmapped(s: &TableStore, l0: u64, rs: Seq<(u64, u32)>, n: int) -> bool {
    forall|i: int, p: int| #[trigger] in_region(rs, n, i, p) ==> l3_slot(s, l0, range_page(rs[i], p)).is_none()
}

/// The pages of the region before page `c` of range `k` (in region order)
/// are not mapped by 4 KiB pages.
pub open spec fn prefix_unmapped(s: &TableStore, l0: u64, rs: Seq<(u64, u32)>, n: int, k: int, c: int) -> bool {
    forall|i: int, p: int| #[trigger] in_region(rs, n, i, p) && (i < k || (i == k && p < c))
        ==> l3_slot(s, l0, range_page(rs[i], p)).is_none()
}

/// Remove the 4 KiB page mapping of each page of the range, where there is
/// one; other 4 KiB mappings stay removed.
fn unmap_range(w: &Stage2Walker, store: &mut TableStore, r: (u64, u32), count: u64)
    requires
        w.wf(old(store)),
        count <= r.1,
    ensures
        w.wf(final(store)),
        old(store).grows_to(final(store)),
        forall|q: int| 0 <= q < count ==> #[trigger] l3_slot(final(store), w.l0_table, range_page(r, q)).is_none(),
        forall|ipa: u64| #[trigger] l3_slot(old(store), w.l0_table, ipa).is_none()
            ==> l3_slot(final(store), w.l0_table, ipa).is_none(),
{
    let mut p: u64 = 0;
    while p < count
        invariant
            w.wf(store),
            old(store).grows_to(store),
            p <= count,
            count <= r.1,
            forall|q: int| 0 <= q < p ==> #[trigger] l3_slot(store, w.l0_table, range_page(r, q)).is_none(),
            forall|ipa: u64| #[trigger] l3_slot(old(store), w.l0_table, ipa).is_none()
                ==> l3_slot(store, w.l0_table, ipa).is_none(),
        decreases count - p,
    {
        let ipa: u64 = r.0.wrapping_add(p * 4096);
        assert(ipa == range_page(r, p as int));
        let ghost s0 = *store;
        let _ = w.unmap_page(store, ipa);
        proof {
            s0.lemma_wf();
            if let Some((t, i)) = l3_slot(&s0, w.l0_table, ipa) {
                s0.lemma_walk_levels(w.l0_table, ipa);
                assert forall|x: u64| #[trigger] l3_slot(&s0, w.l0_table, x).is_none()
                    implies l3_slot(store, w.l0_table, x).is_none() by {
                    s0.lemma_clear_page_frame(store, w.l0_table, t, i, x);
                }
                s0.lemma_clear_page_frame(store, w.l0_table, t, i, ipa);
            }
            assert forall|q: int| 0 <= q < p + 1 implies #[trigger] l3_slot(store, w.l0_table, range_page(r, q)).is_none() by {
                if q < p {
                    assert(l3_slot(&s0, w.l0_table, range_page(r, q)).is_none());
                }
            }
        }
        p = p + 1;
    }
}

/// Remove the 4 KiB page mapping of every page of the first `n` ranges.
pub fn unmap_pages(w: &Stage2Walker, store: &mut TableStore, rs: &[(u64, u32)], n: usize)
    requires
        w.wf(old(store)),
        n <= rs@.len(),
    ensures
        w.wf(final(store)),
        old(store).grows_to(final(store)),
        pages_unmapped(final(store), w.l0_table, rs@, n as int),
{
    let mut i: usize = 0;
    while i < n
        invariant
            w.wf(store),
            old(store).grows_to(store),
            n <= rs@.len(),
            i <= n,
            forall|j: int, p: int| #[trigger] in_region(rs@, n as int, j, p) && j < i
                ==> l3_slot(store, w.l0_table, range_page(rs@[j], p)).is_none(),
        decreases n - i,
    {
        let r = rs[i];
        let ghost s0 = *store;
        unmap_range(w, store, r, r.1 as u64);
        proof {
            assert forall|j: int, p: int| #[trigger] in_region(rs@, n as int, j, p) && j < i + 1
                implies l3_slot(store, w.l0_table, range_page(rs@[j], p)).is_none() by {
                if j < i {
                    assert(l3_slot(&s0, w.l0_table, range_page(rs@[j], p)).is_none());
                }
            }
        }
        i = i + 1;
    }
}

/// Map every page of the first `n` ranges with `map_page` (access `ap`,
/// software bits `sw`). When a page cannot be mapped, the pages before it
/// are unmapped again and the answer is false.
pub fn map_pages(w: &Stage2Walker, store: &mut TableStore, rs: &[(u64, u32)], n: usize, ap: u8, sw: u8) -> (r: bool)
    requires
        w.wf(old(store)),
        n <= rs@.len(),
    ensures
        w.wf(final(store)),
        old(store).grows_to(final(store)),
        r ==> pages_mapped_as(final(store), w.l0_table, rs@, n as int, ap, sw),
        !r ==> exists|k: int, c: int| 0 <= k < n && 0 <= c < rs@[k].1
            && #[trigger] prefix_unmapped(final(store), w.l0_table, rs@, n as int, k, c),
{
    let mut i: usize = 0;
    while i < n
        invariant
            w.wf(store),
            old(store).grows_to(store),
            n <= rs@.len(),
            i <= n,
            forall|j: int, p: int| #[trigger] in_region(rs@, n as int, j, p) && j < i
                ==> store.leaf(w.l0_table, range_page(rs@[j], p)) == Some(spec_walker_page(range_page(rs@[j], p), ap, sw)),
        decreases n - i,
    {
        let r = rs[i];
        let mut p: u64 = 0;
        while p < r.1 as u64
            invariant
                w.wf(store),
                old(store).grows_to(store),
                n <= rs@.len(),
                i < n,
                r == rs@[i as int],
                p <= r.1,
                forall|j: int, q: int| #[trigger] in_region(rs@, n as int, j, q) && j < i
                    ==> store.leaf(w.l0_table, range_page(rs@[j], q)) == Some(spec_walker_page(range_page(rs@[j], q), ap, sw)),
                forall|q: int| 0 <= q < p ==> #[trigger] store.leaf(w.l0_table, range_page(r, q))
                    == Some(spec_walker_page(range_page(r, q), ap, sw)),
            decreases r.1 - p,
        {
            let ipa: u64 = r.0.wrapping_add(p * 4096);
            assert(ipa == range_page(r, p as int));
            let ghost s0 = *store;
            if w.map_page(store, ipa, ap, sw).is_err() {
                let mut k: usize = 0;
                while k < i
                    invariant
                        w.wf(store),
                        old(store).grows_to(store),
                        k <= i,
                        i < n,
                        n <= rs@.len(),
                        prefix_unmapped(store, w.l0_table, rs@, n as int, k as int, 0),
                    decreases i - k,
                {
                    let ghost s1 = *store;
                    unmap_range(w, store, rs[k], rs[k].1 as u64);
                    proof {
                        assert forall|j: int, q: int| #[trigger] in_region(rs@, n as int, j, q) && (j < k + 1 || (j == k + 1 && q < 0))
                            implies l3_slot(store, w.l0_table, range_page(rs@[j], q)).is_none() by {
                            if j < k {
                                assert(l3_slot(&s1, w.l0_table, range_page(rs@[j], q)).is_none());
                            }
                        }
                    }
                    k = k + 1;
                }
                let ghost s2 = *store;
                unmap_range(w, store, r, p);
                proof {
                    assert forall|j: int, q: int| #[trigger] in_region(rs@, n as int, j, q) && (j < i || (j == i && q < p))
                        implies l3_slot(store, w.l0_table, range_page(rs@[j], q)).is_none() by {
                        if j < i {
                            assert(l3_slot(&s2, w.l0_table, range_page(rs@[j], q)).is_none());
                        }
                    }
                    assert(prefix_unmapped(store, w.l0_table, rs@, n as int, i as int, p as int));
                }
                return false;
            }
            proof {
                s0.lemma_wf();
                assert forall|j: int, q: int| #[trigger] in_region(rs@, n as int, j, q) && j < i implies
                    store.leaf(w.l0_table, range_page(rs@[j], q)) == Some(spec_walker_page(range_page(rs@[j], q), ap, sw)) by {
                    s0.lemma_keeps_walk(store, w.l0_table, range_page(rs@[j], q));
                }
                assert forall|q: int| 0 <= q < p + 1 implies #[trigger] store.leaf(w.l0_table, range_page(r, q))
                    == Some(spec_walker_page(range_page(r, q), ap, sw)) by {
                    if q < p {
                        assert(s0.leaf(w.l0_table, range_page(r, q)) == Some(spec_walker_page(range_page(r, q), ap, sw)));
                        s0.lemma_keeps_walk(store, w.l0_table, range_page(r, q));
                    }
                }
            }
            p = p + 1;
        }
        proof {
            assert forall|j: int, q: int| #[trigger] in_region(rs@, n as int, j, q) && j < i + 1 implies
                store.leaf(w.l0_table, range_page(rs@[j], q)) == Some(spec_walker_page(range_page(rs@[j], q), ap, sw)) by {
                if j == i {
                    assert(store.leaf(w.l0_table, range_page(r, q)) == Some(spec_walker_page(range_page(r, q), ap, sw)));
                }
            }
        }
        i = i + 1;
    }
    true
}

} // verus!
