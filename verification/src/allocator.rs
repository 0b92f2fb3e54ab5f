//! The hypervisor heap: a bump allocator whose freed pages are kept on a
//! free list and handed out again first.

use vstd::prelude::*;

verus! {

/// Bytes in a page.
pub const PAGE_BYTES: u64 = 4096;

/// Bump allocator over `[start, end)` with a free list of pages.
pub struct BumpAllocator {
    next: u64,
    end: u64,
    allocated: u64,
    /// Freed pages, most recently freed last.
    free: Vec<u64>,
}

/// `x` rounded up to a multiple of `align` (a power of two).
pub open spec fn align_up(x: u64, align: u64) -> u64 {
    ((x + align - 1) as u64) & !((align - 1) as u64)
}

impl BumpAllocator {
    /// Next unallocated address.
    pub closed spec fn spec_next(&self) -> u64 {
        self.next
    }

    /// End of the heap.
    pub closed spec fn spec_end(&self) -> u64 {
        self.end
    }

    /// Bytes handed out and not freed.
    pub closed spec fn spec_allocated(&self) -> u64 {
        self.allocated
    }

    /// Freed pages, most recently freed last.
    pub closed spec fn free_pages(&self) -> Seq<u64> {
        self.free@
    }

    pub closed spec fn wf(&self) -> bool {
        &&& self.next <= self.end
        &&& self.allocated + PAGE_BYTES * self.free@.len() <= self.next
    }

    /// A heap of `size` bytes at `start`.
    pub fn new(start: u64, size: u64) -> (r: Self)
        requires
            start + size <= u64::MAX,
        ensures
            r.wf(),
            r.spec_next() == start,
            r.spec_end() == start + size,
            r.spec_allocated() == 0,
            r.free_pages() == Seq::<u64>::empty(),
    {
        BumpAllocator { next: start, end: start + size, allocated: 0, free: Vec::new() }
    }

    /// Allocate `size` bytes aligned to `align` from the unallocated part;
    /// `None` when they do not fit before the end.
    pub fn alloc_aligned(&mut self, size: u64, align: u64) -> (r: Option<u64>)
        requires
            old(self).wf(),
            align >= 1,
            old(self).spec_next() + align - 1 <= u64::MAX,
            align_up(old(self).spec_next(), align) + size <= u64::MAX,
        ensures
            final(self).wf(),
            final(self).spec_end() == old(self).spec_end(),
            final(self).free_pages() == old(self).free_pages(),
            align_up(old(self).spec_next(), align) + size > old(self).spec_end() ==> r.is_none()
                && final(self).spec_next() == old(self).spec_next()
                && final(self).spec_allocated() == old(self).spec_allocated(),
            align_up(old(self).spec_next(), align) + size <= old(self).spec_end() ==> {
                &&& r == Some(align_up(old(self).spec_next(), align))
                &&& final(self).spec_next() == align_up(old(self).spec_next(), align) + size
                &&& final(self).spec_allocated() == old(self).spec_allocated() + size
            },
    {
        let x = self.next + (align - 1);
        let m = align - 1;
        let aligned = x & !m;
        assert(aligned >= x - m) by (bit_vector)
            requires aligned == x & !m, x >= m;
        if aligned + size > self.end {
            return None;
        }
        self.next = aligned + size;
        self.allocated = self.allocated + size;
        Some(aligned)
    }

    /// Allocate `size` bytes aligned to 8.
    pub fn alloc_bytes(&mut self, size: u64) -> (r: Option<u64>)
        requires
            old(self).wf(),
            old(self).spec_next() + 7 <= u64::MAX,
            align_up(old(self).spec_next(), 8) + size <= u64::MAX,
        ensures
            final(self).wf(),
            final(self).spec_end() == old(self).spec_end(),
            final(self).free_pages() == old(self).free_pages(),
            align_up(old(self).spec_next(), 8) + size > old(self).spec_end() ==> r.is_none()
                && final(self).spec_next() == old(self).spec_next()
                && final(self).spec_allocated() == old(self).spec_allocated(),
            align_up(old(self).spec_next(), 8) + size <= old(self).spec_end() ==> {
                &&& r == Some(align_up(old(self).spec_next(), 8))
                &&& final(self).spec_next() == align_up(old(self).spec_next(), 8) + size
                &&& final(self).spec_allocated() == old(self).spec_allocated() + size
            },
    {
        self.alloc_aligned(size, 8)
    }

    /// Allocate a page: the most recently freed one, else a fresh 4 KiB
    /// aligned page. A recycled page comes back with whatever it held.
    pub fn alloc_page(&mut self) -> (r: Option<u64>)
        requires
            old(self).wf(),
            old(self).spec_next() + 4095 <= u64::MAX,
            align_up(old(self).spec_next(), 4096) + 4096 <= u64::MAX,
        ensures
            final(self).wf(),
            final(self).spec_end() == old(self).spec_end(),
            old(self).free_pages().len() > 0 ==> {
                &&& r == Some(old(self).free_pages().last())
                &&& final(self).free_pages() == old(self).free_pages().drop_last()
                &&& final(self).spec_allocated() == old(self).spec_allocated() + 4096
                &&& final(self).spec_next() == old(self).spec_next()
            },
            old(self).free_pages().len() == 0 && align_up(old(self).spec_next(), 4096) + 4096 > old(self).spec_end()
                ==> r.is_none() && final(self).spec_next() == old(self).spec_next()
                && final(self).spec_allocated() == old(self).spec_allocated()
                && final(self).free_pages() == old(self).free_pages(),
            old(self).free_pages().len() == 0 && align_up(old(self).spec_next(), 4096) + 4096 <= old(self).spec_end()
                ==> r == Some(align_up(old(self).spec_next(), 4096))
                && final(self).spec_next() == align_up(old(self).spec_next(), 4096) + 4096
                && final(self).spec_allocated() == old(self).spec_allocated() + 4096
                && final(self).free_pages() == old(self).free_pages(),
    {
        match self.free.pop() {
            Some(page) => {
                self.allocated = self.allocated + 4096;
                Some(page)
            },
            None => self.alloc_aligned(4096, 4096),
        }
    }

    /// Return a page obtained from `alloc_page` to the free list.
    pub fn free_page(&mut self, addr: u64)
        requires
            old(self).wf(),
            old(self).spec_allocated() >= 4096,
            addr & 0xFFF == 0,
            addr != 0,
        ensures
            final(self).wf(),
            final(self).free_pages() == old(self).free_pages().push(addr),
            final(self).spec_allocated() == old(self).spec_allocated() - 4096,
            final(self).spec_next() == old(self).spec_next(),
            final(self).spec_end() == old(self).spec_end(),
    {
        self.free.push(addr);
        self.allocated = self.allocated - 4096;
    }

    /// Bytes left between the next address and the end.
    pub fn remaining(&self) -> (r: u64)
        requires
            self.wf(),
        ensures
            r == self.spec_end() - self.spec_next(),
    {
        self.end - self.next
    }

    /// Bytes handed out and not freed.
    pub fn allocated(&self) -> (r: u64)
        ensures
            r == self.spec_allocated(),
    {
        self.allocated
    }

    /// Start again from `start`, forgetting every allocation and the free list.
    pub fn reset(&mut self, start: u64)
        requires
            start <= old(self).spec_end(),
        ensures
            final(self).wf(),
            final(self).spec_next() == start,
            final(self).spec_end() == old(self).spec_end(),
            final(self).spec_allocated() == 0,
            final(self).free_pages() == Seq::<u64>::empty(),
    {
        self.next = start;
        self.allocated = 0;
        self.free = Vec::new();
    }
}

/// A page that is freed is the next one handed out.
pub proof fn law_free_then_alloc(free: Seq<u64>, addr: u64)
    ensures
        free.push(addr).len() > 0,
        free.push(addr).last() == addr,
        free.push(addr).drop_last() == free,
{
    assert(free.push(addr).drop_last() =~= free);
}

/// Allocation from the bump region respects the alignment asked for.
pub proof fn law_alloc_aligned(next: u64, k: u64)
    requires
        k < 64,
        next + (1u64 << k) - 1 <= u64::MAX,
    ensures
        align_up(next, 1u64 << k) & ((1u64 << k) - 1) as u64 == 0,
        align_up(next, 1u64 << k) >= next,
{
    let a = 1u64 << k;
    assert(a >= 1) by (bit_vector) requires a == 1u64 << k, k < 64;
    let x = (next + a - 1) as u64;
    let m = (a - 1) as u64;
    assert((x & !m) & m == 0) by (bit_vector);
    assert((x & !m) >= x - m) by (bit_vector)
        requires x >= m;
}

} // verus!
