//! The hypervisor's heap, set up once at boot: an optional
//! `BumpAllocator`; before set-up every allocation fails.

use vstd::prelude::*;
use crate::allocator::{align_up, BumpAllocator};

verus! {

/// What `alloc_page` returns for allocator `a`.
pub open spec fn page_alloc_result(a: BumpAllocator) -> Option<u64> {
    if a.free_pages().len() > 0 {
        Some(a.free_pages().last())
    } else if align_up(a.spec_next(), 4096) + 4096 <= a.spec_end() {
        Some(align_up(a.spec_next(), 4096))
    } else {
        None
    }
}

/// What `alloc_aligned` returns for allocator `a`.
pub open spec fn aligned_alloc_result(a: BumpAllocator, size: u64, align: u64) -> Option<u64> {
    if align_up(a.spec_next(), align) + size <= a.spec_end() {
        Some(align_up(a.spec_next(), align))
    } else {
        None
    }
}

/// The heap is usable (set up, or not yet).
pub open spec fn heap_wf(heap: Option<BumpAllocator>) -> bool {
    match heap {
        Some(a) => a.wf(),
        None => true,
    }
}

/// Set up the heap over `size` bytes at `start`.
pub fn init_at(heap: &mut Option<BumpAllocator>, start: u64, size: u64)
    requires
        start + size <= u64::MAX,
    ensures
        heap_wf(*final(heap)),
        *final(heap) matches Some(a) && a.spec_next() == start && a.spec_end() == start + size
            && a.spec_allocated() == 0 && a.free_pages() == Seq::<u64>::empty(),
{
    *heap = Some(BumpAllocator::new(start, size));
}

/// Allocate a page; `None` before set-up or when the heap is exhausted.
pub fn alloc_page(heap: &mut Option<BumpAllocator>) -> (r: Option<u64>)
    requires
        heap_wf(*old(heap)),
        *old(heap) matches Some(a) ==> a.spec_next() + 4095 <= u64::MAX
            && align_up(a.spec_next(), 4096) + 4096 <= u64::MAX,
    ensures
        heap_wf(*final(heap)),
        match *old(heap) {
            Some(a) => r == page_alloc_result(a) && (*final(heap)) is Some,
            None => r.is_none() && *final(heap) == *old(heap),
        },
{
    let mut slot: Option<BumpAllocator> = None;
    std::mem::swap(&mut slot, heap);
    match slot {
        Some(mut a) => {
            let r = a.alloc_page();
            *heap = Some(a);
            r
        },
        None => None,
    }
}

/// Allocate `size` bytes aligned to `align`.
pub fn alloc_aligned(heap: &mut Option<BumpAllocator>, size: u64, align: u64) -> (r: Option<u64>)
    requires
        heap_wf(*old(heap)),
        align >= 1,
        *old(heap) matches Some(a) ==> a.spec_next() + align - 1 <= u64::MAX
            && align_up(a.spec_next(), align) + size <= u64::MAX,
    ensures
        heap_wf(*final(heap)),
        match *old(heap) {
            Some(a) => r == aligned_alloc_result(a, size, align) && (*final(heap)) is Some,
            None => r.is_none() && *final(heap) == *old(heap),
        },
{
    let mut slot: Option<BumpAllocator> = None;
    std::mem::swap(&mut slot, heap);
    match slot {
        Some(mut a) => {
            let r = a.alloc_aligned(size, align);
            *heap = Some(a);
            r
        },
        None => None,
    }
}

/// Allocate `size` bytes aligned to 8.
pub fn alloc_bytes(heap: &mut Option<BumpAllocator>, size: u64) -> (r: Option<u64>)
    requires
        heap_wf(*old(heap)),
        *old(heap) matches Some(a) ==> a.spec_next() + 7 <= u64::MAX
            && align_up(a.spec_next(), 8) + size <= u64::MAX,
    ensures
        heap_wf(*final(heap)),
        match *old(heap) {
            Some(a) => r == aligned_alloc_result(a, size, 8) && (*final(heap)) is Some,
            None => r.is_none() && *final(heap) == *old(heap),
        },
{
    alloc_aligned(heap, size, 8)
}

/// Return a page to the heap's free list.
pub fn free_page(heap: &mut Option<BumpAllocator>, addr: u64)
    requires
        heap_wf(*old(heap)),
        *old(heap) matches Some(a) ==> a.spec_allocated() >= 4096,
        addr & 0xFFF == 0,
        addr != 0,
    ensures
        heap_wf(*final(heap)),
        match *old(heap) {
            Some(a) => *final(heap) matches Some(b) && b.free_pages() == a.free_pages().push(addr),
            None => *final(heap) == *old(heap),
        },
{
    let mut slot: Option<BumpAllocator> = None;
    std::mem::swap(&mut slot, heap);
    match slot {
        Some(mut a) => {
            a.free_page(addr);
            *heap = Some(a);
        },
        None => {},
    }
}

/// Bytes left; 0 before set-up.
pub fn remaining(heap: &Option<BumpAllocator>) -> (r: u64)
    requires
        heap_wf(*heap),
    ensures
        r == match *heap {
            Some(a) => (a.spec_end() - a.spec_next()) as u64,
            None => 0,
        },
{
    match heap {
        Some(a) => a.remaining(),
        None => 0,
    }
}

/// Bytes handed out and not freed; 0 before set-up.
pub fn allocated(heap: &Option<BumpAllocator>) -> (r: u64)
    ensures
        r == match *heap {
            Some(a) => a.spec_allocated(),
            None => 0,
        },
{
    match heap {
        Some(a) => a.allocated(),
        None => 0,
    }
}

} // verus!
