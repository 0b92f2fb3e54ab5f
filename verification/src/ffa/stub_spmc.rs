//! Stub SPMC: simulated secure partitions and the memory-share record table
//! that the FF-A proxy keeps when no real Secure World is present.

use vstd::prelude::*;

verus! {

/// Simulated secure partition info.
#[derive(Clone, Copy)]
pub struct StubPartition {
    pub id: u16,
    pub uuid: [u32; 4],
    pub exec_ctx_count: u16,
    pub properties: u32,
}

/// IDs of the two simulated secure partitions.
pub open spec fn spec_is_stub_sp(part_id: u16) -> bool {
    part_id == 0x8001 || part_id == 0x8002
}

/// The two simulated SPs, both supporting direct messaging.
pub fn stub_partitions() -> (r: [StubPartition; 2])
    ensures
        r[0].id == 0x8001 && r[0].exec_ctx_count == 1 && r[0].properties == 1,
        r[1].id == 0x8002 && r[1].exec_ctx_count == 1 && r[1].properties == 1,
{
    [
        StubPartition {
            id: 0x8001,
            uuid: [0x12345678, 0x9ABC_DEF0, 0x1111_2222, 0x3333_4444],
            exec_ctx_count: 1,
            properties: 1,
        },
        StubPartition {
            id: 0x8002,
            uuid: [0x87654321, 0x0FED_CBA9, 0x5555_6666, 0x7777_8888],
            exec_ctx_count: 1,
            properties: 1,
        },
    ]
}

/// Check if a partition ID is a known stub SP.
pub fn is_valid_sp(part_id: u16) -> (r: bool)
    ensures
        r == spec_is_stub_sp(part_id),
{
    let sps = stub_partitions();
    sps[0].id == part_id || sps[1].id == part_id
}

/// Number of simulated partitions.
pub fn partition_count() -> (r: usize)
    ensures
        r == 2,
{
    2
}

/// Maximum address ranges per share record.
pub const MAX_SHARE_RANGES: usize = 4;
/// Number of share record slots.
pub const MAX_SHARES: usize = 16;

/// Memory share record.
#[derive(Clone, Copy)]
pub struct MemShareRecord {
    pub handle: u64,
    pub sender_id: u16,
    pub receiver_id: u16,
    /// Address ranges: (base IPA, page count).
    pub ranges: [(u64, u32); MAX_SHARE_RANGES],
    pub range_count: usize,
    pub total_page_count: u32,
    pub active: bool,
    /// True for MEM_LEND, false for MEM_SHARE.
    pub is_lend: bool,
    /// Whether the receiver has retrieved the memory.
    pub retrieved: bool,
}

impl MemShareRecord {
    /// The unused record: every field zero or false.
    pub fn empty() -> (r: Self)
        ensures
            !r.active,
            r.handle == 0,
            r.sender_id == 0,
            r.receiver_id == 0,
            forall|i: int| 0 <= i < MAX_SHARE_RANGES ==> #[trigger] r.ranges@[i] == (0u64, 0u32),
            r.range_count == 0,
            r.total_page_count == 0,
            !r.is_lend,
            !r.retrieved,
    {
        MemShareRecord {
            handle: 0,
            sender_id: 0,
            receiver_id: 0,
            ranges: [(0, 0); MAX_SHARE_RANGES],
            range_count: 0,
            total_page_count: 0,
            active: false,
            is_lend: false,
            retrieved: false,
        }
    }
}

/// Share record info returned by lookup.
pub struct ShareInfo {
    pub ranges: [(u64, u32); MAX_SHARE_RANGES],
    pub range_count: usize,
    pub total_page_count: u32,
    pub is_lend: bool,
}

/// Extended share record info (includes sender, receiver and retrieval state).
pub struct ShareInfoFull {
    pub sender_id: u16,
    pub receiver_id: u16,
    pub ranges: [(u64, u32); MAX_SHARE_RANGES],
    pub range_count: usize,
    pub total_page_count: u32,
    pub is_lend: bool,
    pub retrieved: bool,
}

/// First active record with handle `h`, searching from `i`.
pub open spec fn find_handle(recs: Seq<MemShareRecord>, h: u64, i: int) -> Option<int>
    decreases recs.len() - i,
{
    if i < 0 || i >= recs.len() {
        None
    } else if recs[i].active && recs[i].handle == h {
        Some(i)
    } else {
        find_handle(recs, h, i + 1)
    }
}

/// First inactive record, searching from `i`.
pub open spec fn find_free(recs: Seq<MemShareRecord>, i: int) -> Option<int>
    decreases recs.len() - i,
{
    if i < 0 || i >= recs.len() {
        None
    } else if !recs[i].active {
        Some(i)
    } else {
        find_free(recs, i + 1)
    }
}

/// The ranges stored for a request: the first `MAX_SHARE_RANGES`, padded with zeros.
pub open spec fn stored_ranges_match(stored: [(u64, u32); MAX_SHARE_RANGES], ranges: Seq<(u64, u32)>) -> bool {
    forall|k: int| 0 <= k < MAX_SHARE_RANGES ==> #[trigger] stored@[k] == if k < ranges.len() { ranges[k] } else { (0u64, 0u32) }
}

/// The memory-share record table of the stub SPMC.
pub struct ShareTable {
    records: Vec<MemShareRecord>,
    next_handle: u64,
}

impl ShareTable {
    /// Invariant: fixed slot count, handles issued so far are below the counter.
    pub closed spec fn wf(&self) -> bool {
        &&& self.records@.len() == MAX_SHARES
        &&& self.next_handle >= 1
        &&& forall|i: int| 0 <= i < MAX_SHARES && #[trigger] self.records@[i].active
            ==> self.records@[i].handle < self.next_handle
    }

    /// The record slots.
    pub closed spec fn records(&self) -> Seq<MemShareRecord> {
        self.records@
    }

    /// The next handle to be issued.
    pub closed spec fn next_handle(&self) -> u64 {
        self.next_handle
    }

    /// Whether another handle can be issued.
    pub fn handles_left(&self) -> (r: bool)
        ensures
            r == (self.next_handle() < u64::MAX),
    {
        self.next_handle < u64::MAX
    }

    /// Empty table; the first handle issued is 1.
    pub fn new() -> (r: Self)
        ensures
            r.wf(),
            r.next_handle() == 1,
            forall|i: int| 0 <= i < MAX_SHARES ==> !#[trigger] r.records()[i].active,
    {
        let mut records: Vec<MemShareRecord> = Vec::new();
        let mut i: usize = 0;
        while i < MAX_SHARES
            invariant
                i <= MAX_SHARES,
                records@.len() == i,
                forall|k: int| 0 <= k < i ==> !#[trigger] records@[k].active,
            decreases MAX_SHARES - i,
        {
            records.push(MemShareRecord::empty());
            i = i + 1;
        }
        ShareTable { records, next_handle: 1 }
    }
}

/// Allocate a new memory sharing handle (the counter value, then advance it).
pub fn alloc_handle(table: &mut ShareTable) -> (r: u64)
    requires
        old(table).wf(),
        old(table).next_handle() < u64::MAX,
    ensures
        final(table).wf(),
        r == old(table).next_handle(),
        final(table).next_handle() == old(table).next_handle() + 1,
        final(table).records() == old(table).records(),
{
    let h = table.next_handle;
    table.next_handle = h + 1;
    h
}

/// Outcome of `record_share` on the share table.
pub open spec fn record_post(before: ShareTable, after: ShareTable, sender_id: u16, receiver_id: u16, ranges: Seq<(u64, u32)>, total_page_count: u32, is_lend: bool, r: Option<u64>) -> bool {
    &&& match find_free(before.records(), 0) {
            None => r.is_none() && after.records() == before.records(),
            Some(i) => {
                let rec = after.records()[i];
                &&& r == Some(before.next_handle())
                &&& after.records() == before.records().update(i, rec)
                &&& rec.active && !rec.retrieved
                &&& rec.handle == before.next_handle()
                &&& rec.sender_id == sender_id
                &&& rec.receiver_id == receiver_id
                &&& rec.range_count == if ranges.len() < MAX_SHARE_RANGES { ranges.len() } else { MAX_SHARE_RANGES as nat }
                &&& stored_ranges_match(rec.ranges, ranges)
                &&& rec.total_page_count == total_page_count
                &&& rec.is_lend == is_lend
            },
        }
}

/// Record a memory share and return its handle, or `None` when every slot is
/// in use. A handle is consumed either way; at most `MAX_SHARE_RANGES`
/// ranges are kept.
pub fn record_share(
    table: &mut ShareTable,
    sender_id: u16,
    receiver_id: u16,
    ranges: &[(u64, u32)],
    total_page_count: u32,
    is_lend: bool,
) -> (r: Option<u64>)
    requires
        old(table).wf(),
        old(table).next_handle() < u64::MAX,
    ensures
        final(table).wf(),
        final(table).next_handle() == old(table).next_handle() + 1,
        record_post(*old(table), *final(table), sender_id, receiver_id, ranges@, total_page_count, is_lend, r),
{
    let handle = alloc_handle(table);
    let mut i: usize = 0;
    while i < MAX_SHARES
        invariant
            table.wf(),
            i <= MAX_SHARES,
            handle == old(table).next_handle(),
            table.next_handle() == handle + 1,
            table.records() == old(table).records(),
            find_free(old(table).records(), 0) == find_free(old(table).records(), i as int),
        decreases MAX_SHARES - i,
    {
        if !table.records[i].active {
            let mut stored: [(u64, u32); MAX_SHARE_RANGES] = [(0u64, 0u32); MAX_SHARE_RANGES];
            let count: usize = if ranges.len() < MAX_SHARE_RANGES { ranges.len() } else { MAX_SHARE_RANGES };
            let mut k: usize = 0;
            while k < count
                invariant
                    k <= count,
                    count <= MAX_SHARE_RANGES,
                    count <= ranges@.len(),
                    forall|m: int| 0 <= m < k ==> #[trigger] stored@[m] == ranges@[m],
                    forall|m: int| k <= m < MAX_SHARE_RANGES ==> #[trigger] stored@[m] == (0u64, 0u32),
                decreases count - k,
            {
                stored[k] = ranges[k];
                k = k + 1;
            }
            let rec = MemShareRecord {
                handle,
                sender_id,
                receiver_id,
                ranges: stored,
                range_count: count,
                total_page_count,
                active: true,
                is_lend,
                retrieved: false,
            };
            table.records.set(i, rec);
            return Some(handle);
        }
        i = i + 1;
    }
    None
}


/// First record at index `i` or later that satisfies `pred`.
pub open spec fn find_first(recs: Seq<MemShareRecord>, pred: spec_fn(MemShareRecord) -> bool, i: int) -> Option<int>
    decreases recs.len() - i,
{
    if i < 0 || i >= recs.len() {
        None
    } else if pred(recs[i]) {
        Some(i)
    } else {
        find_first(recs, pred, i + 1)
    }
}

/// Active record with handle `h` that has not been retrieved.
pub open spec fn retrievable(h: u64) -> spec_fn(MemShareRecord) -> bool {
    |r: MemShareRecord| r.active && r.handle == h && !r.retrieved
}

/// Active record with handle `h` that has been retrieved.
pub open spec fn relinquishable(h: u64) -> spec_fn(MemShareRecord) -> bool {
    |r: MemShareRecord| r.active && r.handle == h && r.retrieved
}

/// Look up an active share record by handle.
pub fn lookup_share(table: &ShareTable, handle: u64) -> (r: Option<ShareInfo>)
    requires
        table.wf(),
    ensures
        match find_handle(table.records(), handle, 0) {
            None => r.is_none(),
            Some(i) => {
                let rec = table.records()[i];
                &&& r.is_some()
                &&& r.unwrap().ranges == rec.ranges
                &&& r.unwrap().range_count == rec.range_count
                &&& r.unwrap().total_page_count == rec.total_page_count
                &&& r.unwrap().is_lend == rec.is_lend
            },
        },
{
    let mut i: usize = 0;
    while i < MAX_SHARES
        invariant
            table.wf(),
            i <= MAX_SHARES,
            find_handle(table.records(), handle, 0) == find_handle(table.records(), handle, i as int),
        decreases MAX_SHARES - i,
    {
        let rec = table.records[i];
        if rec.active && rec.handle == handle {
            return Some(ShareInfo {
                ranges: rec.ranges,
                range_count: rec.range_count,
                total_page_count: rec.total_page_count,
                is_lend: rec.is_lend,
            });
        }
        i = i + 1;
    }
    None
}

/// What `lookup_share_full` returns for `handle`.
pub open spec fn lookup_full_post(table: ShareTable, handle: u64, r: Option<ShareInfoFull>) -> bool {
    match find_handle(table.records(), handle, 0) {
        None => r.is_none(),
        Some(i) => {
            let rec = table.records()[i];
            &&& r.is_some()
            &&& r.unwrap().sender_id == rec.sender_id
            &&& r.unwrap().receiver_id == rec.receiver_id
            &&& r.unwrap().ranges == rec.ranges
            &&& r.unwrap().range_count == rec.range_count
            &&& r.unwrap().total_page_count == rec.total_page_count
            &&& r.unwrap().is_lend == rec.is_lend
            &&& r.unwrap().retrieved == rec.retrieved
        },
    }
}

/// Look up an active share record by handle, with sender, receiver and
/// retrieval state.
pub fn lookup_share_full(table: &ShareTable, handle: u64) -> (r: Option<ShareInfoFull>)
    requires
        table.wf(),
    ensures
        lookup_full_post(*table, handle, r),
{
    let mut i: usize = 0;
    while i < MAX_SHARES
        invariant
            table.wf(),
            i <= MAX_SHARES,
            find_handle(table.records(), handle, 0) == find_handle(table.records(), handle, i as int),
        decreases MAX_SHARES - i,
    {
        let rec = table.records[i];
        if rec.active && rec.handle == handle {
            return Some(ShareInfoFull {
                sender_id: rec.sender_id,
                receiver_id: rec.receiver_id,
                ranges: rec.ranges,
                range_count: rec.range_count,
                total_page_count: rec.total_page_count,
                is_lend: rec.is_lend,
                retrieved: rec.retrieved,
            });
        }
        i = i + 1;
    }
    None
}

/// Outcome of `mark_retrieved` on the share table.
pub open spec fn retrieve_post(before: ShareTable, after: ShareTable, handle: u64, r: bool) -> bool {
    &&& match find_first(before.records(), retrievable(handle), 0) {
            None => !r && after.records() == before.records(),
            Some(i) => r && after.records() == before.records().update(i,
                MemShareRecord { retrieved: true, ..before.records()[i] }),
        }
}

/// Mark a share as retrieved. Returns true if an active, not yet retrieved
/// record with this handle was found.
pub fn mark_retrieved(table: &mut ShareTable, handle: u64) -> (r: bool)
    requires
        old(table).wf(),
    ensures
        final(table).wf(),
        final(table).next_handle() == old(table).next_handle(),
        retrieve_post(*old(table), *final(table), handle, r),
{
    let mut i: usize = 0;
    while i < MAX_SHARES
        invariant
            table.wf(),
            i <= MAX_SHARES,
            *table == *old(table),
            find_first(table.records(), retrievable(handle), 0)
                == find_first(table.records(), retrievable(handle), i as int),
        decreases MAX_SHARES - i,
    {
        let rec = table.records[i];
        if rec.active && rec.handle == handle && !rec.retrieved {
            table.records.set(i, MemShareRecord { retrieved: true, ..rec });
            return true;
        }
        i = i + 1;
    }
    false
}

/// Outcome of `mark_relinquished` on the share table.
pub open spec fn relinquish_post(before: ShareTable, after: ShareTable, handle: u64, r: bool) -> bool {
    &&& match find_first(before.records(), relinquishable(handle), 0) {
            None => !r && after.records() == before.records(),
            Some(i) => r && after.records() == before.records().update(i,
                MemShareRecord { retrieved: false, ..before.records()[i] }),
        }
}

/// Mark a share as relinquished. Returns true if an active, retrieved record
/// with this handle was found.
pub fn mark_relinquished(table: &mut ShareTable, handle: u64) -> (r: bool)
    requires
        old(table).wf(),
    ensures
        final(table).wf(),
        final(table).next_handle() == old(table).next_handle(),
        relinquish_post(*old(table), *final(table), handle, r),
{
    let mut i: usize = 0;
    while i < MAX_SHARES
        invariant
            table.wf(),
            i <= MAX_SHARES,
            *table == *old(table),
            find_first(table.records(), relinquishable(handle), 0)
                == find_first(table.records(), relinquishable(handle), i as int),
        decreases MAX_SHARES - i,
    {
        let rec = table.records[i];
        if rec.active && rec.handle == handle && rec.retrieved {
            table.records.set(i, MemShareRecord { retrieved: false, ..rec });
            return true;
        }
        i = i + 1;
    }
    false
}

/// Outcome of `reclaim_share` on the share table.
pub open spec fn reclaim_post(before: ShareTable, after: ShareTable, handle: u64, r: bool) -> bool {
    &&& match find_handle(before.records(), handle, 0) {
            None => !r && after.records() == before.records(),
            Some(i) => r && after.records() == before.records().update(i,
                MemShareRecord { active: false, ..before.records()[i] }),
        }
}

/// Reclaim a memory share by handle. Returns true if an active record was
/// found and freed.
pub fn reclaim_share(table: &mut ShareTable, handle: u64) -> (r: bool)
    requires
        old(table).wf(),
    ensures
        final(table).wf(),
        final(table).next_handle() == old(table).next_handle(),
        reclaim_post(*old(table), *final(table), handle, r),
{
    let mut i: usize = 0;
    while i < MAX_SHARES
        invariant
            table.wf(),
            i <= MAX_SHARES,
            *table == *old(table),
            find_handle(table.records(), handle, 0) == find_handle(table.records(), handle, i as int),
        decreases MAX_SHARES - i,
    {
        let rec = table.records[i];
        if rec.active && rec.handle == handle {
            table.records.set(i, MemShareRecord { active: false, ..rec });
            return true;
        }
        i = i + 1;
    }
    false
}

proof fn lemma_find_handle_absent(recs: Seq<MemShareRecord>, h: u64, i: int)
    requires
        0 <= i,
        forall|k: int| i <= k < recs.len() ==> !(#[trigger] recs[k].active && recs[k].handle == h),
    ensures
        find_handle(recs, h, i).is_none(),
    decreases recs.len() - i,
{
    if i < recs.len() {
        lemma_find_handle_absent(recs, h, i + 1);
    }
}

proof fn lemma_find_handle_unique(recs: Seq<MemShareRecord>, h: u64, i: int, j: int)
    requires
        0 <= i <= j < recs.len(),
        recs[j].active && recs[j].handle == h,
        forall|k: int| 0 <= k < recs.len() && k != j ==> !(#[trigger] recs[k].active && recs[k].handle == h),
    ensures
        find_handle(recs, h, i) == Some(j),
    decreases j - i,
{
    if i < j {
        lemma_find_handle_unique(recs, h, i + 1, j);
    }
}

/// A share is found again under the handle it was given: the new handle is
/// fresh (every handle in use is below the counter), so the record written
/// by `record_share` in slot `i` is the one `lookup_share` returns.
pub proof fn law_record_then_lookup(before: ShareTable, after: ShareTable, i: int)
    requires
        before.wf(),
        0 <= i < MAX_SHARES,
        after.records() == before.records().update(i, after.records()[i]),
        after.records()[i].active,
        after.records()[i].handle == before.next_handle(),
    ensures
        find_handle(after.records(), before.next_handle(), 0) == Some(i),
{
    let recs = after.records();
    let h = before.next_handle();
    assert forall|k: int| 0 <= k < recs.len() && k != i implies !(#[trigger] recs[k].active && recs[k].handle == h) by {
        assert(recs[k] == before.records()[k]);
    }
    lemma_find_handle_unique(recs, h, 0, i);
}

/// Once reclaimed, a handle is gone: after `reclaim_share` frees the only
/// active record with handle `h`, lookups of `h` find nothing.
pub proof fn law_reclaim_then_lookup(recs: Seq<MemShareRecord>, h: u64, i: int)
    requires
        0 <= i < recs.len(),
        recs[i].active && recs[i].handle == h,
        forall|k: int| 0 <= k < recs.len() && k != i ==> !(#[trigger] recs[k].active && recs[k].handle == h),
    ensures
        find_handle(recs.update(i, MemShareRecord { active: false, ..recs[i] }), h, 0).is_none(),
{
    let after = recs.update(i, MemShareRecord { active: false, ..recs[i] });
    assert forall|k: int| 0 <= k < after.len() implies !(#[trigger] after[k].active && after[k].handle == h) by {
        if k != i { assert(after[k] == recs[k]); }
    }
    lemma_find_handle_absent(after, h, 0);
}

} // verus!
