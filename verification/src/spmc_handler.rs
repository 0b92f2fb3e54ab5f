//! FF-A request dispatch in the SPMC role: the answers the SPMC gives to the
//! Normal World and to secure partitions, over the SPMC's own state (the
//! Normal World RX/TX registration, memory-share records, fragment
//! reassembly, per-partition mailboxes, notifications and the registered
//! partitions).
//!
//! Memory shares from the Normal World use the register protocol: sender in
//! x1[31:16], one range of x4 pages at IPA x3, receiver in x5[15:0].

use vstd::prelude::*;
use crate::call_stack::CallStack;
use crate::ffa::descriptors::{
    desc_access_off, desc_range_count, desc_range_off, desc_valid, le16, le32, le64, parse_mem_region,
    read_le16, read_le32,
};
use crate::ffa::notifications::{
    bind, bind_post, bitmap_create, bitmap_destroy, create_post, destroy_post, get, get_post, info_get, info_ids,
    set_post, unbind, unbind_post, NotificationState, INFO_ENDPOINTS,
};
use crate::ffa::proxy::pack_ids;
use crate::call_stack::frame_mentions;
use crate::ffa::smc_forward::SmcResult8;
use crate::ffa::{
    FFA_BUSY, FFA_CONSOLE_LOG_32, FFA_CONSOLE_LOG_64, FFA_DENIED, FFA_ERROR, FFA_FEATURES,
    FFA_FEATURE_NPI, FFA_FEATURE_SRI, FFA_FWK_MSG_BIT, FFA_ID_GET, FFA_INVALID_PARAMETERS,
    FFA_MEM_DONATE_32, FFA_MEM_DONATE_64, FFA_MEM_FRAG_RX, FFA_MEM_FRAG_TX, FFA_MEM_LEND_32,
    FFA_MEM_LEND_64, FFA_MEM_RECLAIM, FFA_MEM_RELINQUISH, FFA_MEM_RETRIEVE_REQ_32,
    FFA_MEM_RETRIEVE_REQ_64, FFA_MEM_RETRIEVE_RESP, FFA_MEM_SHARE_32, FFA_MEM_SHARE_64,
    FFA_MSG_SEND2, FFA_MSG_SEND_DIRECT_REQ_32, FFA_MSG_SEND_DIRECT_REQ_64,
    FFA_MSG_SEND_DIRECT_RESP_32, FFA_MSG_SEND_DIRECT_RESP_64, FFA_MSG_WAIT, FFA_NOT_SUPPORTED,
    FFA_NOTIFICATION_BIND, FFA_NOTIFICATION_BITMAP_CREATE, FFA_NOTIFICATION_BITMAP_DESTROY,
    FFA_NOTIFICATION_GET, FFA_NOTIFICATION_INFO_GET_32, FFA_NOTIFICATION_INFO_GET_64,
    FFA_NOTIFICATION_SET, FFA_NOTIFICATION_UNBIND, FFA_NO_DATA, FFA_NO_MEMORY,
    FFA_PARTITION_INFO_GET, FFA_RUN, FFA_RXTX_MAP, FFA_RXTX_UNMAP, FFA_RX_RELEASE, FFA_SPMC_ID,
    FFA_SPM_ID_GET, FFA_SUCCESS_32, FFA_VERSION, FFA_VERSION_1_1, NPI_INTID,
    SPMD_FWK_MSG_FFA_VERSION_REQ, SPMD_FWK_MSG_FFA_VERSION_RESP, SRI_INTID,
};
use crate::platform::MAX_SMP_CPUS;
use crate::sp_context::{has_sp, first_slot_of, is_registered_sp, occupied_count, registered_count, state_of, SpState, SpStore};

verus! {

/// Most address ranges in one SPMC share record.
pub const MAX_SHARE_RANGES: usize = 4;
/// Number of SPMC share records.
pub const MAX_SPMC_SHARES: usize = 16;
/// Number of per-partition mailboxes (partitions 0x8001..=0x8004).
pub const MAX_SP_MAILBOXES: usize = 4;
/// Size of a mailbox, of the fragment buffer and of an RX/TX page.
pub const SPMC_BUF_SIZE: usize = 4096;
/// Size of one partition information descriptor.
pub const PARTITION_INFO_SIZE: u64 = 24;

/// The Normal World's RX/TX buffer registration.
#[derive(Clone, Copy, Debug, PartialEq, Eq, Structural)]
pub struct NwdRxtxState {
    pub tx_pa: u64,
    pub rx_pa: u64,
    pub page_count: u32,
    pub mapped: bool,
}

/// One memory share the SPMC knows of.
#[derive(Clone, Copy, Debug)]
pub struct SpmcShareRecord {
    pub handle: u64,
    pub sender_id: u16,
    pub receiver_id: u16,
    /// (base IPA, page count); the first `range_count` are valid.
    pub ranges: [(u64, u32); 4],
    pub range_count: usize,
    pub active: bool,
    pub is_lend: bool,
    pub is_donate: bool,
    pub retrieved: bool,
}

/// Reassembly of a memory descriptor the Normal World sends in fragments.
pub struct NwdFragmentState {
    pub active: bool,
    accum_buf: Vec<u8>,
    pub total_length: u32,
    pub received: u32,
    pub handle: u64,
    is_lend: bool,
    is_donate: bool,
    sender_id: u16,
}

/// Delivery of a retrieve response to the Normal World in fragments.
#[derive(Clone, Copy, Debug, PartialEq, Eq, Structural)]
pub struct NwdFragRxState {
    pub active: bool,
    pub total_length: u32,
    pub delivered: u32,
    pub handle: u64,
}

/// Mailbox of one secure partition for indirect messages.
pub struct SpMailbox {
    rx_buf: Vec<u8>,
    msg_pending: bool,
    msg_sender_id: u16,
}

/// What the SPMC dispatch works on.
pub struct SpmcState {
    nwd: NwdRxtxState,
    shares: Vec<SpmcShareRecord>,
    next_handle: u64,
    frag: NwdFragmentState,
    frag_rx: NwdFragRxState,
    mailboxes: Vec<SpMailbox>,
    running_sp: Vec<u16>,
    call_stack: CallStack,
    notifications: NotificationState,
    sps: SpStore,
    console: Vec<u8>,
}

/// A mailbox by value: (pending, sender, RX contents).
pub type MailboxView = (bool, u16, Seq<u8>);

impl SpmcState {
    pub closed spec fn nwd(&self) -> NwdRxtxState {
        self.nwd
    }

    pub closed spec fn shares(&self) -> Seq<SpmcShareRecord> {
        self.shares@
    }

    /// The handle the next share gets.
    pub closed spec fn next_handle(&self) -> u64 {
        self.next_handle
    }

    /// Fragment reassembly: (active, total, received, handle, lend, donate, sender, buffer).
    pub closed spec fn frag(&self) -> (bool, u32, u32, u64, bool, bool, u16, Seq<u8>) {
        (self.frag.active, self.frag.total_length, self.frag.received, self.frag.handle,
         self.frag.is_lend, self.frag.is_donate, self.frag.sender_id, self.frag.accum_buf@)
    }

    pub closed spec fn frag_rx(&self) -> NwdFragRxState {
        self.frag_rx
    }

    pub closed spec fn mailboxes(&self) -> Seq<MailboxView> {
        Seq::new(self.mailboxes@.len(), |i: int|
            (self.mailboxes@[i].msg_pending, self.mailboxes@[i].msg_sender_id, self.mailboxes@[i].rx_buf@))
    }

    /// ID of the partition running on each CPU (0 for none).
    pub closed spec fn running(&self) -> Seq<u16> {
        self.running_sp@
    }

    /// Open partition-to-partition calls.
    pub closed spec fn calls(&self) -> CallStack {
        self.call_stack
    }

    /// Notification bitmaps and bindings.
    pub closed spec fn notif(&self) -> NotificationState {
        self.notifications
    }

    /// The registered secure partitions.
    pub closed spec fn store(&self) -> SpStore {
        self.sps
    }

    /// Bytes written to the console by FFA_CONSOLE_LOG, not yet printed.
    pub closed spec fn console_out(&self) -> Seq<u8> {
        self.console@
    }

    pub closed spec fn wf(&self) -> bool {
        &&& self.shares@.len() == MAX_SPMC_SHARES
        &&& forall|i: int| 0 <= i < MAX_SPMC_SHARES ==> (#[trigger] self.shares@[i]).range_count <= MAX_SHARE_RANGES
        &&& self.frag.accum_buf@.len() == SPMC_BUF_SIZE
        &&& self.frag.total_length <= SPMC_BUF_SIZE
        &&& self.frag.received <= self.frag.total_length
        &&& self.frag_rx.delivered <= self.frag_rx.total_length
        &&& self.mailboxes@.len() == MAX_SP_MAILBOXES
        &&& forall|i: int| 0 <= i < MAX_SP_MAILBOXES ==> (#[trigger] self.mailboxes@[i]).rx_buf@.len() == SPMC_BUF_SIZE
        &&& self.running_sp@.len() == MAX_SMP_CPUS
        &&& self.call_stack.wf()
        &&& self.notifications.wf()
        &&& self.sps.wf()
    }

    /// The state after boot: nothing registered, no shares, handles from 1.
    pub fn new(sps: SpStore) -> (r: Self)
        requires
            sps.wf(),
        ensures
            r.wf(),
            !r.nwd().mapped,
            forall|i: int| 0 <= i < MAX_SPMC_SHARES ==> !(#[trigger] r.shares()[i]).active,
            r.next_handle() == 1,
            !r.frag().0,
            !r.frag_rx().active,
            forall|i: int| 0 <= i < MAX_SP_MAILBOXES ==> !(#[trigger] r.mailboxes()[i]).0,
            forall|i: int| 0 <= i < MAX_SMP_CPUS ==> #[trigger] r.running()[i] == 0,
            r.calls()@.len() == 0,
            r.store() == sps,
            r.console_out().len() == 0,
    {
        let mut shares: Vec<SpmcShareRecord> = Vec::new();
        let mut i: usize = 0;
        while i < MAX_SPMC_SHARES
            invariant
                i <= MAX_SPMC_SHARES,
                shares@.len() == i,
                forall|j: int| 0 <= j < i ==> !(#[trigger] shares@[j]).active && shares@[j].range_count == 0,
            decreases MAX_SPMC_SHARES - i,
        {
            shares.push(SpmcShareRecord {
                handle: 0,
                sender_id: 0,
                receiver_id: 0,
                ranges: [(0u64, 0u32); 4],
                range_count: 0,
                active: false,
                is_lend: false,
                is_donate: false,
                retrieved: false,
            });
            i = i + 1;
        }
        let mut mailboxes: Vec<SpMailbox> = Vec::new();
        let mut k: usize = 0;
        while k < MAX_SP_MAILBOXES
            invariant
                k <= MAX_SP_MAILBOXES,
                mailboxes@.len() == k,
                forall|j: int| 0 <= j < k ==> !(#[trigger] mailboxes@[j]).msg_pending
                    && mailboxes@[j].rx_buf@.len() == SPMC_BUF_SIZE,
            decreases MAX_SP_MAILBOXES - k,
        {
            mailboxes.push(SpMailbox { rx_buf: vec![0u8; SPMC_BUF_SIZE], msg_pending: false, msg_sender_id: 0 });
            k = k + 1;
        }
        let mut running_sp: Vec<u16> = Vec::new();
        let mut c: usize = 0;
        while c < MAX_SMP_CPUS
            invariant
                c <= MAX_SMP_CPUS,
                running_sp@.len() == c,
                forall|j: int| 0 <= j < c ==> #[trigger] running_sp@[j] == 0,
            decreases MAX_SMP_CPUS - c,
        {
            running_sp.push(0);
            c = c + 1;
        }
        let r = SpmcState {
            nwd: NwdRxtxState { tx_pa: 0, rx_pa: 0, page_count: 0, mapped: false },
            shares,
            next_handle: 1,
            frag: NwdFragmentState {
                active: false,
                accum_buf: vec![0u8; SPMC_BUF_SIZE],
                total_length: 0,
                received: 0,
                handle: 0,
                is_lend: false,
                is_donate: false,
                sender_id: 0,
            },
            frag_rx: NwdFragRxState { active: false, total_length: 0, delivered: 0, handle: 0 },
            mailboxes,
            running_sp,
            call_stack: CallStack::new(),
            notifications: NotificationState::new(),
            sps,
            console: Vec::new(),
        };
        assert forall|i: int| 0 <= i < MAX_SP_MAILBOXES implies !(#[trigger] r.mailboxes()[i]).0 by {
            assert(!r.mailboxes@[i].msg_pending);
        }
        r
    }
}

impl SpmcState {
    /// Hand the console bytes over for printing, and forget them.
    pub fn take_console(&mut self) -> (r: Vec<u8>)
        requires
            old(self).wf(),
        ensures
            final(self).wf(),
            r@ == old(self).console_out(),
            final(self).console_out().len() == 0,
            final(self).shares() == old(self).shares(),
            final(self).nwd() == old(self).nwd(),
            final(self).store() == old(self).store(),
            final(self).notif() == old(self).notif(),
    {
        let mut out: Vec<u8> = Vec::new();
        std::mem::swap(&mut out, &mut self.console);
        out
    }

    /// The registered partitions.
    pub fn sp_store(&self) -> (r: &SpStore)
        ensures
            *r == self.store(),
    {
        &self.sps
    }
}

/// The partition running on CPU `cpu` (0 when none).
pub fn current_running_sp(state: &SpmcState, cpu: usize) -> (r: u16)
    requires
        state.wf(),
        cpu < MAX_SMP_CPUS,
    ensures
        r == state.running()[cpu as int],
{
    state.running_sp[cpu]
}

/// Note that partition `sp_id` runs on CPU `cpu` (0 when it left).
pub fn set_current_running_sp(state: &mut SpmcState, cpu: usize, sp_id: u16)
    requires
        old(state).wf(),
        cpu < MAX_SMP_CPUS,
    ensures
        final(state).wf(),
        final(state).running() == old(state).running().update(cpu as int, sp_id),
        final(state).shares() == old(state).shares(),
        final(state).nwd() == old(state).nwd(),
{
    state.running_sp.set(cpu, sp_id);
}

// ── Results ─────────────────────────────────────────────────────────

/// FFA_SUCCESS with nothing else.
pub open spec fn ok8() -> SmcResult8 {
    SmcResult8 { x0: FFA_SUCCESS_32, x1: 0, x2: 0, x3: 0, x4: 0, x5: 0, x6: 0, x7: 0 }
}

/// FFA_ERROR with `code` (sign-extended) in x2.
pub open spec fn err8(code: i32) -> SmcResult8 {
    SmcResult8 { x0: FFA_ERROR, x1: 0, x2: code as u64, x3: 0, x4: 0, x5: 0, x6: 0, x7: 0 }
}

/// FFA_SUCCESS carrying a 64-bit handle split over x2 (low) and x3 (high).
pub open spec fn handle8(h: u64) -> SmcResult8 {
    SmcResult8 { x0: FFA_SUCCESS_32, x1: 0, x2: h & 0xFFFF_FFFF, x3: h >> 32u64, x4: 0, x5: 0, x6: 0, x7: 0 }
}

/// FFA_SUCCESS.
pub fn make_success() -> (r: SmcResult8)
    ensures
        r == ok8(),
{
    SmcResult8 { x0: FFA_SUCCESS_32, x1: 0, x2: 0, x3: 0, x4: 0, x5: 0, x6: 0, x7: 0 }
}

/// FFA_ERROR with `error_code` in x2.
pub fn make_error(error_code: u64) -> (r: SmcResult8)
    ensures
        r == (SmcResult8 { x0: FFA_ERROR, x1: 0, x2: error_code, x3: 0, x4: 0, x5: 0, x6: 0, x7: 0 }),
{
    SmcResult8 { x0: FFA_ERROR, x1: 0, x2: error_code, x3: 0, x4: 0, x5: 0, x6: 0, x7: 0 }
}

fn error_of(code: i32) -> (r: SmcResult8)
    ensures
        r == err8(code),
{
    make_error(code as u64)
}

fn handle_result(h: u64) -> (r: SmcResult8)
    ensures
        r == handle8(h),
{
    SmcResult8 { x0: FFA_SUCCESS_32, x1: 0, x2: h & 0xFFFF_FFFF, x3: h >> 32, x4: 0, x5: 0, x6: 0, x7: 0 }
}

// ── Share records ───────────────────────────────────────────────────

/// `i` is the first record of `s` that satisfies `p`.
pub open spec fn first_where(s: Seq<SpmcShareRecord>, p: spec_fn(SpmcShareRecord) -> bool, i: int) -> bool {
    &&& 0 <= i < s.len()
    &&& p(s[i])
    &&& forall|j: int| 0 <= j < i ==> !p(#[trigger] s[j])
}

/// Some record of `s` satisfies `p`.
pub open spec fn any_where(s: Seq<SpmcShareRecord>, p: spec_fn(SpmcShareRecord) -> bool) -> bool {
    exists|i: int| 0 <= i < s.len() && p(#[trigger] s[i])
}

/// A free record.
pub open spec fn free_rec() -> spec_fn(SpmcShareRecord) -> bool {
    |r: SpmcShareRecord| !r.active
}

/// The live record of handle `h`.
pub open spec fn live_rec(h: u64) -> spec_fn(SpmcShareRecord) -> bool {
    |r: SpmcShareRecord| r.active && r.handle == h
}

/// The live record of handle `h` that is (`ret`) or is not retrieved.
pub open spec fn live_rec_retrieved(h: u64, ret: bool) -> spec_fn(SpmcShareRecord) -> bool {
    |r: SpmcShareRecord| r.active && r.handle == h && r.retrieved == ret
}

/// `rec` is the fresh record for a share of `ranges`.
pub open spec fn new_share(rec: SpmcShareRecord, h: u64, sender: u16, receiver: u16,
    ranges: Seq<(u64, u32)>, is_lend: bool, is_donate: bool) -> bool
{
    &&& rec.handle == h
    &&& rec.sender_id == sender
    &&& rec.receiver_id == receiver
    &&& rec.range_count == ranges.len()
    &&& rec.ranges@ == Seq::new(MAX_SHARE_RANGES as nat, |k: int| if k < ranges.len() { ranges[k] } else { (0u64, 0u32) })
    &&& rec.active
    &&& rec.is_lend == is_lend
    &&& rec.is_donate == is_donate
    &&& !rec.retrieved
}

/// The handle counter after one allocation (it wraps).
pub open spec fn next_after(n: u64) -> u64 {
    if n == u64::MAX { 0 } else { (n + 1) as u64 }
}

/// Everything but the share records and the handle counter is unchanged.
pub open spec fn only_shares_changed(s0: &SpmcState, s1: &SpmcState) -> bool {
    &&& s1.nwd() == s0.nwd()
    &&& s1.frag() == s0.frag()
    &&& s1.frag_rx() == s0.frag_rx()
    &&& s1.mailboxes() == s0.mailboxes()
    &&& s1.running() == s0.running()
    &&& s1.calls() == s0.calls()
    &&& s1.notif() == s0.notif()
    &&& s1.store() == s0.store()
    &&& s1.console_out() == s0.console_out()
}

/// Everything but the share records is unchanged.
pub open spec fn only_records_changed(s0: &SpmcState, s1: &SpmcState) -> bool {
    &&& only_shares_changed(s0, s1)
    &&& s1.next_handle() == s0.next_handle()
}

impl SpmcState {
    /// Hand out the next share handle.
    fn alloc_handle(&mut self) -> (h: u64)
        requires
            old(self).wf(),
        ensures
            final(self).wf(),
            h == old(self).next_handle(),
            final(self).next_handle() == next_after(old(self).next_handle()),
            final(self).shares() == old(self).shares(),
            only_shares_changed(old(self), final(self)),
    {
        let h = self.next_handle;
        self.next_handle = if h == u64::MAX { 0 } else { h + 1 };
        h
    }
}

/// Put a record of handle `handle` for `ranges` in the first free record;
/// `false` when none is free (nothing changes then).
fn insert_share(state: &mut SpmcState, handle: u64, sender_id: u16, receiver_id: u16,
    ranges: &[(u64, u32)], is_lend: bool, is_donate: bool) -> (r: bool)
    requires
        old(state).wf(),
        ranges@.len() <= MAX_SHARE_RANGES,
    ensures
        final(state).wf(),
        only_records_changed(old(state), final(state)),
        r == any_where(old(state).shares(), free_rec()),
        !r ==> final(state).shares() == old(state).shares(),
        r ==> inserted(old(state).shares(), final(state).shares(), handle, sender_id, receiver_id,
            ranges@, is_lend, is_donate),
{
    let count = ranges.len();
    let mut i: usize = 0;
    while i < state.shares.len()
        invariant
            state.wf(),
            *state == *old(state),
            i <= state.shares@.len(),
            count == ranges@.len(),
            count <= MAX_SHARE_RANGES,
            forall|j: int| 0 <= j < i ==> !(#[trigger] free_rec()(state.shares@[j])),
        decreases state.shares@.len() - i,
    {
        if !state.shares[i].active {
            let mut stored: [(u64, u32); 4] = [(0u64, 0u32); 4];
            let mut k: usize = 0;
            while k < count
                invariant
                    k <= count,
                    count == ranges@.len(),
                    count <= MAX_SHARE_RANGES,
                    forall|m: int| 0 <= m < k ==> #[trigger] stored@[m] == ranges@[m],
                    forall|m: int| k <= m < MAX_SHARE_RANGES ==> #[trigger] stored@[m] == (0u64, 0u32),
                decreases count - k,
            {
                stored[k] = ranges[k];
                k = k + 1;
            }
            let rec = SpmcShareRecord {
                handle,
                sender_id,
                receiver_id,
                ranges: stored,
                range_count: count,
                active: true,
                is_lend,
                is_donate,
                retrieved: false,
            };
            state.shares.set(i, rec);
            assert(rec.ranges@ =~= Seq::new(MAX_SHARE_RANGES as nat, |m: int| if m < ranges@.len() { ranges@[m] } else { (0u64, 0u32) }));
            assert(first_where(old(state).shares(), free_rec(), i as int));
            return true;
        }
        i = i + 1;
    }
    proof {
        if any_where(old(state).shares(), free_rec()) {
            let k = choose|k: int| 0 <= k < old(state).shares().len() && free_rec()(#[trigger] old(state).shares()[k]);
            assert(!free_rec()(state.shares@[k]));
        }
    }
    false
}

/// `s1` is `s0` with the first free record replaced by the fresh record
/// of a share.
pub open spec fn inserted(s0: Seq<SpmcShareRecord>, s1: Seq<SpmcShareRecord>, h: u64, sender: u16,
    receiver: u16, ranges: Seq<(u64, u32)>, is_lend: bool, is_donate: bool) -> bool
{
    exists|i: int| #[trigger] first_where(s0, free_rec(), i)
        && s1.len() == s0.len()
        && new_share(s1[i], h, sender, receiver, ranges, is_lend, is_donate)
        && forall|j: int| 0 <= j < s0.len() && j != i ==> #[trigger] s1[j] == s0[j]
}

/// Record a share of `ranges` from `sender_id` to `receiver_id` in the first
/// free record, and return its handle. `None` when there are more than
/// `MAX_SHARE_RANGES` ranges (no handle is used) or no record is free (a
/// handle is used up).
pub fn record_spmc_share(state: &mut SpmcState, sender_id: u16, receiver_id: u16,
    ranges: &[(u64, u32)], is_lend: bool, is_donate: bool) -> (r: Option<u64>)
    requires
        old(state).wf(),
    ensures
        final(state).wf(),
        only_shares_changed(old(state), final(state)),
        record_post(old(state).shares(), final(state).shares(), old(state).next_handle(),
            final(state).next_handle(), sender_id, receiver_id, ranges@, is_lend, is_donate, r),
{
    if ranges.len() > MAX_SHARE_RANGES {
        return None;
    }
    let handle = state.alloc_handle();
    if insert_share(state, handle, sender_id, receiver_id, ranges, is_lend, is_donate) {
        Some(handle)
    } else {
        None
    }
}

/// Outcome of `record_spmc_share` on the records `s0` and handle counter `n0`.
pub open spec fn record_post(s0: Seq<SpmcShareRecord>, s1: Seq<SpmcShareRecord>, n0: u64, n1: u64,
    sender: u16, receiver: u16, ranges: Seq<(u64, u32)>, is_lend: bool, is_donate: bool, r: Option<u64>) -> bool
{
    if ranges.len() > MAX_SHARE_RANGES {
        r.is_none() && s1 == s0 && n1 == n0
    } else {
        &&& n1 == next_after(n0)
        &&& any_where(s0, free_rec()) ==> r == Some(n0)
            && inserted(s0, s1, n0, sender, receiver, ranges, is_lend, is_donate)
        &&& !any_where(s0, free_rec()) ==> r.is_none() && s1 == s0
    }
}

/// What a lookup of a live record returns: sender, receiver, ranges, range
/// count, lend, donate, retrieved.
pub type ShareInfo = (u16, u16, [(u64, u32); 4], usize, bool, bool, bool);

/// The information of record `rec`.
pub open spec fn info_of(rec: SpmcShareRecord) -> ShareInfo {
    (rec.sender_id, rec.receiver_id, rec.ranges, rec.range_count, rec.is_lend, rec.is_donate, rec.retrieved)
}

/// The first live record of handle `h`.
fn lookup_spmc_share(state: &SpmcState, handle: u64) -> (r: Option<ShareInfo>)
    requires
        state.wf(),
    ensures
        !any_where(state.shares(), live_rec(handle)) ==> r.is_none(),
        any_where(state.shares(), live_rec(handle)) ==> exists|i: int|
            #[trigger] first_where(state.shares(), live_rec(handle), i) && r == Some(info_of(state.shares()[i])),
{
    let mut i: usize = 0;
    while i < state.shares.len()
        invariant
            state.wf(),
            i <= state.shares@.len(),
            forall|j: int| 0 <= j < i ==> !(#[trigger] live_rec(handle)(state.shares@[j])),
        decreases state.shares@.len() - i,
    {
        let rec = state.shares[i];
        if rec.active && rec.handle == handle {
            assert(first_where(state.shares(), live_rec(handle), i as int));
            return Some((rec.sender_id, rec.receiver_id, rec.ranges, rec.range_count, rec.is_lend, rec.is_donate, rec.retrieved));
        }
        i = i + 1;
    }
    proof {
        if any_where(state.shares(), live_rec(handle)) {
            let k = choose|k: int| 0 <= k < state.shares().len() && live_rec(handle)(#[trigger] state.shares()[k]);
            assert(!live_rec(handle)(state.shares@[k]));
        }
    }
    None
}

/// Flip the retrieved flag of the first live record of `handle` whose flag
/// is `from`; `false` when there is none (nothing changes then).
fn flip_spmc_retrieved(state: &mut SpmcState, handle: u64, from: bool) -> (r: bool)
    requires
        old(state).wf(),
    ensures
        final(state).wf(),
        only_records_changed(old(state), final(state)),
        r == any_where(old(state).shares(), live_rec_retrieved(handle, from)),
        !r ==> final(state).shares() == old(state).shares(),
        r ==> exists|i: int| #[trigger] first_where(old(state).shares(), live_rec_retrieved(handle, from), i)
            && final(state).shares() == old(state).shares().update(i,
                SpmcShareRecord { retrieved: !from, ..old(state).shares()[i] }),
{
    let mut i: usize = 0;
    while i < state.shares.len()
        invariant
            state.wf(),
            *state == *old(state),
            i <= state.shares@.len(),
            forall|j: int| 0 <= j < i ==> !(#[trigger] live_rec_retrieved(handle, from)(state.shares@[j])),
        decreases state.shares@.len() - i,
    {
        let rec = state.shares[i];
        if rec.active && rec.handle == handle && rec.retrieved == from {
            state.shares.set(i, SpmcShareRecord { retrieved: !from, ..rec });
            assert(first_where(old(state).shares(), live_rec_retrieved(handle, from), i as int));
            return true;
        }
        i = i + 1;
    }
    proof {
        if any_where(old(state).shares(), live_rec_retrieved(handle, from)) {
            let k = choose|k: int| 0 <= k < old(state).shares().len()
                && live_rec_retrieved(handle, from)(#[trigger] old(state).shares()[k]);
            assert(!live_rec_retrieved(handle, from)(state.shares@[k]));
        }
    }
    false
}

/// Delete the first live record of `handle`: `FFA_DENIED` when it was
/// donated or is retrieved, `FFA_INVALID_PARAMETERS` when there is none.
fn reclaim_spmc_share(state: &mut SpmcState, handle: u64) -> (r: Result<(), i32>)
    requires
        old(state).wf(),
    ensures
        final(state).wf(),
        only_records_changed(old(state), final(state)),
        !any_where(old(state).shares(), live_rec(handle)) ==> r == Err::<(), i32>(FFA_INVALID_PARAMETERS)
            && final(state).shares() == old(state).shares(),
        any_where(old(state).shares(), live_rec(handle)) ==> exists|i: int|
            #[trigger] first_where(old(state).shares(), live_rec(handle), i) && {
                let rec = old(state).shares()[i];
                if rec.is_donate || rec.retrieved {
                    r == Err::<(), i32>(FFA_DENIED) && final(state).shares() == old(state).shares()
                } else {
                    r is Ok && final(state).shares() == old(state).shares().update(i,
                        SpmcShareRecord { active: false, ..rec })
                }
            },
{
    let mut i: usize = 0;
    while i < state.shares.len()
        invariant
            state.wf(),
            *state == *old(state),
            i <= state.shares@.len(),
            forall|j: int| 0 <= j < i ==> !(#[trigger] live_rec(handle)(state.shares@[j])),
        decreases state.shares@.len() - i,
    {
        let rec = state.shares[i];
        if rec.active && rec.handle == handle {
            assert(first_where(old(state).shares(), live_rec(handle), i as int));
            if rec.is_donate {
                return Err(FFA_DENIED);
            }
            if rec.retrieved {
                return Err(FFA_DENIED);
            }
            state.shares.set(i, SpmcShareRecord { active: false, ..rec });
            return Ok(());
        }
        i = i + 1;
    }
    proof {
        if any_where(old(state).shares(), live_rec(handle)) {
            let k = choose|k: int| 0 <= k < old(state).shares().len() && live_rec(handle)(#[trigger] old(state).shares()[k]);
            assert(!live_rec(handle)(state.shares@[k]));
        }
    }
    Err(FFA_INVALID_PARAMETERS)
}

/// Forget a descriptor being reassembled.
pub fn reset_nwd_frag_state(state: &mut SpmcState)
    requires
        old(state).wf(),
    ensures
        final(state).wf(),
        ({
            let f0 = old(state).frag();
            let f1 = final(state).frag();
            &&& !f1.0 && f1.1 == 0 && f1.2 == 0 && f1.3 == 0 && f1.6 == 0
            &&& f1.4 == f0.4 && f1.5 == f0.5 && f1.7 == f0.7
        }),
        unchanged_except(old(state), final(state), false, false, true, false, false, false, false),
{
    state.frag.active = false;
    state.frag.total_length = 0;
    state.frag.received = 0;
    state.frag.handle = 0;
    state.frag.sender_id = 0;
}

/// Mailbox index of partition `sp_id`: partitions `0x8001..=0x8004`.
pub open spec fn spec_mailbox_index(sp_id: u16) -> Option<int> {
    if FFA_SPMC_ID + 1 <= sp_id && sp_id < FFA_SPMC_ID + 1 + MAX_SP_MAILBOXES {
        Some(sp_id - FFA_SPMC_ID - 1)
    } else {
        None
    }
}

fn sp_mailbox_index(sp_id: u16) -> (r: Option<usize>)
    ensures
        match spec_mailbox_index(sp_id) {
            Some(i) => r == Some(i as usize),
            None => r.is_none(),
        },
{
    if sp_id >= FFA_SPMC_ID + 1 && sp_id < FFA_SPMC_ID + 1 + (MAX_SP_MAILBOXES as u16) {
        Some((sp_id - FFA_SPMC_ID - 1) as usize)
    } else {
        None
    }
}

// ── Handlers ────────────────────────────────────────────────────────

/// x0..x3 as given, x4..x7 zero.
pub open spec fn r8(x0: u64, x1: u64, x2: u64, x3: u64) -> SmcResult8 {
    SmcResult8 { x0, x1, x2, x3, x4: 0, x5: 0, x6: 0, x7: 0 }
}

/// Everything but the parts flagged `true` is unchanged.
pub open spec fn unchanged_except(s0: &SpmcState, s1: &SpmcState, nwd: bool, shares: bool, frag: bool,
    frag_rx: bool, mbox: bool, notif: bool, console: bool) -> bool
{
    &&& nwd || s1.nwd() == s0.nwd()
    &&& shares || (s1.shares() == s0.shares() && s1.next_handle() == s0.next_handle())
    &&& frag || s1.frag() == s0.frag()
    &&& frag_rx || s1.frag_rx() == s0.frag_rx()
    &&& mbox || s1.mailboxes() == s0.mailboxes()
    &&& notif || s1.notif() == s0.notif()
    &&& console || s1.console_out() == s0.console_out()
    &&& s1.running() == s0.running()
    &&& s1.calls() == s0.calls()
    &&& s1.store() == s0.store()
}

/// Nothing changed.
pub open spec fn same(s0: &SpmcState, s1: &SpmcState) -> bool {
    unchanged_except(s0, s1, false, false, false, false, false, false, false)
}

/// Answer to FFA_VERSION: version 1.1.
pub open spec fn version8() -> SmcResult8 {
    r8(FFA_VERSION_1_1 as u64, 0, 0, 0)
}

/// Answer to FFA_ID_GET and FFA_SPM_ID_GET: the SPMC's partition ID.
pub open spec fn id8() -> SmcResult8 {
    r8(FFA_SUCCESS_32, 0, FFA_SPMC_ID as u64, 0)
}

/// Functions FFA_FEATURES reports as supported by the SPMC.
pub open spec fn spmc_supported(fid: u64) -> bool {
    fid == FFA_VERSION || fid == FFA_ID_GET || fid == FFA_FEATURES || fid == FFA_SPM_ID_GET
        || fid == FFA_PARTITION_INFO_GET || fid == FFA_MSG_SEND_DIRECT_REQ_32
        || fid == FFA_MSG_SEND_DIRECT_REQ_64 || fid == FFA_RXTX_MAP || fid == FFA_RX_RELEASE
        || fid == FFA_MSG_SEND2 || fid == FFA_MSG_WAIT || fid == FFA_RUN || fid == FFA_MEM_SHARE_32
        || fid == FFA_MEM_LEND_32 || fid == FFA_MEM_DONATE_32 || fid == FFA_MEM_RETRIEVE_REQ_32
        || fid == FFA_MEM_RELINQUISH || fid == FFA_MEM_RECLAIM || fid == FFA_MEM_FRAG_TX
        || fid == FFA_MEM_FRAG_RX || fid == FFA_NOTIFICATION_BITMAP_CREATE
        || fid == FFA_NOTIFICATION_BITMAP_DESTROY || fid == FFA_NOTIFICATION_BIND
        || fid == FFA_NOTIFICATION_UNBIND || fid == FFA_NOTIFICATION_SET || fid == FFA_NOTIFICATION_GET
        || fid == FFA_NOTIFICATION_INFO_GET_32 || fid == FFA_NOTIFICATION_INFO_GET_64
        || fid == FFA_CONSOLE_LOG_32 || fid == FFA_CONSOLE_LOG_64
}

/// Answer to FFA_FEATURES for `fid`: the donated interrupt of the NPI and
/// SRI features, success for a supported function, NOT_SUPPORTED otherwise.
pub open spec fn features8(fid: u64) -> SmcResult8 {
    if fid == FFA_FEATURE_NPI {
        r8(FFA_SUCCESS_32, 0, NPI_INTID as u64, 0)
    } else if fid == FFA_FEATURE_SRI {
        r8(FFA_SUCCESS_32, 0, SRI_INTID as u64, 0)
    } else if spmc_supported(fid) {
        ok8()
    } else {
        err8(FFA_NOT_SUPPORTED)
    }
}

fn handle_features(fid: u64) -> (r: SmcResult8)
    ensures
        r == features8(fid),
{
    if fid == FFA_FEATURE_NPI {
        return SmcResult8 { x0: FFA_SUCCESS_32, x1: 0, x2: NPI_INTID as u64, x3: 0, x4: 0, x5: 0, x6: 0, x7: 0 };
    }
    if fid == FFA_FEATURE_SRI {
        return SmcResult8 { x0: FFA_SUCCESS_32, x1: 0, x2: SRI_INTID as u64, x3: 0, x4: 0, x5: 0, x6: 0, x7: 0 };
    }
    let supported = fid == FFA_VERSION || fid == FFA_ID_GET || fid == FFA_FEATURES || fid == FFA_SPM_ID_GET
        || fid == FFA_PARTITION_INFO_GET || fid == FFA_MSG_SEND_DIRECT_REQ_32
        || fid == FFA_MSG_SEND_DIRECT_REQ_64 || fid == FFA_RXTX_MAP || fid == FFA_RX_RELEASE
        || fid == FFA_MSG_SEND2 || fid == FFA_MSG_WAIT || fid == FFA_RUN || fid == FFA_MEM_SHARE_32
        || fid == FFA_MEM_LEND_32 || fid == FFA_MEM_DONATE_32 || fid == FFA_MEM_RETRIEVE_REQ_32
        || fid == FFA_MEM_RELINQUISH || fid == FFA_MEM_RECLAIM || fid == FFA_MEM_FRAG_TX
        || fid == FFA_MEM_FRAG_RX || fid == FFA_NOTIFICATION_BITMAP_CREATE
        || fid == FFA_NOTIFICATION_BITMAP_DESTROY || fid == FFA_NOTIFICATION_BIND
        || fid == FFA_NOTIFICATION_UNBIND || fid == FFA_NOTIFICATION_SET || fid == FFA_NOTIFICATION_GET
        || fid == FFA_NOTIFICATION_INFO_GET_32 || fid == FFA_NOTIFICATION_INFO_GET_64
        || fid == FFA_CONSOLE_LOG_32 || fid == FFA_CONSOLE_LOG_64;
    if supported {
        make_success()
    } else {
        error_of(FFA_NOT_SUPPORTED)
    }
}

/// Answer to a direct request addressed to the SPMC: an SPMD framework
/// message (32-bit call with bit 31 of x2 set) asking for the FF-A version is
/// answered with version 1.1, any other framework message is not supported;
/// an ordinary request is echoed back (x3..x7) with source and destination
/// swapped.
pub open spec fn direct_req8(q: SmcResult8) -> SmcResult8 {
    let is_64 = q.x0 == FFA_MSG_SEND_DIRECT_REQ_64;
    let swapped = ((q.x1 & 0xFFFF) << 16u64) | ((q.x1 >> 16u64) & 0xFFFF);
    if !is_64 && q.x2 & FFA_FWK_MSG_BIT != 0 {
        if q.x2 & !FFA_FWK_MSG_BIT == SPMD_FWK_MSG_FFA_VERSION_REQ {
            r8(FFA_MSG_SEND_DIRECT_RESP_32, swapped, FFA_FWK_MSG_BIT | SPMD_FWK_MSG_FFA_VERSION_RESP,
                FFA_VERSION_1_1 as u64)
        } else {
            err8(FFA_NOT_SUPPORTED)
        }
    } else {
        SmcResult8 {
            x0: if is_64 { FFA_MSG_SEND_DIRECT_RESP_64 } else { FFA_MSG_SEND_DIRECT_RESP_32 },
            x1: swapped,
            x2: 0,
            x3: q.x3,
            x4: q.x4,
            x5: q.x5,
            x6: q.x6,
            x7: q.x7,
        }
    }
}

fn handle_direct_req(req: &SmcResult8) -> (r: SmcResult8)
    ensures
        r == direct_req8(*req),
{
    let is_64 = req.x0 == FFA_MSG_SEND_DIRECT_REQ_64;
    let resp_fid = if is_64 { FFA_MSG_SEND_DIRECT_RESP_64 } else { FFA_MSG_SEND_DIRECT_RESP_32 };
    let source = (req.x1 >> 16) & 0xFFFF;
    let dest = req.x1 & 0xFFFF;
    let swapped_x1 = (dest << 16) | source;
    if !is_64 && (req.x2 & FFA_FWK_MSG_BIT) != 0 {
        let fwk_func = req.x2 & !FFA_FWK_MSG_BIT;
        if fwk_func == SPMD_FWK_MSG_FFA_VERSION_REQ {
            return SmcResult8 {
                x0: FFA_MSG_SEND_DIRECT_RESP_32,
                x1: swapped_x1,
                x2: FFA_FWK_MSG_BIT | SPMD_FWK_MSG_FFA_VERSION_RESP,
                x3: FFA_VERSION_1_1 as u64,
                x4: 0,
                x5: 0,
                x6: 0,
                x7: 0,
            };
        }
        return error_of(FFA_NOT_SUPPORTED);
    }
    SmcResult8 { x0: resp_fid, x1: swapped_x1, x2: 0, x3: req.x3, x4: req.x4, x5: req.x5, x6: req.x6, x7: req.x7 }
}

/// Register `k` (0..6) of x2..x7.
pub open spec fn log_reg(q: SmcResult8, k: int) -> u64 {
    if k == 0 { q.x2 } else if k == 1 { q.x3 } else if k == 2 { q.x4 } else if k == 3 { q.x5 } else if k == 4 { q.x6 } else { q.x7 }
}

/// Character `i` of a console log request: byte `i % 8` of register `i / 8`.
pub open spec fn log_char(q: SmcResult8, i: int) -> u8 {
    ((log_reg(q, i / 8) >> (((i % 8) * 8) as u64)) & 0xFF) as u8
}

/// The first `n` characters of a console log request, without the zero bytes.
pub open spec fn log_chars(q: SmcResult8, n: int) -> Seq<u8>
    decreases n,
{
    if n <= 0 {
        Seq::empty()
    } else if log_char(q, n - 1) != 0 {
        log_chars(q, n - 1).push(log_char(q, n - 1))
    } else {
        log_chars(q, n - 1)
    }
}

/// Outcome of FFA_CONSOLE_LOG: x1 characters (1..=48) packed into x2..x7
/// are written to the console, zero bytes left out.
pub open spec fn console_log_post(s0: &SpmcState, s1: &SpmcState, q: SmcResult8, r: SmcResult8) -> bool {
    let n = q.x1 as usize;
    if n == 0 || n > 48 {
        r == err8(FFA_INVALID_PARAMETERS) && same(s0, s1)
    } else {
        &&& r == ok8()
        &&& s1.console_out() == s0.console_out() + log_chars(q, n as int)
        &&& unchanged_except(s0, s1, false, false, false, false, false, false, true)
    }
}

fn handle_console_log(state: &mut SpmcState, req: &SmcResult8) -> (r: SmcResult8)
    requires
        old(state).wf(),
    ensures
        final(state).wf(),
        console_log_post(old(state), final(state), *req, r),
{
    let char_count = req.x1 as usize;
    if char_count == 0 || char_count > 48 {
        return error_of(FFA_INVALID_PARAMETERS);
    }
    let regs: [u64; 6] = [req.x2, req.x3, req.x4, req.x5, req.x6, req.x7];
    let mut i: usize = 0;
    while i < char_count
        invariant
            state.wf(),
            i <= char_count,
            char_count <= 48,
            forall|k: int| 0 <= k < 6 ==> #[trigger] regs@[k] == log_reg(*req, k),
            state.console@ == old(state).console@ + log_chars(*req, i as int),
            unchanged_except(old(state), state, false, false, false, false, false, false, true),
        decreases char_count - i,
    {
        let reg_idx = i / 8;
        let byte_idx = i % 8;
        let ch = ((regs[reg_idx] >> ((byte_idx * 8) as u64)) & 0xFF) as u8;
        assert(ch == log_char(*req, i as int));
        if ch != 0 {
            state.console.push(ch);
        }
        assert(state.console@ =~= old(state).console@ + log_chars(*req, i + 1));
        i = i + 1;
    }
    make_success()
}

/// Outcome of FFA_RXTX_MAP: page-aligned TX (x1) and RX (x2) buffers of x3
/// pages are registered, replacing any earlier registration.
pub open spec fn rxtx_map_post(s0: &SpmcState, s1: &SpmcState, q: SmcResult8, r: SmcResult8) -> bool {
    if q.x1 & 0xFFF != 0 || q.x2 & 0xFFF != 0 || q.x3 as u32 == 0 {
        r == err8(FFA_INVALID_PARAMETERS) && same(s0, s1)
    } else {
        &&& r == ok8()
        &&& s1.nwd() == (NwdRxtxState { tx_pa: q.x1, rx_pa: q.x2, page_count: q.x3 as u32, mapped: true })
        &&& unchanged_except(s0, s1, true, false, false, false, false, false, false)
    }
}

fn handle_rxtx_map(state: &mut SpmcState, req: &SmcResult8) -> (r: SmcResult8)
    requires
        old(state).wf(),
    ensures
        final(state).wf(),
        rxtx_map_post(old(state), final(state), *req, r),
{
    let tx_pa = req.x1;
    let rx_pa = req.x2;
    let page_count = req.x3 as u32;
    if tx_pa & 0xFFF != 0 || rx_pa & 0xFFF != 0 || page_count == 0 {
        return error_of(FFA_INVALID_PARAMETERS);
    }
    state.nwd = NwdRxtxState { tx_pa, rx_pa, page_count, mapped: true };
    make_success()
}

/// Outcome of FFA_RXTX_UNMAP: the registration and any transfer in
/// flight are forgotten; DENIED when nothing is registered.
pub open spec fn rxtx_unmap_post(s0: &SpmcState, s1: &SpmcState, r: SmcResult8) -> bool {
    if !s0.nwd().mapped {
        r == err8(FFA_DENIED) && same(s0, s1)
    } else {
        let f0 = s0.frag();
        &&& r == ok8()
        &&& s1.nwd() == (NwdRxtxState { tx_pa: 0, rx_pa: 0, page_count: 0, mapped: false })
        &&& s1.frag() == (false, 0u32, 0u32, 0u64, f0.4, f0.5, 0u16, f0.7)
        &&& s1.frag_rx() == (NwdFragRxState { active: false, ..s0.frag_rx() })
        &&& unchanged_except(s0, s1, true, false, true, true, false, false, false)
    }
}

fn handle_rxtx_unmap(state: &mut SpmcState) -> (r: SmcResult8)
    requires
        old(state).wf(),
    ensures
        final(state).wf(),
        rxtx_unmap_post(old(state), final(state), r),
{
    if !state.nwd.mapped {
        return error_of(FFA_DENIED);
    }
    state.nwd = NwdRxtxState { tx_pa: 0, rx_pa: 0, page_count: 0, mapped: false };
    reset_nwd_frag_state(state);
    state.frag_rx.active = false;
    make_success()
}

/// Outcome of FFA_RX_RELEASE: success when buffers are registered.
pub open spec fn rx_release8(s0: &SpmcState) -> SmcResult8 {
    if !s0.nwd().mapped { err8(FFA_DENIED) } else { ok8() }
}

fn handle_rx_release(state: &SpmcState) -> (r: SmcResult8)
    requires
        state.wf(),
    ensures
        r == rx_release8(state),
{
    if !state.nwd.mapped {
        return error_of(FFA_DENIED);
    }
    make_success()
}

/// Answer to PARTITION_INFO_GET: the number of registered partitions and
/// the 24-byte descriptor size.
pub open spec fn partition_info8(s0: &SpmcState) -> SmcResult8 {
    r8(FFA_SUCCESS_32, 0, occupied_count(s0.store().slots(), 4) as u64, PARTITION_INFO_SIZE)
}

fn handle_partition_info_get(state: &SpmcState) -> (r: SmcResult8)
    requires
        state.wf(),
    ensures
        r == partition_info8(state),
{
    let count = registered_count(&state.sps);
    SmcResult8 { x0: FFA_SUCCESS_32, x1: 0, x2: count as u64, x3: PARTITION_INFO_SIZE, x4: 0, x5: 0, x6: 0, x7: 0 }
}

/// Bytes of a message copied into a mailbox: header and payload, at most a page.
pub open spec fn msg_copy_len(size: u32) -> int {
    if 8 + size < SPMC_BUF_SIZE { 8 + size } else { SPMC_BUF_SIZE as int }
}

/// Outcome of FFA_MSG_SEND2 from the Normal World: the message in its TX
/// buffer `tx` (sender, receiver, size, payload) is copied into the
/// receiving partition's mailbox.
pub open spec fn msg_send2_post(s0: &SpmcState, s1: &SpmcState, tx: Seq<u8>, r: SmcResult8) -> bool {
    let snd = le16(tx, 0);
    let rcv = le16(tx, 2);
    let size = le32(tx, 4);
    if !s0.nwd().mapped {
        r == err8(FFA_DENIED) && same(s0, s1)
    } else if spec_mailbox_index(rcv).is_none() || !has_sp(s0.store().slots(), rcv) {
        r == err8(FFA_INVALID_PARAMETERS) && same(s0, s1)
    } else {
        let i = spec_mailbox_index(rcv).unwrap();
        let m = s0.mailboxes()[i];
        let n = msg_copy_len(size);
        if m.0 {
            r == err8(FFA_BUSY) && same(s0, s1)
        } else {
            &&& r == ok8()
            &&& s1.mailboxes() == s0.mailboxes().update(i, (true, snd, tx.subrange(0, n) + m.2.subrange(n, SPMC_BUF_SIZE as int)))
            &&& unchanged_except(s0, s1, false, false, false, false, true, false, false)
        }
    }
}

fn handle_spmc_msg_send2(state: &mut SpmcState, tx: &[u8]) -> (r: SmcResult8)
    requires
        old(state).wf(),
        tx@.len() >= SPMC_BUF_SIZE,
    ensures
        final(state).wf(),
        msg_send2_post(old(state), final(state), tx@, r),
{
    if !state.nwd.mapped {
        return error_of(FFA_DENIED);
    }
    let msg_sender_id = read_le16(tx, 0);
    let msg_receiver_id = read_le16(tx, 2);
    let msg_size = read_le32(tx, 4);
    let mbox_idx = match sp_mailbox_index(msg_receiver_id) {
        Some(idx) => idx,
        None => { return error_of(FFA_INVALID_PARAMETERS); },
    };
    if !is_registered_sp(&state.sps, msg_receiver_id) {
        return error_of(FFA_INVALID_PARAMETERS);
    }
    if state.mailboxes[mbox_idx].msg_pending {
        return error_of(FFA_BUSY);
    }
    let total: u64 = 8 + msg_size as u64;
    let copy_len: usize = if total < SPMC_BUF_SIZE as u64 { total as usize } else { SPMC_BUF_SIZE };
    let ghost m0 = state.mailboxes()[mbox_idx as int];
    let mut mbox = SpMailbox { rx_buf: Vec::new(), msg_pending: false, msg_sender_id: 0 };
    std::mem::swap(&mut mbox, &mut state.mailboxes[mbox_idx]);
    let ghost old_buf = mbox.rx_buf@;
    let mut k: usize = 0;
    while k < copy_len
        invariant
            k <= copy_len,
            copy_len <= SPMC_BUF_SIZE,
            tx@.len() >= SPMC_BUF_SIZE,
            mbox.rx_buf@.len() == SPMC_BUF_SIZE,
            old_buf.len() == SPMC_BUF_SIZE,
            forall|m: int| 0 <= m < k ==> #[trigger] mbox.rx_buf@[m] == tx@[m],
            forall|m: int| k <= m < SPMC_BUF_SIZE ==> #[trigger] mbox.rx_buf@[m] == old_buf[m],
        decreases copy_len - k,
    {
        mbox.rx_buf.set(k, tx[k]);
        k = k + 1;
    }
    mbox.msg_pending = true;
    mbox.msg_sender_id = msg_sender_id;
    state.mailboxes.set(mbox_idx, mbox);
    proof {
        let n = msg_copy_len(msg_size);
        assert(n == copy_len);
        assert(mbox.rx_buf@ =~= tx@.subrange(0, n) + old_buf.subrange(n, SPMC_BUF_SIZE as int));
        assert(state.mailboxes() =~= old(state).mailboxes().update(mbox_idx as int,
            (true, msg_sender_id, tx@.subrange(0, n) + m0.2.subrange(n, SPMC_BUF_SIZE as int))));
    }
    make_success()
}

/// Outcome of FFA_RUN from the Normal World for the partition in x1[31:16]:
/// the SPMC only checks it; a preempted partition is resumed by the event
/// loop before dispatch, so here the call is NOT_SUPPORTED.
pub open spec fn run_post(s0: &SpmcState, q: SmcResult8, r: SmcResult8) -> bool {
    let sp = ((q.x1 >> 16u64) & 0xFFFF) as u16;
    let slots = s0.store().slots();
    if !has_sp(slots, sp) {
        r == err8(FFA_INVALID_PARAMETERS)
    } else {
        exists|i: int| #[trigger] first_slot_of(slots, sp, i) && r == (if slots[i]->0.state == SpState::Preempted {
            err8(FFA_NOT_SUPPORTED)
        } else {
            err8(FFA_DENIED)
        })
    }
}

fn handle_run(state: &SpmcState, req: &SmcResult8) -> (r: SmcResult8)
    requires
        state.wf(),
    ensures
        run_post(state, *req, r),
{
    let sp_id = ((req.x1 >> 16) & 0xFFFF) as u16;
    if !is_registered_sp(&state.sps, sp_id) {
        return error_of(FFA_INVALID_PARAMETERS);
    }
    let st = match state_of(&state.sps, sp_id) {
        Some(s) => s,
        None => { return error_of(FFA_INVALID_PARAMETERS); },
    };
    if st != SpState::Preempted {
        return error_of(FFA_DENIED);
    }
    error_of(FFA_NOT_SUPPORTED)
}

// ── Memory sharing ──────────────────────────────────────────────────

/// Handle in x1 (low 32 bits) and x2 (high half).
pub open spec fn handle_of(x1: u64, x2: u64) -> u64 {
    (x1 & 0xFFFF_FFFF) | (x2 << 32u64)
}

/// Handle in the low 32 bits of x1 and of x2.
pub open spec fn frag_handle_of(x1: u64, x2: u64) -> u64 {
    (x1 & 0xFFFF_FFFF) | ((x2 & 0xFFFF_FFFF) << 32u64)
}

/// A range of `count` pages at `ipa` the SPMC accepts: page aligned, at
/// most 65536 pages, not wrapping the address space.
pub open spec fn range_ok(ipa: u64, count: u32) -> bool {
    &&& ipa & 0xFFF == 0
    &&& count <= 65536
    &&& ipa + count * 4096 <= u64::MAX
}

/// A share of `ranges` is recorded under the next handle (which is used
/// up either way): `ok` is the answer when a record was free, NO_MEMORY
/// otherwise.
pub open spec fn share_outcome<T>(s0: &SpmcState, s1: &SpmcState, sender: u16, receiver: u16,
    ranges: Seq<(u64, u32)>, is_lend: bool, is_donate: bool, r: T, ok: T, no_memory: T) -> bool
{
    &&& s1.next_handle() == next_after(s0.next_handle())
    &&& any_where(s0.shares(), free_rec()) ==> r == ok
        && inserted(s0.shares(), s1.shares(), s0.next_handle(), sender, receiver, ranges, is_lend, is_donate)
    &&& !any_where(s0.shares(), free_rec()) ==> r == no_memory && s1.shares() == s0.shares()
    &&& unchanged_except(s0, s1, false, true, false, false, false, false, false)
}

/// Outcome of MEM_SHARE / MEM_LEND / MEM_DONATE from the Normal World
/// (register protocol).
pub open spec fn mem_share_post(s0: &SpmcState, s1: &SpmcState, q: SmcResult8, is_lend: bool, is_donate: bool,
    r: SmcResult8) -> bool
{
    let sender = ((q.x1 >> 16u64) & 0xFFFF) as u16;
    let receiver = (q.x5 & 0xFFFF) as u16;
    let count = q.x4 as u32;
    if count == 0 || !has_sp(s0.store().slots(), receiver) || !range_ok(q.x3, count) {
        r == err8(FFA_INVALID_PARAMETERS) && same(s0, s1)
    } else {
        share_outcome(s0, s1, sender, receiver, seq![(q.x3, count)], is_lend, is_donate, r,
            handle8(s0.next_handle()), err8(FFA_NO_MEMORY))
    }
}

/// Whether `count` pages at `ipa` pass the SPMC's range checks.
fn check_range(ipa: u64, count: u32) -> (r: bool)
    ensures
        r == range_ok(ipa, count),
{
    if ipa & 0xFFF != 0 || count > 65536 {
        return false;
    }
    ipa.checked_add(count as u64 * 4096).is_some()
}

fn handle_spmc_mem_share(state: &mut SpmcState, req: &SmcResult8, is_lend: bool, is_donate: bool) -> (r: SmcResult8)
    requires
        old(state).wf(),
    ensures
        final(state).wf(),
        mem_share_post(old(state), final(state), *req, is_lend, is_donate, r),
{
    let sender_id = ((req.x1 >> 16) & 0xFFFF) as u16;
    let receiver_id = (req.x5 & 0xFFFF) as u16;
    let ipa = req.x3;
    let count = req.x4 as u32;
    if count == 0 {
        return error_of(FFA_INVALID_PARAMETERS);
    }
    if !is_registered_sp(&state.sps, receiver_id) {
        return error_of(FFA_INVALID_PARAMETERS);
    }
    if !check_range(ipa, count) {
        return error_of(FFA_INVALID_PARAMETERS);
    }
    let ranges: [(u64, u32); 1] = [(ipa, count)];
    assert(ranges@ =~= seq![(ipa, count)]);
    match record_spmc_share(state, sender_id, receiver_id, &ranges, is_lend, is_donate) {
        Some(handle) => handle_result(handle),
        None => error_of(FFA_NO_MEMORY),
    }
}

/// The first record satisfying `p` is unique.
proof fn lemma_first_unique(s: Seq<SpmcShareRecord>, p: spec_fn(SpmcShareRecord) -> bool, i: int, j: int)
    requires
        first_where(s, p, i),
        first_where(s, p, j),
    ensures
        i == j,
{
    if i < j {
        assert(!p(s[i]));
    } else if j < i {
        assert(!p(s[j]));
    }
}

/// The first live record of `h`, when its flag is `ret`, is also the first
/// live record of `h` with that flag.
proof fn lemma_first_live_flag(s: Seq<SpmcShareRecord>, h: u64, ret: bool, i: int)
    requires
        first_where(s, live_rec(h), i),
        s[i].retrieved == ret,
    ensures
        first_where(s, live_rec_retrieved(h, ret), i),
{
    assert forall|j: int| 0 <= j < i implies !live_rec_retrieved(h, ret)(#[trigger] s[j]) by {
        assert(!live_rec(h)(s[j]));
    }
}

/// Length of the retrieve response descriptor for `n` ranges: memory
/// region header, one access descriptor, composite header, `n` ranges.
pub open spec fn retrieve_resp_len(n: int) -> u64 {
    (48 + 16 + 16 + 16 * n) as u64
}

/// `cur` is a partition other than `receiver`.
pub open spec fn other_caller(cur: Option<(u16, u64)>, receiver: u16) -> bool {
    match cur {
        Some((id, _)) => id != receiver,
        None => false,
    }
}

/// Outcome of MEM_RETRIEVE_REQ for the handle in x1/x2, from the Normal
/// World (`cur` is `None`) or from partition `cur`.
pub open spec fn mem_retrieve_post(s0: &SpmcState, s1: &SpmcState, q: SmcResult8, cur: Option<(u16, u64)>,
    r: SmcResult8) -> bool
{
    let h = handle_of(q.x1, q.x2);
    if !any_where(s0.shares(), live_rec(h)) {
        r == err8(FFA_INVALID_PARAMETERS) && same(s0, s1)
    } else {
        exists|i: int| #[trigger] first_where(s0.shares(), live_rec(h), i) && {
            let rec = s0.shares()[i];
            if other_caller(cur, rec.receiver_id) || rec.retrieved {
                r == err8(FFA_DENIED) && same(s0, s1)
            } else {
                let len = retrieve_resp_len(rec.range_count as int);
                &&& r == r8(FFA_MEM_RETRIEVE_RESP, len, if len < 4096 { len } else { 4096 }, 0)
                &&& s1.shares() == s0.shares().update(i, SpmcShareRecord { retrieved: true, ..rec })
                &&& s1.next_handle() == s0.next_handle()
                &&& unchanged_except(s0, s1, false, true, false, false, false, false, false)
            }
        }
    }
}

fn handle_spmc_mem_retrieve(state: &mut SpmcState, req: &SmcResult8, current_sp: Option<(u16, u64)>) -> (r: SmcResult8)
    requires
        old(state).wf(),
    ensures
        final(state).wf(),
        mem_retrieve_post(old(state), final(state), *req, current_sp, r),
{
    let handle = (req.x1 & 0xFFFF_FFFF) | (req.x2 << 32);
    let info = match lookup_spmc_share(state, handle) {
        Some(info) => info,
        None => { return error_of(FFA_INVALID_PARAMETERS); },
    };
    let ghost i = choose|i: int| #[trigger] first_where(state.shares(), live_rec(handle), i)
        && info == info_of(state.shares()[i]);
    let (_sender, receiver_id, _ranges, range_count, _, _, retrieved) = info;
    match current_sp {
        Some((id, _)) => {
            if id != receiver_id {
                return error_of(FFA_DENIED);
            }
        },
        None => {},
    }
    if retrieved {
        return error_of(FFA_DENIED);
    }
    proof {
        lemma_first_live_flag(old(state).shares(), handle, false, i);
    }
    flip_spmc_retrieved(state, handle, false);
    proof {
        let j = choose|j: int| #[trigger] first_where(old(state).shares(), live_rec_retrieved(handle, false), j)
            && state.shares() == old(state).shares().update(j,
                SpmcShareRecord { retrieved: !false, ..old(state).shares()[j] });
        lemma_first_unique(old(state).shares(), live_rec_retrieved(handle, false), i, j);
    }
    assert(range_count <= MAX_SHARE_RANGES);
    let total_length: u64 = 80 + 16 * range_count as u64;
    let fragment_length = if total_length < 4096 { total_length } else { 4096 };
    SmcResult8 { x0: FFA_MEM_RETRIEVE_RESP, x1: total_length, x2: fragment_length, x3: 0, x4: 0, x5: 0, x6: 0, x7: 0 }
}

/// Outcome of MEM_FRAG_RX: the next part of a retrieve response in
/// delivery, at the offset the caller says it got to.
pub open spec fn frag_rx_post(s0: &SpmcState, s1: &SpmcState, q: SmcResult8, r: SmcResult8) -> bool {
    let h = frag_handle_of(q.x1, q.x2);
    let off = q.x3 as u32;
    let f = s0.frag_rx();
    if !f.active || f.handle != h {
        r == err8(FFA_INVALID_PARAMETERS) && same(s0, s1)
    } else if off != f.delivered {
        &&& r == err8(FFA_INVALID_PARAMETERS)
        &&& s1.frag_rx() == (NwdFragRxState { active: false, ..f })
        &&& unchanged_except(s0, s1, false, false, false, true, false, false, false)
    } else {
        let rem = f.total_length - f.delivered;
        let d = (f.delivered + if rem < 4096 { rem } else { 4096 }) as u32;
        &&& unchanged_except(s0, s1, false, false, false, true, false, false, false)
        &&& if d < f.total_length {
            r == r8(FFA_MEM_FRAG_RX, h & 0xFFFF_FFFF, h >> 32u64, d as u64)
                && s1.frag_rx() == (NwdFragRxState { delivered: d, ..f })
        } else {
            r == handle8(h) && s1.frag_rx() == (NwdFragRxState { active: false, delivered: d, ..f })
        }
    }
}

fn handle_spmc_mem_frag_rx(state: &mut SpmcState, req: &SmcResult8) -> (r: SmcResult8)
    requires
        old(state).wf(),
    ensures
        final(state).wf(),
        frag_rx_post(old(state), final(state), *req, r),
{
    let handle = (req.x1 & 0xFFFF_FFFF) | ((req.x2 & 0xFFFF_FFFF) << 32);
    let frag_offset = req.x3 as u32;
    if !state.frag_rx.active || state.frag_rx.handle != handle {
        return error_of(FFA_INVALID_PARAMETERS);
    }
    if frag_offset != state.frag_rx.delivered {
        state.frag_rx.active = false;
        return error_of(FFA_INVALID_PARAMETERS);
    }
    let remaining = state.frag_rx.total_length - state.frag_rx.delivered;
    let chunk = if remaining < 4096 { remaining } else { 4096 };
    state.frag_rx.delivered = state.frag_rx.delivered + chunk;
    if state.frag_rx.delivered < state.frag_rx.total_length {
        SmcResult8 {
            x0: FFA_MEM_FRAG_RX,
            x1: handle & 0xFFFF_FFFF,
            x2: handle >> 32,
            x3: state.frag_rx.delivered as u64,
            x4: 0,
            x5: 0,
            x6: 0,
            x7: 0,
        }
    } else {
        state.frag_rx.active = false;
        handle_result(handle)
    }
}

/// Outcome of MEM_RELINQUISH for the handle in x1/x2, from the Normal
/// World (`cur` is `None`) or from partition `cur`.
pub open spec fn relinquish_post(s0: &SpmcState, s1: &SpmcState, q: SmcResult8, cur: Option<(u16, u64)>,
    r: SmcResult8) -> bool
{
    let h = handle_of(q.x1, q.x2);
    if !any_where(s0.shares(), live_rec(h)) {
        r == err8(FFA_INVALID_PARAMETERS) && same(s0, s1)
    } else {
        exists|i: int| #[trigger] first_where(s0.shares(), live_rec(h), i) && {
            let rec = s0.shares()[i];
            if rec.is_donate || other_caller(cur, rec.receiver_id) || !rec.retrieved {
                r == err8(FFA_DENIED) && same(s0, s1)
            } else {
                &&& r == ok8()
                &&& s1.shares() == s0.shares().update(i, SpmcShareRecord { retrieved: false, ..rec })
                &&& s1.next_handle() == s0.next_handle()
                &&& unchanged_except(s0, s1, false, true, false, false, false, false, false)
            }
        }
    }
}

fn handle_spmc_mem_relinquish(state: &mut SpmcState, req: &SmcResult8, current_sp: Option<(u16, u64)>) -> (r: SmcResult8)
    requires
        old(state).wf(),
    ensures
        final(state).wf(),
        relinquish_post(old(state), final(state), *req, current_sp, r),
{
    let handle = (req.x1 & 0xFFFF_FFFF) | (req.x2 << 32);
    let info = match lookup_spmc_share(state, handle) {
        Some(info) => info,
        None => { return error_of(FFA_INVALID_PARAMETERS); },
    };
    let ghost i = choose|i: int| #[trigger] first_where(state.shares(), live_rec(handle), i)
        && info == info_of(state.shares()[i]);
    let (_sender, receiver_id, _ranges, _range_count, _, is_donate, retrieved) = info;
    if is_donate {
        return error_of(FFA_DENIED);
    }
    match current_sp {
        Some((id, _)) => {
            if id != receiver_id {
                return error_of(FFA_DENIED);
            }
        },
        None => {},
    }
    if !retrieved {
        return error_of(FFA_DENIED);
    }
    proof {
        lemma_first_live_flag(old(state).shares(), handle, true, i);
    }
    flip_spmc_retrieved(state, handle, true);
    proof {
        let j = choose|j: int| #[trigger] first_where(old(state).shares(), live_rec_retrieved(handle, true), j)
            && state.shares() == old(state).shares().update(j,
                SpmcShareRecord { retrieved: !true, ..old(state).shares()[j] });
        lemma_first_unique(old(state).shares(), live_rec_retrieved(handle, true), i, j);
    }
    make_success()
}

/// Outcome of deleting the first live record of `h` (what `reclaim_spmc_share`
/// does), answered by `ok`, `denied` or `invalid`.
pub open spec fn reclaim_outcome<T>(s0: &SpmcState, s1: &SpmcState, h: u64, r: T, ok: T, denied: T, invalid: T) -> bool {
    if !any_where(s0.shares(), live_rec(h)) {
        r == invalid && same(s0, s1)
    } else {
        exists|i: int| #[trigger] first_where(s0.shares(), live_rec(h), i) && {
            let rec = s0.shares()[i];
            if rec.is_donate || rec.retrieved {
                r == denied && same(s0, s1)
            } else {
                &&& r == ok
                &&& s1.shares() == s0.shares().update(i, SpmcShareRecord { active: false, ..rec })
                &&& s1.next_handle() == s0.next_handle()
                &&& unchanged_except(s0, s1, false, true, false, false, false, false, false)
            }
        }
    }
}

fn handle_spmc_mem_reclaim(state: &mut SpmcState, req: &SmcResult8) -> (r: SmcResult8)
    requires
        old(state).wf(),
    ensures
        final(state).wf(),
        reclaim_outcome(old(state), final(state), handle_of(req.x1, req.x2), r, ok8(), err8(FFA_DENIED),
            err8(FFA_INVALID_PARAMETERS)),
{
    let handle = (req.x1 & 0xFFFF_FFFF) | (req.x2 << 32);
    match reclaim_spmc_share(state, handle) {
        Ok(()) => make_success(),
        Err(code) => error_of(code),
    }
}

/// The ranges of the descriptor in `b`.
pub open spec fn desc_ranges(b: Seq<u8>) -> Seq<(u64, u32)> {
    Seq::new(desc_range_count(b) as nat, |k: int| (le64(b, desc_range_off(b, k)), le32(b, desc_range_off(b, k) + 8)))
}

/// A complete reassembled descriptor `b` of `total` bytes is recorded under
/// handle `h`.
pub open spec fn frag_complete(s0: &SpmcState, s1: &SpmcState, b: Seq<u8>, total: int, h: u64,
    is_lend: bool, is_donate: bool, r: SmcResult8) -> bool
{
    let n = desc_range_count(b);
    let receiver = le16(b, desc_access_off(b));
    if !desc_valid(b, total) || n == 0 || n > MAX_SHARE_RANGES || !has_sp(s0.store().slots(), receiver) {
        r == err8(FFA_INVALID_PARAMETERS) && s1.shares() == s0.shares()
    } else if any_where(s0.shares(), free_rec()) {
        r == handle8(h) && inserted(s0.shares(), s1.shares(), h, le16(b, 0), receiver, desc_ranges(b), is_lend, is_donate)
    } else {
        r == err8(FFA_NO_MEMORY) && s1.shares() == s0.shares()
    }
}

/// Outcome of MEM_FRAG_TX: x3 more bytes of the descriptor being
/// reassembled arrived; once all are in, it is parsed and recorded.
pub open spec fn frag_tx_post(s0: &SpmcState, s1: &SpmcState, q: SmcResult8, r: SmcResult8) -> bool {
    let h = frag_handle_of(q.x1, q.x2);
    let len = q.x3 as u32;
    let f = s0.frag();
    if !f.0 || f.3 != h {
        r == err8(FFA_INVALID_PARAMETERS) && same(s0, s1)
    } else if len == 0 || f.2 + len > f.1 {
        &&& r == err8(FFA_INVALID_PARAMETERS)
        &&& s1.frag() == (false, f.1, f.2, f.3, f.4, f.5, f.6, f.7)
        &&& unchanged_except(s0, s1, false, false, true, false, false, false, false)
    } else {
        let rcv = (f.2 + len) as u32;
        if rcv < f.1 {
            &&& r == r8(FFA_MEM_FRAG_RX, h & 0xFFFF_FFFF, h >> 32u64, rcv as u64)
            &&& s1.frag() == (f.0, f.1, rcv, f.3, f.4, f.5, f.6, f.7)
            &&& unchanged_except(s0, s1, false, false, true, false, false, false, false)
        } else {
            &&& s1.frag() == (false, f.1, rcv, f.3, f.4, f.5, f.6, f.7)
            &&& s1.next_handle() == s0.next_handle()
            &&& unchanged_except(s0, s1, false, true, true, false, false, false, false)
            &&& frag_complete(s0, s1, f.7, f.1 as int, f.3, f.4, f.5, r)
        }
    }
}

fn handle_spmc_mem_frag_tx(state: &mut SpmcState, req: &SmcResult8) -> (r: SmcResult8)
    requires
        old(state).wf(),
    ensures
        final(state).wf(),
        frag_tx_post(old(state), final(state), *req, r),
{
    let handle = (req.x1 & 0xFFFF_FFFF) | ((req.x2 & 0xFFFF_FFFF) << 32);
    let fragment_length = req.x3 as u32;
    if !state.frag.active || state.frag.handle != handle {
        return error_of(FFA_INVALID_PARAMETERS);
    }
    if fragment_length == 0 || state.frag.received as u64 + fragment_length as u64 > state.frag.total_length as u64 {
        state.frag.active = false;
        return error_of(FFA_INVALID_PARAMETERS);
    }
    state.frag.received = state.frag.received + fragment_length;
    if state.frag.received < state.frag.total_length {
        return SmcResult8 {
            x0: FFA_MEM_FRAG_RX,
            x1: handle & 0xFFFF_FFFF,
            x2: handle >> 32,
            x3: state.frag.received as u64,
            x4: 0,
            x5: 0,
            x6: 0,
            x7: 0,
        };
    }
    let total_length = state.frag.total_length;
    let is_lend = state.frag.is_lend;
    let is_donate = state.frag.is_donate;
    let frag_handle = state.frag.handle;
    let parsed = parse_mem_region(state.frag.accum_buf.as_slice(), total_length);
    state.frag.active = false;
    let ghost s1 = *state;
    assert(unchanged_except(old(state), &s1, false, true, true, false, false, false, false));
    let desc = match parsed {
        Ok(d) => d,
        Err(_) => { return error_of(FFA_INVALID_PARAMETERS); },
    };
    if desc.range_count == 0 || desc.range_count > MAX_SHARE_RANGES {
        return error_of(FFA_INVALID_PARAMETERS);
    }
    if !is_registered_sp(&state.sps, desc.receiver_id) {
        return error_of(FFA_INVALID_PARAMETERS);
    }
    let count = desc.range_count;
    let mut ranges: Vec<(u64, u32)> = Vec::new();
    let mut k: usize = 0;
    while k < count
        invariant
            k <= count,
            count <= MAX_SHARE_RANGES,
            count == desc.range_count,
            ranges@.len() == k,
            forall|m: int| 0 <= m < k ==> #[trigger] ranges@[m] == desc.ranges@[m],
        decreases count - k,
    {
        ranges.push(desc.ranges[k]);
        k = k + 1;
    }
    proof {
        let b = old(state).frag().7;
        assert(ranges@ =~= desc_ranges(b));
    }
    if insert_share(state, frag_handle, desc.sender_id, desc.receiver_id, ranges.as_slice(), is_lend, is_donate) {
        handle_result(frag_handle)
    } else {
        error_of(FFA_NO_MEMORY)
    }
}

/// Outcome of a share from partition `sp_id` (register protocol): sender
/// in x1[31:16] must be the caller, receiver in x5[15:0] another
/// registered partition, and x4 pages at x3 an acceptable range.
pub open spec fn sp_share_post(s0: &SpmcState, s1: &SpmcState, sp_id: u16, x1: u64, x3: u64, x4: u64, x5: u64,
    is_lend: bool, is_donate: bool, r: Result<u64, u64>) -> bool
{
    let sender = ((x1 >> 16u64) & 0xFFFF) as u16;
    let receiver = (x5 & 0xFFFF) as u16;
    let count = x4 as u32;
    if sender != sp_id || receiver == sp_id || !has_sp(s0.store().slots(), receiver) || count == 0
        || !range_ok(x3, count) {
        r == Err::<u64, u64>(FFA_INVALID_PARAMETERS as u64) && same(s0, s1)
    } else {
        share_outcome(s0, s1, sp_id, receiver, seq![(x3, count)], is_lend, is_donate, r,
            Ok::<u64, u64>(s0.next_handle()), Err::<u64, u64>(FFA_NO_MEMORY as u64))
    }
}

fn validate_sp_share(state: &mut SpmcState, sp_id: u16, x1: u64, x3: u64, x4: u64, x5: u64, is_lend: bool,
    is_donate: bool) -> (r: Result<u64, u64>)
    requires
        old(state).wf(),
    ensures
        final(state).wf(),
        sp_share_post(old(state), final(state), sp_id, x1, x3, x4, x5, is_lend, is_donate, r),
{
    let sender_id = ((x1 >> 16) & 0xFFFF) as u16;
    let receiver_id = (x5 & 0xFFFF) as u16;
    if sender_id != sp_id {
        return Err(FFA_INVALID_PARAMETERS as u64);
    }
    if receiver_id == sp_id {
        return Err(FFA_INVALID_PARAMETERS as u64);
    }
    if !is_registered_sp(&state.sps, receiver_id) {
        return Err(FFA_INVALID_PARAMETERS as u64);
    }
    let ipa = x3;
    let page_count = x4 as u32;
    if page_count == 0 || !check_range(ipa, page_count) {
        return Err(FFA_INVALID_PARAMETERS as u64);
    }
    let ranges: [(u64, u32); 1] = [(ipa, page_count)];
    assert(ranges@ =~= seq![(ipa, page_count)]);
    match record_spmc_share(state, sp_id, receiver_id, &ranges, is_lend, is_donate) {
        Some(h) => Ok(h),
        None => Err(FFA_NO_MEMORY as u64),
    }
}

/// Outcome of a reclaim from partition `sp_id` of the handle in x1/x2: only
/// the sender of the share may reclaim it.
pub open spec fn sp_reclaim_post(s0: &SpmcState, s1: &SpmcState, sp_id: u16, x1: u64, x2: u64,
    r: Result<(), u64>) -> bool
{
    let h = handle_of(x1, x2);
    if any_where(s0.shares(), live_rec(h)) && exists|i: int| #[trigger] first_where(s0.shares(), live_rec(h), i)
        && s0.shares()[i].sender_id != sp_id {
        r == Err::<(), u64>(FFA_DENIED as u64) && same(s0, s1)
    } else {
        reclaim_outcome(s0, s1, h, r, Ok::<(), u64>(()), Err::<(), u64>(FFA_DENIED as u64),
            Err::<(), u64>(FFA_INVALID_PARAMETERS as u64))
    }
}

fn validate_sp_reclaim(state: &mut SpmcState, sp_id: u16, x1: u64, x2: u64) -> (r: Result<(), u64>)
    requires
        old(state).wf(),
    ensures
        final(state).wf(),
        sp_reclaim_post(old(state), final(state), sp_id, x1, x2, r),
{
    let handle = (x1 & 0xFFFF_FFFF) | (x2 << 32);
    match lookup_spmc_share(state, handle) {
        Some(info) => {
            let ghost i = choose|i: int| #[trigger] first_where(state.shares(), live_rec(handle), i)
                && info == info_of(state.shares()[i]);
            if info.0 == sp_id {
                proof {
                    assert forall|j: int| #[trigger] first_where(old(state).shares(), live_rec(handle), j)
                        implies old(state).shares()[j].sender_id == sp_id by {
                        lemma_first_unique(old(state).shares(), live_rec(handle), i, j);
                    }
                }
                match reclaim_spmc_share(state, handle) {
                    Ok(()) => Ok(()),
                    Err(code) => Err(code as u64),
                }
            } else {
                Err(FFA_DENIED as u64)
            }
        },
        None => Err(FFA_INVALID_PARAMETERS as u64),
    }
}

// ── Dispatch ────────────────────────────────────────────────────────

/// FFA_ERROR with the raw value `code` in x2.
pub open spec fn err8_raw(code: u64) -> SmcResult8 {
    SmcResult8 { x0: FFA_ERROR, x1: 0, x2: code, x3: 0, x4: 0, x5: 0, x6: 0, x7: 0 }
}

/// Answer for a notification call that succeeds with nothing or fails with a code.
pub open spec fn res8(rr: Result<(), i32>) -> SmcResult8 {
    match rr {
        Ok(_) => ok8(),
        Err(c) => err8(c),
    }
}

/// Notification bitmap in x3 (low half) and x4 (high half).
pub open spec fn bitmap_of(q: SmcResult8) -> u64 {
    q.x3 | (q.x4 << 32u64)
}

/// Sender in x1[31:16].
pub open spec fn sender_in(x1: u64) -> u16 {
    ((x1 >> 16u64) & 0xFFFF) as u16
}

/// Receiver in x1[15:0].
pub open spec fn receiver_in(x1: u64) -> u16 {
    (x1 & 0xFFFF) as u16
}

/// Answer to NOTIFICATION_INFO_GET: how many partitions have pending
/// notifications (at most four) with their IDs packed 16 bits each, or NO_DATA.
pub open spec fn info_get8(s0: &SpmcState) -> SmcResult8 {
    let all = info_ids(&s0.notif(), INFO_ENDPOINTS as int);
    let n = if all.len() < 4 { all.len() as int } else { 4 };
    if n == 0 {
        err8(FFA_NO_DATA)
    } else {
        r8(FFA_SUCCESS_32, 0, n as u64, pack_ids(all, n))
    }
}

/// Outcome of a notification call (x0 is one of the notification IDs).
pub open spec fn notif_post(s0: &SpmcState, s1: &SpmcState, q: SmcResult8, r: SmcResult8) -> bool {
    let n0 = s0.notif();
    let n1 = s1.notif();
    let fid = q.x0;
    if fid == FFA_NOTIFICATION_INFO_GET_32 || fid == FFA_NOTIFICATION_INFO_GET_64 {
        r == info_get8(s0) && same(s0, s1)
    } else {
        &&& unchanged_except(s0, s1, false, false, false, false, false, true, false)
        &&& if fid == FFA_NOTIFICATION_BITMAP_CREATE {
            exists|rr: Result<(), i32>| #[trigger] create_post(n0, n1, q.x1 as u16, rr) && r == res8(rr)
        } else if fid == FFA_NOTIFICATION_BITMAP_DESTROY {
            exists|rr: Result<(), i32>| #[trigger] destroy_post(n0, n1, q.x1 as u16, rr) && r == res8(rr)
        } else if fid == FFA_NOTIFICATION_BIND {
            exists|rr: Result<(), i32>| #[trigger] bind_post(n0, n1, sender_in(q.x1), receiver_in(q.x1), bitmap_of(q), rr)
                && r == res8(rr)
        } else if fid == FFA_NOTIFICATION_UNBIND {
            exists|rr: Result<(), i32>| #[trigger] unbind_post(n0, n1, sender_in(q.x1), receiver_in(q.x1), bitmap_of(q), rr)
                && r == res8(rr)
        } else if fid == FFA_NOTIFICATION_SET {
            exists|rr: Result<(), i32>| #[trigger] set_post(n0, n1, sender_in(q.x1), receiver_in(q.x1), bitmap_of(q), rr)
                && r == res8(rr)
        } else {
            exists|rr: Result<u64, i32>| #[trigger] get_post(n0, n1, q.x1 as u16, rr) && r == match rr {
                Ok(p) => r8(FFA_SUCCESS_32, 0, p, 0),
                Err(c) => err8(c),
            }
        }
    }
}

/// x0 is a notification call.
pub open spec fn is_notif_call(fid: u64) -> bool {
    fid == FFA_NOTIFICATION_BITMAP_CREATE || fid == FFA_NOTIFICATION_BITMAP_DESTROY
        || fid == FFA_NOTIFICATION_BIND || fid == FFA_NOTIFICATION_UNBIND || fid == FFA_NOTIFICATION_SET
        || fid == FFA_NOTIFICATION_GET || fid == FFA_NOTIFICATION_INFO_GET_32
        || fid == FFA_NOTIFICATION_INFO_GET_64
}

fn handle_notification(state: &mut SpmcState, req: &SmcResult8) -> (r: SmcResult8)
    requires
        old(state).wf(),
        is_notif_call(req.x0),
    ensures
        final(state).wf(),
        notif_post(old(state), final(state), *req, r),
{
    let fid = req.x0;
    let sender = ((req.x1 >> 16) & 0xFFFF) as u16;
    let receiver = (req.x1 & 0xFFFF) as u16;
    let bitmap = req.x3 | (req.x4 << 32);
    assert(sender == sender_in(req.x1) && receiver == receiver_in(req.x1) && bitmap == bitmap_of(*req));
    if fid == FFA_NOTIFICATION_BITMAP_CREATE {
        let rr = bitmap_create(&mut state.notifications, req.x1 as u16);
        assert(create_post(old(state).notif(), state.notif(), req.x1 as u16, rr));
        match rr {
            Ok(()) => make_success(),
            Err(code) => error_of(code),
        }
    } else if fid == FFA_NOTIFICATION_BITMAP_DESTROY {
        let rr = bitmap_destroy(&mut state.notifications, req.x1 as u16);
        assert(destroy_post(old(state).notif(), state.notif(), req.x1 as u16, rr));
        match rr {
            Ok(()) => make_success(),
            Err(code) => error_of(code),
        }
    } else if fid == FFA_NOTIFICATION_BIND {
        let flags = req.x2 as u32;
        let rr = bind(&mut state.notifications, sender, receiver, flags, bitmap);
        assert(bind_post(old(state).notif(), state.notif(), sender_in(req.x1), receiver_in(req.x1), bitmap_of(*req), rr));
        match rr {
            Ok(()) => make_success(),
            Err(code) => error_of(code),
        }
    } else if fid == FFA_NOTIFICATION_UNBIND {
        let rr = unbind(&mut state.notifications, sender, receiver, bitmap);
        assert(unbind_post(old(state).notif(), state.notif(), sender_in(req.x1), receiver_in(req.x1), bitmap_of(*req), rr));
        match rr {
            Ok(()) => make_success(),
            Err(code) => error_of(code),
        }
    } else if fid == FFA_NOTIFICATION_SET {
        let rr = crate::ffa::notifications::set(&mut state.notifications, sender, receiver, bitmap);
        assert(set_post(old(state).notif(), state.notif(), sender_in(req.x1), receiver_in(req.x1), bitmap_of(*req), rr));
        match rr {
            Ok(()) => make_success(),
            Err(code) => error_of(code),
        }
    } else if fid == FFA_NOTIFICATION_GET {
        let rr = get(&mut state.notifications, req.x1 as u16);
        assert(get_post(old(state).notif(), state.notif(), req.x1 as u16, rr));
        match rr {
            Ok(pending) => SmcResult8 { x0: FFA_SUCCESS_32, x1: 0, x2: pending, x3: 0, x4: 0, x5: 0, x6: 0, x7: 0 },
            Err(code) => error_of(code),
        }
    } else {
        let (count, ids) = info_get(&state.notifications);
        let ghost all = info_ids(&state.notif(), INFO_ENDPOINTS as int);
        if count == 0 {
            error_of(FFA_NO_DATA)
        } else {
            let mut packed: u64 = 0;
            let mut i: usize = 0;
            while i < count
                invariant
                    i <= count,
                    count <= 4,
                    packed == pack_ids(all, i as int),
                    forall|k: int| 0 <= k < count ==> #[trigger] ids@[k] == all[k],
                decreases count - i,
            {
                packed = packed | ((ids[i] as u64) << ((i * 16) as u64));
                i = i + 1;
            }
            SmcResult8 { x0: FFA_SUCCESS_32, x1: 0, x2: count as u64, x3: packed, x4: 0, x5: 0, x6: 0, x7: 0 }
        }
    }
}

/// Outcome of `dispatch_ffa` for request `q`, with `tx` the Normal World's
/// TX buffer as the SPMC sees it.
pub open spec fn dispatch_post(s0: &SpmcState, s1: &SpmcState, q: SmcResult8, tx: Seq<u8>, r: SmcResult8) -> bool {
    let fid = q.x0;
    if fid == FFA_VERSION {
        r == version8() && same(s0, s1)
    } else if fid == FFA_ID_GET || fid == FFA_SPM_ID_GET {
        r == id8() && same(s0, s1)
    } else if fid == FFA_FEATURES {
        r == features8(q.x1) && same(s0, s1)
    } else if fid == FFA_RUN {
        run_post(s0, q, r) && same(s0, s1)
    } else if fid == FFA_RXTX_MAP {
        rxtx_map_post(s0, s1, q, r)
    } else if fid == FFA_RXTX_UNMAP {
        rxtx_unmap_post(s0, s1, r)
    } else if fid == FFA_RX_RELEASE {
        r == rx_release8(s0) && same(s0, s1)
    } else if fid == FFA_PARTITION_INFO_GET {
        r == partition_info8(s0) && same(s0, s1)
    } else if fid == FFA_MSG_SEND2 {
        msg_send2_post(s0, s1, tx, r)
    } else if fid == FFA_MSG_WAIT {
        r == err8(FFA_NO_DATA) && same(s0, s1)
    } else if fid == FFA_MSG_SEND_DIRECT_REQ_32 || fid == FFA_MSG_SEND_DIRECT_REQ_64 {
        r == direct_req8(q) && same(s0, s1)
    } else if fid == FFA_MEM_SHARE_32 || fid == FFA_MEM_SHARE_64 {
        mem_share_post(s0, s1, q, false, false, r)
    } else if fid == FFA_MEM_LEND_32 || fid == FFA_MEM_LEND_64 {
        mem_share_post(s0, s1, q, true, false, r)
    } else if fid == FFA_MEM_DONATE_32 || fid == FFA_MEM_DONATE_64 {
        mem_share_post(s0, s1, q, false, true, r)
    } else if fid == FFA_MEM_RETRIEVE_REQ_32 || fid == FFA_MEM_RETRIEVE_REQ_64 {
        mem_retrieve_post(s0, s1, q, None, r)
    } else if fid == FFA_MEM_RELINQUISH {
        relinquish_post(s0, s1, q, None, r)
    } else if fid == FFA_MEM_RECLAIM {
        reclaim_outcome(s0, s1, handle_of(q.x1, q.x2), r, ok8(), err8(FFA_DENIED), err8(FFA_INVALID_PARAMETERS))
    } else if fid == FFA_MEM_FRAG_TX {
        frag_tx_post(s0, s1, q, r)
    } else if fid == FFA_MEM_FRAG_RX {
        frag_rx_post(s0, s1, q, r)
    } else if is_notif_call(fid) {
        notif_post(s0, s1, q, r)
    } else if fid == FFA_CONSOLE_LOG_32 || fid == FFA_CONSOLE_LOG_64 {
        console_log_post(s0, s1, q, r)
    } else {
        r == err8(FFA_NOT_SUPPORTED) && same(s0, s1)
    }
}

/// Answer the FF-A request `req` from the Normal World. `tx` is the
/// Normal World's TX buffer (read by FFA_MSG_SEND2).
pub fn dispatch_ffa(state: &mut SpmcState, req: &SmcResult8, tx: &[u8]) -> (r: SmcResult8)
    requires
        old(state).wf(),
        tx@.len() >= SPMC_BUF_SIZE,
    ensures
        final(state).wf(),
        dispatch_post(old(state), final(state), *req, tx@, r),
{
    let fid = req.x0;
    if fid == FFA_VERSION {
        SmcResult8 { x0: FFA_VERSION_1_1 as u64, x1: 0, x2: 0, x3: 0, x4: 0, x5: 0, x6: 0, x7: 0 }
    } else if fid == FFA_ID_GET || fid == FFA_SPM_ID_GET {
        SmcResult8 { x0: FFA_SUCCESS_32, x1: 0, x2: FFA_SPMC_ID as u64, x3: 0, x4: 0, x5: 0, x6: 0, x7: 0 }
    } else if fid == FFA_FEATURES {
        handle_features(req.x1)
    } else if fid == FFA_RUN {
        handle_run(state, req)
    } else if fid == FFA_RXTX_MAP {
        handle_rxtx_map(state, req)
    } else if fid == FFA_RXTX_UNMAP {
        handle_rxtx_unmap(state)
    } else if fid == FFA_RX_RELEASE {
        handle_rx_release(state)
    } else if fid == FFA_PARTITION_INFO_GET {
        handle_partition_info_get(state)
    } else if fid == FFA_MSG_SEND2 {
        handle_spmc_msg_send2(state, tx)
    } else if fid == FFA_MSG_WAIT {
        error_of(FFA_NO_DATA)
    } else if fid == FFA_MSG_SEND_DIRECT_REQ_32 || fid == FFA_MSG_SEND_DIRECT_REQ_64 {
        handle_direct_req(req)
    } else if fid == FFA_MEM_SHARE_32 || fid == FFA_MEM_SHARE_64 {
        handle_spmc_mem_share(state, req, false, false)
    } else if fid == FFA_MEM_LEND_32 || fid == FFA_MEM_LEND_64 {
        handle_spmc_mem_share(state, req, true, false)
    } else if fid == FFA_MEM_DONATE_32 || fid == FFA_MEM_DONATE_64 {
        handle_spmc_mem_share(state, req, false, true)
    } else if fid == FFA_MEM_RETRIEVE_REQ_32 || fid == FFA_MEM_RETRIEVE_REQ_64 {
        handle_spmc_mem_retrieve(state, req, None)
    } else if fid == FFA_MEM_RELINQUISH {
        handle_spmc_mem_relinquish(state, req, None)
    } else if fid == FFA_MEM_RECLAIM {
        handle_spmc_mem_reclaim(state, req)
    } else if fid == FFA_MEM_FRAG_TX {
        handle_spmc_mem_frag_tx(state, req)
    } else if fid == FFA_MEM_FRAG_RX {
        handle_spmc_mem_frag_rx(state, req)
    } else if fid == FFA_NOTIFICATION_BITMAP_CREATE || fid == FFA_NOTIFICATION_BITMAP_DESTROY
        || fid == FFA_NOTIFICATION_BIND || fid == FFA_NOTIFICATION_UNBIND || fid == FFA_NOTIFICATION_SET
        || fid == FFA_NOTIFICATION_GET || fid == FFA_NOTIFICATION_INFO_GET_32
        || fid == FFA_NOTIFICATION_INFO_GET_64 {
        handle_notification(state, req)
    } else if fid == FFA_CONSOLE_LOG_32 || fid == FFA_CONSOLE_LOG_64 {
        handle_console_log(state, req)
    } else {
        error_of(FFA_NOT_SUPPORTED)
    }
}

/// Answer to a direct request from partition `sp_id` to another partition,
/// checked without running it: source must be the caller, destination
/// another registered partition not already in the call chain (BUSY
/// otherwise); passing checks the call is DENIED here.
pub open spec fn sp_direct_req8(s0: &SpmcState, q: SmcResult8, sp_id: u16) -> SmcResult8 {
    let src = (q.x1 >> 16u64) as u16;
    let dst = (q.x1 & 0xFFFF) as u16;
    if src != sp_id || dst == sp_id || !has_sp(s0.store().slots(), dst) {
        err8(FFA_INVALID_PARAMETERS)
    } else if exists|i: int| 0 <= i < s0.calls()@.len() && frame_mentions(#[trigger] s0.calls()@[i], dst) {
        err8(FFA_BUSY)
    } else {
        err8(FFA_DENIED)
    }
}

/// x0 is a lend call.
pub open spec fn is_lend_call(fid: u64) -> bool {
    fid == FFA_MEM_LEND_32 || fid == FFA_MEM_LEND_64
}

/// x0 is a donate call.
pub open spec fn is_donate_call(fid: u64) -> bool {
    fid == FFA_MEM_DONATE_32 || fid == FFA_MEM_DONATE_64
}

/// x0 is a share, lend or donate call.
pub open spec fn is_share_call(fid: u64) -> bool {
    fid == FFA_MEM_SHARE_32 || fid == FFA_MEM_SHARE_64 || fid == FFA_MEM_LEND_32 || fid == FFA_MEM_LEND_64
        || fid == FFA_MEM_DONATE_32 || fid == FFA_MEM_DONATE_64
}

/// Outcome of `dispatch_ffa_as_sp` for request `q` from partition `sp_id`
/// whose Stage-2 tables are at `vsttbr`.
pub open spec fn dispatch_as_sp_post(s0: &SpmcState, s1: &SpmcState, q: SmcResult8, sp_id: u16, vsttbr: u64,
    tx: Seq<u8>, r: SmcResult8) -> bool
{
    let fid = q.x0;
    if fid == FFA_MEM_RETRIEVE_REQ_32 || fid == FFA_MEM_RETRIEVE_REQ_64 {
        mem_retrieve_post(s0, s1, q, Some((sp_id, vsttbr)), r)
    } else if fid == FFA_MEM_RELINQUISH {
        relinquish_post(s0, s1, q, Some((sp_id, vsttbr)), r)
    } else if fid == FFA_MSG_SEND_DIRECT_REQ_32 || fid == FFA_MSG_SEND_DIRECT_REQ_64 {
        r == sp_direct_req8(s0, q, sp_id) && same(s0, s1)
    } else if is_share_call(fid) {
        exists|rv: Result<u64, u64>| #[trigger] sp_share_post(s0, s1, sp_id, q.x1, q.x3, q.x4, q.x5, is_lend_call(fid),
            is_donate_call(fid), rv)
            && r == sp_share8(rv)
    } else if fid == FFA_MEM_RECLAIM {
        exists|rv: Result<(), u64>| #[trigger] sp_reclaim_post(s0, s1, sp_id, q.x1, q.x2, rv) && r == sp_reclaim8(rv)
    } else {
        dispatch_post(s0, s1, q, tx, r)
    }
}

fn handle_sp_direct_req(state: &SpmcState, req: &SmcResult8, sp_id: u16) -> (r: SmcResult8)
    requires
        state.wf(),
    ensures
        r == sp_direct_req8(state, *req, sp_id),
{
    let source_id = (req.x1 >> 16) as u16;
    let dest_id = (req.x1 & 0xFFFF) as u16;
    if source_id != sp_id {
        return error_of(FFA_INVALID_PARAMETERS);
    }
    if dest_id == sp_id {
        return error_of(FFA_INVALID_PARAMETERS);
    }
    if !is_registered_sp(&state.sps, dest_id) {
        return error_of(FFA_INVALID_PARAMETERS);
    }
    if state.call_stack.contains(dest_id) {
        proof {
            let k = choose|k: int| 0 <= k < state.call_stack@.len() && frame_mentions(#[trigger] state.call_stack@[k], dest_id);
            assert(frame_mentions(state.calls()@[k], dest_id));
        }
        return error_of(FFA_BUSY);
    }
    error_of(FFA_DENIED)
}

/// Answer of a share from a partition for the outcome `rv` of its checks.
pub open spec fn sp_share8(rv: Result<u64, u64>) -> SmcResult8 {
    match rv {
        Ok(h) => handle8(h),
        Err(c) => err8_raw(c),
    }
}

/// Answer of a reclaim from a partition for the outcome `rv` of its checks.
pub open spec fn sp_reclaim8(rv: Result<(), u64>) -> SmcResult8 {
    match rv {
        Ok(_) => ok8(),
        Err(c) => err8_raw(c),
    }
}

fn handle_sp_share(state: &mut SpmcState, req: &SmcResult8, sp_id: u16) -> (r: SmcResult8)
    requires
        old(state).wf(),
    ensures
        final(state).wf(),
        exists|rv: Result<u64, u64>| #[trigger] sp_share_post(old(state), final(state), sp_id, req.x1, req.x3, req.x4,
            req.x5, is_lend_call(req.x0), is_donate_call(req.x0), rv) && r == sp_share8(rv),
{
    let fid = req.x0;
    let is_lend = fid == FFA_MEM_LEND_32 || fid == FFA_MEM_LEND_64;
    let is_donate = fid == FFA_MEM_DONATE_32 || fid == FFA_MEM_DONATE_64;
    assert(is_lend == is_lend_call(req.x0) && is_donate == is_donate_call(req.x0));
    let rv = validate_sp_share(state, sp_id, req.x1, req.x3, req.x4, req.x5, is_lend, is_donate);
    assert(sp_share_post(old(state), state, sp_id, req.x1, req.x3, req.x4, req.x5, is_lend, is_donate, rv));
    match rv {
        Ok(handle) => handle_result(handle),
        Err(code) => make_error(code),
    }
}

fn handle_sp_reclaim(state: &mut SpmcState, req: &SmcResult8, sp_id: u16) -> (r: SmcResult8)
    requires
        old(state).wf(),
    ensures
        final(state).wf(),
        exists|rv: Result<(), u64>| #[trigger] sp_reclaim_post(old(state), final(state), sp_id, req.x1, req.x2, rv)
            && r == sp_reclaim8(rv),
{
    let rv = validate_sp_reclaim(state, sp_id, req.x1, req.x2);
    assert(sp_reclaim_post(old(state), state, sp_id, req.x1, req.x2, rv));
    match rv {
        Ok(()) => make_success(),
        Err(code) => make_error(code),
    }
}

/// Answer the FF-A request `req` as coming from partition `sp_id` (whose
/// Stage-2 tables are at `vsttbr`): memory calls act for that partition,
/// direct requests to other partitions are only checked, the rest is
/// `dispatch_ffa`.
pub fn dispatch_ffa_as_sp(state: &mut SpmcState, req: &SmcResult8, sp_id: u16, vsttbr: u64, tx: &[u8]) -> (r: SmcResult8)
    requires
        old(state).wf(),
        tx@.len() >= SPMC_BUF_SIZE,
    ensures
        final(state).wf(),
        dispatch_as_sp_post(old(state), final(state), *req, sp_id, vsttbr, tx@, r),
{
    let current_sp = Some((sp_id, vsttbr));
    let fid = req.x0;
    if fid == FFA_MEM_RETRIEVE_REQ_32 || fid == FFA_MEM_RETRIEVE_REQ_64 {
        handle_spmc_mem_retrieve(state, req, current_sp)
    } else if fid == FFA_MEM_RELINQUISH {
        handle_spmc_mem_relinquish(state, req, current_sp)
    } else if fid == FFA_MSG_SEND_DIRECT_REQ_32 || fid == FFA_MSG_SEND_DIRECT_REQ_64 {
        handle_sp_direct_req(state, req, sp_id)
    } else if fid == FFA_MEM_SHARE_32 || fid == FFA_MEM_SHARE_64 || fid == FFA_MEM_LEND_32 || fid == FFA_MEM_LEND_64
        || fid == FFA_MEM_DONATE_32 || fid == FFA_MEM_DONATE_64 {
        handle_sp_share(state, req, sp_id)
    } else if fid == FFA_MEM_RECLAIM {
        handle_sp_reclaim(state, req, sp_id)
    } else {
        dispatch_ffa(state, req, tx)
    }
}

// ── Laws ───────────────────────────────────────────────────────────

/// FFA_FEATURES answers success, with no properties (x2 = 0), for each
/// call the SPMC handles: version, IDs, features, partition info, direct
/// requests, RXTX map and RX release, indirect messages, run, the memory
/// calls with their fragments, the notification calls and the console log.
/// Any other function ID, other than the two interrupt feature IDs, is
/// answered NOT_SUPPORTED.
pub proof fn law_features_lists_handled_calls(s0: &SpmcState, s1: &SpmcState, q: SmcResult8, tx: Seq<u8>,
    r: SmcResult8)
    requires
        dispatch_post(s0, s1, q, tx, r),
        q.x0 == FFA_FEATURES,
    ensures
        ({
            let f = q.x1;
            let handled = f == FFA_VERSION || f == FFA_ID_GET || f == FFA_FEATURES || f == FFA_SPM_ID_GET
                || f == FFA_PARTITION_INFO_GET || f == FFA_MSG_SEND_DIRECT_REQ_32 || f == FFA_MSG_SEND_DIRECT_REQ_64
                || f == FFA_RXTX_MAP || f == FFA_RX_RELEASE || f == FFA_MSG_SEND2 || f == FFA_MSG_WAIT
                || f == FFA_RUN || f == FFA_MEM_SHARE_32 || f == FFA_MEM_LEND_32 || f == FFA_MEM_DONATE_32
                || f == FFA_MEM_RETRIEVE_REQ_32 || f == FFA_MEM_RELINQUISH || f == FFA_MEM_RECLAIM
                || f == FFA_MEM_FRAG_TX || f == FFA_MEM_FRAG_RX || f == FFA_NOTIFICATION_BITMAP_CREATE
                || f == FFA_NOTIFICATION_BITMAP_DESTROY || f == FFA_NOTIFICATION_BIND
                || f == FFA_NOTIFICATION_UNBIND || f == FFA_NOTIFICATION_SET || f == FFA_NOTIFICATION_GET
                || f == FFA_NOTIFICATION_INFO_GET_32 || f == FFA_NOTIFICATION_INFO_GET_64
                || f == FFA_CONSOLE_LOG_32 || f == FFA_CONSOLE_LOG_64;
            &&& handled ==> r.x0 == FFA_SUCCESS_32 && r.x2 == 0
            &&& !handled && f != FFA_FEATURE_NPI && f != FFA_FEATURE_SRI
                ==> r.x0 == FFA_ERROR && r.x2 == FFA_NOT_SUPPORTED as u64
        }),
{
}

/// A Normal World MEM_RELINQUISH undoes a successful MEM_RETRIEVE_REQ of the
/// same handle: the share records are as before the retrieve, unless the
/// share was a donation, which cannot be relinquished.
pub proof fn law_relinquish_undoes_retrieve(s0: &SpmcState, s1: &SpmcState, s2: &SpmcState, q1: SmcResult8,
    q2: SmcResult8, r1: SmcResult8, r2: SmcResult8)
    requires
        mem_retrieve_post(s0, s1, q1, None, r1),
        r1.x0 == FFA_MEM_RETRIEVE_RESP,
        relinquish_post(s1, s2, q2, None, r2),
        handle_of(q2.x1, q2.x2) == handle_of(q1.x1, q1.x2),
    ensures
        r2 == ok8() ==> s2.shares() == s0.shares(),
        r2 != ok8() ==> r2 == err8(FFA_DENIED),
{
    let h = handle_of(q1.x1, q1.x2);
    let i = choose|i: int| #[trigger] first_where(s0.shares(), live_rec(h), i) && {
        let rec = s0.shares()[i];
        if other_caller(None, rec.receiver_id) || rec.retrieved {
            r1 == err8(FFA_DENIED) && same(s0, s1)
        } else {
            let len = retrieve_resp_len(rec.range_count as int);
            &&& r1 == r8(FFA_MEM_RETRIEVE_RESP, len, if len < 4096 { len } else { 4096 }, 0)
            &&& s1.shares() == s0.shares().update(i, SpmcShareRecord { retrieved: true, ..rec })
            &&& s1.next_handle() == s0.next_handle()
            &&& unchanged_except(s0, s1, false, true, false, false, false, false, false)
        }
    };
    let rec = s0.shares()[i];
    assert(!rec.retrieved);
    assert(first_where(s1.shares(), live_rec(h), i)) by {
        assert forall|j: int| 0 <= j < i implies !live_rec(h)(#[trigger] s1.shares()[j]) by {
            assert(!live_rec(h)(s0.shares()[j]));
        }
    }
    assert(any_where(s1.shares(), live_rec(h))) by {
        assert(live_rec(h)(s1.shares()[i]));
    }
    let j = choose|j: int| #[trigger] first_where(s1.shares(), live_rec(h), j) && {
        let rec1 = s1.shares()[j];
        if rec1.is_donate || other_caller(None, rec1.receiver_id) || !rec1.retrieved {
            r2 == err8(FFA_DENIED) && same(s1, s2)
        } else {
            &&& r2 == ok8()
            &&& s2.shares() == s1.shares().update(j, SpmcShareRecord { retrieved: false, ..rec1 })
            &&& s2.next_handle() == s1.next_handle()
            &&& unchanged_except(s1, s2, false, true, false, false, false, false, false)
        }
    };
    lemma_first_unique(s1.shares(), live_rec(h), i, j);
    if r2 == ok8() {
        assert(s2.shares() =~= s0.shares());
    }
}

/// A share the Normal World just made under a handle no live share has
/// can be reclaimed right away, after which no live share has that handle;
/// a donation cannot be reclaimed.
pub proof fn law_share_then_reclaim(s0: &SpmcState, s1: &SpmcState, s2: &SpmcState, q: SmcResult8, is_lend: bool,
    is_donate: bool, r1: SmcResult8, r2: SmcResult8)
    requires
        mem_share_post(s0, s1, q, is_lend, is_donate, r1),
        r1.x0 == FFA_SUCCESS_32,
        !any_where(s0.shares(), live_rec(s0.next_handle())),
        reclaim_outcome(s1, s2, s0.next_handle(), r2, ok8(), err8(FFA_DENIED), err8(FFA_INVALID_PARAMETERS)),
    ensures
        is_donate ==> r2 == err8(FFA_DENIED),
        !is_donate ==> r2 == ok8() && !any_where(s2.shares(), live_rec(s0.next_handle())),
{
    let h = s0.next_handle();
    let sender = ((q.x1 >> 16u64) & 0xFFFF) as u16;
    let receiver = (q.x5 & 0xFFFF) as u16;
    let ranges = seq![(q.x3, q.x4 as u32)];
    assert(any_where(s0.shares(), free_rec()));
    let i = choose|i: int| #[trigger] first_where(s0.shares(), free_rec(), i)
        && s1.shares().len() == s0.shares().len()
        && new_share(s1.shares()[i], h, sender, receiver, ranges, is_lend, is_donate)
        && forall|j: int| 0 <= j < s0.shares().len() && j != i ==> #[trigger] s1.shares()[j] == s0.shares()[j];
    assert(first_where(s1.shares(), live_rec(h), i)) by {
        assert forall|j: int| 0 <= j < i implies !live_rec(h)(#[trigger] s1.shares()[j]) by {
            assert(s1.shares()[j] == s0.shares()[j]);
            if live_rec(h)(s0.shares()[j]) {
                assert(any_where(s0.shares(), live_rec(h)));
            }
        }
    }
    assert(any_where(s1.shares(), live_rec(h))) by {
        assert(live_rec(h)(s1.shares()[i]));
    }
    let j = choose|j: int| #[trigger] first_where(s1.shares(), live_rec(h), j) && {
        let rec = s1.shares()[j];
        if rec.is_donate || rec.retrieved {
            r2 == err8(FFA_DENIED) && same(s1, s2)
        } else {
            &&& r2 == ok8()
            &&& s2.shares() == s1.shares().update(j, SpmcShareRecord { active: false, ..rec })
            &&& s2.next_handle() == s1.next_handle()
            &&& unchanged_except(s1, s2, false, true, false, false, false, false, false)
        }
    };
    lemma_first_unique(s1.shares(), live_rec(h), i, j);
    if !is_donate {
        assert forall|k: int| 0 <= k < s2.shares().len() implies !live_rec(h)(#[trigger] s2.shares()[k]) by {
            if k != i {
                assert(s2.shares()[k] == s0.shares()[k]);
                if live_rec(h)(s0.shares()[k]) {
                    assert(any_where(s0.shares(), live_rec(h)));
                }
            }
        }
    }
}

} // verus!
