//! The FF-A proxy: the hypervisor's answer to an FF-A call a VM makes with
//! SMC. Calls are handled against the proxy's own state (mailboxes, the
//! share records of the stub SPMC, notifications); what needs the outside
//! world is returned as an action for the caller to carry out.
//!
//! Registers follow the SMC calling convention: the function ID in x0,
//! arguments in x1-x7, results written back to the same registers.

use vstd::prelude::*;
use crate::ffa::descriptors::{
    desc_access_off, desc_comp_off, desc_range_count, desc_range_off, desc_valid, le16, le32, le64,
    parse_mem_region, MAX_ADDR_RANGES,
};
use crate::ffa::mailbox::{spec_mailbox_new, FfaMailbox};
use crate::ffa::notifications::{
    bind_post, bitmap_create, bitmap_destroy, bind, create_post, destroy_post, get, get_post, info_get, info_ids,
    set_post, unbind, unbind_post, NotificationState, INFO_ENDPOINTS,
};
use crate::ffa::stub_spmc::{
    find_free, find_handle, is_valid_sp, MemShareRecord, MAX_SHARE_RANGES, lookup_full_post, lookup_share_full, mark_relinquished, mark_retrieved, reclaim_post,
    reclaim_share, record_post, record_share, relinquish_post, retrieve_post, spec_is_stub_sp, ShareTable,
};
use crate::ffa::{
    is_vm_partition, partition_id_to_vm_id, spec_partition_vm, vm_id_to_partition_id, FFA_BUSY, FFA_DENIED,
    FFA_ERROR, FFA_FEATURES, FFA_ID_GET, FFA_INVALID_PARAMETERS, FFA_MAX_VMS, FFA_MEM_DONATE_32,
    FFA_MEM_DONATE_64, FFA_MEM_LEND_32, FFA_MEM_LEND_64, FFA_MEM_RECLAIM, FFA_MEM_RELINQUISH,
    FFA_MEM_RETRIEVE_REQ_32, FFA_MEM_RETRIEVE_REQ_64, FFA_MEM_RETRIEVE_RESP, FFA_MEM_SHARE_32,
    FFA_MEM_SHARE_64, FFA_MSG_SEND2, FFA_MSG_SEND_DIRECT_REQ_32, FFA_MSG_SEND_DIRECT_REQ_64,
    FFA_MSG_SEND_DIRECT_RESP_32, FFA_MSG_SEND_DIRECT_RESP_64, FFA_MSG_WAIT, FFA_NOTIFICATION_BIND,
    FFA_NOTIFICATION_BITMAP_CREATE, FFA_NOTIFICATION_BITMAP_DESTROY, FFA_NOTIFICATION_GET,
    FFA_NOTIFICATION_INFO_GET_32, FFA_NOTIFICATION_INFO_GET_64, FFA_NOTIFICATION_SET, FFA_NOTIFICATION_UNBIND,
    FFA_NOT_SUPPORTED, FFA_NO_DATA, FFA_NO_MEMORY, FFA_PARTITION_INFO_GET, FFA_RUN, FFA_RXTX_MAP,
    FFA_RXTX_UNMAP, FFA_RX_RELEASE, FFA_SPMC_ID, FFA_SPM_ID_GET, FFA_SUCCESS_32, FFA_VERSION, FFA_VERSION_1_1,
};
use crate::regs::GeneralPurposeRegs;
use crate::ffa::memory::{spec_ownership_bits, PageOwnership};
use crate::ffa::page_ranges::{
    check_pages_owned, lemma_roots_kept, map_pages, mark_pages, pages_mapped_as, pages_marked, pages_owned,
    pages_unmapped, prefix_unmapped, same_pages_mapped, unmap_pages, VmStage2,
};
use crate::ffa::stage2_walker::Stage2Walker;

verus! {

/// Size of a TX buffer page.
pub const TX_BUF_BYTES: usize = 4096;

/// What the caller must do after a call was handled.
pub enum ProxyAction {
    /// Nothing: resume the VM with the registers as they are.
    Resume,
    /// Pass the call (x0-x7) to the Secure World and put its eight result
    /// registers back.
    ForwardToSpmc,
    /// Write `bytes` at guest address `rx_ipa` (the caller's RX buffer).
    WriteRx { rx_ipa: u64, bytes: Vec<u8> },
    /// Copy `len` bytes from guest address `from` to guest address `to`.
    CopyMessage { from: u64, to: u64, len: u64 },
}

/// State of the FF-A proxy.
pub struct FfaProxy {
    /// A real SPMC answered the probe at boot.
    pub spmc_present: bool,
    /// Mailbox of each VM.
    pub mailboxes: Vec<FfaMailbox>,
    /// Memory shares recorded by the stub SPMC.
    pub shares: ShareTable,
    /// Notification bitmaps and binds.
    pub notifications: NotificationState,
}

impl FfaProxy {
    pub open spec fn wf(&self) -> bool {
        &&& self.mailboxes@.len() == FFA_MAX_VMS
        &&& self.shares.wf()
        &&& self.notifications.wf()
    }
}

/// Registers after an FFA_ERROR return: x0 = FFA_ERROR, w2 = the code.
pub open spec fn err_regs(x: Seq<u64>, code: i32) -> Seq<u64> {
    x.update(0, FFA_ERROR).update(2, (code as u32) as u64)
}

/// Functions FFA_FEATURES reports as supported.
pub open spec fn ffa_supported(fid: u64) -> bool {
    fid == FFA_VERSION || fid == FFA_ID_GET || fid == FFA_FEATURES || fid == FFA_RXTX_MAP
        || fid == FFA_RXTX_UNMAP || fid == FFA_RX_RELEASE || fid == FFA_PARTITION_INFO_GET
        || fid == FFA_MSG_SEND_DIRECT_REQ_32 || fid == FFA_MSG_SEND_DIRECT_REQ_64 || fid == FFA_MEM_SHARE_32
        || fid == FFA_MEM_SHARE_64 || fid == FFA_MEM_LEND_32 || fid == FFA_MEM_LEND_64 || fid == FFA_MEM_RECLAIM
        || fid == FFA_MEM_RETRIEVE_REQ_32 || fid == FFA_MEM_RETRIEVE_REQ_64 || fid == FFA_MEM_RELINQUISH
        || fid == FFA_SPM_ID_GET || fid == FFA_RUN || fid == FFA_NOTIFICATION_BITMAP_CREATE
        || fid == FFA_NOTIFICATION_BITMAP_DESTROY || fid == FFA_NOTIFICATION_BIND
        || fid == FFA_NOTIFICATION_UNBIND || fid == FFA_NOTIFICATION_SET || fid == FFA_NOTIFICATION_GET
        || fid == FFA_NOTIFICATION_INFO_GET_32 || fid == FFA_NOTIFICATION_INFO_GET_64 || fid == FFA_MSG_SEND2
        || fid == FFA_MSG_WAIT
}

/// A memory share may go to a VM or to a stub secure partition.
pub open spec fn spec_valid_receiver(id: u16) -> bool {
    spec_partition_vm(id).is_some() || spec_is_stub_sp(id)
}

/// The 64-bit memory handle in x1 (low half) and x2 (high half).
pub open spec fn handle_of(x: Seq<u64>) -> u64 {
    (x[1] & 0xFFFF_FFFF) | ((x[2] & 0xFFFF_FFFF) << 32u64)
}

/// Sender (bits [31:16]) and receiver (bits [15:0]) packed in x1.
pub open spec fn sender_of(x1: u64) -> u16 {
    ((x1 >> 16u64) & 0xFFFF) as u16
}

pub open spec fn receiver_of(x1: u64) -> u16 {
    (x1 & 0xFFFF) as u16
}

/// Notification bitmap in x3 (low half) and x4 (high half).
pub open spec fn notif_bitmap(x: Seq<u64>) -> u64 {
    x[3] | (x[4] << 32u64)
}

/// The partition-information descriptors of the stub partitions, 8 bytes
/// each: ID, execution-context count (16 bits each) and properties.
pub open spec fn stub_partition_info() -> Seq<u8> {
    seq![0x01u8, 0x80u8, 0x01u8, 0x00u8, 0x01u8, 0x00u8, 0x00u8, 0x00u8,
         0x02u8, 0x80u8, 0x01u8, 0x00u8, 0x01u8, 0x00u8, 0x00u8, 0x00u8]
}

/// Put FFA_ERROR with `code` in the return registers.
pub fn ffa_error(regs: &mut GeneralPurposeRegs, code: i32)
    ensures
        final(regs).x@ == err_regs(old(regs).x@, code),
{
    regs.x[0] = FFA_ERROR;
    regs.x[2] = (code as u32) as u64;
}

/// A proxy without VM mailboxes registered, no shares and no notification
/// bitmaps; `spmc_detected` tells whether a real SPMC answered at boot.
pub fn init(spmc_detected: bool) -> (r: FfaProxy)
    ensures
        r.wf(),
        r.spmc_present == spmc_detected,
        forall|i: int| 0 <= i < FFA_MAX_VMS ==> #[trigger] r.mailboxes@[i] == spec_mailbox_new(),
{
    let mut mailboxes: Vec<FfaMailbox> = Vec::new();
    let mut i: usize = 0;
    while i < FFA_MAX_VMS
        invariant
            i <= FFA_MAX_VMS,
            mailboxes@.len() == i,
            forall|k: int| 0 <= k < i ==> #[trigger] mailboxes@[k] == spec_mailbox_new(),
        decreases FFA_MAX_VMS - i,
    {
        mailboxes.push(FfaMailbox::new());
        i = i + 1;
    }
    FfaProxy {
        spmc_present: spmc_detected,
        mailboxes,
        shares: ShareTable::new(),
        notifications: NotificationState::new(),
    }
}

impl FfaProxy {
    /// Whether a real SPMC is present.
    pub fn spmc_present(&self) -> (r: bool)
        ensures
            r == self.spmc_present,
    {
        self.spmc_present
    }

    /// The mailbox of VM `vm_id`.
    pub fn get_mailbox(&self, vm_id: usize) -> (r: &FfaMailbox)
        requires
            self.wf(),
            vm_id < FFA_MAX_VMS,
        ensures
            *r == self.mailboxes@[vm_id as int],
    {
        &self.mailboxes[vm_id]
    }
}

/// FFA_VERSION: the proxy speaks FF-A 1.1.
pub fn handle_version(regs: &mut GeneralPurposeRegs)
    ensures
        final(regs).x@ == old(regs).x@.update(0, FFA_VERSION_1_1 as u64),
{
    regs.x[0] = FFA_VERSION_1_1 as u64;
}

/// FFA_ID_GET: the calling VM's partition ID in x2.
pub fn handle_id_get(vm_id: usize, regs: &mut GeneralPurposeRegs)
    requires
        vm_id < FFA_MAX_VMS,
    ensures
        final(regs).x@ == old(regs).x@.update(0, FFA_SUCCESS_32).update(2, (vm_id + 1) as u64),
{
    let part_id = vm_id_to_partition_id(vm_id);
    regs.x[0] = FFA_SUCCESS_32;
    regs.x[2] = part_id as u64;
}

/// FFA_FEATURES: whether the function in x1 is supported.
pub fn handle_features(regs: &mut GeneralPurposeRegs)
    ensures
        ffa_supported(old(regs).x@[1]) ==> final(regs).x@ == old(regs).x@.update(0, FFA_SUCCESS_32).update(2, 0),
        !ffa_supported(old(regs).x@[1]) ==> final(regs).x@ == err_regs(old(regs).x@, FFA_NOT_SUPPORTED),
{
    let f = regs.x[1];
    let supported = f == FFA_VERSION || f == FFA_ID_GET || f == FFA_FEATURES || f == FFA_RXTX_MAP
        || f == FFA_RXTX_UNMAP || f == FFA_RX_RELEASE || f == FFA_PARTITION_INFO_GET
        || f == FFA_MSG_SEND_DIRECT_REQ_32 || f == FFA_MSG_SEND_DIRECT_REQ_64 || f == FFA_MEM_SHARE_32
        || f == FFA_MEM_SHARE_64 || f == FFA_MEM_LEND_32 || f == FFA_MEM_LEND_64 || f == FFA_MEM_RECLAIM
        || f == FFA_MEM_RETRIEVE_REQ_32 || f == FFA_MEM_RETRIEVE_REQ_64 || f == FFA_MEM_RELINQUISH
        || f == FFA_SPM_ID_GET || f == FFA_RUN || f == FFA_NOTIFICATION_BITMAP_CREATE
        || f == FFA_NOTIFICATION_BITMAP_DESTROY || f == FFA_NOTIFICATION_BIND || f == FFA_NOTIFICATION_UNBIND
        || f == FFA_NOTIFICATION_SET || f == FFA_NOTIFICATION_GET || f == FFA_NOTIFICATION_INFO_GET_32
        || f == FFA_NOTIFICATION_INFO_GET_64 || f == FFA_MSG_SEND2 || f == FFA_MSG_WAIT;
    if supported {
        regs.x[0] = FFA_SUCCESS_32;
        regs.x[2] = 0;
    } else {
        ffa_error(regs, FFA_NOT_SUPPORTED);
    }
}

/// FFA_SPM_ID_GET: the SPMC's partition ID in x2.
pub fn handle_spm_id_get(regs: &mut GeneralPurposeRegs)
    ensures
        final(regs).x@ == old(regs).x@.update(0, FFA_SUCCESS_32).update(2, FFA_SPMC_ID as u64),
{
    regs.x[0] = FFA_SUCCESS_32;
    regs.x[2] = FFA_SPMC_ID as u64;
}

impl FfaProxy {
    /// FFA_RXTX_MAP: register the TX (x1) and RX (x2) buffers of one page
    /// (x3). Both must be page aligned; a VM registers once.
    pub fn handle_rxtx_map(&mut self, vm_id: usize, regs: &mut GeneralPurposeRegs)
        requires
            old(self).wf(),
            vm_id < FFA_MAX_VMS,
        ensures
            final(self).wf(),
            rxtx_map_post(*old(self), *final(self), vm_id, old(regs).x@, final(regs).x@),
    {
        let tx_ipa = regs.x[1];
        let rx_ipa = regs.x[2];
        let page_count = regs.x[3] as u32;
        if tx_ipa & 0xFFF != 0 || rx_ipa & 0xFFF != 0 || page_count == 0 || page_count > 1 {
            ffa_error(regs, FFA_INVALID_PARAMETERS);
            return;
        }
        let mut m = self.mailboxes[vm_id];
        if m.mapped {
            ffa_error(regs, FFA_DENIED);
            return;
        }
        m.tx_ipa = tx_ipa;
        m.rx_ipa = rx_ipa;
        m.page_count = page_count;
        m.mapped = true;
        m.rx_held_by_proxy = true;
        self.mailboxes.set(vm_id, m);
        regs.x[0] = FFA_SUCCESS_32;
    }

    /// FFA_RXTX_UNMAP: forget the caller's buffers.
    pub fn handle_rxtx_unmap(&mut self, vm_id: usize, regs: &mut GeneralPurposeRegs)
        requires
            old(self).wf(),
            vm_id < FFA_MAX_VMS,
        ensures
            final(self).wf(),
            rxtx_unmap_post(*old(self), *final(self), vm_id, old(regs).x@, final(regs).x@),
    {
        if !self.mailboxes[vm_id].mapped {
            ffa_error(regs, FFA_DENIED);
            return;
        }
        self.mailboxes.set(vm_id, FfaMailbox::new());
        regs.x[0] = FFA_SUCCESS_32;
    }

    /// FFA_RX_RELEASE: the VM hands its RX buffer back (any message in it
    /// is consumed).
    pub fn handle_rx_release(&mut self, vm_id: usize, regs: &mut GeneralPurposeRegs)
        requires
            old(self).wf(),
            vm_id < FFA_MAX_VMS,
        ensures
            final(self).wf(),
            rx_release_post(*old(self), *final(self), vm_id, old(regs).x@, final(regs).x@),
    {
        let mut m = self.mailboxes[vm_id];
        if !m.mapped {
            ffa_error(regs, FFA_DENIED);
            return;
        }
        m.rx_held_by_proxy = true;
        m.msg_pending = false;
        self.mailboxes.set(vm_id, m);
        regs.x[0] = FFA_SUCCESS_32;
    }

    /// FFA_PARTITION_INFO_GET: describe the stub partitions in the
    /// caller's RX buffer (which then belongs to the VM); the count is in x2.
    pub fn handle_partition_info_get(&mut self, vm_id: usize, regs: &mut GeneralPurposeRegs) -> (a: ProxyAction)
        requires
            old(self).wf(),
            vm_id < FFA_MAX_VMS,
        ensures
            final(self).wf(),
            partition_info_get_post(*old(self), *final(self), vm_id, old(regs).x@, final(regs).x@, a),
    {
        let mut m = self.mailboxes[vm_id];
        if !m.mapped {
            ffa_error(regs, FFA_DENIED);
            return ProxyAction::Resume;
        }
        if !m.rx_held_by_proxy {
            ffa_error(regs, FFA_BUSY);
            return ProxyAction::Resume;
        }
        let bytes: Vec<u8> = vec![0x01u8, 0x80u8, 0x01u8, 0x00u8, 0x01u8, 0x00u8, 0x00u8, 0x00u8,
            0x02u8, 0x80u8, 0x01u8, 0x00u8, 0x01u8, 0x00u8, 0x00u8, 0x00u8];
        assert(bytes@ =~= stub_partition_info());
        m.rx_held_by_proxy = false;
        self.mailboxes.set(vm_id, m);
        regs.x[0] = FFA_SUCCESS_32;
        regs.x[2] = 2;
        ProxyAction::WriteRx { rx_ipa: m.rx_ipa, bytes }
    }

    /// FFA_MSG_SEND_DIRECT_REQ: the sender must be the caller. A request for
    /// a secure partition goes to the real SPMC when there is one;
    /// otherwise a stub partition answers at once with the payload echoed.
    pub fn handle_msg_send_direct_req(&mut self, vm_id: usize, regs: &mut GeneralPurposeRegs) -> (a: ProxyAction)
        requires
            old(self).wf(),
            vm_id < FFA_MAX_VMS,
        ensures
            final(self).wf(),
            direct_req_post(*old(self), *final(self), vm_id, old(regs).x@, final(regs).x@, a),
    {
        let sender = ((regs.x[1] >> 16) & 0xFFFF) as u16;
        let receiver = (regs.x[1] & 0xFFFF) as u16;
        let expected_sender = vm_id_to_partition_id(vm_id);
        if sender != expected_sender {
            ffa_error(regs, FFA_INVALID_PARAMETERS);
            return ProxyAction::Resume;
        }
        if self.spmc_present && receiver >= FFA_SPMC_ID {
            return ProxyAction::ForwardToSpmc;
        }
        if !is_valid_sp(receiver) {
            ffa_error(regs, FFA_INVALID_PARAMETERS);
            return ProxyAction::Resume;
        }
        let is_64bit = regs.x[0] == FFA_MSG_SEND_DIRECT_REQ_64;
        regs.x[0] = if is_64bit { FFA_MSG_SEND_DIRECT_RESP_64 } else { FFA_MSG_SEND_DIRECT_RESP_32 };
        regs.x[1] = ((receiver as u64) << 16) | (sender as u64);
        ProxyAction::Resume
    }

    /// FFA_RUN: only a real SPMC can run a partition.
    pub fn handle_run(&self, regs: &mut GeneralPurposeRegs) -> (a: ProxyAction)
        ensures
            self.spmc_present ==> final(regs).x@ == old(regs).x@ && a is ForwardToSpmc,
            !self.spmc_present ==> final(regs).x@ == err_regs(old(regs).x@, FFA_NOT_SUPPORTED) && a is Resume,
    {
        if self.spmc_present {
            ProxyAction::ForwardToSpmc
        } else {
            ffa_error(regs, FFA_NOT_SUPPORTED);
            ProxyAction::Resume
        }
    }
}


/// A share request: sender named in the descriptor (0 for the register
/// form), receiver, ranges and total page count.
pub struct ShareRequest {
    pub sender: u16,
    pub receiver: u16,
    pub ranges: Seq<(u64, u32)>,
    pub total_pages: u32,
}

/// The share request a MEM_SHARE / MEM_LEND call makes: from the descriptor
/// in the TX buffer when the caller registered one (x1 = total length,
/// x2 = fragment length, no fragmentation), otherwise from registers
/// (x3 = base IPA, x4 = page count, x5 = receiver).
pub open spec fn share_request(m: FfaMailbox, x: Seq<u64>, tx: Seq<u8>) -> Result<ShareRequest, i32> {
    if m.mapped {
        let total = x[1] as u32;
        let frag = x[2] as u32;
        if total != frag || total == 0 || total > tx.len() || !desc_valid(tx, total as int) {
            Err(FFA_INVALID_PARAMETERS)
        } else {
            Ok(ShareRequest {
                sender: le16(tx, 0),
                receiver: le16(tx, desc_access_off(tx)),
                ranges: Seq::new(desc_range_count(tx) as nat, |i: int|
                    (le64(tx, desc_range_off(tx, i)), le32(tx, desc_range_off(tx, i) + 8))),
                total_pages: le32(tx, desc_comp_off(tx)),
            })
        }
    } else {
        let pages = x[4] as u32;
        if pages == 0 {
            Err(FFA_INVALID_PARAMETERS)
        } else {
            Ok(ShareRequest { sender: 0, receiver: x[5] as u16, ranges: seq![(x[3], pages)], total_pages: pages })
        }
    }
}

/// S2AP value: no access.
pub const ACCESS_NONE: u8 = 0;
/// S2AP value: read-only.
pub const ACCESS_RO: u8 = 1;
/// S2AP value: read-write.
pub const ACCESS_RW: u8 = 3;

/// Access the owner keeps to pages it shares (read-only) or lends (none).
pub open spec fn owner_access(is_lend: bool) -> u8 {
    if is_lend { ACCESS_NONE } else { ACCESS_RO }
}

/// The owner's tables after its pages `rs` (first `n` ranges) were given
/// software bits `sw` and access `ap`: VM `vm`'s tables, when it has any.
/// Every page stays mapped or unmapped; the mapped ones carry `(sw, ap)`
/// unless the table store ran out of room for a block split.
pub open spec fn pages_moved(t0: VmStage2, t1: VmStage2, vm: int, rs: Seq<(u64, u32)>, n: int, sw: u8, ap: u8) -> bool {
    let root = t0.roots@[vm];
    &&& t1.roots == t0.roots
    &&& root == 0 ==> t1.store == t0.store
    &&& root != 0 ==> {
        &&& same_pages_mapped(&t0.store, &t1.store, root, rs, n)
        &&& t1.store.count() < t1.store.capacity() ==> pages_marked(&t1.store, root, rs, n, sw, ap)
    }
}

/// Outcome of MEM_SHARE (`is_lend` false) or MEM_LEND (`is_lend` true) by
/// VM `vm`, whose Stage-2 tables are in `t0` before the call and `t1` after.
pub open spec fn post_mem_share(before: FfaProxy, after: FfaProxy, vm: int, x: Seq<u64>, xn: Seq<u64>, tx: Seq<u8>, is_lend: bool, t0: VmStage2, t1: VmStage2) -> bool {
    let unchanged = after == before && t1 == t0;
    let root = t0.roots@[vm];
    match share_request(before.mailboxes@[vm], x, tx) {
        Err(code) => xn == err_regs(x, code) && unchanged,
        Ok(req) => if !spec_valid_receiver(req.receiver) || (req.sender != 0 && req.sender != vm + 1) {
            xn == err_regs(x, FFA_INVALID_PARAMETERS) && unchanged
        } else if root != 0 && !pages_owned(&t0.store, root, req.ranges, req.ranges.len() as int) {
            xn == err_regs(x, FFA_DENIED) && unchanged
        } else if before.shares.next_handle() == u64::MAX {
            xn == err_regs(x, FFA_NO_MEMORY) && after == before
                && pages_moved(t0, t1, vm, req.ranges, req.ranges.len() as int,
                    spec_ownership_bits(PageOwnership::SharedOwned), owner_access(is_lend))
        } else {
            let h = before.shares.next_handle();
            let r = if find_free(before.shares.records(), 0) is Some { Some(h) } else { None::<u64> };
            &&& pages_moved(t0, t1, vm, req.ranges, req.ranges.len() as int,
                    spec_ownership_bits(PageOwnership::SharedOwned), owner_access(is_lend))
            &&& record_post(before.shares, after.shares, (vm + 1) as u16, req.receiver, req.ranges, req.total_pages, is_lend, r)
            &&& after.mailboxes == before.mailboxes
            &&& after.notifications == before.notifications
            &&& after.spmc_present == before.spmc_present
            &&& xn == match r {
                None => err_regs(x, FFA_NO_MEMORY),
                Some(h) => x.update(0, FFA_SUCCESS_32).update(2, h & 0xFFFF_FFFF).update(3, h >> 32u64),
            }
        },
    }
}

/// Registers after a call that succeeded or failed with a code.
pub open spec fn result_regs(x: Seq<u64>, r: Result<(), i32>) -> Seq<u64> {
    match r {
        Ok(_) => x.update(0, FFA_SUCCESS_32),
        Err(code) => err_regs(x, code),
    }
}

impl FfaProxy {
    /// MEM_SHARE / MEM_LEND: validate the request; when the caller has
    /// Stage-2 tables, deny it unless every page is exclusively owned, then
    /// mark the pages shared by their owner, read-only (share) or without
    /// access (lend); record the share with the stub SPMC. The new handle
    /// goes back in x2 (low) and x3 (high).
    pub fn handle_mem_share_or_lend(&mut self, vm_id: usize, regs: &mut GeneralPurposeRegs, tx: &Vec<u8>, is_lend: bool,
        s2: &mut VmStage2)
        requires
            old(self).wf(),
            old(s2).wf(),
            vm_id < FFA_MAX_VMS,
        ensures
            final(self).wf(),
            final(s2).wf(),
            post_mem_share(*old(self), *final(self), vm_id as int, old(regs).x@, final(regs).x@, tx@, is_lend,
                *old(s2), *final(s2)),
    {
        let m = self.mailboxes[vm_id];
        let ghost req = share_request(m, regs.x@, tx@);
        let mut ranges: Vec<(u64, u32)> = Vec::new();
        let sender_from_desc: u16;
        let receiver_id: u16;
        let total_page_count: u32;
        if m.mapped {
            let total_length = regs.x[1] as u32;
            let fragment_length = regs.x[2] as u32;
            if total_length != fragment_length || total_length == 0 || total_length as usize > tx.len() {
                ffa_error(regs, FFA_INVALID_PARAMETERS);
                return;
            }
            let parsed = match parse_mem_region(tx.as_slice(), total_length) {
                Ok(p) => p,
                Err(code) => {
                    ffa_error(regs, code);
                    return;
                },
            };
            let mut k: usize = 0;
            while k < parsed.range_count
                invariant
                    k <= parsed.range_count,
                    parsed.range_count <= MAX_ADDR_RANGES,
                    ranges@.len() == k,
                    forall|i: int| 0 <= i < k ==> #[trigger] ranges@[i] == parsed.ranges@[i],
                decreases parsed.range_count - k,
            {
                ranges.push(parsed.ranges[k]);
                k = k + 1;
            }
            assert(ranges@ =~= req->Ok_0.ranges);
            sender_from_desc = parsed.sender_id;
            receiver_id = parsed.receiver_id;
            total_page_count = parsed.total_page_count;
        } else {
            let base_ipa = regs.x[3];
            let page_count = regs.x[4] as u32;
            if page_count == 0 {
                ffa_error(regs, FFA_INVALID_PARAMETERS);
                return;
            }
            ranges.push((base_ipa, page_count));
            assert(ranges@ =~= req->Ok_0.ranges);
            sender_from_desc = 0;
            receiver_id = regs.x[5] as u16;
            total_page_count = page_count;
        }
        if !(is_vm_partition(receiver_id) || is_valid_sp(receiver_id)) {
            ffa_error(regs, FFA_INVALID_PARAMETERS);
            return;
        }
        let expected_sender = vm_id_to_partition_id(vm_id);
        if sender_from_desc != 0 && sender_from_desc != expected_sender {
            ffa_error(regs, FFA_INVALID_PARAMETERS);
            return;
        }
        let root: u64 = s2.roots[vm_id];
        if root != 0 {
            let w = Stage2Walker::new(root);
            if !check_pages_owned(&w, &s2.store, ranges.as_slice(), ranges.len()) {
                ffa_error(regs, FFA_DENIED);
                return;
            }
            let access: u8 = if is_lend { ACCESS_NONE } else { ACCESS_RO };
            let ghost t0 = *s2;
            mark_pages(&w, &mut s2.store, ranges.as_slice(), ranges.len(), PageOwnership::SharedOwned.bits(), access);
            proof { lemma_roots_kept(&t0, &s2.store); }
        }
        if !self.shares.handles_left() {
            ffa_error(regs, FFA_NO_MEMORY);
            return;
        }
        let ghost h = self.shares.next_handle();
        match record_share(&mut self.shares, expected_sender, receiver_id, ranges.as_slice(), total_page_count, is_lend) {
            Some(handle) => {
                regs.x[0] = FFA_SUCCESS_32;
                regs.x[2] = handle & 0xFFFF_FFFF;
                regs.x[3] = handle >> 32;
            },
            None => {
                ffa_error(regs, FFA_NO_MEMORY);
            },
        }
    }

    /// FFA_MEM_RECLAIM: the owner takes memory back, unless the receiver
    /// still holds it; in the caller's Stage-2 tables, when it has any, the
    /// pages become exclusively owned and read-write again.
    pub fn handle_mem_reclaim(&mut self, vm_id: usize, regs: &mut GeneralPurposeRegs, s2: &mut VmStage2)
        requires
            old(self).wf(),
            old(s2).wf(),
            vm_id < FFA_MAX_VMS,
        ensures
            final(self).wf(),
            final(s2).wf(),
            mem_reclaim_post(*old(self), *final(self), vm_id, old(regs).x@, final(regs).x@, *old(s2), *final(s2)),
    {
        let handle = (regs.x[1] & 0xFFFF_FFFF) | ((regs.x[2] & 0xFFFF_FFFF) << 32);
        let info = match lookup_share_full(&self.shares, handle) {
            Some(info) => info,
            None => {
                ffa_error(regs, FFA_INVALID_PARAMETERS);
                return;
            },
        };
        if info.retrieved {
            ffa_error(regs, FFA_DENIED);
            return;
        }
        let root: u64 = s2.roots[vm_id];
        if root != 0 {
            let w = Stage2Walker::new(root);
            let n: usize = if info.range_count < MAX_SHARE_RANGES { info.range_count } else { MAX_SHARE_RANGES };
            let ghost t0 = *s2;
            mark_pages(&w, &mut s2.store, &info.ranges, n, PageOwnership::Owned.bits(), ACCESS_RW);
            proof { lemma_roots_kept(&t0, &s2.store); }
        }
        let _ = reclaim_share(&mut self.shares, handle);
        regs.x[0] = FFA_SUCCESS_32;
    }

    /// FFA_MEM_RETRIEVE_REQ: the designated receiver takes the memory. When
    /// it has Stage-2 tables, each page is mapped there read-write as
    /// borrowed; if a page cannot be mapped, the pages before it are
    /// unmapped again and the request is denied.
    pub fn handle_mem_retrieve_req(&mut self, vm_id: usize, regs: &mut GeneralPurposeRegs, s2: &mut VmStage2)
        requires
            old(self).wf(),
            old(s2).wf(),
            vm_id < FFA_MAX_VMS,
        ensures
            final(self).wf(),
            final(s2).wf(),
            mem_retrieve_post(*old(self), *final(self), vm_id, old(regs).x@, final(regs).x@, *old(s2), *final(s2)),
    {
        let handle = (regs.x[1] & 0xFFFF_FFFF) | ((regs.x[2] & 0xFFFF_FFFF) << 32);
        let info = match lookup_share_full(&self.shares, handle) {
            Some(info) => info,
            None => {
                ffa_error(regs, FFA_INVALID_PARAMETERS);
                return;
            },
        };
        let caller_id = vm_id_to_partition_id(vm_id);
        if caller_id != info.receiver_id {
            ffa_error(regs, FFA_DENIED);
            return;
        }
        if info.retrieved {
            ffa_error(regs, FFA_DENIED);
            return;
        }
        let root: u64 = s2.roots[vm_id];
        if root != 0 {
            let w = Stage2Walker::new(root);
            let n: usize = if info.range_count < MAX_SHARE_RANGES { info.range_count } else { MAX_SHARE_RANGES };
            let ghost t0 = *s2;
            let mapped = map_pages(&w, &mut s2.store, &info.ranges, n, ACCESS_RW, PageOwnership::SharedBorrowed.bits());
            proof { lemma_roots_kept(&t0, &s2.store); }
            if !mapped {
                proof {
                    let (k, c) = choose|k: int, c: int| 0 <= k < n && 0 <= c < info.ranges@[k].1
                        && #[trigger] prefix_unmapped(&s2.store, root, info.ranges@, n as int, k, c);
                    let rec = old(self).shares.records()[find_handle(old(self).shares.records(), handle, 0).unwrap()];
                    assert(info.ranges@ == rec.ranges@);
                    assert(prefix_unmapped(&s2.store, root, rec.ranges@, record_ranges(rec), k, c));
                }
                ffa_error(regs, FFA_DENIED);
                return;
            }
        }
        let r = mark_retrieved(&mut self.shares, handle);
        assert(retrieve_post(old(self).shares, self.shares, handle, r));
        regs.x[0] = FFA_MEM_RETRIEVE_RESP;
        regs.x[1] = 0;
        regs.x[2] = handle & 0xFFFF_FFFF;
        regs.x[3] = handle >> 32;
    }

    /// FFA_MEM_RELINQUISH: the receiver gives the memory back; when it has
    /// Stage-2 tables, the pages' 4 KiB mappings are removed there.
    pub fn handle_mem_relinquish(&mut self, vm_id: usize, regs: &mut GeneralPurposeRegs, s2: &mut VmStage2)
        requires
            old(self).wf(),
            old(s2).wf(),
            vm_id < FFA_MAX_VMS,
        ensures
            final(self).wf(),
            final(s2).wf(),
            mem_relinquish_post(*old(self), *final(self), vm_id, old(regs).x@, final(regs).x@, *old(s2), *final(s2)),
    {
        let handle = (regs.x[1] & 0xFFFF_FFFF) | ((regs.x[2] & 0xFFFF_FFFF) << 32);
        let info = match lookup_share_full(&self.shares, handle) {
            Some(info) => info,
            None => {
                ffa_error(regs, FFA_INVALID_PARAMETERS);
                return;
            },
        };
        let caller_id = vm_id_to_partition_id(vm_id);
        if caller_id != info.receiver_id {
            ffa_error(regs, FFA_DENIED);
            return;
        }
        if !info.retrieved {
            ffa_error(regs, FFA_DENIED);
            return;
        }
        let root: u64 = s2.roots[vm_id];
        if root != 0 {
            let w = Stage2Walker::new(root);
            let n: usize = if info.range_count < MAX_SHARE_RANGES { info.range_count } else { MAX_SHARE_RANGES };
            let ghost t0 = *s2;
            unmap_pages(&w, &mut s2.store, &info.ranges, n);
            proof { lemma_roots_kept(&t0, &s2.store); }
        }
        let r = mark_relinquished(&mut self.shares, handle);
        assert(relinquish_post(old(self).shares, self.shares, handle, r));
        regs.x[0] = FFA_SUCCESS_32;
    }
}


/// The partition IDs of the first `n` entries of `ids`, packed 16 bits each.
pub open spec fn pack_ids(ids: Seq<u16>, n: int) -> u64
    decreases n,
{
    if n <= 0 {
        0
    } else {
        pack_ids(ids, n - 1) | ((ids[n - 1] as u64) << ((n - 1) * 16) as u64)
    }
}

/// The only fields a notification call changes are the notifications.
pub open spec fn only_notifications_changed(before: FfaProxy, after: FfaProxy) -> bool {
    &&& after.mailboxes == before.mailboxes
    &&& after.shares == before.shares
    &&& after.spmc_present == before.spmc_present
}

impl FfaProxy {
    /// FFA_NOTIFICATION_BITMAP_CREATE for the partition in x1.
    pub fn handle_notification_bitmap_create(&mut self, regs: &mut GeneralPurposeRegs)
        requires
            old(self).wf(),
        ensures
            final(self).wf(),
            notif_create_post(*old(self), *final(self), old(regs).x@, final(regs).x@),
    {
        let part_id = regs.x[1] as u16;
        let r = bitmap_create(&mut self.notifications, part_id);
        match r {
            Ok(()) => { regs.x[0] = FFA_SUCCESS_32; },
            Err(code) => { ffa_error(regs, code); },
        }
        assert(create_post(old(self).notifications, self.notifications, part_id, r));
    }

    /// FFA_NOTIFICATION_BITMAP_DESTROY for the partition in x1.
    pub fn handle_notification_bitmap_destroy(&mut self, regs: &mut GeneralPurposeRegs)
        requires
            old(self).wf(),
        ensures
            final(self).wf(),
            notif_destroy_post(*old(self), *final(self), old(regs).x@, final(regs).x@),
    {
        let part_id = regs.x[1] as u16;
        let r = bitmap_destroy(&mut self.notifications, part_id);
        match r {
            Ok(()) => { regs.x[0] = FFA_SUCCESS_32; },
            Err(code) => { ffa_error(regs, code); },
        }
        assert(destroy_post(old(self).notifications, self.notifications, part_id, r));
    }

    /// FFA_NOTIFICATION_BIND: sender and receiver in x1, bitmap in x3/x4.
    pub fn handle_notification_bind(&mut self, regs: &mut GeneralPurposeRegs)
        requires
            old(self).wf(),
        ensures
            final(self).wf(),
            notif_bind_post(*old(self), *final(self), old(regs).x@, final(regs).x@),
    {
        let sender = ((regs.x[1] >> 16) & 0xFFFF) as u16;
        let receiver = (regs.x[1] & 0xFFFF) as u16;
        let flags = regs.x[2] as u32;
        let bitmap = regs.x[3] | (regs.x[4] << 32);
        assert(sender == sender_of(old(regs).x@[1]));
        assert(receiver == receiver_of(old(regs).x@[1]));
        assert(bitmap == notif_bitmap(old(regs).x@));
        let r = bind(&mut self.notifications, sender, receiver, flags, bitmap);
        match r {
            Ok(()) => { regs.x[0] = FFA_SUCCESS_32; },
            Err(code) => { ffa_error(regs, code); },
        }
        assert(regs.x@ == result_regs(old(regs).x@, r));
        assert(bind_post(old(self).notifications, self.notifications, sender, receiver, bitmap, r));
    }

    /// FFA_NOTIFICATION_UNBIND: sender and receiver in x1, bitmap in x3/x4.
    pub fn handle_notification_unbind(&mut self, regs: &mut GeneralPurposeRegs)
        requires
            old(self).wf(),
        ensures
            final(self).wf(),
            notif_unbind_post(*old(self), *final(self), old(regs).x@, final(regs).x@),
    {
        let sender = ((regs.x[1] >> 16) & 0xFFFF) as u16;
        let receiver = (regs.x[1] & 0xFFFF) as u16;
        let bitmap = regs.x[3] | (regs.x[4] << 32);
        assert(sender == sender_of(old(regs).x@[1]));
        assert(receiver == receiver_of(old(regs).x@[1]));
        assert(bitmap == notif_bitmap(old(regs).x@));
        let r = unbind(&mut self.notifications, sender, receiver, bitmap);
        match r {
            Ok(()) => { regs.x[0] = FFA_SUCCESS_32; },
            Err(code) => { ffa_error(regs, code); },
        }
        assert(unbind_post(old(self).notifications, self.notifications, sender, receiver, bitmap, r));
    }

    /// FFA_NOTIFICATION_SET: sender and receiver in x1, bitmap in x3/x4.
    pub fn handle_notification_set(&mut self, regs: &mut GeneralPurposeRegs)
        requires
            old(self).wf(),
        ensures
            final(self).wf(),
            notif_set_post(*old(self), *final(self), old(regs).x@, final(regs).x@),
    {
        let sender = ((regs.x[1] >> 16) & 0xFFFF) as u16;
        let receiver = (regs.x[1] & 0xFFFF) as u16;
        let bitmap = regs.x[3] | (regs.x[4] << 32);
        assert(sender == sender_of(old(regs).x@[1]));
        assert(receiver == receiver_of(old(regs).x@[1]));
        assert(bitmap == notif_bitmap(old(regs).x@));
        let r = crate::ffa::notifications::set(&mut self.notifications, sender, receiver, bitmap);
        match r {
            Ok(()) => { regs.x[0] = FFA_SUCCESS_32; },
            Err(code) => { ffa_error(regs, code); },
        }
        assert(set_post(old(self).notifications, self.notifications, sender, receiver, bitmap, r));
    }

    /// FFA_NOTIFICATION_GET: read and clear the pending bits of the
    /// partition in x1; they come back in x2 (x3-x5 zero).
    pub fn handle_notification_get(&mut self, regs: &mut GeneralPurposeRegs)
        requires
            old(self).wf(),
        ensures
            final(self).wf(),
            notif_get_post(*old(self), *final(self), old(regs).x@, final(regs).x@),
    {
        let receiver = regs.x[1] as u16;
        let r = get(&mut self.notifications, receiver);
        match r {
            Ok(pending) => {
                regs.x[0] = FFA_SUCCESS_32;
                regs.x[2] = pending;
                regs.x[3] = 0;
                regs.x[4] = 0;
                regs.x[5] = 0;
            },
            Err(code) => { ffa_error(regs, code); },
        }
        assert(get_post(old(self).notifications, self.notifications, receiver, r));
    }

    /// FFA_NOTIFICATION_INFO_GET: the partitions with pending notifications
    /// (count in x2, up to four IDs packed in x3), or NO_DATA.
    pub fn handle_notification_info_get(&self, regs: &mut GeneralPurposeRegs)
        requires
            self.wf(),
        ensures
            info_get_post(*self, old(regs).x@, final(regs).x@),
    {
        let (count, ids) = info_get(&self.notifications);
        let ghost all = info_ids(&self.notifications, INFO_ENDPOINTS as int);
        if count == 0 {
            ffa_error(regs, FFA_NO_DATA);
        } else {
            regs.x[0] = FFA_SUCCESS_32;
            regs.x[2] = count as u64;
            let mut packed: u64 = 0;
            let mut i: usize = 0;
            while i < count
                invariant
                    i <= count,
                    count <= 4,
                    packed == pack_ids(all, i as int),
                    forall|k: int| 0 <= k < count ==> #[trigger] ids@[k] == all[k],
                decreases count - i,
            {
                packed = packed | ((ids[i] as u64) << ((i * 16) as u64));
                i = i + 1;
            }
            regs.x[3] = packed;
        }
    }

    /// FFA_MSG_SEND2: pass the message in the caller's TX buffer (header:
    /// sender, receiver, size) to the receiving VM's RX buffer.
    pub fn handle_msg_send2(&mut self, vm_id: usize, regs: &mut GeneralPurposeRegs, tx: &Vec<u8>) -> (a: ProxyAction)
        requires
            old(self).wf(),
            vm_id < FFA_MAX_VMS,
            tx@.len() == TX_BUF_BYTES,
        ensures
            final(self).wf(),
            msg_send2_post(*old(self), *final(self), vm_id, old(regs).x@, final(regs).x@, tx@, a),
    {
        let m = self.mailboxes[vm_id];
        if !m.mapped {
            ffa_error(regs, FFA_DENIED);
            return ProxyAction::Resume;
        }
        let sender = (tx[0] as u16) | ((tx[1] as u16) << 8);
        let receiver = (tx[2] as u16) | ((tx[3] as u16) << 8);
        let size = (tx[4] as u32) | ((tx[5] as u32) << 8) | ((tx[6] as u32) << 16) | ((tx[7] as u32) << 24);
        let expected_sender = vm_id_to_partition_id(vm_id);
        if sender != expected_sender {
            ffa_error(regs, FFA_INVALID_PARAMETERS);
            return ProxyAction::Resume;
        }
        let recv_vm = match partition_id_to_vm_id(receiver) {
            Some(v) => v,
            None => {
                ffa_error(regs, FFA_INVALID_PARAMETERS);
                return ProxyAction::Resume;
            },
        };
        let mut rm = self.mailboxes[recv_vm];
        if !rm.mapped {
            ffa_error(regs, FFA_DENIED);
            return ProxyAction::Resume;
        }
        if !rm.rx_held_by_proxy {
            ffa_error(regs, FFA_BUSY);
            return ProxyAction::Resume;
        }
        if rm.msg_pending {
            ffa_error(regs, FFA_BUSY);
            return ProxyAction::Resume;
        }
        let want = 8 + size as u64;
        let len: u64 = if want < 4096 { want } else { 4096 };
        let to = rm.rx_ipa;
        rm.msg_pending = true;
        rm.msg_sender_id = sender;
        rm.rx_held_by_proxy = false;
        self.mailboxes.set(recv_vm, rm);
        regs.x[0] = FFA_SUCCESS_32;
        ProxyAction::CopyMessage { from: m.tx_ipa, to, len }
    }

    /// FFA_MSG_WAIT: report a waiting message's sender in x1, or NO_DATA.
    pub fn handle_msg_wait(&self, vm_id: usize, regs: &mut GeneralPurposeRegs)
        requires
            self.wf(),
            vm_id < FFA_MAX_VMS,
        ensures
            msg_wait_post(*self, vm_id, old(regs).x@, final(regs).x@),
    {
        let m = self.mailboxes[vm_id];
        if !m.mapped {
            ffa_error(regs, FFA_DENIED);
            return;
        }
        if m.msg_pending {
            regs.x[0] = FFA_SUCCESS_32;
            regs.x[1] = m.msg_sender_id as u64;
        } else {
            ffa_error(regs, FFA_NO_DATA);
        }
    }
}

// What each handler does, as a relation between the proxy and the
// registers before and after it.

/// Outcome of `handle_rxtx_map`.
pub open spec fn rxtx_map_post(s0: FfaProxy, s1: FfaProxy, vm_id: usize, x: Seq<u64>, xn: Seq<u64>) -> bool {
    let pages = x[3] as u32;
    let m = s0.mailboxes@[vm_id as int];
    if x[1] & 0xFFF != 0 || x[2] & 0xFFF != 0 || pages == 0 || pages > 1 {
        xn == err_regs(x, FFA_INVALID_PARAMETERS) && s1 == s0
    } else if m.mapped {
        xn == err_regs(x, FFA_DENIED) && s1 == s0
    } else {
        &&& xn == x.update(0, FFA_SUCCESS_32)
        &&& s1.mailboxes@ == s0.mailboxes@.update(vm_id as int, FfaMailbox {
            tx_ipa: x[1],
            rx_ipa: x[2],
            page_count: pages,
            mapped: true,
            rx_held_by_proxy: true,
            ..m
        })
        &&& s1.spmc_present == s0.spmc_present
        &&& s1.shares == s0.shares
        &&& s1.notifications == s0.notifications
    }
}

/// Outcome of `handle_rxtx_unmap`.
pub open spec fn rxtx_unmap_post(s0: FfaProxy, s1: FfaProxy, vm_id: usize, x: Seq<u64>, xn: Seq<u64>) -> bool {
    &&& !s0.mailboxes@[vm_id as int].mapped ==> xn == err_regs(x, FFA_DENIED)
        && s1 == s0
    &&& s0.mailboxes@[vm_id as int].mapped ==> {
        &&& xn == x.update(0, FFA_SUCCESS_32)
        &&& s1.mailboxes@ == s0.mailboxes@.update(vm_id as int, spec_mailbox_new())
        &&& s1.spmc_present == s0.spmc_present
        &&& s1.shares == s0.shares
        &&& s1.notifications == s0.notifications
    }
}

/// Outcome of `handle_rx_release`.
pub open spec fn rx_release_post(s0: FfaProxy, s1: FfaProxy, vm_id: usize, x: Seq<u64>, xn: Seq<u64>) -> bool {
    &&& !s0.mailboxes@[vm_id as int].mapped ==> xn == err_regs(x, FFA_DENIED)
        && s1 == s0
    &&& s0.mailboxes@[vm_id as int].mapped ==> {
        &&& xn == x.update(0, FFA_SUCCESS_32)
        &&& s1.mailboxes@ == s0.mailboxes@.update(vm_id as int, FfaMailbox {
            rx_held_by_proxy: true,
            msg_pending: false,
            ..s0.mailboxes@[vm_id as int]
        })
        &&& s1.spmc_present == s0.spmc_present
        &&& s1.shares == s0.shares
        &&& s1.notifications == s0.notifications
    }
}

/// Outcome of `handle_partition_info_get`.
pub open spec fn partition_info_get_post(s0: FfaProxy, s1: FfaProxy, vm_id: usize, x: Seq<u64>, xn: Seq<u64>, a: ProxyAction) -> bool {
    let m = s0.mailboxes@[vm_id as int];
    if !m.mapped {
        xn == err_regs(x, FFA_DENIED) && s1 == s0
            && a is Resume
    } else if !m.rx_held_by_proxy {
        xn == err_regs(x, FFA_BUSY) && s1 == s0
            && a is Resume
    } else {
        &&& xn == x.update(0, FFA_SUCCESS_32).update(2, 2)
        &&& s1.mailboxes@ == s0.mailboxes@.update(vm_id as int,
            FfaMailbox { rx_held_by_proxy: false, ..m })
        &&& s1.spmc_present == s0.spmc_present
        &&& s1.shares == s0.shares
        &&& s1.notifications == s0.notifications
        &&& a matches ProxyAction::WriteRx { rx_ipa, bytes }
        &&& rx_ipa == m.rx_ipa && bytes@ == stub_partition_info()
    }
}

/// Outcome of `handle_msg_send_direct_req`.
pub open spec fn direct_req_post(s0: FfaProxy, s1: FfaProxy, vm_id: usize, x: Seq<u64>, xn: Seq<u64>, a: ProxyAction) -> bool {
    &&& s1 == s0
    &&& ({
        let sender = sender_of(x[1]);
        let receiver = receiver_of(x[1]);
        if sender != vm_id + 1 {
            xn == err_regs(x, FFA_INVALID_PARAMETERS) && a is Resume
        } else if s0.spmc_present && receiver >= FFA_SPMC_ID {
            xn == x && a is ForwardToSpmc
        } else if !spec_is_stub_sp(receiver) {
            xn == err_regs(x, FFA_INVALID_PARAMETERS) && a is Resume
        } else {
            &&& a is Resume
            &&& xn == x.update(0, if x[0] == FFA_MSG_SEND_DIRECT_REQ_64 {
                FFA_MSG_SEND_DIRECT_RESP_64
            } else {
                FFA_MSG_SEND_DIRECT_RESP_32
            }).update(1, ((receiver as u64) << 16u64) | (sender as u64))
        }
    })
}

/// Number of ranges a share record holds.
pub open spec fn record_ranges(rec: MemShareRecord) -> int {
    if rec.range_count < MAX_SHARE_RANGES { rec.range_count as int } else { MAX_SHARE_RANGES as int }
}

/// Outcome of `handle_mem_reclaim` by VM `vm_id`, whose tables are in `t0`
/// before and `t1` after.
pub open spec fn mem_reclaim_post(s0: FfaProxy, s1: FfaProxy, vm_id: usize, x: Seq<u64>, xn: Seq<u64>, t0: VmStage2, t1: VmStage2) -> bool {
    let h = handle_of(x);
    match find_handle(s0.shares.records(), h, 0) {
        None => xn == err_regs(x, FFA_INVALID_PARAMETERS) && s1 == s0 && t1 == t0,
        Some(i) => if s0.shares.records()[i].retrieved {
            xn == err_regs(x, FFA_DENIED) && s1 == s0 && t1 == t0
        } else {
            &&& pages_moved(t0, t1, vm_id as int, s0.shares.records()[i].ranges@, record_ranges(s0.shares.records()[i]),
                spec_ownership_bits(PageOwnership::Owned), ACCESS_RW)
            &&& xn == x.update(0, FFA_SUCCESS_32)
            &&& reclaim_post(s0.shares, s1.shares, h, true)
            &&& s1.mailboxes == s0.mailboxes
            &&& s1.notifications == s0.notifications
            &&& s1.spmc_present == s0.spmc_present
        },
    }
}

/// Outcome of `handle_mem_retrieve_req` by VM `vm_id`, whose tables are in
/// `t0` before and `t1` after.
pub open spec fn mem_retrieve_post(s0: FfaProxy, s1: FfaProxy, vm_id: usize, x: Seq<u64>, xn: Seq<u64>, t0: VmStage2, t1: VmStage2) -> bool {
    let h = handle_of(x);
    match find_handle(s0.shares.records(), h, 0) {
        None => xn == err_regs(x, FFA_INVALID_PARAMETERS) && s1 == s0 && t1 == t0,
        Some(i) => {
            let rec = s0.shares.records()[i];
            if rec.receiver_id != vm_id + 1 || rec.retrieved {
                xn == err_regs(x, FFA_DENIED) && s1 == s0 && t1 == t0
            } else {
                let root = t0.roots@[vm_id as int];
                let granted = {
                    &&& xn == x.update(0, FFA_MEM_RETRIEVE_RESP).update(1, 0)
                        .update(2, h & 0xFFFF_FFFF).update(3, h >> 32u64)
                    &&& exists|r: bool| #[trigger] retrieve_post(s0.shares, s1.shares, h, r)
                    &&& s1.mailboxes == s0.mailboxes
                    &&& s1.notifications == s0.notifications
                    &&& s1.spmc_present == s0.spmc_present
                };
                &&& t1.roots == t0.roots
                &&& root == 0 ==> t1.store == t0.store && granted
                &&& root != 0 ==> {
                    ||| granted && pages_mapped_as(&t1.store, root, rec.ranges@, record_ranges(rec), ACCESS_RW,
                        spec_ownership_bits(PageOwnership::SharedBorrowed))
                    ||| xn == err_regs(x, FFA_DENIED) && s1 == s0 && exists|k: int, c: int|
                        0 <= k < record_ranges(rec) && 0 <= c < rec.ranges@[k].1
                        && #[trigger] prefix_unmapped(&t1.store, root, rec.ranges@, record_ranges(rec), k, c)
                }
            }
        },
    }
}

/// Outcome of `handle_mem_relinquish` by VM `vm_id`, whose tables are in
/// `t0` before and `t1` after.
pub open spec fn mem_relinquish_post(s0: FfaProxy, s1: FfaProxy, vm_id: usize, x: Seq<u64>, xn: Seq<u64>, t0: VmStage2, t1: VmStage2) -> bool {
    let h = handle_of(x);
    match find_handle(s0.shares.records(), h, 0) {
        None => xn == err_regs(x, FFA_INVALID_PARAMETERS) && s1 == s0 && t1 == t0,
        Some(i) => {
            let rec = s0.shares.records()[i];
            let root = t0.roots@[vm_id as int];
            if rec.receiver_id != vm_id + 1 || !rec.retrieved {
                xn == err_regs(x, FFA_DENIED) && s1 == s0 && t1 == t0
            } else {
                &&& t1.roots == t0.roots
                &&& root == 0 ==> t1.store == t0.store
                &&& root != 0 ==> pages_unmapped(&t1.store, root, rec.ranges@, record_ranges(rec))
                &&& xn == x.update(0, FFA_SUCCESS_32)
                &&& exists|r: bool| #[trigger] relinquish_post(s0.shares, s1.shares, h, r)
                &&& s1.mailboxes == s0.mailboxes
                &&& s1.notifications == s0.notifications
                &&& s1.spmc_present == s0.spmc_present
            }
        },
    }
}

/// Outcome of `handle_notification_bitmap_create`.
pub open spec fn notif_create_post(s0: FfaProxy, s1: FfaProxy, x: Seq<u64>, xn: Seq<u64>) -> bool {
    &&& only_notifications_changed(s0, s1)
    &&& exists|r: Result<(), i32>| #[trigger] create_post(s0.notifications, s1.notifications,
        x[1] as u16, r) && xn == result_regs(x, r)
}

/// Outcome of `handle_notification_bitmap_destroy`.
pub open spec fn notif_destroy_post(s0: FfaProxy, s1: FfaProxy, x: Seq<u64>, xn: Seq<u64>) -> bool {
    &&& only_notifications_changed(s0, s1)
    &&& exists|r: Result<(), i32>| #[trigger] destroy_post(s0.notifications, s1.notifications,
        x[1] as u16, r) && xn == result_regs(x, r)
}

/// Outcome of `handle_notification_bind`.
pub open spec fn notif_bind_post(s0: FfaProxy, s1: FfaProxy, x: Seq<u64>, xn: Seq<u64>) -> bool {
    &&& only_notifications_changed(s0, s1)
    &&& exists|r: Result<(), i32>| #[trigger] bind_post(s0.notifications, s1.notifications,
        sender_of(x[1]), receiver_of(x[1]), notif_bitmap(x), r)
        && xn == result_regs(x, r)
}

/// Outcome of `handle_notification_unbind`.
pub open spec fn notif_unbind_post(s0: FfaProxy, s1: FfaProxy, x: Seq<u64>, xn: Seq<u64>) -> bool {
    &&& only_notifications_changed(s0, s1)
    &&& exists|r: Result<(), i32>| #[trigger] unbind_post(s0.notifications, s1.notifications,
        sender_of(x[1]), receiver_of(x[1]), notif_bitmap(x), r)
        && xn == result_regs(x, r)
}

/// Outcome of `handle_notification_set`.
pub open spec fn notif_set_post(s0: FfaProxy, s1: FfaProxy, x: Seq<u64>, xn: Seq<u64>) -> bool {
    &&& only_notifications_changed(s0, s1)
    &&& exists|r: Result<(), i32>| #[trigger] set_post(s0.notifications, s1.notifications,
        sender_of(x[1]), receiver_of(x[1]), notif_bitmap(x), r)
        && xn == result_regs(x, r)
}

/// Outcome of `handle_notification_get`.
pub open spec fn notif_get_post(s0: FfaProxy, s1: FfaProxy, x: Seq<u64>, xn: Seq<u64>) -> bool {
    &&& only_notifications_changed(s0, s1)
    &&& exists|r: Result<u64, i32>| #[trigger] get_post(s0.notifications, s1.notifications,
        x[1] as u16, r) && xn == match r {
            Ok(p) => x.update(0, FFA_SUCCESS_32).update(2, p).update(3, 0).update(4, 0).update(5, 0),
            Err(code) => err_regs(x, code),
        }
}

/// Outcome of `handle_msg_send2`.
pub open spec fn msg_send2_post(s0: FfaProxy, s1: FfaProxy, vm_id: usize, x: Seq<u64>, xn: Seq<u64>, tx: Seq<u8>, a: ProxyAction) -> bool {
    let m = s0.mailboxes@[vm_id as int];
    let sender = le16(tx, 0);
    let receiver = le16(tx, 2);
    let size = le32(tx, 4);
    if !m.mapped {
        xn == err_regs(x, FFA_DENIED) && s1 == s0 && a is Resume
    } else if sender != vm_id + 1 || spec_partition_vm(receiver).is_none() {
        xn == err_regs(x, FFA_INVALID_PARAMETERS) && s1 == s0 && a is Resume
    } else {
        let rv = spec_partition_vm(receiver).unwrap() as int;
        let rm = s0.mailboxes@[rv];
        if !rm.mapped {
            xn == err_regs(x, FFA_DENIED) && s1 == s0 && a is Resume
        } else if !rm.rx_held_by_proxy || rm.msg_pending {
            xn == err_regs(x, FFA_BUSY) && s1 == s0 && a is Resume
        } else {
            &&& xn == x.update(0, FFA_SUCCESS_32)
            &&& s1.mailboxes@ == s0.mailboxes@.update(rv, FfaMailbox {
                msg_pending: true,
                msg_sender_id: sender,
                rx_held_by_proxy: false,
                ..rm
            })
            &&& s1.shares == s0.shares
            &&& s1.notifications == s0.notifications
            &&& s1.spmc_present == s0.spmc_present
            &&& a == ProxyAction::CopyMessage {
                from: m.tx_ipa,
                to: rm.rx_ipa,
                len: if 8 + size < 4096 { (8 + size) as u64 } else { 4096 },
            }
        }
    }
}


impl FfaProxy {
    /// Handle the FF-A call in x0 for VM `vm_id`: calls the proxy answers
    /// itself are handled here, MEM_DONATE is refused, and an unknown call
    /// goes to the real SPMC when there is one (NOT_SUPPORTED otherwise).
    /// `tx` holds the caller's TX buffer (zeros when none is registered).
    pub fn handle_ffa_call(&mut self, vm_id: usize, regs: &mut GeneralPurposeRegs, tx: &Vec<u8>, s2: &mut VmStage2)
        -> (a: ProxyAction)
        requires
            old(self).wf(),
            old(s2).wf(),
            vm_id < FFA_MAX_VMS,
            tx@.len() == TX_BUF_BYTES,
        ensures
            final(self).wf(),
            final(s2).wf(),
            call_post(*old(self), *final(self), vm_id, old(regs).x@, final(regs).x@, tx@, a, *old(s2), *final(s2)),
    {
        let fid = regs.x[0];
        if fid == FFA_VERSION {
            handle_version(regs);
            ProxyAction::Resume
        } else if fid == FFA_ID_GET {
            handle_id_get(vm_id, regs);
            ProxyAction::Resume
        } else if fid == FFA_FEATURES {
            handle_features(regs);
            ProxyAction::Resume
        } else if fid == FFA_RXTX_MAP {
            self.handle_rxtx_map(vm_id, regs);
            ProxyAction::Resume
        } else if fid == FFA_RXTX_UNMAP {
            self.handle_rxtx_unmap(vm_id, regs);
            ProxyAction::Resume
        } else if fid == FFA_RX_RELEASE {
            self.handle_rx_release(vm_id, regs);
            ProxyAction::Resume
        } else if fid == FFA_PARTITION_INFO_GET {
            self.handle_partition_info_get(vm_id, regs)
        } else if fid == FFA_MSG_SEND_DIRECT_REQ_32 || fid == FFA_MSG_SEND_DIRECT_REQ_64 {
            self.handle_msg_send_direct_req(vm_id, regs)
        } else if fid == FFA_MEM_SHARE_32 || fid == FFA_MEM_SHARE_64 {
            self.handle_mem_share_or_lend(vm_id, regs, tx, false, s2);
            ProxyAction::Resume
        } else if fid == FFA_MEM_LEND_32 || fid == FFA_MEM_LEND_64 {
            self.handle_mem_share_or_lend(vm_id, regs, tx, true, s2);
            ProxyAction::Resume
        } else if fid == FFA_MEM_RECLAIM {
            self.handle_mem_reclaim(vm_id, regs, s2);
            ProxyAction::Resume
        } else if fid == FFA_MEM_RETRIEVE_REQ_32 || fid == FFA_MEM_RETRIEVE_REQ_64 {
            self.handle_mem_retrieve_req(vm_id, regs, s2);
            ProxyAction::Resume
        } else if fid == FFA_MEM_RELINQUISH {
            self.handle_mem_relinquish(vm_id, regs, s2);
            ProxyAction::Resume
        } else if fid == FFA_MEM_DONATE_32 || fid == FFA_MEM_DONATE_64 {
            ffa_error(regs, FFA_NOT_SUPPORTED);
            ProxyAction::Resume
        } else if fid == FFA_SPM_ID_GET {
            handle_spm_id_get(regs);
            ProxyAction::Resume
        } else if fid == FFA_RUN {
            self.handle_run(regs)
        } else if fid == FFA_NOTIFICATION_BITMAP_CREATE {
            self.handle_notification_bitmap_create(regs);
            ProxyAction::Resume
        } else if fid == FFA_NOTIFICATION_BITMAP_DESTROY {
            self.handle_notification_bitmap_destroy(regs);
            ProxyAction::Resume
        } else if fid == FFA_NOTIFICATION_BIND {
            self.handle_notification_bind(regs);
            ProxyAction::Resume
        } else if fid == FFA_NOTIFICATION_UNBIND {
            self.handle_notification_unbind(regs);
            ProxyAction::Resume
        } else if fid == FFA_NOTIFICATION_SET {
            self.handle_notification_set(regs);
            ProxyAction::Resume
        } else if fid == FFA_NOTIFICATION_GET {
            self.handle_notification_get(regs);
            ProxyAction::Resume
        } else if fid == FFA_NOTIFICATION_INFO_GET_32 || fid == FFA_NOTIFICATION_INFO_GET_64 {
            self.handle_notification_info_get(regs);
            ProxyAction::Resume
        } else if fid == FFA_MSG_SEND2 {
            self.handle_msg_send2(vm_id, regs, tx)
        } else if fid == FFA_MSG_WAIT {
            self.handle_msg_wait(vm_id, regs);
            ProxyAction::Resume
        } else if self.spmc_present {
            ProxyAction::ForwardToSpmc
        } else {
            ffa_error(regs, FFA_NOT_SUPPORTED);
            ProxyAction::Resume
        }
    }
}

/// Outcome of `handle_notification_info_get`: up to four partition IDs
/// with pending notifications, packed 16 bits each in x3.
pub open spec fn info_get_post(s: FfaProxy, x: Seq<u64>, xn: Seq<u64>) -> bool {
    let all = info_ids(&s.notifications, INFO_ENDPOINTS as int);
    let n = if all.len() < 4 { all.len() as int } else { 4 };
    &&& n == 0 ==> xn == err_regs(x, FFA_NO_DATA)
    &&& n > 0 ==> xn == x.update(0, FFA_SUCCESS_32).update(2, n as u64).update(3, pack_ids(all, n))
}

/// Outcome of `handle_msg_wait`.
pub open spec fn msg_wait_post(s: FfaProxy, vm_id: usize, x: Seq<u64>, xn: Seq<u64>) -> bool {
    let m = s.mailboxes@[vm_id as int];
    if !m.mapped {
        xn == err_regs(x, FFA_DENIED)
    } else if m.msg_pending {
        xn == x.update(0, FFA_SUCCESS_32).update(1, m.msg_sender_id as u64)
    } else {
        xn == err_regs(x, FFA_NO_DATA)
    }
}

/// Outcome of `handle_ffa_call` for the function ID in x0.
pub open spec fn call_post(s0: FfaProxy, s1: FfaProxy, vm_id: usize, x: Seq<u64>, xn: Seq<u64>, tx: Seq<u8>, a: ProxyAction,
    t0: VmStage2, t1: VmStage2) -> bool {
    let fid = x[0];
    let same = s1 == s0 && a is Resume;
    &&& !(fid == FFA_MEM_SHARE_32 || fid == FFA_MEM_SHARE_64 || fid == FFA_MEM_LEND_32 || fid == FFA_MEM_LEND_64
        || fid == FFA_MEM_RECLAIM || fid == FFA_MEM_RETRIEVE_REQ_32 || fid == FFA_MEM_RETRIEVE_REQ_64
        || fid == FFA_MEM_RELINQUISH) ==> t1 == t0
    &&& if fid == FFA_VERSION {
        same && xn == x.update(0, FFA_VERSION_1_1 as u64)
    } else if fid == FFA_ID_GET {
        same && xn == x.update(0, FFA_SUCCESS_32).update(2, (vm_id + 1) as u64)
    } else if fid == FFA_FEATURES {
        &&& same
        &&& ffa_supported(x[1]) ==> xn == x.update(0, FFA_SUCCESS_32).update(2, 0)
        &&& !ffa_supported(x[1]) ==> xn == err_regs(x, FFA_NOT_SUPPORTED)
    } else if fid == FFA_RXTX_MAP {
        a is Resume && rxtx_map_post(s0, s1, vm_id, x, xn)
    } else if fid == FFA_RXTX_UNMAP {
        a is Resume && rxtx_unmap_post(s0, s1, vm_id, x, xn)
    } else if fid == FFA_RX_RELEASE {
        a is Resume && rx_release_post(s0, s1, vm_id, x, xn)
    } else if fid == FFA_PARTITION_INFO_GET {
        partition_info_get_post(s0, s1, vm_id, x, xn, a)
    } else if fid == FFA_MSG_SEND_DIRECT_REQ_32 || fid == FFA_MSG_SEND_DIRECT_REQ_64 {
        direct_req_post(s0, s1, vm_id, x, xn, a)
    } else if fid == FFA_MEM_SHARE_32 || fid == FFA_MEM_SHARE_64 {
        a is Resume && post_mem_share(s0, s1, vm_id as int, x, xn, tx, false, t0, t1)
    } else if fid == FFA_MEM_LEND_32 || fid == FFA_MEM_LEND_64 {
        a is Resume && post_mem_share(s0, s1, vm_id as int, x, xn, tx, true, t0, t1)
    } else if fid == FFA_MEM_RECLAIM {
        a is Resume && mem_reclaim_post(s0, s1, vm_id, x, xn, t0, t1)
    } else if fid == FFA_MEM_RETRIEVE_REQ_32 || fid == FFA_MEM_RETRIEVE_REQ_64 {
        a is Resume && mem_retrieve_post(s0, s1, vm_id, x, xn, t0, t1)
    } else if fid == FFA_MEM_RELINQUISH {
        a is Resume && mem_relinquish_post(s0, s1, vm_id, x, xn, t0, t1)
    } else if fid == FFA_MEM_DONATE_32 || fid == FFA_MEM_DONATE_64 {
        same && xn == err_regs(x, FFA_NOT_SUPPORTED)
    } else if fid == FFA_SPM_ID_GET {
        same && xn == x.update(0, FFA_SUCCESS_32).update(2, FFA_SPMC_ID as u64)
    } else if fid == FFA_RUN {
        &&& s1 == s0
        &&& s0.spmc_present ==> xn == x && a is ForwardToSpmc
        &&& !s0.spmc_present ==> xn == err_regs(x, FFA_NOT_SUPPORTED) && a is Resume
    } else if fid == FFA_NOTIFICATION_BITMAP_CREATE {
        a is Resume && notif_create_post(s0, s1, x, xn)
    } else if fid == FFA_NOTIFICATION_BITMAP_DESTROY {
        a is Resume && notif_destroy_post(s0, s1, x, xn)
    } else if fid == FFA_NOTIFICATION_BIND {
        a is Resume && notif_bind_post(s0, s1, x, xn)
    } else if fid == FFA_NOTIFICATION_UNBIND {
        a is Resume && notif_unbind_post(s0, s1, x, xn)
    } else if fid == FFA_NOTIFICATION_SET {
        a is Resume && notif_set_post(s0, s1, x, xn)
    } else if fid == FFA_NOTIFICATION_GET {
        a is Resume && notif_get_post(s0, s1, x, xn)
    } else if fid == FFA_NOTIFICATION_INFO_GET_32 || fid == FFA_NOTIFICATION_INFO_GET_64 {
        same && info_get_post(s0, x, xn)
    } else if fid == FFA_MSG_SEND2 {
        msg_send2_post(s0, s1, vm_id, x, xn, tx, a)
    } else if fid == FFA_MSG_WAIT {
        same && msg_wait_post(s0, vm_id, x, xn)
    } else if s0.spmc_present {
        s1 == s0 && xn == x && a is ForwardToSpmc
    } else {
        same && xn == err_regs(x, FFA_NOT_SUPPORTED)
    }
}

} // verus!
