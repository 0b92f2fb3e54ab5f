use hypervisor::ffa::memory::{validate_page_for_share, PageOwnership};
use hypervisor::ffa::proxy::{init, FfaProxy, ProxyAction, TX_BUF_BYTES};
use hypervisor::ffa::{
    FFA_DENIED, FFA_ERROR, FFA_FEATURES, FFA_ID_GET, FFA_INVALID_PARAMETERS, FFA_MEM_DONATE_32, FFA_MEM_LEND_32,
    FFA_MEM_RECLAIM, FFA_MEM_RELINQUISH, FFA_MEM_RETRIEVE_REQ_32, FFA_MEM_RETRIEVE_RESP, FFA_MEM_SHARE_32,
    FFA_MSG_SEND2, FFA_MSG_SEND_DIRECT_REQ_32, FFA_MSG_SEND_DIRECT_RESP_32, FFA_MSG_WAIT, FFA_NOTIFICATION_BIND,
    FFA_NOTIFICATION_BITMAP_CREATE, FFA_NOTIFICATION_GET, FFA_NOTIFICATION_SET, FFA_NOT_SUPPORTED, FFA_NO_DATA,
    FFA_PARTITION_INFO_GET, FFA_RUN, FFA_RXTX_MAP, FFA_RXTX_UNMAP, FFA_SPM_ID_GET, FFA_SUCCESS_32, FFA_VERSION,
    FFA_VERSION_1_1,
};
use hypervisor::ffa::page_ranges::VmStage2;
use hypervisor::ffa::stage2_walker::Stage2Walker;
use hypervisor::mmu::{DynamicIdentityMapper, MemoryAttribute};
use hypervisor::regs::GeneralPurposeRegs;
use hypervisor::table_store::TableStore;

fn no_tables() -> VmStage2 {
    VmStage2::new(TableStore::new(0x8000_0000, 4))
}

fn regs(x: &[u64]) -> GeneralPurposeRegs {
    let mut r = GeneralPurposeRegs::zeroed();
    for (i, v) in x.iter().enumerate() {
        r.x[i] = *v;
    }
    r
}

fn call(p: &mut FfaProxy, vm: usize, x: &[u64]) -> (GeneralPurposeRegs, ProxyAction) {
    let tx = vec![0u8; TX_BUF_BYTES];
    let mut r = regs(x);
    let a = p.handle_ffa_call(vm, &mut r, &tx, &mut no_tables());
    (r, a)
}

fn err_code(r: &GeneralPurposeRegs) -> i32 {
    assert_eq!(r.x[0], FFA_ERROR);
    r.x[2] as u32 as i32
}

#[test]
fn version_and_ids() {
    let mut p = init(false);
    let (r, a) = call(&mut p, 0, &[FFA_VERSION]);
    assert_eq!(r.x[0], FFA_VERSION_1_1 as u64);
    assert!(matches!(a, ProxyAction::Resume));
    let (r, _) = call(&mut p, 1, &[FFA_ID_GET]);
    assert_eq!(r.x[0], FFA_SUCCESS_32);
    assert_eq!(r.x[2], 2);
    let (r, _) = call(&mut p, 0, &[FFA_SPM_ID_GET]);
    assert_eq!(r.x[2], 0x8000);
}

#[test]
fn features_reports_supported_and_unsupported() {
    let mut p = init(false);
    let (r, _) = call(&mut p, 0, &[FFA_FEATURES, FFA_MEM_SHARE_32]);
    assert_eq!(r.x[0], FFA_SUCCESS_32);
    let (r, _) = call(&mut p, 0, &[FFA_FEATURES, FFA_MEM_DONATE_32]);
    assert_eq!(err_code(&r), FFA_NOT_SUPPORTED);
}

#[test]
fn donate_is_refused() {
    let mut p = init(true);
    let (r, a) = call(&mut p, 0, &[FFA_MEM_DONATE_32]);
    assert_eq!(err_code(&r), FFA_NOT_SUPPORTED);
    assert!(matches!(a, ProxyAction::Resume));
}

#[test]
fn unknown_call_goes_to_spmc_only_when_present() {
    let mut p = init(true);
    let (r, a) = call(&mut p, 0, &[0x8400_00FF, 7]);
    assert!(matches!(a, ProxyAction::ForwardToSpmc));
    assert_eq!(r.x[0], 0x8400_00FF);
    assert_eq!(r.x[1], 7);
    let mut q = init(false);
    let (r, a) = call(&mut q, 0, &[0x8400_00FF]);
    assert!(matches!(a, ProxyAction::Resume));
    assert_eq!(err_code(&r), FFA_NOT_SUPPORTED);
}

#[test]
fn run_needs_a_real_spmc() {
    let mut p = init(false);
    let (r, _) = call(&mut p, 0, &[FFA_RUN]);
    assert_eq!(err_code(&r), FFA_NOT_SUPPORTED);
    let mut q = init(true);
    let (_, a) = call(&mut q, 0, &[FFA_RUN]);
    assert!(matches!(a, ProxyAction::ForwardToSpmc));
}

#[test]
fn rxtx_map_checks_alignment_and_double_map() {
    let mut p = init(false);
    let (r, _) = call(&mut p, 0, &[FFA_RXTX_MAP, 0x4000_0010, 0x4000_1000, 1]);
    assert_eq!(err_code(&r), FFA_INVALID_PARAMETERS);
    let (r, _) = call(&mut p, 0, &[FFA_RXTX_MAP, 0x4000_0000, 0x4000_1000, 2]);
    assert_eq!(err_code(&r), FFA_INVALID_PARAMETERS);
    let (r, _) = call(&mut p, 0, &[FFA_RXTX_MAP, 0x4000_0000, 0x4000_1000, 1]);
    assert_eq!(r.x[0], FFA_SUCCESS_32);
    assert!(p.get_mailbox(0).mapped);
    assert_eq!(p.get_mailbox(0).rx_ipa, 0x4000_1000);
    let (r, _) = call(&mut p, 0, &[FFA_RXTX_MAP, 0x4000_0000, 0x4000_1000, 1]);
    assert_eq!(err_code(&r), FFA_DENIED);
    let (r, _) = call(&mut p, 0, &[FFA_RXTX_UNMAP]);
    assert_eq!(r.x[0], FFA_SUCCESS_32);
    let (r, _) = call(&mut p, 0, &[FFA_RXTX_UNMAP]);
    assert_eq!(err_code(&r), FFA_DENIED);
}

#[test]
fn partition_info_writes_rx_and_needs_release() {
    let mut p = init(false);
    let (r, _) = call(&mut p, 0, &[FFA_PARTITION_INFO_GET]);
    assert_eq!(err_code(&r), FFA_DENIED);
    call(&mut p, 0, &[FFA_RXTX_MAP, 0x4000_0000, 0x4000_1000, 1]);
    let (r, a) = call(&mut p, 0, &[FFA_PARTITION_INFO_GET]);
    assert_eq!(r.x[0], FFA_SUCCESS_32);
    assert_eq!(r.x[2], 2);
    match a {
        ProxyAction::WriteRx { rx_ipa, bytes } => {
            assert_eq!(rx_ipa, 0x4000_1000);
            assert_eq!(bytes.len(), 16);
            assert_eq!(&bytes[0..2], &[0x01, 0x80]);
        }
        _ => panic!("expected an RX write"),
    }
    let (r, _) = call(&mut p, 0, &[FFA_PARTITION_INFO_GET]);
    assert_eq!(err_code(&r), hypervisor::ffa::FFA_BUSY);
}

#[test]
fn direct_request_to_stub_partition_is_echoed() {
    let mut p = init(false);
    let (r, a) = call(&mut p, 0, &[FFA_MSG_SEND_DIRECT_REQ_32, (1 << 16) | 0x8001, 0, 11, 22, 33, 44, 55]);
    assert!(matches!(a, ProxyAction::Resume));
    assert_eq!(r.x[0], FFA_MSG_SEND_DIRECT_RESP_32);
    assert_eq!(r.x[1], (0x8001 << 16) | 1);
    assert_eq!(&r.x[3..8], &[11, 22, 33, 44, 55]);
    let (r, _) = call(&mut p, 0, &[FFA_MSG_SEND_DIRECT_REQ_32, (2 << 16) | 0x8001]);
    assert_eq!(err_code(&r), FFA_INVALID_PARAMETERS);
    let (r, _) = call(&mut p, 0, &[FFA_MSG_SEND_DIRECT_REQ_32, (1 << 16) | 0x8009]);
    assert_eq!(err_code(&r), FFA_INVALID_PARAMETERS);
}

/// MEM_SHARE VM0 -> VM1, RETRIEVE by VM1, RELINQUISH by VM1, RECLAIM by VM0.
#[test]
fn memory_share_lifecycle_between_vms() {
    let mut p = init(false);
    let (r, _) = call(&mut p, 0, &[FFA_MEM_SHARE_32, 0, 0, 0x5700_0000, 1, 2]);
    assert_eq!(r.x[0], FFA_SUCCESS_32);
    let handle = r.x[2] | (r.x[3] << 32);
    assert!(handle > 0);

    // Only the receiver may retrieve, and the sender may not reclaim while it is retrieved.
    let (r, _) = call(&mut p, 0, &[FFA_MEM_RETRIEVE_REQ_32, handle & 0xFFFF_FFFF, handle >> 32]);
    assert_eq!(err_code(&r), FFA_DENIED);
    let (r, _) = call(&mut p, 1, &[FFA_MEM_RETRIEVE_REQ_32, handle & 0xFFFF_FFFF, handle >> 32]);
    assert_eq!(r.x[0], FFA_MEM_RETRIEVE_RESP);
    assert_eq!(r.x[2] | (r.x[3] << 32), handle);
    let (r, _) = call(&mut p, 1, &[FFA_MEM_RETRIEVE_REQ_32, handle & 0xFFFF_FFFF, handle >> 32]);
    assert_eq!(err_code(&r), FFA_DENIED);
    let (r, _) = call(&mut p, 0, &[FFA_MEM_RECLAIM, handle & 0xFFFF_FFFF, handle >> 32]);
    assert_eq!(err_code(&r), FFA_DENIED);

    let (r, _) = call(&mut p, 1, &[FFA_MEM_RELINQUISH, handle & 0xFFFF_FFFF, handle >> 32]);
    assert_eq!(r.x[0], FFA_SUCCESS_32);
    let (r, _) = call(&mut p, 0, &[FFA_MEM_RECLAIM, handle & 0xFFFF_FFFF, handle >> 32]);
    assert_eq!(r.x[0], FFA_SUCCESS_32);
    // The handle is gone.
    let (r, _) = call(&mut p, 0, &[FFA_MEM_RECLAIM, handle & 0xFFFF_FFFF, handle >> 32]);
    assert_eq!(err_code(&r), FFA_INVALID_PARAMETERS);
}

#[test]
fn share_rejects_zero_pages_and_unknown_receiver() {
    let mut p = init(false);
    let (r, _) = call(&mut p, 0, &[FFA_MEM_LEND_32, 0, 0, 0x5700_0000, 0, 2]);
    assert_eq!(err_code(&r), FFA_INVALID_PARAMETERS);
    let (r, _) = call(&mut p, 0, &[FFA_MEM_SHARE_32, 0, 0, 0x5700_0000, 1, 0x7777]);
    assert_eq!(err_code(&r), FFA_INVALID_PARAMETERS);
    let (r, _) = call(&mut p, 0, &[FFA_MEM_SHARE_32, 0, 0, 0x5700_0000, 1, 0x8001]);
    assert_eq!(r.x[0], FFA_SUCCESS_32);
}

#[test]
fn descriptor_share_needs_matching_lengths() {
    let mut p = init(false);
    call(&mut p, 0, &[FFA_RXTX_MAP, 0x4000_0000, 0x4000_1000, 1]);
    let tx = vec![0u8; TX_BUF_BYTES];
    let mut r = regs(&[FFA_MEM_SHARE_32, 64, 32]);
    p.handle_ffa_call(0, &mut r, &tx, &mut no_tables());
    assert_eq!(err_code(&r), FFA_INVALID_PARAMETERS);
}

#[test]
fn notifications_bind_set_get() {
    let mut p = init(false);
    let (r, _) = call(&mut p, 0, &[FFA_NOTIFICATION_BITMAP_CREATE, 2]);
    assert_eq!(r.x[0], FFA_SUCCESS_32);
    // VM1 (receiver 2) binds sender 1 to bits 0 and 33.
    let (r, _) = call(&mut p, 0, &[FFA_NOTIFICATION_BIND, (1 << 16) | 2, 0, 1, 2]);
    assert_eq!(r.x[0], FFA_SUCCESS_32);
    let (r, _) = call(&mut p, 0, &[FFA_NOTIFICATION_SET, (1 << 16) | 2, 0, 1, 0]);
    assert_eq!(r.x[0], FFA_SUCCESS_32);
    let (r, _) = call(&mut p, 0, &[FFA_NOTIFICATION_GET, 2]);
    assert_eq!(r.x[0], FFA_SUCCESS_32);
    assert_eq!(r.x[2], 1);
    let (r, _) = call(&mut p, 0, &[FFA_NOTIFICATION_GET, 2]);
    assert_eq!(r.x[2], 0);
}

#[test]
fn indirect_message_send_and_wait() {
    let mut p = init(false);
    call(&mut p, 0, &[FFA_RXTX_MAP, 0x4000_0000, 0x4000_1000, 1]);
    call(&mut p, 1, &[FFA_RXTX_MAP, 0x6000_0000, 0x6000_1000, 1]);
    let (r, _) = call(&mut p, 1, &[FFA_MSG_WAIT]);
    assert_eq!(err_code(&r), FFA_NO_DATA);
    let mut tx = vec![0u8; TX_BUF_BYTES];
    tx[0] = 1; // sender: VM0
    tx[2] = 2; // receiver: VM1
    tx[4] = 5; // payload size
    let mut r = regs(&[FFA_MSG_SEND2]);
    let a = p.handle_ffa_call(0, &mut r, &tx, &mut no_tables());
    assert_eq!(r.x[0], FFA_SUCCESS_32);
    match a {
        ProxyAction::CopyMessage { from, to, len } => {
            assert_eq!(from, 0x4000_0000);
            assert_eq!(to, 0x6000_1000);
            assert_eq!(len, 13);
        }
        _ => panic!("expected a message copy"),
    }
    let (r, _) = call(&mut p, 1, &[FFA_MSG_WAIT]);
    assert_eq!(r.x[0], FFA_SUCCESS_32);
    assert_eq!(r.x[1], 1);
    // A second message waits for the receiver to release its buffer.
    let mut r = regs(&[FFA_MSG_SEND2]);
    p.handle_ffa_call(0, &mut r, &tx, &mut no_tables());
    assert_eq!(err_code(&r), hypervisor::ffa::FFA_BUSY);
}

#[test]
fn page_ownership_encoding() {
    assert_eq!(PageOwnership::from_bits(0), PageOwnership::Owned);
    assert_eq!(PageOwnership::from_bits(5), PageOwnership::SharedOwned);
    assert_eq!(PageOwnership::from_bits(2), PageOwnership::SharedBorrowed);
    assert_eq!(PageOwnership::from_bits(3), PageOwnership::Donated);
    assert_eq!(PageOwnership::SharedBorrowed.bits(), 2);
    assert_eq!(validate_page_for_share(0), Ok(()));
    assert_eq!(validate_page_for_share(1), Err(FFA_DENIED));
}

fn call_with(p: &mut FfaProxy, vm: usize, x: &[u64], s2: &mut VmStage2) -> GeneralPurposeRegs {
    let tx = vec![0u8; TX_BUF_BYTES];
    let mut r = regs(x);
    p.handle_ffa_call(vm, &mut r, &tx, s2);
    r
}

/// VM0 owns two pages at 0x4010_0000; VM1 has empty tables.
fn two_vms() -> (VmStage2, Stage2Walker, Stage2Walker) {
    let mut store = TableStore::new(0x8000_0000, 32);
    let mut m0 = DynamicIdentityMapper::new(&mut store);
    assert_eq!(m0.map_4kb_page(&mut store, 0x4010_0000, MemoryAttribute::Normal), Ok(()));
    assert_eq!(m0.map_4kb_page(&mut store, 0x4010_1000, MemoryAttribute::Normal), Ok(()));
    let m1 = DynamicIdentityMapper::new(&mut store);
    let w0 = Stage2Walker::from_vttbr(m0.vttbr());
    let w1 = Stage2Walker::from_vttbr(m1.vttbr());
    let mut s2 = VmStage2::new(store);
    s2.attach(0, &m0);
    s2.attach(1, &m1);
    (s2, w0, w1)
}

#[test]
fn share_marks_owner_pages_read_only_and_retrieve_maps_them() {
    let (mut s2, w0, w1) = two_vms();
    let mut p = init(false);
    assert_eq!(w0.read_sw_bits(&s2.store, 0x4010_0000), Some(0));
    let r = call_with(&mut p, 0, &[FFA_MEM_SHARE_32, 0, 0, 0x4010_0000, 2, 2], &mut s2);
    assert_eq!(r.x[0], FFA_SUCCESS_32);
    let handle = r.x[2] | (r.x[3] << 32);
    for ipa in [0x4010_0000u64, 0x4010_1000] {
        assert_eq!(w0.read_sw_bits(&s2.store, ipa), Some(1));
        assert_eq!(w0.read_s2ap(&s2.store, ipa), Some(1));
    }
    // The pages are no longer exclusively owned: a second share is denied.
    let r = call_with(&mut p, 0, &[FFA_MEM_SHARE_32, 0, 0, 0x4010_1000, 1, 2], &mut s2);
    assert_eq!(err_code(&r), FFA_DENIED);

    let r = call_with(&mut p, 1, &[FFA_MEM_RETRIEVE_REQ_32, handle & 0xFFFF_FFFF, handle >> 32], &mut s2);
    assert_eq!(r.x[0], FFA_MEM_RETRIEVE_RESP);
    for ipa in [0x4010_0000u64, 0x4010_1000] {
        assert_eq!(w1.read_sw_bits(&s2.store, ipa), Some(2));
        assert_eq!(w1.read_s2ap(&s2.store, ipa), Some(3));
    }
    let r = call_with(&mut p, 1, &[FFA_MEM_RELINQUISH, handle & 0xFFFF_FFFF, handle >> 32], &mut s2);
    assert_eq!(r.x[0], FFA_SUCCESS_32);
    assert_eq!(w1.read_sw_bits(&s2.store, 0x4010_0000), None);
    assert_eq!(w1.read_sw_bits(&s2.store, 0x4010_1000), None);

    let r = call_with(&mut p, 0, &[FFA_MEM_RECLAIM, handle & 0xFFFF_FFFF, handle >> 32], &mut s2);
    assert_eq!(r.x[0], FFA_SUCCESS_32);
    for ipa in [0x4010_0000u64, 0x4010_1000] {
        assert_eq!(w0.read_sw_bits(&s2.store, ipa), Some(0));
        assert_eq!(w0.read_s2ap(&s2.store, ipa), Some(3));
    }
}

#[test]
fn lend_removes_owner_access() {
    let (mut s2, w0, _w1) = two_vms();
    let mut p = init(false);
    let r = call_with(&mut p, 0, &[FFA_MEM_LEND_32, 0, 0, 0x4010_1000, 1, 2], &mut s2);
    assert_eq!(r.x[0], FFA_SUCCESS_32);
    assert_eq!(w0.read_sw_bits(&s2.store, 0x4010_1000), Some(1));
    assert_eq!(w0.read_s2ap(&s2.store, 0x4010_1000), Some(0));
    // The other page is untouched.
    assert_eq!(w0.read_sw_bits(&s2.store, 0x4010_0000), Some(0));
}

#[test]
fn share_of_unmapped_page_is_denied_and_changes_nothing() {
    let (mut s2, w0, _w1) = two_vms();
    let mut p = init(false);
    let r = call_with(&mut p, 0, &[FFA_MEM_SHARE_32, 0, 0, 0x4010_1000, 2, 2], &mut s2);
    assert_eq!(err_code(&r), FFA_DENIED);
    assert_eq!(w0.read_sw_bits(&s2.store, 0x4010_1000), Some(0));
    assert_eq!(w0.read_s2ap(&s2.store, 0x4010_1000), w0.read_s2ap(&s2.store, 0x4010_0000));
}

#[test]
fn retrieve_that_cannot_map_is_denied_and_rolled_back() {
    let mut store = TableStore::new(0x8000_0000, 32);
    let mut m0 = DynamicIdentityMapper::new(&mut store);
    assert_eq!(m0.map_4kb_page(&mut store, 0x4010_0000, MemoryAttribute::Normal), Ok(()));
    assert_eq!(m0.map_4kb_page(&mut store, 0x4010_1000, MemoryAttribute::Normal), Ok(()));
    let mut m1 = DynamicIdentityMapper::new(&mut store);
    // The receiver already maps the second page.
    assert_eq!(m1.map_4kb_page(&mut store, 0x4010_1000, MemoryAttribute::Normal), Ok(()));
    let w1 = Stage2Walker::from_vttbr(m1.vttbr());
    let mut s2 = VmStage2::new(store);
    s2.attach(0, &m0);
    s2.attach(1, &m1);
    let mut p = init(false);
    let r = call_with(&mut p, 0, &[FFA_MEM_SHARE_32, 0, 0, 0x4010_0000, 2, 2], &mut s2);
    assert_eq!(r.x[0], FFA_SUCCESS_32);
    let handle = r.x[2] | (r.x[3] << 32);
    let r = call_with(&mut p, 1, &[FFA_MEM_RETRIEVE_REQ_32, handle & 0xFFFF_FFFF, handle >> 32], &mut s2);
    assert_eq!(err_code(&r), FFA_DENIED);
    assert_eq!(w1.read_sw_bits(&s2.store, 0x4010_0000), None);
    // Not retrieved: relinquish is refused, reclaim is allowed.
    let r = call_with(&mut p, 1, &[FFA_MEM_RELINQUISH, handle & 0xFFFF_FFFF, handle >> 32], &mut s2);
    assert_eq!(err_code(&r), FFA_DENIED);
    let r = call_with(&mut p, 0, &[FFA_MEM_RECLAIM, handle & 0xFFFF_FFFF, handle >> 32], &mut s2);
    assert_eq!(r.x[0], FFA_SUCCESS_32);
}
