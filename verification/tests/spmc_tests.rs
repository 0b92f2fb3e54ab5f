use hypervisor::ffa::smc_forward::SmcResult8;
use hypervisor::ffa::{
    FFA_BUSY, FFA_CONSOLE_LOG_32, FFA_DENIED, FFA_ERROR, FFA_FEATURES, FFA_FEATURE_NPI, FFA_FEATURE_SRI,
    FFA_FWK_MSG_BIT, FFA_ID_GET, FFA_INVALID_PARAMETERS, FFA_MEM_DONATE_32, FFA_MEM_FRAG_RX, FFA_MEM_FRAG_TX,
    FFA_MEM_LEND_32, FFA_MEM_RECLAIM, FFA_MEM_RELINQUISH, FFA_MEM_RETRIEVE_REQ_32, FFA_MEM_RETRIEVE_RESP,
    FFA_MEM_SHARE_32, FFA_MSG_SEND2, FFA_MSG_SEND_DIRECT_REQ_32, FFA_MSG_SEND_DIRECT_REQ_64,
    FFA_MSG_SEND_DIRECT_RESP_32, FFA_MSG_SEND_DIRECT_RESP_64, FFA_MSG_WAIT, FFA_NOTIFICATION_BITMAP_CREATE,
    FFA_NOTIFICATION_BIND, FFA_NOTIFICATION_GET, FFA_NOTIFICATION_INFO_GET_64, FFA_NOTIFICATION_SET, FFA_NOT_SUPPORTED, FFA_NO_DATA, FFA_NO_MEMORY,
    FFA_PARTITION_INFO_GET, FFA_RUN, FFA_RXTX_MAP, FFA_RXTX_UNMAP, FFA_RX_RELEASE, FFA_SPMC_ID, FFA_SPM_ID_GET,
    FFA_SUCCESS_32, FFA_VERSION, FFA_VERSION_1_1, NPI_INTID, SPMD_FWK_MSG_FFA_VERSION_REQ,
    SPMD_FWK_MSG_FFA_VERSION_RESP, SRI_INTID,
};
use hypervisor::sp_context::{register_sp, SpContext, SpState, SpStore};
use hypervisor::spmc_handler::{
    current_running_sp, dispatch_ffa, dispatch_ffa_as_sp, make_error, make_success, record_spmc_share,
    reset_nwd_frag_state, set_current_running_sp, SpmcState, SPMC_BUF_SIZE,
};

fn req(x: &[u64]) -> SmcResult8 {
    let mut v = [0u64; 8];
    for (i, a) in x.iter().enumerate() {
        v[i] = *a;
    }
    SmcResult8 { x0: v[0], x1: v[1], x2: v[2], x3: v[3], x4: v[4], x5: v[5], x6: v[6], x7: v[7] }
}

fn state_with(ids: &[u16]) -> SpmcState {
    let mut store = SpStore::new();
    for id in ids {
        assert!(register_sp(&mut store, SpContext::new(*id, 0x1000, 0x2000, [0; 4])).is_ok());
    }
    SpmcState::new(store)
}

fn call(s: &mut SpmcState, x: &[u64]) -> SmcResult8 {
    let tx = vec![0u8; SPMC_BUF_SIZE];
    dispatch_ffa(s, &req(x), &tx)
}

fn call_as(s: &mut SpmcState, sp: u16, x: &[u64]) -> SmcResult8 {
    let tx = vec![0u8; SPMC_BUF_SIZE];
    dispatch_ffa_as_sp(s, &req(x), sp, 0, &tx)
}

fn err(code: i32) -> SmcResult8 {
    make_error(code as u64)
}

#[test]
fn spmc_version_and_ids() {
    let mut s = state_with(&[]);
    assert_eq!(call(&mut s, &[FFA_VERSION]).x0, FFA_VERSION_1_1 as u64);
    let r = call(&mut s, &[FFA_ID_GET]);
    assert_eq!((r.x0, r.x2), (FFA_SUCCESS_32, FFA_SPMC_ID as u64));
    let r = call(&mut s, &[FFA_SPM_ID_GET]);
    assert_eq!((r.x0, r.x2), (FFA_SUCCESS_32, 0x8000));
}

#[test]
fn spmc_features() {
    let mut s = state_with(&[]);
    let r = call(&mut s, &[FFA_FEATURES, FFA_FEATURE_NPI]);
    assert_eq!((r.x0, r.x2), (FFA_SUCCESS_32, NPI_INTID as u64));
    let r = call(&mut s, &[FFA_FEATURES, FFA_FEATURE_SRI]);
    assert_eq!((r.x0, r.x2), (FFA_SUCCESS_32, SRI_INTID as u64));
    assert_eq!(call(&mut s, &[FFA_FEATURES, FFA_MEM_SHARE_32]), make_success());
    assert_eq!(call(&mut s, &[FFA_FEATURES, FFA_CONSOLE_LOG_32]), make_success());
    assert_eq!(call(&mut s, &[FFA_FEATURES, 0x8400_0099]), err(FFA_NOT_SUPPORTED));
    assert_eq!(err(FFA_NOT_SUPPORTED).x2, 0xFFFF_FFFF_FFFF_FFFF);
}

#[test]
fn spmc_unknown_and_msg_wait() {
    let mut s = state_with(&[]);
    assert_eq!(call(&mut s, &[0x8400_00FF]), err(FFA_NOT_SUPPORTED));
    assert_eq!(call(&mut s, &[FFA_MSG_WAIT]), err(FFA_NO_DATA));
}

#[test]
fn spmc_rxtx_lifecycle() {
    let mut s = state_with(&[]);
    assert_eq!(call(&mut s, &[FFA_RX_RELEASE]), err(FFA_DENIED));
    assert_eq!(call(&mut s, &[FFA_RXTX_UNMAP]), err(FFA_DENIED));
    assert_eq!(call(&mut s, &[FFA_RXTX_MAP, 0x4000_0800, 0x4000_1000, 1]), err(FFA_INVALID_PARAMETERS));
    assert_eq!(call(&mut s, &[FFA_RXTX_MAP, 0x4000_0000, 0x4000_1000, 0]), err(FFA_INVALID_PARAMETERS));
    assert_eq!(call(&mut s, &[FFA_RXTX_MAP, 0x4000_0000, 0x4000_1000, 1]), make_success());
    assert_eq!(call(&mut s, &[FFA_RXTX_MAP, 0x5000_0000, 0x5000_1000, 1]), make_success());
    assert_eq!(call(&mut s, &[FFA_RX_RELEASE]), make_success());
    assert_eq!(call(&mut s, &[FFA_RXTX_UNMAP]), make_success());
    assert_eq!(call(&mut s, &[FFA_RXTX_UNMAP]), err(FFA_DENIED));
}

#[test]
fn spmc_partition_info_counts_partitions() {
    let mut s = state_with(&[0x8001, 0x8002]);
    let r = call(&mut s, &[FFA_PARTITION_INFO_GET]);
    assert_eq!((r.x0, r.x2, r.x3), (FFA_SUCCESS_32, 2, 24));
}

#[test]
fn spmc_direct_req_echo_and_framework_version() {
    let mut s = state_with(&[]);
    let r = call(&mut s, &[FFA_MSG_SEND_DIRECT_REQ_64, 0x0001_8000, 0, 1, 2, 3, 4, 5]);
    assert_eq!(r, req(&[FFA_MSG_SEND_DIRECT_RESP_64, 0x8000_0001, 0, 1, 2, 3, 4, 5]));
    let r = call(&mut s, &[FFA_MSG_SEND_DIRECT_REQ_32, 0xFFFF_8000, FFA_FWK_MSG_BIT | SPMD_FWK_MSG_FFA_VERSION_REQ, 0x10001]);
    assert_eq!(r, req(&[FFA_MSG_SEND_DIRECT_RESP_32, 0x8000_FFFF, FFA_FWK_MSG_BIT | SPMD_FWK_MSG_FFA_VERSION_RESP, 0x10001]));
    let r = call(&mut s, &[FFA_MSG_SEND_DIRECT_REQ_32, 0xFFFF_8000, FFA_FWK_MSG_BIT | 0x3]);
    assert_eq!(r, err(FFA_NOT_SUPPORTED));
}

#[test]
fn spmc_share_retrieve_relinquish_reclaim() {
    let mut s = state_with(&[0x8001]);
    let r = call(&mut s, &[FFA_MEM_SHARE_32, 0x0001_0000, 0, 0x4000_0000, 4, 0x8001]);
    assert_eq!((r.x0, r.x2, r.x3), (FFA_SUCCESS_32, 1, 0));
    let r = call(&mut s, &[FFA_MEM_RETRIEVE_REQ_32, 1, 0]);
    assert_eq!((r.x0, r.x1, r.x2), (FFA_MEM_RETRIEVE_RESP, 96, 96));
    assert_eq!(call(&mut s, &[FFA_MEM_RETRIEVE_REQ_32, 1, 0]), err(FFA_DENIED));
    assert_eq!(call(&mut s, &[FFA_MEM_RECLAIM, 1, 0]), err(FFA_DENIED));
    assert_eq!(call(&mut s, &[FFA_MEM_RELINQUISH, 1, 0]), make_success());
    assert_eq!(call(&mut s, &[FFA_MEM_RELINQUISH, 1, 0]), err(FFA_DENIED));
    assert_eq!(call(&mut s, &[FFA_MEM_RECLAIM, 1, 0]), make_success());
    assert_eq!(call(&mut s, &[FFA_MEM_RECLAIM, 1, 0]), err(FFA_INVALID_PARAMETERS));
    assert_eq!(call(&mut s, &[FFA_MEM_RETRIEVE_REQ_32, 1, 0]), err(FFA_INVALID_PARAMETERS));
    let r = call(&mut s, &[FFA_MEM_LEND_32, 0x0001_0000, 0, 0x4000_0000, 1, 0x8001]);
    assert_eq!((r.x0, r.x2), (FFA_SUCCESS_32, 2));
}

#[test]
fn spmc_share_rejects_bad_requests() {
    let mut s = state_with(&[0x8001]);
    assert_eq!(call(&mut s, &[FFA_MEM_SHARE_32, 0x0001_0000, 0, 0x4000_0000, 0, 0x8001]), err(FFA_INVALID_PARAMETERS));
    assert_eq!(call(&mut s, &[FFA_MEM_SHARE_32, 0x0001_0000, 0, 0x4000_0000, 1, 0x8002]), err(FFA_INVALID_PARAMETERS));
    assert_eq!(call(&mut s, &[FFA_MEM_SHARE_32, 0x0001_0000, 0, 0x4000_0010, 1, 0x8001]), err(FFA_INVALID_PARAMETERS));
    assert_eq!(call(&mut s, &[FFA_MEM_SHARE_32, 0x0001_0000, 0, 0x4000_0000, 65537, 0x8001]), err(FFA_INVALID_PARAMETERS));
    assert_eq!(call(&mut s, &[FFA_MEM_SHARE_32, 0x0001_0000, 0, 0xFFFF_FFFF_FFFF_F000, 2, 0x8001]), err(FFA_INVALID_PARAMETERS));
}

#[test]
fn spmc_share_table_fills_up() {
    let mut s = state_with(&[0x8001]);
    for i in 0..16u64 {
        let r = call(&mut s, &[FFA_MEM_SHARE_32, 0x0001_0000, 0, 0x4000_0000, 1, 0x8001]);
        assert_eq!((r.x0, r.x2), (FFA_SUCCESS_32, i + 1));
    }
    assert_eq!(call(&mut s, &[FFA_MEM_SHARE_32, 0x0001_0000, 0, 0x4000_0000, 1, 0x8001]), err(FFA_NO_MEMORY));
}

#[test]
fn spmc_donated_memory_cannot_come_back() {
    let mut s = state_with(&[0x8001]);
    let r = call(&mut s, &[FFA_MEM_DONATE_32, 0x0001_0000, 0, 0x4000_0000, 1, 0x8001]);
    assert_eq!(r.x0, FFA_SUCCESS_32);
    assert_eq!(call(&mut s, &[FFA_MEM_RECLAIM, r.x2, r.x3]), err(FFA_DENIED));
    let r2 = call(&mut s, &[FFA_MEM_RETRIEVE_REQ_32, r.x2, r.x3]);
    assert_eq!(r2.x0, FFA_MEM_RETRIEVE_RESP);
    assert_eq!(call(&mut s, &[FFA_MEM_RELINQUISH, r.x2, r.x3]), err(FFA_DENIED));
}

#[test]
fn spmc_partition_share_and_retrieve() {
    let mut s = state_with(&[0x8001, 0x8002]);
    let r = call_as(&mut s, 0x8001, &[FFA_MEM_SHARE_32, 0x8001_0000, 0, 0x6000_0000, 2, 0x8002]);
    assert_eq!((r.x0, r.x2), (FFA_SUCCESS_32, 1));
    assert_eq!(call_as(&mut s, 0x8001, &[FFA_MEM_SHARE_32, 0x8002_0000, 0, 0x6000_0000, 2, 0x8002]), err(FFA_INVALID_PARAMETERS));
    assert_eq!(call_as(&mut s, 0x8001, &[FFA_MEM_SHARE_32, 0x8001_0000, 0, 0x6000_0000, 2, 0x8001]), err(FFA_INVALID_PARAMETERS));
    assert_eq!(call_as(&mut s, 0x8001, &[FFA_MEM_RETRIEVE_REQ_32, 1, 0]), err(FFA_DENIED));
    let r = call_as(&mut s, 0x8002, &[FFA_MEM_RETRIEVE_REQ_32, 1, 0]);
    assert_eq!((r.x0, r.x1), (FFA_MEM_RETRIEVE_RESP, 96));
    assert_eq!(call_as(&mut s, 0x8001, &[FFA_MEM_RELINQUISH, 1, 0]), err(FFA_DENIED));
    assert_eq!(call_as(&mut s, 0x8002, &[FFA_MEM_RECLAIM, 1, 0]), err(FFA_DENIED));
    assert_eq!(call_as(&mut s, 0x8002, &[FFA_MEM_RELINQUISH, 1, 0]), make_success());
    assert_eq!(call_as(&mut s, 0x8001, &[FFA_MEM_RECLAIM, 1, 0]), make_success());
    assert_eq!(call_as(&mut s, 0x8001, &[FFA_MEM_RECLAIM, 1, 0]), err(FFA_INVALID_PARAMETERS));
}

#[test]
fn spmc_partition_direct_request_checks() {
    let mut s = state_with(&[0x8001, 0x8002]);
    assert_eq!(call_as(&mut s, 0x8001, &[FFA_MSG_SEND_DIRECT_REQ_32, 0x8002_8001]), err(FFA_INVALID_PARAMETERS));
    assert_eq!(call_as(&mut s, 0x8001, &[FFA_MSG_SEND_DIRECT_REQ_32, 0x8001_8001]), err(FFA_INVALID_PARAMETERS));
    assert_eq!(call_as(&mut s, 0x8001, &[FFA_MSG_SEND_DIRECT_REQ_32, 0x8001_8003]), err(FFA_INVALID_PARAMETERS));
    assert_eq!(call_as(&mut s, 0x8001, &[FFA_MSG_SEND_DIRECT_REQ_32, 0x8001_8002]), err(FFA_DENIED));
    assert_eq!(call_as(&mut s, 0x8001, &[FFA_VERSION]).x0, FFA_VERSION_1_1 as u64);
}

#[test]
fn spmc_msg_send2_to_partition() {
    let mut s = state_with(&[0x8001]);
    let mut tx = vec![0u8; SPMC_BUF_SIZE];
    tx[0..2].copy_from_slice(&1u16.to_le_bytes());
    tx[2..4].copy_from_slice(&0x8001u16.to_le_bytes());
    tx[4..8].copy_from_slice(&4u32.to_le_bytes());
    tx[8..12].copy_from_slice(b"ping");
    let q = req(&[FFA_MSG_SEND2]);
    assert_eq!(dispatch_ffa(&mut s, &q, &tx), err(FFA_DENIED));
    assert_eq!(call(&mut s, &[FFA_RXTX_MAP, 0x4000_0000, 0x4000_1000, 1]), make_success());
    assert_eq!(dispatch_ffa(&mut s, &q, &tx), make_success());
    assert_eq!(dispatch_ffa(&mut s, &q, &tx), err(FFA_BUSY));
    tx[2..4].copy_from_slice(&0x8002u16.to_le_bytes());
    assert_eq!(dispatch_ffa(&mut s, &q, &tx), err(FFA_INVALID_PARAMETERS));
    tx[2..4].copy_from_slice(&0x9000u16.to_le_bytes());
    assert_eq!(dispatch_ffa(&mut s, &q, &tx), err(FFA_INVALID_PARAMETERS));
}

#[test]
fn spmc_console_log() {
    let mut s = state_with(&[]);
    assert_eq!(call(&mut s, &[FFA_CONSOLE_LOG_32, 0]), err(FFA_INVALID_PARAMETERS));
    assert_eq!(call(&mut s, &[FFA_CONSOLE_LOG_32, 49]), err(FFA_INVALID_PARAMETERS));
    let hello = u64::from_le_bytes(*b"Hello\0!\0");
    assert_eq!(call(&mut s, &[FFA_CONSOLE_LOG_32, 8, hello]), make_success());
    let world = u64::from_le_bytes(*b" world\0\0");
    assert_eq!(call(&mut s, &[FFA_CONSOLE_LOG_32, 9, world, 0x0A]), make_success());
    assert_eq!(s.take_console(), b"Hello! world\n".to_vec());
    assert!(s.take_console().is_empty());
}

#[test]
fn spmc_notifications() {
    let mut s = state_with(&[]);
    assert_eq!(call(&mut s, &[FFA_NOTIFICATION_BITMAP_CREATE, 1]), make_success());
    assert_eq!(call(&mut s, &[FFA_NOTIFICATION_BITMAP_CREATE, 1]), err(FFA_DENIED));
    let r = call(&mut s, &[FFA_NOTIFICATION_GET, 1]);
    assert_eq!((r.x0, r.x2), (FFA_SUCCESS_32, 0));
    assert_eq!(call(&mut s, &[FFA_NOTIFICATION_INFO_GET_64]), err(FFA_NO_DATA));
}

#[test]
fn spmc_fragments_without_transfer() {
    let mut s = state_with(&[]);
    assert_eq!(call(&mut s, &[FFA_MEM_FRAG_TX, 1, 0, 16]), err(FFA_INVALID_PARAMETERS));
    assert_eq!(call(&mut s, &[FFA_MEM_FRAG_RX, 1, 0, 0]), err(FFA_INVALID_PARAMETERS));
    reset_nwd_frag_state(&mut s);
    assert_eq!(call(&mut s, &[FFA_MEM_FRAG_TX, 0, 0, 16]), err(FFA_INVALID_PARAMETERS));
}

#[test]
fn spmc_run_checks_partition_state() {
    let mut store = SpStore::new();
    let mut sp = SpContext::new(0x8001, 0x1000, 0x2000, [0; 4]);
    assert!(sp.transition_to(SpState::Idle).is_ok());
    assert!(sp.transition_to(SpState::Running).is_ok());
    assert!(sp.transition_to(SpState::Preempted).is_ok());
    assert!(register_sp(&mut store, sp).is_ok());
    assert!(register_sp(&mut store, SpContext::new(0x8002, 0x1000, 0x2000, [0; 4])).is_ok());
    let mut s = SpmcState::new(store);
    assert_eq!(call(&mut s, &[FFA_RUN, 0x8003_0000]), err(FFA_INVALID_PARAMETERS));
    assert_eq!(call(&mut s, &[FFA_RUN, 0x8002_0000]), err(FFA_DENIED));
    assert_eq!(call(&mut s, &[FFA_RUN, 0x8001_0000]), err(FFA_NOT_SUPPORTED));
}

#[test]
fn spmc_record_share_limits_and_running_sp() {
    let mut s = state_with(&[0x8001]);
    let five = [(0x4000_0000u64, 1u32); 5];
    assert_eq!(record_spmc_share(&mut s, 1, 0x8001, &five, false, false), None);
    assert_eq!(record_spmc_share(&mut s, 1, 0x8001, &five[..4], false, false), Some(1));
    let r = call(&mut s, &[FFA_MEM_RETRIEVE_REQ_32, 1, 0]);
    assert_eq!((r.x0, r.x1), (FFA_MEM_RETRIEVE_RESP, 144));
    assert_eq!(current_running_sp(&s, 3), 0);
    set_current_running_sp(&mut s, 3, 0x8001);
    assert_eq!(current_running_sp(&s, 3), 0x8001);
    assert_eq!(make_error(5).x0, FFA_ERROR);
}

#[test]
fn spmc_share_then_reclaim() {
    let mut s = state_with(&[0x8001]);
    let r = call(&mut s, &[FFA_MEM_SHARE_32, 0x0001_0000, 0, 0x4000_0000, 2, 0x8001]);
    assert_eq!(r.x0, FFA_SUCCESS_32);
    assert_eq!(call(&mut s, &[FFA_MEM_RECLAIM, r.x2, r.x3]), make_success());
    assert_eq!(call(&mut s, &[FFA_MEM_RETRIEVE_REQ_32, r.x2, r.x3]), err(FFA_INVALID_PARAMETERS));
    assert_eq!(call(&mut s, &[FFA_MEM_RECLAIM, r.x2, r.x3]), err(FFA_INVALID_PARAMETERS));
}

#[test]
fn spmc_notification_set_then_get() {
    let mut s = state_with(&[0x8001]);
    assert_eq!(call(&mut s, &[FFA_NOTIFICATION_BITMAP_CREATE, 1]), make_success());
    assert_eq!(call(&mut s, &[FFA_NOTIFICATION_SET, 0x8001_0001, 0, 0b101]), err(FFA_DENIED));
    assert_eq!(call(&mut s, &[FFA_NOTIFICATION_BIND, 0x8001_0001, 0, 0b111]), make_success());
    assert_eq!(call(&mut s, &[FFA_NOTIFICATION_SET, 0x8001_0001, 0, 0b101]), make_success());
    let r = call(&mut s, &[FFA_NOTIFICATION_INFO_GET_64]);
    assert_eq!((r.x0, r.x2, r.x3), (FFA_SUCCESS_32, 1, 1));
    let r = call(&mut s, &[FFA_NOTIFICATION_GET, 1]);
    assert_eq!((r.x0, r.x2), (FFA_SUCCESS_32, 0b101));
    let r = call(&mut s, &[FFA_NOTIFICATION_GET, 1]);
    assert_eq!((r.x0, r.x2), (FFA_SUCCESS_32, 0));
}
