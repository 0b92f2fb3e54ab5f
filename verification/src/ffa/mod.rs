//! FF-A v1.1 constants, partition-ID helpers and the proxy/SPMC state machines.

pub mod descriptors;
pub mod mailbox;
pub mod memory;
pub mod notifications;
pub mod page_ranges;
pub mod proxy;
pub mod smc_forward;
pub mod stage2_walker;
pub mod stub_spmc;

use vstd::prelude::*;

verus! {

// ── FF-A function IDs ───────────────────────────────────────────────
pub const FFA_ERROR: u64 = 0x8400_0060;
pub const FFA_SUCCESS_32: u64 = 0x8400_0061;
pub const FFA_INTERRUPT: u64 = 0x8400_0062;
pub const FFA_VERSION: u64 = 0x8400_0063;
pub const FFA_FEATURES: u64 = 0x8400_0064;
pub const FFA_RX_RELEASE: u64 = 0x8400_0065;
pub const FFA_RXTX_MAP: u64 = 0xC400_0066;
pub const FFA_RXTX_UNMAP: u64 = 0x8400_0067;
pub const FFA_PARTITION_INFO_GET: u64 = 0x8400_0068;
pub const FFA_ID_GET: u64 = 0x8400_0069;
pub const FFA_MSG_WAIT: u64 = 0x8400_006B;
pub const FFA_RUN: u64 = 0x8400_006D;
pub const FFA_MSG_SEND_DIRECT_REQ_32: u64 = 0x8400_006F;
pub const FFA_MSG_SEND_DIRECT_REQ_64: u64 = 0xC400_006F;
pub const FFA_MSG_SEND_DIRECT_RESP_32: u64 = 0x8400_0070;
pub const FFA_MSG_SEND_DIRECT_RESP_64: u64 = 0xC400_0070;
pub const FFA_MEM_DONATE_32: u64 = 0x8400_0071;
pub const FFA_MEM_DONATE_64: u64 = 0xC400_0071;
pub const FFA_MEM_LEND_32: u64 = 0x8400_0072;
pub const FFA_MEM_LEND_64: u64 = 0xC400_0072;
pub const FFA_MEM_SHARE_32: u64 = 0x8400_0073;
pub const FFA_MEM_SHARE_64: u64 = 0xC400_0073;
pub const FFA_MEM_RETRIEVE_REQ_32: u64 = 0x8400_0074;
pub const FFA_MEM_RETRIEVE_REQ_64: u64 = 0xC400_0074;
pub const FFA_MEM_RETRIEVE_RESP: u64 = 0x8400_0075;
pub const FFA_MEM_RELINQUISH: u64 = 0x8400_0076;
pub const FFA_MEM_RECLAIM: u64 = 0x8400_0077;
pub const FFA_MEM_FRAG_RX: u64 = 0x8400_007A;
pub const FFA_MEM_FRAG_TX: u64 = 0x8400_007B;
pub const FFA_NOTIFICATION_BITMAP_CREATE: u64 = 0x8400_007D;
pub const FFA_NOTIFICATION_BITMAP_DESTROY: u64 = 0x8400_007E;
pub const FFA_NOTIFICATION_BIND: u64 = 0x8400_007F;
pub const FFA_NOTIFICATION_UNBIND: u64 = 0x8400_0080;
pub const FFA_NOTIFICATION_SET: u64 = 0x8400_0081;
pub const FFA_NOTIFICATION_GET: u64 = 0x8400_0082;
pub const FFA_NOTIFICATION_INFO_GET_32: u64 = 0x8400_0083;
pub const FFA_NOTIFICATION_INFO_GET_64: u64 = 0xC400_0083;
pub const FFA_SPM_ID_GET: u64 = 0x8400_0085;
pub const FFA_MSG_SEND2: u64 = 0x8400_0086;
pub const FFA_CONSOLE_LOG_32: u64 = 0x8400_008A;
pub const FFA_CONSOLE_LOG_64: u64 = 0xC400_008A;

/// Feature IDs that FFA_FEATURES answers with an interrupt number.
pub const FFA_FEATURE_NPI: u64 = 0x1;
pub const FFA_FEATURE_SRI: u64 = 0x3;
/// SGIs donated to the notification pending / schedule receiver interrupts.
pub const NPI_INTID: u32 = 8;
pub const SRI_INTID: u32 = 9;

/// Bit 31 of x2 in a direct request marks a framework message.
pub const FFA_FWK_MSG_BIT: u64 = 0x8000_0000;
/// Framework message: the SPMD forwards a Normal World FFA_VERSION.
pub const SPMD_FWK_MSG_FFA_VERSION_REQ: u64 = 0x8;
/// Framework message: the answer to `SPMD_FWK_MSG_FFA_VERSION_REQ`.
pub const SPMD_FWK_MSG_FFA_VERSION_RESP: u64 = 0x9;

/// FF-A version 1.1 (major 1, minor 1).
pub const FFA_VERSION_1_1: u32 = 0x0001_0001;
/// Partition ID of the SPMC itself.
pub const FFA_SPMC_ID: u16 = 0x8000;
/// Number of Normal World VM endpoints tracked by the proxy.
pub const FFA_MAX_VMS: usize = 4;

// ── FF-A error codes ────────────────────────────────────────────────
pub const FFA_NOT_SUPPORTED: i32 = -1;
pub const FFA_INVALID_PARAMETERS: i32 = -2;
pub const FFA_NO_MEMORY: i32 = -3;
pub const FFA_BUSY: i32 = -4;
pub const FFA_DENIED: i32 = -6;
pub const FFA_NO_DATA: i32 = -9;

/// Partition ID of a Normal World VM: VM `n` is partition `n + 1`.
pub open spec fn spec_vm_partition_id(vm_id: int) -> int {
    vm_id + 1
}

/// FF-A partition ID of VM `vm_id` (VM 0 is partition 1).
pub fn vm_id_to_partition_id(vm_id: usize) -> (r: u16)
    requires
        vm_id < 0xFFFF,
    ensures
        r == vm_id + 1,
{
    (vm_id + 1) as u16
}

/// VM index of a partition ID: partitions `1..=FFA_MAX_VMS` are VMs.
pub open spec fn spec_partition_vm(part_id: u16) -> Option<usize> {
    if 1 <= part_id && part_id <= FFA_MAX_VMS {
        Some((part_id - 1) as usize)
    } else {
        None
    }
}

/// VM index of a partition ID, or `None` for a non-VM partition.
pub fn partition_id_to_vm_id(part_id: u16) -> (r: Option<usize>)
    ensures
        r == spec_partition_vm(part_id),
{
    if part_id >= 1 && part_id as usize <= FFA_MAX_VMS {
        Some((part_id - 1) as usize)
    } else {
        None
    }
}

/// Whether a partition ID names a Normal World VM.
pub fn is_vm_partition(part_id: u16) -> (r: bool)
    ensures
        r == spec_partition_vm(part_id).is_some(),
{
    part_id >= 1 && part_id as usize <= FFA_MAX_VMS
}

} // verus!
