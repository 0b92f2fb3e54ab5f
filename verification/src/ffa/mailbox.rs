//! Per-VM RX/TX buffer registration (FFA_RXTX_MAP) and indirect-message
//! state.

use vstd::prelude::*;

verus! {

/// The RX/TX buffers a VM registered, and who holds its RX buffer.
#[derive(Clone, Copy, Debug)]
pub struct FfaMailbox {
    /// TX buffer (the VM writes, the proxy reads).
    pub tx_ipa: u64,
    /// RX buffer (the proxy writes, the VM reads).
    pub rx_ipa: u64,
    /// Size of each buffer in pages.
    pub page_count: u32,
    /// Buffers are registered.
    pub mapped: bool,
    /// The proxy may write the RX buffer (the VM released it).
    pub rx_held_by_proxy: bool,
    /// An indirect message waits in the RX buffer.
    pub msg_pending: bool,
    /// Sender of that message.
    pub msg_sender_id: u16,
}

/// A mailbox with nothing registered.
pub open spec fn spec_mailbox_new() -> FfaMailbox {
    FfaMailbox {
        tx_ipa: 0,
        rx_ipa: 0,
        page_count: 0,
        mapped: false,
        rx_held_by_proxy: true,
        msg_pending: false,
        msg_sender_id: 0,
    }
}

impl FfaMailbox {
    /// Nothing registered; the proxy holds the RX buffer.
    pub fn new() -> (r: Self)
        ensures
            r == spec_mailbox_new(),
    {
        FfaMailbox {
            tx_ipa: 0,
            rx_ipa: 0,
            page_count: 0,
            mapped: false,
            rx_held_by_proxy: true,
            msg_pending: false,
            msg_sender_id: 0,
        }
    }
}

} // verus!
