//! Results of SMCs forwarded to EL3, and the decision whether a real SPMC
//! sits behind EL3.

use vstd::prelude::*;

verus! {

/// x0-x3 returned by an SMC.
#[derive(Clone, Copy, Debug, PartialEq, Eq, Structural)]
pub struct SmcResult {
    pub x0: u64,
    pub x1: u64,
    pub x2: u64,
    pub x3: u64,
}

/// x0-x7 returned by an SMC.
#[derive(Clone, Copy, Debug, PartialEq, Eq, Structural)]
pub struct SmcResult8 {
    pub x0: u64,
    pub x1: u64,
    pub x2: u64,
    pub x3: u64,
    pub x4: u64,
    pub x5: u64,
    pub x6: u64,
    pub x7: u64,
}

/// PSCI_VERSION, the probe EL3 always answers.
pub const PSCI_VERSION_FID: u64 = 0x8400_0000;

/// Whether a real SPMC answers FF-A calls, given what EL3 returned in x0
/// for PSCI_VERSION. An EL3 that does not know PSCI has no SPMC; the
/// QEMU firmware faults on an unknown SMC such as FFA_VERSION, so it is
/// never probed and no SPMC is assumed either way.
pub fn probe_spmc(psci_version_x0: u64) -> (r: bool)
    ensures
        !r,
{
    if psci_version_x0 == 0xFFFF_FFFF_FFFF_FFFF || psci_version_x0 == 0xFFFF_FFFF {
        return false;
    }
    false
}

} // verus!
