//! Per-vCPU architectural state saved and restored on a context switch:
//! the GICv3 virtual interface, the virtual timer, the vCPU's identity and
//! the EL1 system registers.

use vstd::prelude::*;

verus! {

/// List registers saved per vCPU.
pub const NUM_LRS: usize = 4;

/// ICH_HCR_EL2 for a vCPU: TALL1 (trap SGI generation) and En.
pub const VCPU_ICH_HCR: u64 = 0x2001;
/// ICH_VMCR_EL2 for a vCPU: VPMR = 0xFF (all priorities), VENG1 = 1.
pub const VCPU_ICH_VMCR: u64 = 0xFF00_0002;

/// Saved architectural state of one vCPU.
#[derive(Clone, Copy, Debug)]
pub struct VcpuArchState {
    pub ich_lr: [u64; 4],
    pub ich_vmcr: u64,
    pub ich_hcr: u64,
    pub cntv_ctl: u64,
    pub cntv_cval: u64,
    pub vmpidr: u64,
    pub sctlr_el1: u64,
    pub ttbr0_el1: u64,
    pub ttbr1_el1: u64,
    pub tcr_el1: u64,
    pub mair_el1: u64,
    pub vbar_el1: u64,
    pub cpacr_el1: u64,
    pub contextidr_el1: u64,
    pub tpidr_el1: u64,
    pub tpidrro_el0: u64,
    pub tpidr_el0: u64,
    pub par_el1: u64,
    pub cntkctl_el1: u64,
    pub sp_el1: u64,
    pub elr_el1: u64,
    pub spsr_el1: u64,
    pub afsr0_el1: u64,
    pub afsr1_el1: u64,
    pub esr_el1: u64,
    pub far_el1: u64,
    pub amair_el1: u64,
    pub mdscr_el1: u64,
    pub sp_el0: u64,
    pub apia_key_lo: u64,
    pub apia_key_hi: u64,
    pub apib_key_lo: u64,
    pub apib_key_hi: u64,
    pub apda_key_lo: u64,
    pub apda_key_hi: u64,
    pub apdb_key_lo: u64,
    pub apdb_key_hi: u64,
    pub apga_key_lo: u64,
    pub apga_key_hi: u64,
}

/// Every saved register is zero.
pub open spec fn spec_all_zero(s: VcpuArchState) -> bool {
    &&& forall|i: int| 0 <= i < NUM_LRS ==> s.ich_lr@[i] == 0
    &&& s.ich_vmcr == 0 && s.ich_hcr == 0 && s.cntv_ctl == 0 && s.cntv_cval == 0 && s.vmpidr == 0
    &&& s.sctlr_el1 == 0 && s.ttbr0_el1 == 0 && s.ttbr1_el1 == 0 && s.tcr_el1 == 0 && s.mair_el1 == 0
    &&& s.vbar_el1 == 0 && s.cpacr_el1 == 0 && s.contextidr_el1 == 0 && s.tpidr_el1 == 0
    &&& s.tpidrro_el0 == 0 && s.tpidr_el0 == 0 && s.par_el1 == 0 && s.cntkctl_el1 == 0 && s.sp_el1 == 0
    &&& s.elr_el1 == 0 && s.spsr_el1 == 0 && s.afsr0_el1 == 0 && s.afsr1_el1 == 0 && s.esr_el1 == 0
    &&& s.far_el1 == 0 && s.amair_el1 == 0 && s.mdscr_el1 == 0 && s.sp_el0 == 0
    &&& s.apia_key_lo == 0 && s.apia_key_hi == 0 && s.apib_key_lo == 0 && s.apib_key_hi == 0
    &&& s.apda_key_lo == 0 && s.apda_key_hi == 0 && s.apdb_key_lo == 0 && s.apdb_key_hi == 0
    &&& s.apga_key_lo == 0 && s.apga_key_hi == 0
}

impl VcpuArchState {
    /// All registers zero.
    pub fn new() -> (r: Self)
        ensures
            spec_all_zero(r),
    {
        VcpuArchState {
            ich_lr: [0; 4],
            ich_vmcr: 0,
            ich_hcr: 0,
            cntv_ctl: 0,
            cntv_cval: 0,
            vmpidr: 0,
            sctlr_el1: 0,
            ttbr0_el1: 0,
            ttbr1_el1: 0,
            tcr_el1: 0,
            mair_el1: 0,
            vbar_el1: 0,
            cpacr_el1: 0,
            contextidr_el1: 0,
            tpidr_el1: 0,
            tpidrro_el0: 0,
            tpidr_el0: 0,
            par_el1: 0,
            cntkctl_el1: 0,
            sp_el1: 0,
            elr_el1: 0,
            spsr_el1: 0,
            afsr0_el1: 0,
            afsr1_el1: 0,
            esr_el1: 0,
            far_el1: 0,
            amair_el1: 0,
            mdscr_el1: 0,
            sp_el0: 0,
            apia_key_lo: 0,
            apia_key_hi: 0,
            apib_key_lo: 0,
            apib_key_hi: 0,
            apda_key_lo: 0,
            apda_key_hi: 0,
            apdb_key_lo: 0,
            apdb_key_hi: 0,
            apga_key_lo: 0,
            apga_key_hi: 0,
        }
    }

    /// Prepare the state of vCPU `vcpu_id`: its VMPIDR is the physical
    /// MPIDR `mpidr` with Aff0 replaced by the vCPU ID; virtual interrupts
    /// on with SGI trapping; all priorities and group 1 allowed; empty list
    /// registers; timer off. Other registers keep their values.
    pub fn init_for_vcpu(&mut self, mpidr: u64, vcpu_id: usize)
        ensures
            final(self).vmpidr == (mpidr & !0xFFu64) | ((vcpu_id as u64) & 0xFF),
            final(self).ich_hcr == VCPU_ICH_HCR,
            final(self).ich_vmcr == VCPU_ICH_VMCR,
            forall|i: int| 0 <= i < NUM_LRS ==> final(self).ich_lr@[i] == 0,
            final(self).cntv_ctl == 0,
            final(self).cntv_cval == 0,
            *final(self) == (VcpuArchState {
                vmpidr: final(self).vmpidr,
                ich_hcr: final(self).ich_hcr,
                ich_vmcr: final(self).ich_vmcr,
                ich_lr: final(self).ich_lr,
                cntv_ctl: 0,
                cntv_cval: 0,
                ..*old(self)
            }),
    {
        self.vmpidr = (mpidr & !0xFF) | ((vcpu_id as u64) & 0xFF);
        self.ich_hcr = (1u64 << 13) | 1;
        self.ich_vmcr = (0xFFu64 << 24) | (1u64 << 1);
        self.ich_lr = [0; 4];
        self.cntv_ctl = 0;
        self.cntv_cval = 0;
        assert((1u64 << 13) | 1 == 0x2001u64) by (bit_vector);
        assert((0xFFu64 << 24) | (1u64 << 1) == 0xFF00_0002u64) by (bit_vector);
    }
}

} // verus!
