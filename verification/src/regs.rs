//! The register context saved and restored around guest execution.

use vstd::prelude::*;
use crate::defs::{EC_DABT_LOWER, EC_DABT_SAME, EC_HVC64, EC_IABT_LOWER, EC_IABT_SAME, EC_MSR_MRS, EC_UNKNOWN, EC_WFI_WFE};

verus! {

/// General-purpose registers x0-x30 (x29 is the frame pointer, x30 the
/// link register), kept in register order.
#[derive(Clone, Copy, Debug)]
pub struct GeneralPurposeRegs {
    pub x: [u64; 31],
}

/// Value of register `n` as the instruction set reads it: x0-x30, and zero
/// for register number 31 and above (xzr).
pub open spec fn spec_get_reg(regs: GeneralPurposeRegs, n: u8) -> u64 {
    if n < 31 { regs.x@[n as int] } else { 0 }
}

impl GeneralPurposeRegs {
    /// All registers zero.
    pub fn zeroed() -> (r: Self)
        ensures
            forall|i: int| 0 <= i < 31 ==> r.x@[i] == 0,
    {
        GeneralPurposeRegs { x: [0u64; 31] }
    }

    /// Register `n` (zero for 31 and above).
    pub fn get_reg(&self, n: u8) -> (r: u64)
        ensures
            r == spec_get_reg(*self, n),
    {
        if n < 31 {
            self.x[n as usize]
        } else {
            0
        }
    }

    /// Set register `n`; writes to 31 and above are discarded.
    pub fn set_reg(&mut self, n: u8, value: u64)
        ensures
            n < 31 ==> final(self).x@ == old(self).x@.update(n as int, value),
            n >= 31 ==> *final(self) == *old(self),
    {
        if n < 31 {
            self.x[n as usize] = value;
        }
    }
}

impl Default for GeneralPurposeRegs {
    fn default() -> (r: Self)
        ensures
            forall|i: int| 0 <= i < 31 ==> r.x@[i] == 0,
    {
        Self::zeroed()
    }
}

/// EL1/EL2 system registers that describe a guest's execution state.
#[derive(Clone, Copy, Debug)]
pub struct SystemRegs {
    pub sp_el1: u64,
    pub elr_el1: u64,
    pub spsr_el1: u64,
    pub sctlr_el1: u64,
    pub ttbr0_el1: u64,
    pub ttbr1_el1: u64,
    pub tcr_el1: u64,
    pub mair_el1: u64,
    pub vbar_el1: u64,
    pub contextidr_el1: u64,
    pub tpidr_el1: u64,
    pub tpidrro_el0: u64,
    pub tpidr_el0: u64,
    pub esr_el2: u64,
    pub far_el2: u64,
    pub hcr_el2: u64,
    pub cntvoff_el2: u64,
}

/// All system registers zero.
pub open spec fn spec_zero_sys() -> SystemRegs {
    SystemRegs {
        sp_el1: 0,
        elr_el1: 0,
        spsr_el1: 0,
        sctlr_el1: 0,
        ttbr0_el1: 0,
        ttbr1_el1: 0,
        tcr_el1: 0,
        mair_el1: 0,
        vbar_el1: 0,
        contextidr_el1: 0,
        tpidr_el1: 0,
        tpidrro_el0: 0,
        tpidr_el0: 0,
        esr_el2: 0,
        far_el2: 0,
        hcr_el2: 0,
        cntvoff_el2: 0,
    }
}

impl SystemRegs {
    /// All registers zero.
    pub fn zeroed() -> (r: Self)
        ensures
            r == spec_zero_sys(),
    {
        SystemRegs {
            sp_el1: 0,
            elr_el1: 0,
            spsr_el1: 0,
            sctlr_el1: 0,
            ttbr0_el1: 0,
            ttbr1_el1: 0,
            tcr_el1: 0,
            mair_el1: 0,
            vbar_el1: 0,
            contextidr_el1: 0,
            tpidr_el1: 0,
            tpidrro_el0: 0,
            tpidr_el0: 0,
            esr_el2: 0,
            far_el2: 0,
            hcr_el2: 0,
            cntvoff_el2: 0,
        }
    }
}

impl Default for SystemRegs {
    fn default() -> (r: Self)
        ensures
            r == spec_zero_sys(),
    {
        Self::zeroed()
    }
}

/// Why a guest trapped to the hypervisor, from ESR_EL2.EC.
#[derive(Clone, Copy, Debug, PartialEq, Eq, Structural)]
pub enum ExitReason {
    /// Unknown reason (EC 0).
    Unknown,
    /// WFI or WFE.
    WfiWfe,
    /// HVC instruction.
    HvcCall,
    /// Trapped MSR/MRS (system register access).
    TrapMsrMrs,
    /// Instruction abort (instruction fetch fault), from a lower or the same level.
    InstructionAbort,
    /// Data abort (data access fault), from a lower or the same level.
    DataAbort,
    /// Any other exception class.
    Other(u64),
}

/// The exit reason for exception class `ec`.
pub open spec fn spec_exit_reason(ec: u64) -> ExitReason {
    if ec == EC_UNKNOWN {
        ExitReason::Unknown
    } else if ec == EC_WFI_WFE {
        ExitReason::WfiWfe
    } else if ec == EC_HVC64 {
        ExitReason::HvcCall
    } else if ec == EC_MSR_MRS {
        ExitReason::TrapMsrMrs
    } else if ec == EC_IABT_LOWER || ec == EC_IABT_SAME {
        ExitReason::InstructionAbort
    } else if ec == EC_DABT_LOWER || ec == EC_DABT_SAME {
        ExitReason::DataAbort
    } else {
        ExitReason::Other(ec)
    }
}

/// The text that names exit reason `e`.
pub open spec fn exit_reason_text(e: ExitReason) -> Seq<char> {
    match e {
        ExitReason::Unknown => "Unknown"@,
        ExitReason::WfiWfe => "WFI/WFE"@,
        ExitReason::HvcCall => "HVC Call"@,
        ExitReason::TrapMsrMrs => "MSR/MRS Trap"@,
        ExitReason::InstructionAbort => "Instruction Abort"@,
        ExitReason::DataAbort => "Data Abort"@,
        ExitReason::Other(_) => "Other"@,
    }
}

impl ExitReason {
    /// A short description of the exit reason.
    pub fn describe(&self) -> (r: &'static str)
        ensures
            r@ == exit_reason_text(*self),
    {
        match self {
            ExitReason::Unknown => "Unknown",
            ExitReason::WfiWfe => "WFI/WFE",
            ExitReason::HvcCall => "HVC Call",
            ExitReason::TrapMsrMrs => "MSR/MRS Trap",
            ExitReason::InstructionAbort => "Instruction Abort",
            ExitReason::DataAbort => "Data Abort",
            ExitReason::Other(_) => "Other",
        }
    }
}

/// Register state of one virtual CPU.
#[derive(Clone, Copy, Debug)]
pub struct VcpuContext {
    pub gp_regs: GeneralPurposeRegs,
    pub sys_regs: SystemRegs,
    /// Stack pointer of this context.
    pub sp: u64,
    /// Where execution resumes.
    pub pc: u64,
    /// Program status restored on entry (ERET).
    pub spsr_el2: u64,
}

impl VcpuContext {
    /// All registers zero.
    pub fn zeroed() -> (r: Self)
        ensures
            forall|i: int| 0 <= i < 31 ==> r.gp_regs.x@[i] == 0,
            r.sys_regs == spec_zero_sys(),
            r.sp == 0,
            r.pc == 0,
            r.spsr_el2 == 0,
    {
        VcpuContext {
            gp_regs: GeneralPurposeRegs::zeroed(),
            sys_regs: SystemRegs::zeroed(),
            sp: 0,
            pc: 0,
            spsr_el2: 0,
        }
    }

    /// A context that starts at `entry_point` in EL1h with stack
    /// `stack_pointer`; every other register is zero.
    pub fn new(entry_point: u64, stack_pointer: u64) -> (r: Self)
        ensures
            r.pc == entry_point,
            r.sp == stack_pointer,
            r.sys_regs == (SystemRegs { sp_el1: stack_pointer, spsr_el1: 0b0101, ..spec_zero_sys() }),
            forall|i: int| 0 <= i < 31 ==> r.gp_regs.x@[i] == 0,
            r.spsr_el2 == 0,
    {
        let mut ctx = Self::zeroed();
        ctx.pc = entry_point;
        ctx.sp = stack_pointer;
        ctx.sys_regs.sp_el1 = stack_pointer;
        ctx.sys_regs.spsr_el1 = 0b0101;
        ctx
    }

    /// The exit reason recorded in ESR_EL2.
    pub fn exit_reason(&self) -> (r: ExitReason)
        ensures
            r == spec_exit_reason((self.sys_regs.esr_el2 >> 26u64) & 0x3F),
    {
        let ec = (self.sys_regs.esr_el2 >> 26) & 0x3F;
        if ec == EC_UNKNOWN {
            ExitReason::Unknown
        } else if ec == EC_WFI_WFE {
            ExitReason::WfiWfe
        } else if ec == EC_HVC64 {
            ExitReason::HvcCall
        } else if ec == EC_MSR_MRS {
            ExitReason::TrapMsrMrs
        } else if ec == EC_IABT_LOWER || ec == EC_IABT_SAME {
            ExitReason::InstructionAbort
        } else if ec == EC_DABT_LOWER || ec == EC_DABT_SAME {
            ExitReason::DataAbort
        } else {
            ExitReason::Other(ec)
        }
    }
}

impl Default for VcpuContext {
    fn default() -> (r: Self)
        ensures
            forall|i: int| 0 <= i < 31 ==> r.gp_regs.x@[i] == 0,
            r.sys_regs == spec_zero_sys(),
            r.sp == 0,
            r.pc == 0,
            r.spsr_el2 == 0,
    {
        Self::zeroed()
    }
}

} // verus!
