//! Decisions of the EL2 exception handlers: what a trapped guest
//! instruction does to the vCPU registers, the VM's interrupt bookkeeping
//! and the list registers, and whether the guest resumes.
//!
//! The caller reads the syndrome registers and anything else the hardware
//! holds (see `TrapInfo`), runs the decision, and carries out the returned
//! effects on the hardware.

use vstd::prelude::*;
use crate::decode::{spec_decode, MmioAccess};
use crate::defs::{
    AARCH64_INSN_SIZE, EC_SVE_TRAP, EC_TRAPPED_SIMD_FP, EC_TRAPPED_SVE, ESR_HVC_IMM_MASK, ESR_ISS_MASK,
    GIC_SPURIOUS_INTID, IRQ_DEFAULT_PRIORITY,
};
use crate::gicv3::{
    has_free, inject_post, is_first_free, lr_state, spec_build_lr, GicV3VirtualInterface, LR_STATE_INVALID,
};
use crate::devices::{mmio_post, Device, MmioEffect};
use crate::global::{GlobalDeviceManager, PendingCpuOn, VmGlobalState, MAX_VCPUS};
use crate::regs::{spec_get_reg, GeneralPurposeRegs, VcpuContext};

verus! {

/// More consecutive exceptions than this without progress halt the system.
pub const MAX_CONSECUTIVE_EXCEPTIONS: u32 = 100;

/// More WFIs at one PC than this end the guest.
pub const MAX_CONSECUTIVE_WFI: u32 = 500_000;

pub const PSCI_VERSION: u64 = 0x8400_0000;
pub const PSCI_CPU_SUSPEND_32: u64 = 0x8400_0001;
pub const PSCI_CPU_OFF: u64 = 0x8400_0002;
pub const PSCI_CPU_ON_32: u64 = 0x8400_0003;
pub const PSCI_CPU_ON_64: u64 = 0xC400_0003;
pub const PSCI_AFFINITY_INFO_32: u64 = 0x8400_0004;
pub const PSCI_AFFINITY_INFO_64: u64 = 0xC400_0004;
pub const PSCI_MIGRATE_INFO_TYPE: u64 = 0x8400_0006;
pub const PSCI_SYSTEM_OFF: u64 = 0x8400_0008;
pub const PSCI_SYSTEM_RESET: u64 = 0x8400_0009;
pub const PSCI_FEATURES: u64 = 0x8400_000A;
pub const PSCI_SUCCESS: u64 = 0;
pub const PSCI_NOT_SUPPORTED: u64 = 0xFFFF_FFFF;
pub const PSCI_VERSION_0_2: u64 = 2;

/// HVC immediate of the Jailhouse debug console ("JH").
pub const JAILHOUSE_HVC_IMMEDIATE: u32 = 0x4a48;
pub const JAILHOUSE_HC_DEBUG_CONSOLE_PUTC: u64 = 8;
pub const JAILHOUSE_HC_DEBUG_CONSOLE_GETC: u64 = 9;

/// Counters that detect a guest stuck in an exception or WFI loop.
pub struct ExceptionCounters {
    pub exception_count: u32,
    pub wfi_count: u32,
    pub last_wfi_pc: u64,
}

impl ExceptionCounters {
    pub fn new() -> (r: Self)
        ensures
            r.exception_count == 0 && r.wfi_count == 0 && r.last_wfi_pc == 0,
    {
        ExceptionCounters { exception_count: 0, wfi_count: 0, last_wfi_pc: 0 }
    }
}

/// Clear every counter (before a new guest is entered).
pub fn reset_exception_counters(c: &mut ExceptionCounters)
    ensures
        final(c).exception_count == 0 && final(c).wfi_count == 0 && final(c).last_wfi_pc == 0,
{
    c.exception_count = 0;
    c.wfi_count = 0;
    c.last_wfi_pc = 0;
}

/// Count one more synchronous exception; true when the limit is passed and
/// the system must halt.
pub fn note_exception(c: &mut ExceptionCounters) -> (fatal: bool)
    ensures
        final(c).exception_count == old(c).exception_count.wrapping_add(1),
        final(c).wfi_count == old(c).wfi_count,
        final(c).last_wfi_pc == old(c).last_wfi_pc,
        fatal == (old(c).exception_count.wrapping_add(1) > MAX_CONSECUTIVE_EXCEPTIONS),
{
    c.exception_count = c.exception_count.wrapping_add(1);
    c.exception_count > MAX_CONSECUTIVE_EXCEPTIONS
}

// ---------------------------------------------------------------------
// System register traps

/// Value an MRS of a trapped register reads: MDSCR_EL1 reads through,
/// OSLSR_EL1 reports the OS lock implemented and unlocked, the rest read
/// as zero.
pub open spec fn spec_emulate_mrs(op0: u32, op1: u32, crn: u32, crm: u32, op2: u32, mdscr: u64) -> u64 {
    if op0 == 2 && op1 == 0 && crn == 0 && crm == 2 && op2 == 2 {
        mdscr
    } else if op0 == 2 && op1 == 0 && crn == 1 && crm == 1 && op2 == 4 {
        8
    } else {
        0
    }
}

/// Emulate an MRS of a trapped system register; `mdscr` is the current
/// value of MDSCR_EL1.
pub fn emulate_mrs(op0: u32, op1: u32, crn: u32, crm: u32, op2: u32, mdscr: u64) -> (r: u64)
    ensures
        r == spec_emulate_mrs(op0, op1, crn, crm, op2, mdscr),
{
    if op0 == 2 && op1 == 0 && crn == 0 && crm == 2 && op2 == 2 {
        mdscr
    } else if op0 == 2 && op1 == 0 && crn == 1 && crm == 1 && op2 == 4 {
        8 // OSLM = 1 (bit 3), OSLK = 0
    } else {
        0
    }
}

/// A system register write the caller performs for the guest.
#[derive(PartialEq, Eq, Structural)]
pub enum MsrEffect {
    Nothing,
    WriteMdscr(u64),
    WriteOslar(u64),
}

/// ICC_SGI1R_EL1 is S3_0_C12_C11_5.
pub open spec fn is_sgi1r(op0: u32, op1: u32, crn: u32, crm: u32, op2: u32) -> bool {
    op0 == 3 && op1 == 0 && crn == 12 && crm == 11 && op2 == 5
}

/// The register write an MSR of a trapped register needs.
pub open spec fn spec_msr_effect(op0: u32, op1: u32, crn: u32, crm: u32, op2: u32, value: u64) -> MsrEffect {
    if is_sgi1r(op0, op1, crn, crm, op2) {
        MsrEffect::Nothing
    } else if op0 == 2 && op1 == 0 && crn == 0 && crm == 2 && op2 == 2 {
        MsrEffect::WriteMdscr(value)
    } else if op0 == 2 && op1 == 0 && crn == 1 && crm == 0 && op2 == 4 {
        MsrEffect::WriteOslar(value)
    } else {
        MsrEffect::Nothing
    }
}

/// The SGI INTID of an ICC_SGI1R_EL1 value (bits [27:24]).
pub open spec fn sgi_intid(value: u64) -> u32 {
    ((value >> 24u64) & 0xF) as u32
}

/// vCPU `id` gets the SGI as a remote target (queued for it).
pub open spec fn sgi_remote_target(value: u64, online: u64, current: usize, id: int) -> bool {
    &&& 0 <= id < MAX_VCPUS
    &&& id != current
    &&& if (value >> 40u64) & 1 == 1 {
        online & (1u64 << (id as u64)) != 0
    } else {
        (value & 0xFFFF) & (1u64 << (id as u64)) != 0
    }
}

/// The sender itself is in the target list (IRM = 0 only).
pub open spec fn sgi_self_target(value: u64, current: usize) -> bool {
    &&& (value >> 40u64) & 1 != 1
    &&& current < MAX_VCPUS
    &&& (value & 0xFFFF) & (1u64 << (current as u64)) != 0
}

/// Everything but the pending SGIs is unchanged.
pub open spec fn only_sgis_changed(before: VmGlobalState, after: VmGlobalState) -> bool {
    &&& after.pending_spis == before.pending_spis
    &&& after.terminal_exit == before.terminal_exit
    &&& after.vcpu_online_mask == before.vcpu_online_mask
    &&& after.current_vcpu_id == before.current_vcpu_id
    &&& after.pending_cpu_on == before.pending_cpu_on
    &&& after.preemption_exit == before.preemption_exit
}

/// Outcome of a trapped ICC_SGI1R_EL1 write of `value`.
pub open spec fn sgi_trap_post(before: VmGlobalState, after: VmGlobalState, lrs0: Seq<u64>, lrs1: Seq<u64>, value: u64) -> bool {
    let cur = before.current_vcpu_id;
    let intid = sgi_intid(value);
    &&& only_sgis_changed(before, after)
    &&& forall|id: int| 0 <= id < MAX_VCPUS ==> #[trigger] after.pending_sgis@[id] == if sgi_remote_target(
        value, before.vcpu_online_mask, cur, id) {
        before.pending_sgis@[id] | (1u32 << intid)
    } else {
        before.pending_sgis@[id]
    }
    &&& sgi_self_target(value, cur) ==> exists|ok: bool| #[trigger] inject_post(lrs0, lrs1, intid, IRQ_DEFAULT_PRIORITY, ok)
    &&& !sgi_self_target(value, cur) ==> lrs1 == lrs0
}

/// Trapped ICC_SGI1R_EL1 write: queue the SGI for each targeted vCPU
/// (all online vCPUs but the sender when IRM is set, else those in the
/// target list) and inject it at once when the sender targets itself.
pub fn handle_sgi_trap(value: u64, vm: &mut VmGlobalState, lrs: &mut Vec<u64>)
    ensures
        sgi_trap_post(*old(vm), *final(vm), old(lrs)@, final(lrs)@, value),
{
    let target_list = value & 0xFFFF;
    let intid = ((value >> 24) & 0xF) as u32;
    let irm = (value >> 40) & 1;
    let current = vm.current_vcpu_id;
    let online = vm.vcpu_online_mask;
    let ghost vm0 = *vm;
    let ghost lrs0 = lrs@;
    assert(intid < 16) by (bit_vector)
        requires intid == ((value >> 24u64) & 0xF) as u32;
    let mut id: usize = 0;
    while id < MAX_VCPUS
        invariant
            id <= MAX_VCPUS,
            intid == sgi_intid(value),
            intid < 16,
            target_list == value & 0xFFFF,
            irm == (value >> 40u64) & 1,
            current == vm0.current_vcpu_id,
            online == vm0.vcpu_online_mask,
            only_sgis_changed(vm0, *vm),
            forall|k: int| 0 <= k < id ==> #[trigger] vm.pending_sgis@[k] == if sgi_remote_target(
                value, online, current, k) {
                vm0.pending_sgis@[k] | (1u32 << intid)
            } else {
                vm0.pending_sgis@[k]
            },
            forall|k: int| id <= k < MAX_VCPUS ==> #[trigger] vm.pending_sgis@[k] == vm0.pending_sgis@[k],
            id <= current || current >= MAX_VCPUS || !sgi_self_target(value, current) ==> lrs@ == lrs0,
            id > current && sgi_self_target(value, current) ==> exists|ok: bool| #[trigger] inject_post(lrs0, lrs@,
                intid, IRQ_DEFAULT_PRIORITY, ok),
        decreases MAX_VCPUS - id,
    {
        let bit: u64 = 1u64 << (id as u64);
        let targeted = if irm == 1 { online & bit != 0 } else { target_list & bit != 0 };
        if targeted && id != current {
            let v = vm.pending_sgis[id] | (1u32 << intid);
            vm.pending_sgis[id] = v;
        } else if targeted && irm != 1 {
            let r = GicV3VirtualInterface::inject_interrupt(lrs, intid, IRQ_DEFAULT_PRIORITY);
            assert(inject_post(lrs0, lrs@, intid, IRQ_DEFAULT_PRIORITY, r is Ok));
        }
        id = id + 1;
    }
}

/// Emulate an MSR of a trapped system register: an SGI write is handled
/// here, MDSCR_EL1 and OSLAR_EL1 writes are returned for the caller,
/// anything else is ignored.
pub fn emulate_msr(op0: u32, op1: u32, crn: u32, crm: u32, op2: u32, value: u64, vm: &mut VmGlobalState,
    lrs: &mut Vec<u64>) -> (e: MsrEffect)
    ensures
        e == spec_msr_effect(op0, op1, crn, crm, op2, value),
        is_sgi1r(op0, op1, crn, crm, op2) ==> sgi_trap_post(*old(vm), *final(vm), old(lrs)@, final(lrs)@, value),
        !is_sgi1r(op0, op1, crn, crm, op2) ==> *final(vm) == *old(vm) && final(lrs)@ == old(lrs)@,
{
    if op0 == 3 && op1 == 0 && crn == 12 && crm == 11 && op2 == 5 {
        handle_sgi_trap(value, vm, lrs);
        MsrEffect::Nothing
    } else if op0 == 2 && op1 == 0 && crn == 0 && crm == 2 && op2 == 2 {
        MsrEffect::WriteMdscr(value)
    } else if op0 == 2 && op1 == 0 && crn == 1 && crm == 0 && op2 == 4 {
        MsrEffect::WriteOslar(value)
    } else {
        MsrEffect::Nothing
    }
}

/// Fields of an MSR/MRS trap syndrome.
pub open spec fn iss_of(esr: u64) -> u32 {
    (esr & ESR_ISS_MASK) as u32
}

pub open spec fn sysreg_op0(iss: u32) -> u32 { (iss >> 20u32) & 0x3 }
pub open spec fn sysreg_op2(iss: u32) -> u32 { (iss >> 17u32) & 0x7 }
pub open spec fn sysreg_op1(iss: u32) -> u32 { (iss >> 14u32) & 0x7 }
pub open spec fn sysreg_crn(iss: u32) -> u32 { (iss >> 10u32) & 0xF }
pub open spec fn sysreg_rt(iss: u32) -> u8 { ((iss >> 5u32) & 0x1F) as u8 }
pub open spec fn sysreg_crm(iss: u32) -> u32 { (iss >> 1u32) & 0xF }
pub open spec fn sysreg_is_read(iss: u32) -> bool { iss & 1 == 1 }

/// Outcome of an MSR/MRS trap with syndrome `esr`.
pub open spec fn msr_mrs_post(esr: u64, mdscr: u64, x0: Seq<u64>, x1: Seq<u64>, vm0: VmGlobalState,
    vm1: VmGlobalState, lrs0: Seq<u64>, lrs1: Seq<u64>, e: MsrEffect) -> bool {
    let iss = iss_of(esr);
    let (op0, op1, crn, crm, op2) = (sysreg_op0(iss), sysreg_op1(iss), sysreg_crn(iss), sysreg_crm(iss), sysreg_op2(iss));
    let rt = sysreg_rt(iss);
    if sysreg_is_read(iss) {
        &&& x1 == if rt < 31 { x0.update(rt as int, spec_emulate_mrs(op0, op1, crn, crm, op2, mdscr)) } else { x0 }
        &&& vm1 == vm0 && lrs1 == lrs0 && e == MsrEffect::Nothing
    } else {
        let value = if rt < 31 { x0[rt as int] } else { 0 };
        &&& x1 == x0
        &&& e == spec_msr_effect(op0, op1, crn, crm, op2, value)
        &&& is_sgi1r(op0, op1, crn, crm, op2) ==> sgi_trap_post(vm0, vm1, lrs0, lrs1, value)
        &&& !is_sgi1r(op0, op1, crn, crm, op2) ==> vm1 == vm0 && lrs1 == lrs0
    }
}

/// MSR/MRS trap (EC 0x18): decode the register and direction from the
/// syndrome and emulate the access; Rt = 31 is the zero register.
pub fn handle_msr_mrs_trap(regs: &mut GeneralPurposeRegs, esr: u64, mdscr: u64, vm: &mut VmGlobalState,
    lrs: &mut Vec<u64>) -> (e: MsrEffect)
    ensures
        msr_mrs_post(esr, mdscr, old(regs).x@, final(regs).x@, *old(vm), *final(vm), old(lrs)@, final(lrs)@, e),
{
    let iss = (esr & ESR_ISS_MASK) as u32;
    let op0 = (iss >> 20) & 0x3;
    let op2 = (iss >> 17) & 0x7;
    let op1 = (iss >> 14) & 0x7;
    let crn = (iss >> 10) & 0xF;
    let rt = ((iss >> 5) & 0x1F) as u8;
    let crm = (iss >> 1) & 0xF;
    if iss & 1 == 1 {
        let value = emulate_mrs(op0, op1, crn, crm, op2, mdscr);
        if rt < 31 {
            regs.set_reg(rt, value);
        }
        MsrEffect::Nothing
    } else {
        let value = if rt < 31 { regs.get_reg(rt) } else { 0 };
        emulate_msr(op0, op1, crn, crm, op2, value, vm, lrs)
    }
}


// ---------------------------------------------------------------------
// Hypercalls

/// PSCI functions PSCI_FEATURES reports as implemented.
pub open spec fn psci_implemented(f: u64) -> bool {
    f == PSCI_VERSION || f == PSCI_CPU_OFF || f == PSCI_SYSTEM_OFF || f == PSCI_SYSTEM_RESET || f == PSCI_FEATURES
        || f == PSCI_CPU_ON_32 || f == PSCI_CPU_ON_64 || f == PSCI_AFFINITY_INFO_32 || f == PSCI_AFFINITY_INFO_64
}

/// vCPU `id` is in the online mask (IDs past the mask's width are offline).
pub open spec fn vcpu_online(mask: u64, id: u64) -> bool {
    id < 64 && mask & (1u64 << id) != 0
}

/// Outcome of PSCI call `fid`: registers, VM bookkeeping, and whether the
/// guest resumes.
pub open spec fn psci_post(fid: u64, x0: Seq<u64>, x1: Seq<u64>, vm0: VmGlobalState, vm1: VmGlobalState, r: bool) -> bool {
    if fid == PSCI_CPU_ON_32 || fid == PSCI_CPU_ON_64 {
        &&& vm1 == VmGlobalState {
            pending_cpu_on: PendingCpuOn { requested: true, target_cpu: x0[1], entry_point: x0[2], context_id: x0[3] },
            ..vm0
        }
        &&& x1 == x0.update(0, PSCI_SUCCESS)
        &&& !r
    } else {
        &&& vm1 == vm0
        &&& if fid == PSCI_VERSION {
            x1 == x0.update(0, PSCI_VERSION_0_2) && r
        } else if fid == PSCI_FEATURES {
            x1 == x0.update(0, if psci_implemented(x0[1]) { PSCI_SUCCESS } else { PSCI_NOT_SUPPORTED }) && r
        } else if fid == PSCI_CPU_OFF {
            x1 == x0.update(0, PSCI_SUCCESS) && !r
        } else if fid == PSCI_AFFINITY_INFO_32 || fid == PSCI_AFFINITY_INFO_64 {
            x1 == x0.update(0, if vcpu_online(vm0.vcpu_online_mask, x0[1] & 0xFF) { 0u64 } else { 1u64 }) && r
        } else if fid == PSCI_MIGRATE_INFO_TYPE {
            x1 == x0.update(0, 2) && r
        } else if fid == PSCI_SYSTEM_OFF || fid == PSCI_SYSTEM_RESET {
            x1 == x0 && !r
        } else if fid == PSCI_CPU_SUSPEND_32 {
            x1 == x0.update(0, PSCI_SUCCESS) && r
        } else {
            x1 == x0.update(0, PSCI_NOT_SUPPORTED) && r
        }
    }
}

/// PSCI 0.2 for the guest. CPU_ON posts a request for the run loop and
/// leaves the guest; CPU_OFF, SYSTEM_OFF and SYSTEM_RESET leave it too.
pub fn handle_psci(regs: &mut GeneralPurposeRegs, fid: u64, vm: &mut VmGlobalState) -> (r: bool)
    ensures
        psci_post(fid, old(regs).x@, final(regs).x@, *old(vm), *final(vm), r),
{
    if fid == PSCI_VERSION {
        regs.x[0] = PSCI_VERSION_0_2;
        true
    } else if fid == PSCI_FEATURES {
        let f = regs.x[1];
        let implemented = f == PSCI_VERSION || f == PSCI_CPU_OFF || f == PSCI_SYSTEM_OFF || f == PSCI_SYSTEM_RESET
            || f == PSCI_FEATURES || f == PSCI_CPU_ON_32 || f == PSCI_CPU_ON_64 || f == PSCI_AFFINITY_INFO_32
            || f == PSCI_AFFINITY_INFO_64;
        regs.x[0] = if implemented { PSCI_SUCCESS } else { PSCI_NOT_SUPPORTED };
        true
    } else if fid == PSCI_CPU_OFF {
        regs.x[0] = PSCI_SUCCESS;
        false
    } else if fid == PSCI_CPU_ON_32 || fid == PSCI_CPU_ON_64 {
        let target = regs.x[1];
        let entry = regs.x[2];
        let context_id = regs.x[3];
        vm.pending_cpu_on.request(target, entry, context_id);
        regs.x[0] = PSCI_SUCCESS;
        false
    } else if fid == PSCI_AFFINITY_INFO_32 || fid == PSCI_AFFINITY_INFO_64 {
        let id = regs.x[1] & 0xFF;
        let online = id < 64 && vm.vcpu_online_mask & (1u64 << id) != 0;
        regs.x[0] = if online { 0 } else { 1 };
        true
    } else if fid == PSCI_MIGRATE_INFO_TYPE {
        regs.x[0] = 2;
        true
    } else if fid == PSCI_SYSTEM_OFF || fid == PSCI_SYSTEM_RESET {
        false
    } else if fid == PSCI_CPU_SUSPEND_32 {
        regs.x[0] = PSCI_SUCCESS;
        true
    } else {
        regs.x[0] = PSCI_NOT_SUPPORTED;
        true
    }
}

/// The PSCI functions the handler carries out.
pub open spec fn psci_handled_list(f: u64) -> bool {
    ||| f == 0x8400_0000
    ||| f == 0x8400_0002
    ||| f == 0x8400_0003
    ||| f == 0xC400_0003
    ||| f == 0x8400_0004
    ||| f == 0xC400_0004
    ||| f == 0x8400_0008
    ||| f == 0x8400_0009
    ||| f == 0x8400_000A
}

/// PSCI_FEATURES answers SUCCESS (0) for VERSION, CPU_OFF, CPU_ON (32 and
/// 64), AFFINITY_INFO (32 and 64), SYSTEM_OFF, SYSTEM_RESET and FEATURES,
/// and NOT_SUPPORTED for any other function; the guest resumes and only x0
/// changes.
pub proof fn law_psci_features_lists_handled(x0: Seq<u64>, x1: Seq<u64>, vm0: VmGlobalState, vm1: VmGlobalState, r: bool)
    requires
        x0.len() == 31,
        psci_post(PSCI_FEATURES, x0, x1, vm0, vm1, r),
    ensures
        psci_handled_list(x0[1]) ==> x1[0] == 0,
        !psci_handled_list(x0[1]) ==> x1[0] == 0xFFFF_FFFFu64,
        x1 == x0.update(0, x1[0]),
        r,
        vm1 == vm0,
{
}

/// A function PSCI_FEATURES reports as implemented is carried out when the
/// guest calls it: the call does not answer NOT_SUPPORTED (SYSTEM_OFF and
/// SYSTEM_RESET do not return to the guest and leave x0 alone; FEATURES
/// answers about another function).
pub proof fn law_psci_listed_calls_are_carried_out(f: u64, x0: Seq<u64>, x1: Seq<u64>, vm0: VmGlobalState,
    vm1: VmGlobalState, r: bool)
    requires
        x0.len() == 31,
        psci_handled_list(f),
        f != PSCI_SYSTEM_OFF && f != PSCI_SYSTEM_RESET && f != PSCI_FEATURES,
        psci_post(f, x0, x1, vm0, vm1, r),
    ensures
        x1[0] != PSCI_NOT_SUPPORTED,
{
}

/// Console output a hypercall asks for.
#[derive(PartialEq, Eq, Structural)]
pub enum HvcEffect {
    Nothing,
    PutChar(u8),
}

/// Outcome of a Jailhouse debug-console hypercall; `uart_rx` is the
/// character waiting on the physical UART, if any.
pub open spec fn jailhouse_post(x0: Seq<u64>, x1: Seq<u64>, uart_rx: Option<u8>, r: bool, e: HvcEffect) -> bool {
    &&& r
    &&& if x0[0] == JAILHOUSE_HC_DEBUG_CONSOLE_PUTC {
        x1 == x0.update(0, 0) && e == HvcEffect::PutChar(x0[1] as u8)
    } else if x0[0] == JAILHOUSE_HC_DEBUG_CONSOLE_GETC {
        e == HvcEffect::Nothing && x1 == x0.update(0, match uart_rx {
            Some(c) => c as u64,
            None => u64::MAX,
        })
    } else {
        x1 == x0.update(0, 0) && e == HvcEffect::Nothing
    }
}

/// Jailhouse debug console (HVC #0x4a48): PUTC prints x1, GETC returns the
/// waiting character or -1; other functions succeed doing nothing.
pub fn handle_jailhouse_debug_console(regs: &mut GeneralPurposeRegs, uart_rx: Option<u8>) -> (res: (bool, HvcEffect))
    ensures
        jailhouse_post(old(regs).x@, final(regs).x@, uart_rx, res.0, res.1),
{
    let function = regs.x[0];
    if function == JAILHOUSE_HC_DEBUG_CONSOLE_PUTC {
        let ch = regs.x[1] as u8;
        regs.x[0] = 0;
        (true, HvcEffect::PutChar(ch))
    } else if function == JAILHOUSE_HC_DEBUG_CONSOLE_GETC {
        regs.x[0] = match uart_rx {
            Some(c) => c as u64,
            None => u64::MAX,
        };
        (true, HvcEffect::Nothing)
    } else {
        regs.x[0] = 0;
        (true, HvcEffect::Nothing)
    }
}

/// Outcome of an HVC with immediate `imm`.
pub open spec fn hypercall_post(imm: u32, x0: Seq<u64>, x1: Seq<u64>, vm0: VmGlobalState, vm1: VmGlobalState,
    uart_rx: Option<u8>, r: bool, e: HvcEffect) -> bool {
    if imm == JAILHOUSE_HVC_IMMEDIATE {
        vm1 == vm0 && jailhouse_post(x0, x1, uart_rx, r, e)
    } else if x0[0] & 0x8000_0000 != 0 {
        e == HvcEffect::Nothing && psci_post(x0[0], x0, x1, vm0, vm1, r)
    } else if x0[0] == 0 {
        vm1 == vm0 && x1 == x0.update(0, 0) && r && e == HvcEffect::PutChar(x0[1] as u8)
    } else if x0[0] == 1 {
        vm1 == vm0 && x1 == x0.update(0, 0) && !r && e == HvcEffect::Nothing
    } else {
        vm1 == vm0 && x1 == x0.update(0, u64::MAX) && !r && e == HvcEffect::Nothing
    }
}

/// HVC from the guest: the Jailhouse console, PSCI (bit 31 of x0 set),
/// hypercall 0 (print x1) and 1 (leave); any other number fails and
/// leaves the guest.
pub fn handle_hypercall_with_imm(regs: &mut GeneralPurposeRegs, hvc_imm: u32, uart_rx: Option<u8>,
    vm: &mut VmGlobalState) -> (res: (bool, HvcEffect))
    ensures
        hypercall_post(hvc_imm, old(regs).x@, final(regs).x@, *old(vm), *final(vm), uart_rx, res.0, res.1),
{
    if hvc_imm == JAILHOUSE_HVC_IMMEDIATE {
        return handle_jailhouse_debug_console(regs, uart_rx);
    }
    let num = regs.x[0];
    if num & 0x8000_0000 != 0 {
        let r = handle_psci(regs, num, vm);
        return (r, HvcEffect::Nothing);
    }
    if num == 0 {
        let ch = regs.x[1] as u8;
        regs.x[0] = 0;
        (true, HvcEffect::PutChar(ch))
    } else if num == 1 {
        regs.x[0] = 0;
        (false, HvcEffect::Nothing)
    } else {
        regs.x[0] = u64::MAX;
        (false, HvcEffect::Nothing)
    }
}

/// HVC with the immediate taken from ESR_EL2[15:0].
pub fn handle_hypercall(ctx: &mut VcpuContext, uart_rx: Option<u8>, vm: &mut VmGlobalState) -> (res: (bool, HvcEffect))
    ensures
        hypercall_post((old(ctx).sys_regs.esr_el2 & ESR_HVC_IMM_MASK) as u32, old(ctx).gp_regs.x@,
            final(ctx).gp_regs.x@, *old(vm), *final(vm), uart_rx, res.0, res.1),
        final(ctx).sys_regs == old(ctx).sys_regs,
        final(ctx).pc == old(ctx).pc,
        final(ctx).sp == old(ctx).sp,
        final(ctx).spsr_el2 == old(ctx).spsr_el2,
{
    let imm = (ctx.sys_regs.esr_el2 & ESR_HVC_IMM_MASK) as u32;
    handle_hypercall_with_imm(&mut ctx.gp_regs, imm, uart_rx, vm)
}


// ---------------------------------------------------------------------
// Data aborts on emulated devices

/// Register `n` of `x` as an instruction reads it (31 is the zero register).
pub open spec fn reg_value(x: Seq<u64>, n: u8) -> u64 {
    if n < 31 { x[n as int] } else { 0 }
}

/// `x` after an instruction writes `v` to register `n` (31 discards it).
pub open spec fn reg_write(x: Seq<u64>, n: u8, v: u64) -> Seq<u64> {
    if n < 31 { x.update(n as int, v) } else { x }
}

pub open spec fn access_reg(a: MmioAccess) -> u8 {
    match a {
        MmioAccess::Load { reg, .. } => reg,
        MmioAccess::Store { reg, .. } => reg,
    }
}

pub open spec fn access_size(a: MmioAccess) -> u8 {
    match a {
        MmioAccess::Load { size, .. } => size,
        MmioAccess::Store { size, .. } => size,
    }
}

/// The value a store writes (0 for a load).
pub open spec fn store_value(x: Seq<u64>, a: MmioAccess) -> u64 {
    if a is Store { reg_value(x, access_reg(a)) } else { 0 }
}

/// PCs from here up are guest virtual addresses EL2 cannot read.
pub const GUEST_VA_PC_START: u64 = 0x8000_0000_0000;

/// The access a data abort describes: from the syndrome when ISV is set,
/// else from `insn` (the word at a PC that EL2 can read).
pub open spec fn abort_access(esr: u64, pc: u64, insn: u32) -> Option<MmioAccess> {
    let iss = iss_of(esr);
    if (iss >> 24u32) & 1 == 1 {
        spec_decode(0, iss)
    } else if pc < GUEST_VA_PC_START {
        spec_decode(insn, iss)
    } else {
        None
    }
}

/// Outcome of a data abort at `addr` on the devices `d0` (count `c0`).
pub open spec fn mmio_abort_post(esr: u64, pc: u64, insn: u32, addr: u64, x0: Seq<u64>, x1: Seq<u64>,
    d0: Seq<Option<Device>>, d1: Seq<Option<Device>>, c0: nat, c1: nat, ok: bool, e: MmioEffect) -> bool {
    match abort_access(esr, pc, insn) {
        None => !ok && x1 == x0 && d1 == d0 && c1 == c0 && e == MmioEffect::Nothing,
        Some(a) => exists|r: (Option<u64>, MmioEffect)| {
            &&& #[trigger] mmio_post(d0, d1, c0, c1, addr, store_value(x0, a), access_size(a), a is Store, r)
            &&& e == r.1
            &&& if a is Store {
                ok && x1 == x0
            } else {
                match r.0 {
                    Some(v) => ok && x1 == reg_write(x0, access_reg(a), v),
                    None => !ok && x1 == x0,
                }
            }
        },
    }
}

/// Emulate the load or store behind a data abort at guest address `addr`
/// on the VM's devices. `insn` is the instruction at PC, read by the
/// caller when the syndrome has no valid description and PC is below
/// `GUEST_VA_PC_START`; it is not looked at otherwise.
pub fn handle_mmio_abort(regs: &mut GeneralPurposeRegs, esr: u64, pc: u64, insn: u32, addr: u64,
    dev: &mut GlobalDeviceManager) -> (res: (bool, MmioEffect))
    requires
        old(dev).devices.wf(),
    ensures
        final(dev).devices.wf(),
        mmio_abort_post(esr, pc, insn, addr, old(regs).x@, final(regs).x@, old(dev).devices.slots(),
            final(dev).devices.slots(), old(dev).devices.spec_count(), final(dev).devices.spec_count(), res.0, res.1),
{
    let iss = (esr & ESR_ISS_MASK) as u32;
    let isv = (iss >> 24) & 1;
    let word = if isv == 1 {
        0
    } else if pc < GUEST_VA_PC_START {
        insn
    } else {
        return (false, MmioEffect::Nothing);
    };
    let access = match MmioAccess::decode(word, iss) {
        Some(a) => a,
        None => { return (false, MmioEffect::Nothing); },
    };
    let reg = access.reg();
    let size = access.size();
    assert(abort_access(esr, pc, insn) == Some(access));
    let ghost x0 = regs.x@;
    if access.is_store() {
        let value = regs.get_reg(reg);
        assert(value == store_value(x0, access));
        let r = dev.handle_mmio(addr, value, size, true);
        assert(mmio_post(old(dev).devices.slots(), dev.devices.slots(), old(dev).devices.spec_count(),
            dev.devices.spec_count(), addr, store_value(x0, access), access_size(access), access is Store, r));
        (true, r.1)
    } else {
        let r = dev.handle_mmio(addr, 0, size, false);
        assert(mmio_post(old(dev).devices.slots(), dev.devices.slots(), old(dev).devices.spec_count(),
            dev.devices.spec_count(), addr, store_value(x0, access), access_size(access), access is Store, r));
        match r.0 {
            Some(v) => {
                regs.set_reg(reg, v);
                assert(regs.x@ == reg_write(x0, access_reg(access), v));
                (true, r.1)
            },
            None => (false, r.1),
        }
    }
}

// ---------------------------------------------------------------------
// WFI and pending interrupts

/// Outcome of a WFI at `pc`. The first WFI at a new PC injects the timer
/// interrupt; more than `MAX_CONSECUTIVE_WFI` at one PC give up; a pending
/// virtual timer is masked (`mask`) and injected; otherwise the guest
/// resumes, with a timer interrupt every 100th WFI when none is pending.
pub open spec fn wfi_post(c0: ExceptionCounters, c1: ExceptionCounters, pc: u64, vtimer_pending: bool,
    lrs0: Seq<u64>, lrs1: Seq<u64>, r: bool, mask: bool) -> bool {
    let vt = crate::gicv3::VTIMER_IRQ;
    &&& c1.exception_count == c0.exception_count
    &&& if pc != c0.last_wfi_pc {
        &&& c1.wfi_count == 0 && c1.last_wfi_pc == pc
        &&& exists|ok: bool| #[trigger] inject_post(lrs0, lrs1, vt, IRQ_DEFAULT_PRIORITY, ok)
        &&& r && !mask
    } else {
        let count = c0.wfi_count.wrapping_add(1);
        &&& c1.last_wfi_pc == c0.last_wfi_pc
        &&& if count > MAX_CONSECUTIVE_WFI {
            c1.wfi_count == count && lrs1 == lrs0 && !r && !mask
        } else if vtimer_pending {
            &&& c1.wfi_count == 0 && r && mask
            &&& exists|ok: bool| #[trigger] inject_post(lrs0, lrs1, vt, IRQ_DEFAULT_PRIORITY, ok)
        } else if crate::gicv3::pending_prefix(lrs0, lrs0.len() as int) > 0 {
            c1.wfi_count == 0 && lrs1 == lrs0 && r && !mask
        } else if count % 100 == 0 {
            &&& c1.wfi_count == count && r && !mask
            &&& exists|ok: bool| #[trigger] inject_post(lrs0, lrs1, vt, IRQ_DEFAULT_PRIORITY, ok)
        } else {
            c1.wfi_count == count && lrs1 == lrs0 && r && !mask
        }
    }
}

/// WFI trap: decide whether the guest resumes and which interrupt it gets;
/// the second result asks the caller to mask the virtual timer.
pub fn handle_wfi_with_timer_injection(c: &mut ExceptionCounters, pc: u64, vtimer_pending: bool,
    lrs: &mut Vec<u64>) -> (res: (bool, bool))
    ensures
        wfi_post(*old(c), *final(c), pc, vtimer_pending, old(lrs)@, final(lrs)@, res.0, res.1),
{
    let ghost lrs0 = lrs@;
    let vt = crate::gicv3::VTIMER_IRQ;
    if pc != c.last_wfi_pc {
        c.wfi_count = 0;
        c.last_wfi_pc = pc;
        let r = GicV3VirtualInterface::inject_interrupt(lrs, vt, IRQ_DEFAULT_PRIORITY);
        assert(inject_post(lrs0, lrs@, vt, IRQ_DEFAULT_PRIORITY, r is Ok));
        return (true, false);
    }
    let count = c.wfi_count.wrapping_add(1);
    c.wfi_count = count;
    if count > MAX_CONSECUTIVE_WFI {
        return (false, false);
    }
    if vtimer_pending {
        c.wfi_count = 0;
        let r = GicV3VirtualInterface::inject_interrupt(lrs, vt, IRQ_DEFAULT_PRIORITY);
        assert(inject_post(lrs0, lrs@, vt, IRQ_DEFAULT_PRIORITY, r is Ok));
        return (true, true);
    }
    if GicV3VirtualInterface::pending_count(lrs) > 0 {
        c.wfi_count = 0;
        return (true, false);
    }
    if count % 100 == 0 {
        let r = GicV3VirtualInterface::inject_interrupt(lrs, vt, IRQ_DEFAULT_PRIORITY);
        assert(inject_post(lrs0, lrs@, vt, IRQ_DEFAULT_PRIORITY, r is Ok));
    }
    (true, false)
}


/// The list registers after injecting `intid` into the first free one
/// (unchanged when none is free).
pub open spec fn spec_inject(lrs: Seq<u64>, intid: u32, priority: u8) -> Seq<u64> {
    if has_free(lrs) {
        lrs.update(choose|i: int| is_first_free(lrs, i), spec_build_lr(intid, priority))
    } else {
        lrs
    }
}

/// Injection has one outcome: the first free register is unique.
proof fn lemma_inject_unique(before: Seq<u64>, after: Seq<u64>, intid: u32, priority: u8, ok: bool)
    requires
        inject_post(before, after, intid, priority, ok),
    ensures
        after == spec_inject(before, intid, priority),
        ok == has_free(before),
{
    if has_free(before) {
        let i = choose|i: int| #[trigger] is_first_free(before, i) && after == before.update(i, spec_build_lr(intid, priority));
        let k = choose|i: int| is_first_free(before, i);
        if k < i {
            assert(lr_state(before[k]) != LR_STATE_INVALID);
        } else if i < k {
            assert(lr_state(before[i]) != LR_STATE_INVALID);
        }
    }
}

/// Injecting the SPIs of `pending` from bit `bit` up, in order: the list
/// registers at the end, and the bits that found no free register.
pub open spec fn flush_from(lrs: Seq<u64>, pending: u32, bit: nat) -> (Seq<u64>, u32)
    decreases 32 - bit,
{
    if bit >= 32 {
        (lrs, 0u32)
    } else if pending & (1u32 << (bit as u32)) == 0 {
        flush_from(lrs, pending, bit + 1)
    } else {
        let rest = flush_from(spec_inject(lrs, (bit + 32) as u32, IRQ_DEFAULT_PRIORITY), pending, bit + 1);
        (rest.0, if has_free(lrs) { rest.1 } else { rest.1 | (1u32 << (bit as u32)) })
    }
}

/// Outcome of `flush_pending_spis`: the current vCPU's pending SPIs go
/// into the list registers; those without a free register stay pending.
pub open spec fn flush_post(vm0: VmGlobalState, vm1: VmGlobalState, lrs0: Seq<u64>, lrs1: Seq<u64>) -> bool {
    let v = vm0.current_vcpu_id;
    if v >= MAX_VCPUS {
        vm1 == vm0 && lrs1 == lrs0
    } else {
        let res = flush_from(lrs0, vm0.pending_spis@[v as int], 0);
        &&& lrs1 == res.0
        &&& vm1.pending_spis@ == vm0.pending_spis@.update(v as int, res.1)
        &&& vm1.pending_sgis == vm0.pending_sgis
        &&& vm1.terminal_exit == vm0.terminal_exit
        &&& vm1.vcpu_online_mask == vm0.vcpu_online_mask
        &&& vm1.current_vcpu_id == vm0.current_vcpu_id
        &&& vm1.pending_cpu_on == vm0.pending_cpu_on
        &&& vm1.preemption_exit == vm0.preemption_exit
    }
}

proof fn lemma_flush_nothing(lrs: Seq<u64>, bit: nat)
    ensures
        flush_from(lrs, 0, bit) == (lrs, 0u32),
    decreases 32 - bit,
{
    if bit < 32 {
        let b = bit as u32;
        assert(0u32 & (1u32 << b) == 0) by (bit_vector);
        lemma_flush_nothing(lrs, bit + 1);
    }
}

/// Put the current vCPU's pending SPIs straight into the list registers
/// (right after an emulated access queued one, so it is not delayed).
pub fn flush_pending_spis(vm: &mut VmGlobalState, lrs: &mut Vec<u64>)
    ensures
        flush_post(*old(vm), *final(vm), old(lrs)@, final(lrs)@),
{
    let v = vm.current_vcpu_id;
    if v >= MAX_VCPUS {
        return;
    }
    let ghost vm0 = *vm;
    let ghost lrs0 = lrs@;
    let pending = vm.pending_spis[v];
    vm.pending_spis[v] = 0;
    if pending == 0 {
        proof { lemma_flush_nothing(lrs0, 0); }
        assert(vm.pending_spis@ =~= vm0.pending_spis@.update(v as int, 0u32));
        return;
    }
    proof {
        let total = flush_from(lrs0, pending, 0).1;
        assert(0u32 | total == total) by (bit_vector);
    }
    let mut bit: u32 = 0;
    while bit < 32
        invariant
            bit <= 32,
            v == vm0.current_vcpu_id,
            v < MAX_VCPUS,
            pending == vm0.pending_spis@[v as int],
            vm.pending_spis@ == vm0.pending_spis@.update(v as int, vm.pending_spis@[v as int]),
            vm.pending_sgis == vm0.pending_sgis,
            vm.terminal_exit == vm0.terminal_exit,
            vm.vcpu_online_mask == vm0.vcpu_online_mask,
            vm.current_vcpu_id == vm0.current_vcpu_id,
            vm.pending_cpu_on == vm0.pending_cpu_on,
            vm.preemption_exit == vm0.preemption_exit,
            flush_from(lrs0, pending, 0).0 == flush_from(lrs@, pending, bit as nat).0,
            flush_from(lrs0, pending, 0).1 == vm.pending_spis@[v as int] | flush_from(lrs@, pending, bit as nat).1,
        decreases 32 - bit,
    {
        let ghost l = lrs@;
        let ghost cur = vm.pending_spis@[v as int];
        let mask: u32 = 1u32 << bit;
        if pending & mask != 0 {
            let r = GicV3VirtualInterface::inject_interrupt(lrs, bit + 32, IRQ_DEFAULT_PRIORITY);
            proof {
                lemma_inject_unique(l, lrs@, (bit + 32) as u32, IRQ_DEFAULT_PRIORITY, r is Ok);
            }
            if r.is_err() {
                let q = vm.pending_spis[v] | mask;
                vm.pending_spis[v] = q;
                proof {
                    let rest = flush_from(lrs@, pending, (bit + 1) as nat).1;
                    assert(cur | (rest | mask) == (cur | mask) | rest) by (bit_vector);
                }
            }
        }
        bit = bit + 1;
    }
    proof {
        let cur = vm.pending_spis@[v as int];
        assert(cur | 0u32 == cur) by (bit_vector);
    }
}


// ---------------------------------------------------------------------
// Synchronous exits

/// What the hardware reported with a synchronous exit, read by the caller.
pub struct TrapInfo {
    /// ESR_EL2.
    pub esr: u64,
    /// FAR_EL2.
    pub far: u64,
    /// HPFAR_EL2.
    pub hpfar: u64,
    /// The instruction at PC, when the syndrome has no valid access
    /// description and PC is below `GUEST_VA_PC_START` (else unused).
    pub insn: u32,
    /// The guest's virtual timer condition is met.
    pub vtimer_pending: bool,
    /// A character waiting on the physical UART.
    pub uart_rx: Option<u8>,
    /// MDSCR_EL1.
    pub mdscr: u64,
}

/// Hardware work the caller does after a synchronous exit.
#[derive(PartialEq, Eq, Structural)]
pub enum TrapEffect {
    Nothing,
    Msr(MsrEffect),
    Hvc(HvcEffect),
    Mmio(MmioEffect),
    MaskVtimer,
}

/// Result of a synchronous exit.
pub struct TrapOutcome {
    /// Re-enter the guest (else return to the run loop).
    pub resume: bool,
    /// Too many consecutive exceptions: halt the system.
    pub halt: bool,
    pub effect: TrapEffect,
}

/// Guest address of a data abort: the page from HPFAR_EL2, the offset
/// from FAR_EL2.
pub open spec fn abort_ipa(hpfar: u64, far: u64) -> u64 {
    ((hpfar & 0x0000_0FFF_FFFF_FFF0) << 8u64) | (far & 0xFFF)
}

/// More than one vCPU is online.
pub open spec fn multi_vcpu(online: u64) -> bool {
    online != 0 && online & ((online - 1) as u64) != 0
}

/// The exception classes skipped over (FP/SIMD and SVE traps).
pub open spec fn skipped_ec(ec: u64) -> bool {
    ec == EC_TRAPPED_SIMD_FP || ec == EC_TRAPPED_SVE || ec == EC_SVE_TRAP
}

/// `ctx1` is `ctx0` with the syndrome recorded, registers `x`, and PC `pc`.
pub open spec fn ctx_after(ctx0: VcpuContext, ctx1: VcpuContext, esr: u64, far: u64, x: Seq<u64>, pc: u64) -> bool {
    &&& ctx1.sys_regs == crate::regs::SystemRegs { esr_el2: esr, far_el2: far, ..ctx0.sys_regs }
    &&& ctx1.gp_regs.x@ == x
    &&& ctx1.pc == pc
    &&& ctx1.sp == ctx0.sp
    &&& ctx1.spsr_el2 == ctx0.spsr_el2
}

/// Outcome of a synchronous exit (see `handle_exception`).
pub open spec fn exception_post(c0: ExceptionCounters, c1: ExceptionCounters, ctx0: VcpuContext, ctx1: VcpuContext,
    info: TrapInfo, vm0: VmGlobalState, vm1: VmGlobalState, d0: Seq<Option<Device>>, d1: Seq<Option<Device>>,
    n0: nat, n1: nat, lrs0: Seq<u64>, lrs1: Seq<u64>, out: TrapOutcome) -> bool {
    let x0 = ctx0.gp_regs.x@;
    let pc = ctx0.pc;
    let count = c0.exception_count.wrapping_add(1);
    let counted = ExceptionCounters { exception_count: count, ..c0 };
    let cleared = ExceptionCounters { exception_count: 0, ..c0 };
    let devices_same = d1 == d0 && n1 == n0;
    if count > MAX_CONSECUTIVE_EXCEPTIONS {
        &&& out.halt && !out.resume && out.effect == TrapEffect::Nothing
        &&& c1 == counted && ctx_after(ctx0, ctx1, info.esr, info.far, x0, pc)
        &&& vm1 == vm0 && devices_same && lrs1 == lrs0
    } else {
        &&& !out.halt
        &&& match crate::regs::spec_exit_reason((info.esr >> 26u64) & 0x3F) {
            crate::regs::ExitReason::WfiWfe => exists|r: bool, mask: bool| {
                &&& #[trigger] wfi_post(cleared, c1, pc, info.vtimer_pending, lrs0, lrs1, r, mask)
                &&& out.effect == if mask { TrapEffect::MaskVtimer } else { TrapEffect::Nothing }
                &&& vm1 == vm0 && devices_same
                &&& if multi_vcpu(vm0.vcpu_online_mask) {
                    !out.resume && ctx_after(ctx0, ctx1, info.esr, info.far, x0, (pc + 4) as u64)
                } else {
                    out.resume == r && ctx_after(ctx0, ctx1, info.esr, info.far, x0, if r { (pc + 4) as u64 } else { pc })
                }
            },
            crate::regs::ExitReason::HvcCall => {
                &&& out.effect matches TrapEffect::Hvc(e)
                &&& hypercall_post((info.esr & ESR_HVC_IMM_MASK) as u32, x0, ctx1.gp_regs.x@, vm0, vm1, info.uart_rx,
                    out.resume, e)
                &&& c1 == cleared && ctx_after(ctx0, ctx1, info.esr, info.far, ctx1.gp_regs.x@, pc)
                &&& devices_same && lrs1 == lrs0
            },
            crate::regs::ExitReason::TrapMsrMrs => {
                &&& out.effect matches TrapEffect::Msr(e)
                &&& msr_mrs_post(info.esr, info.mdscr, x0, ctx1.gp_regs.x@, vm0, vm1, lrs0, lrs1, e)
                &&& out.resume && c1 == cleared
                &&& ctx_after(ctx0, ctx1, info.esr, info.far, ctx1.gp_regs.x@, (pc + 4) as u64)
                &&& devices_same
            },
            crate::regs::ExitReason::DataAbort => {
                &&& out.effect matches TrapEffect::Mmio(e)
                &&& mmio_abort_post(info.esr, pc, info.insn, abort_ipa(info.hpfar, info.far), x0, ctx1.gp_regs.x@,
                    d0, d1, n0, n1, out.resume, e)
                &&& if out.resume {
                    &&& c1 == cleared && flush_post(vm0, vm1, lrs0, lrs1)
                    &&& ctx_after(ctx0, ctx1, info.esr, info.far, ctx1.gp_regs.x@, (pc + 4) as u64)
                } else {
                    c1 == counted && vm1 == vm0 && lrs1 == lrs0 && ctx_after(ctx0, ctx1, info.esr, info.far, x0, pc)
                }
            },
            crate::regs::ExitReason::Other(ec) => {
                &&& out.resume == skipped_ec(ec) && out.effect == TrapEffect::Nothing
                &&& c1 == counted && vm1 == vm0 && devices_same && lrs1 == lrs0
                &&& ctx_after(ctx0, ctx1, info.esr, info.far, x0, if skipped_ec(ec) { (pc + 4) as u64 } else { pc })
            },
            _ => {
                &&& !out.resume && out.effect == TrapEffect::Nothing
                &&& c1 == counted && vm1 == vm0 && devices_same && lrs1 == lrs0
                &&& ctx_after(ctx0, ctx1, info.esr, info.far, x0, pc)
            },
        }
    }
}

/// Synchronous exit from the guest: record the syndrome, stop on an
/// exception storm, and handle WFI, HVC, MSR/MRS traps and data aborts on
/// emulated devices. Instruction aborts and unknown exceptions end the
/// guest; FP/SIMD and SVE traps are skipped.
pub fn handle_exception(c: &mut ExceptionCounters, ctx: &mut VcpuContext, info: &TrapInfo, vm: &mut VmGlobalState,
    dev: &mut GlobalDeviceManager, lrs: &mut Vec<u64>) -> (out: TrapOutcome)
    requires
        old(dev).devices.wf(),
        old(ctx).pc <= u64::MAX - AARCH64_INSN_SIZE,
    ensures
        final(dev).devices.wf(),
        exception_post(*old(c), *final(c), *old(ctx), *final(ctx), *info, *old(vm), *final(vm),
            old(dev).devices.slots(), final(dev).devices.slots(), old(dev).devices.spec_count(),
            final(dev).devices.spec_count(), old(lrs)@, final(lrs)@, out),
{
    ctx.sys_regs.esr_el2 = info.esr;
    ctx.sys_regs.far_el2 = info.far;
    if note_exception(c) {
        return TrapOutcome { resume: false, halt: true, effect: TrapEffect::Nothing };
    }
    let reason = ctx.exit_reason();
    match reason {
        crate::regs::ExitReason::WfiWfe => {
            c.exception_count = 0;
            let online = vm.vcpu_online_mask;
            let multi = online != 0 && online & (online - 1) != 0;
            assert(multi == multi_vcpu(online));
            let ghost c_clear = *c;
            let ghost lrs_in = lrs@;
            assert(c_clear == (ExceptionCounters { exception_count: 0, ..*old(c) }));
            let (r, mask) = handle_wfi_with_timer_injection(c, ctx.pc, info.vtimer_pending, lrs);
            assert(wfi_post(c_clear, *c, old(ctx).pc, info.vtimer_pending, lrs_in, lrs@, r, mask));
            let effect = if mask { TrapEffect::MaskVtimer } else { TrapEffect::Nothing };
            if multi {
                ctx.pc = ctx.pc + AARCH64_INSN_SIZE;
                TrapOutcome { resume: false, halt: false, effect }
            } else {
                if r {
                    ctx.pc = ctx.pc + AARCH64_INSN_SIZE;
                }
                TrapOutcome { resume: r, halt: false, effect }
            }
        },
        crate::regs::ExitReason::HvcCall => {
            c.exception_count = 0;
            let (r, e) = handle_hypercall(ctx, info.uart_rx, vm);
            TrapOutcome { resume: r, halt: false, effect: TrapEffect::Hvc(e) }
        },
        crate::regs::ExitReason::TrapMsrMrs => {
            c.exception_count = 0;
            let e = handle_msr_mrs_trap(&mut ctx.gp_regs, info.esr, info.mdscr, vm, lrs);
            ctx.pc = ctx.pc + AARCH64_INSN_SIZE;
            TrapOutcome { resume: true, halt: false, effect: TrapEffect::Msr(e) }
        },
        crate::regs::ExitReason::InstructionAbort => {
            TrapOutcome { resume: false, halt: false, effect: TrapEffect::Nothing }
        },
        crate::regs::ExitReason::DataAbort => {
            let ipa_page = (info.hpfar & 0x0000_0FFF_FFFF_FFF0) << 8;
            let addr = ipa_page | (info.far & 0xFFF);
            let (ok, e) = handle_mmio_abort(&mut ctx.gp_regs, info.esr, ctx.pc, info.insn, addr, dev);
            if ok {
                c.exception_count = 0;
                ctx.pc = ctx.pc + AARCH64_INSN_SIZE;
                flush_pending_spis(vm, lrs);
            }
            TrapOutcome { resume: ok, halt: false, effect: TrapEffect::Mmio(e) }
        },
        crate::regs::ExitReason::Other(ec) => {
            if ec == EC_TRAPPED_SIMD_FP || ec == EC_TRAPPED_SVE || ec == EC_SVE_TRAP {
                ctx.pc = ctx.pc + AARCH64_INSN_SIZE;
                TrapOutcome { resume: true, halt: false, effect: TrapEffect::Nothing }
            } else {
                TrapOutcome { resume: false, halt: false, effect: TrapEffect::Nothing }
            }
        },
        crate::regs::ExitReason::Unknown => {
            TrapOutcome { resume: false, halt: false, effect: TrapEffect::Nothing }
        },
    }
}


// ---------------------------------------------------------------------
// Physical interrupts taken while the guest runs

/// Hardware work after a physical interrupt.
#[derive(PartialEq, Eq, Structural)]
pub enum IrqAction {
    Nothing,
    /// Disarm the EL2 preemption timer.
    DisarmPreemptionTimer,
    /// Mask the guest's virtual timer.
    MaskVtimer,
}

/// Result of a physical interrupt.
pub struct IrqOutcome {
    /// Re-enter the guest (else return to the run loop).
    pub resume: bool,
    /// Write the INTID to ICC_EOIR1_EL1 (priority drop).
    pub eoi: bool,
    /// Write the INTID to ICC_DIR_EL1 (deactivate).
    pub dir: bool,
    pub action: IrqAction,
}

/// EL2 physical timer (preemption watchdog).
pub const HYP_TIMER_INTID: u32 = 26;
/// Physical UART receive interrupt.
pub const UART_RX_INTID: u32 = 33;

/// The ring after each of `bytes[..n]` was pushed (63 waiting at most).
pub open spec fn ring_after_pushes(r0: Seq<u8>, bytes: Seq<u8>, n: int) -> Seq<u8>
    decreases n,
{
    if n <= 0 {
        r0
    } else {
        let p = ring_after_pushes(r0, bytes, n - 1);
        if p.len() >= 63 { p } else { p.push(bytes[n - 1]) }
    }
}

/// Some vCPU other than `current` has SGIs waiting.
pub open spec fn other_sgis_pending(vm: VmGlobalState) -> bool {
    exists|id: int| 0 <= id < MAX_VCPUS && id != vm.current_vcpu_id && #[trigger] vm.pending_sgis@[id] != 0
}

/// Outcome of physical interrupt `intid`; `rx` are the characters the
/// caller drained from the physical UART for INTID 33.
pub open spec fn irq_post(intid: u32, rx: Seq<u8>, vm0: VmGlobalState, vm1: VmGlobalState, lrs0: Seq<u64>,
    lrs1: Seq<u64>, ring0: Seq<u8>, ring1: Seq<u8>, out: IrqOutcome) -> bool {
    let ring_same = ring1 == ring0;
    if intid >= GIC_SPURIOUS_INTID {
        out == (IrqOutcome { resume: true, eoi: false, dir: false, action: IrqAction::Nothing })
            && vm1 == vm0 && lrs1 == lrs0 && ring_same
    } else if intid < 16 {
        &&& out == (IrqOutcome { resume: true, eoi: true, dir: true, action: IrqAction::Nothing })
        &&& ring_same
        &&& if vm0.current_vcpu_id == 0 {
            vm1 == vm0 && exists|ok: bool| #[trigger] inject_post(lrs0, lrs1, intid, IRQ_DEFAULT_PRIORITY, ok)
        } else {
            &&& lrs1 == lrs0
            &&& vm1 == VmGlobalState {
                pending_sgis: vm1.pending_sgis,
                ..vm0
            }
            &&& vm1.pending_sgis@ == vm0.pending_sgis@.update(0, vm0.pending_sgis@[0] | (1u32 << intid))
        }
    } else if intid == HYP_TIMER_INTID {
        &&& lrs1 == lrs0 && ring_same
        &&& if multi_vcpu(vm0.vcpu_online_mask) {
            vm1 == VmGlobalState { preemption_exit: true, ..vm0 }
                && out == (IrqOutcome { resume: false, eoi: true, dir: true, action: IrqAction::DisarmPreemptionTimer })
        } else {
            vm1 == vm0 && out == (IrqOutcome { resume: true, eoi: true, dir: true, action: IrqAction::DisarmPreemptionTimer })
        }
    } else if intid == UART_RX_INTID {
        &&& ring1 == ring_after_pushes(ring0, rx, rx.len() as int)
        &&& vm1 == vm0 && lrs1 == lrs0
        &&& out == (IrqOutcome { resume: false, eoi: true, dir: true, action: IrqAction::Nothing })
    } else if intid == crate::gicv3::VTIMER_IRQ {
        let vt = crate::gicv3::VTIMER_IRQ;
        &&& ring_same
        &&& exists|ok: bool| #[trigger] crate::gicv3::inject_hw_post(lrs0, lrs1, vt, vt, IRQ_DEFAULT_PRIORITY, ok)
        &&& if multi_vcpu(vm0.vcpu_online_mask) && other_sgis_pending(vm0) {
            vm1 == VmGlobalState { preemption_exit: true, ..vm0 }
                && out == (IrqOutcome { resume: false, eoi: true, dir: false, action: IrqAction::MaskVtimer })
        } else {
            vm1 == vm0 && out == (IrqOutcome { resume: true, eoi: true, dir: false, action: IrqAction::MaskVtimer })
        }
    } else {
        out == (IrqOutcome { resume: true, eoi: true, dir: true, action: IrqAction::Nothing })
            && vm1 == vm0 && lrs1 == lrs0 && ring_same
    }
}

/// A physical interrupt taken while the guest ran, acknowledged by the
/// caller as `intid`: SGIs go to vCPU 0 (injected when it runs, queued
/// otherwise), the preemption timer and the UART send the CPU back to
/// the run loop when needed, the virtual timer is passed to the guest
/// linked to the physical one.
pub fn handle_irq_exception(c: &mut ExceptionCounters, intid: u32, rx: &Vec<u8>, vm: &mut VmGlobalState,
    lrs: &mut Vec<u64>, ring: &mut crate::global::UartRxRing) -> (out: IrqOutcome)
    requires
        old(ring).wf(),
    ensures
        final(ring).wf(),
        final(c).exception_count == 0,
        final(c).wfi_count == old(c).wfi_count,
        final(c).last_wfi_pc == old(c).last_wfi_pc,
        irq_post(intid, rx@, *old(vm), *final(vm), old(lrs)@, final(lrs)@, old(ring)@, final(ring)@, out),
{
    c.exception_count = 0;
    if intid >= GIC_SPURIOUS_INTID {
        return IrqOutcome { resume: true, eoi: false, dir: false, action: IrqAction::Nothing };
    }
    if intid < 16 {
        if vm.current_vcpu_id == 0 {
            let ghost l0 = lrs@;
            let r = GicV3VirtualInterface::inject_interrupt(lrs, intid, IRQ_DEFAULT_PRIORITY);
            assert(inject_post(l0, lrs@, intid, IRQ_DEFAULT_PRIORITY, r is Ok));
        } else {
            let v = vm.pending_sgis[0] | (1u32 << intid);
            vm.pending_sgis[0] = v;
        }
        return IrqOutcome { resume: true, eoi: true, dir: true, action: IrqAction::Nothing };
    }
    if intid == HYP_TIMER_INTID {
        let online = vm.vcpu_online_mask;
        let multi = online != 0 && online & (online - 1) != 0;
        assert(multi == multi_vcpu(online));
        if multi {
            vm.preemption_exit = true;
            return IrqOutcome { resume: false, eoi: true, dir: true, action: IrqAction::DisarmPreemptionTimer };
        }
        return IrqOutcome { resume: true, eoi: true, dir: true, action: IrqAction::DisarmPreemptionTimer };
    }
    if intid == UART_RX_INTID {
        let ghost r0 = ring@;
        let mut i: usize = 0;
        while i < rx.len()
            invariant
                i <= rx@.len(),
                ring.wf(),
                ring@ == ring_after_pushes(r0, rx@, i as int),
            decreases rx@.len() - i,
        {
            ring.push(rx[i]);
            i = i + 1;
        }
        return IrqOutcome { resume: false, eoi: true, dir: true, action: IrqAction::Nothing };
    }
    if intid == crate::gicv3::VTIMER_IRQ {
        let vt = crate::gicv3::VTIMER_IRQ;
        let ghost l0 = lrs@;
        let r = GicV3VirtualInterface::inject_hw_interrupt(lrs, vt, vt, IRQ_DEFAULT_PRIORITY);
        assert(crate::gicv3::inject_hw_post(l0, lrs@, vt, vt, IRQ_DEFAULT_PRIORITY, r is Ok));
        let online = vm.vcpu_online_mask;
        let multi = online != 0 && online & (online - 1) != 0;
        assert(multi == multi_vcpu(online));
        if multi {
            let current = vm.current_vcpu_id;
            let mut needs_switch = false;
            let mut id: usize = 0;
            while id < MAX_VCPUS && !needs_switch
                invariant
                    id <= MAX_VCPUS,
                    current == vm.current_vcpu_id,
                    !needs_switch ==> forall|k: int| 0 <= k < id && k != current ==> #[trigger] vm.pending_sgis@[k] == 0,
                    needs_switch ==> other_sgis_pending(*vm),
                decreases MAX_VCPUS - id,
            {
                if id != current && vm.pending_sgis[id] != 0 {
                    needs_switch = true;
                }
                id = id + 1;
            }
            if needs_switch {
                vm.preemption_exit = true;
                return IrqOutcome { resume: false, eoi: true, dir: false, action: IrqAction::MaskVtimer };
            }
        }
        return IrqOutcome { resume: true, eoi: true, dir: false, action: IrqAction::MaskVtimer };
    }
    IrqOutcome { resume: true, eoi: true, dir: true, action: IrqAction::Nothing }
}

} // verus!
