//! GICv3 virtual CPU interface: the list registers (ICH_LR<n>_EL2) through
//! which the hypervisor presents virtual interrupts to a guest.
//!
//! The register bank is handled as a sequence of 64-bit list-register
//! values; reading the bank from and writing it back to the CPU is left to
//! the caller.

use vstd::prelude::*;
use crate::defs::{
    LR_GROUP1_BIT, LR_HW_BIT, LR_PINTID_MASK, LR_PINTID_SHIFT, LR_PRIORITY_SHIFT, LR_STATE_MASK,
    LR_STATE_SHIFT, LR_VINTID_MASK, VTR_LISTREGS_MASK,
};

verus! {

/// Virtual timer interrupt (PPI 27).
pub const VTIMER_IRQ: u32 = 27;
/// Physical timer interrupt (PPI 30).
pub const PTIMER_IRQ: u32 = 30;

/// GICv3 CPU-interface system registers (ICC_*_EL1/EL2).
pub struct GicV3SystemRegs;

/// GICv3 virtual CPU interface (ICH_*_EL2).
pub struct GicV3VirtualInterface;

/// List-register state: invalid (free).
pub const LR_STATE_INVALID: u64 = 0b00;
/// List-register state: pending.
pub const LR_STATE_PENDING: u64 = 0b01;
/// List-register state: active.
pub const LR_STATE_ACTIVE: u64 = 0b10;
/// List-register state: pending and active.
pub const LR_STATE_PENDING_ACTIVE: u64 = 0b11;

/// State field [63:62] of a list-register value.
pub open spec fn lr_state(lr: u64) -> u64 {
    (lr >> LR_STATE_SHIFT) & LR_STATE_MASK
}

/// Virtual INTID field [31:0] of a list-register value.
pub open spec fn lr_intid(lr: u64) -> u32 {
    (lr & LR_VINTID_MASK) as u32
}

/// Priority field [55:48] of a list-register value.
pub open spec fn lr_priority(lr: u64) -> u8 {
    ((lr >> LR_PRIORITY_SHIFT) & 0xFF) as u8
}

/// A pending, group-1 list-register value for `intid` at `priority`.
pub open spec fn spec_build_lr(intid: u32, priority: u8) -> u64 {
    (LR_STATE_PENDING << LR_STATE_SHIFT) | LR_GROUP1_BIT | ((priority as u64) << LR_PRIORITY_SHIFT) | (intid as u64)
}

/// A pending, group-1, hardware-linked list-register value: the guest's EOI
/// of `intid` also deactivates physical interrupt `pintid`.
pub open spec fn spec_build_hw_lr(intid: u32, pintid: u32, priority: u8) -> u64 {
    (LR_STATE_PENDING << LR_STATE_SHIFT) | LR_HW_BIT | LR_GROUP1_BIT | ((priority as u64) << LR_PRIORITY_SHIFT)
        | (((pintid as u64) & LR_PINTID_MASK) << LR_PINTID_SHIFT) | (intid as u64)
}

/// `i` is the first free (invalid-state) register of `lrs`.
pub open spec fn is_first_free(lrs: Seq<u64>, i: int) -> bool {
    &&& 0 <= i < lrs.len()
    &&& lr_state(lrs[i]) == LR_STATE_INVALID
    &&& forall|j: int| 0 <= j < i ==> lr_state(#[trigger] lrs[j]) != LR_STATE_INVALID
}

/// Some register of `lrs` is free.
pub open spec fn has_free(lrs: Seq<u64>) -> bool {
    exists|i: int| 0 <= i < lrs.len() && lr_state(#[trigger] lrs[i]) == LR_STATE_INVALID
}

/// `i` is the first register of `lrs` that holds `intid`.
pub open spec fn is_first_with_intid(lrs: Seq<u64>, intid: u32, i: int) -> bool {
    &&& 0 <= i < lrs.len()
    &&& lr_intid(lrs[i]) == intid
    &&& forall|j: int| 0 <= j < i ==> lr_intid(#[trigger] lrs[j]) != intid
}

/// `after` is `before` once `intid` was injected with `priority`: into the
/// first free register when there is one (`ok`), otherwise unchanged.
pub open spec fn inject_post(before: Seq<u64>, after: Seq<u64>, intid: u32, priority: u8, ok: bool) -> bool {
    &&& has_free(before) ==> ok && exists|i: int| #[trigger] is_first_free(before, i)
        && after == before.update(i, spec_build_lr(intid, priority))
    &&& !has_free(before) ==> !ok && after == before
}

/// `after` is `before` once `intid` was injected linked to `pintid`: stale
/// active registers for `intid` dropped, then the first free one filled
/// (`ok`) when there is one.
pub open spec fn inject_hw_post(before: Seq<u64>, after: Seq<u64>, intid: u32, pintid: u32, priority: u8, ok: bool) -> bool {
    let cleaned = drop_stale_active(before, intid);
    &&& has_free(cleaned) ==> ok && exists|i: int| #[trigger] is_first_free(cleaned, i)
        && after == cleaned.update(i, spec_build_hw_lr(intid, pintid, priority))
    &&& !has_free(cleaned) ==> !ok && after == cleaned
}

/// The register is pending (alone or together with active).
pub open spec fn lr_is_pending(lr: u64) -> bool {
    lr_state(lr) == LR_STATE_PENDING || lr_state(lr) == LR_STATE_PENDING_ACTIVE
}

/// Number of pending registers among the first `n` of `lrs`.
pub open spec fn pending_prefix(lrs: Seq<u64>, n: int) -> nat
    decreases n,
{
    if n <= 0 {
        0
    } else {
        pending_prefix(lrs, n - 1) + if lr_is_pending(lrs[n - 1]) { 1nat } else { 0nat }
    }
}

/// `lrs` after dropping every active register that holds `intid`.
pub open spec fn drop_stale_active(lrs: Seq<u64>, intid: u32) -> Seq<u64> {
    Seq::new(lrs.len(), |i: int|
        if lr_intid(lrs[i]) == intid && lr_state(lrs[i]) == LR_STATE_ACTIVE { 0u64 } else { lrs[i] })
}

proof fn lemma_pending_prefix_bound(lrs: Seq<u64>, n: int)
    requires
        0 <= n,
    ensures
        pending_prefix(lrs, n) <= n,
    decreases n,
{
    if n > 0 {
        lemma_pending_prefix_bound(lrs, n - 1);
    }
}

impl GicV3VirtualInterface {
    /// Number of list registers implemented, from ICH_VTR_EL2.ListRegs.
    pub fn num_list_registers(vtr: u32) -> (r: u32)
        ensures
            r == (vtr & VTR_LISTREGS_MASK) + 1,
            1 <= r <= 32,
    {
        let n = vtr & VTR_LISTREGS_MASK;
        assert(n <= 31) by (bit_vector)
            requires n == vtr & 0x1Fu32;
        n + 1
    }

    /// A pending, group-1 list-register value for `intid` at `priority`.
    pub fn build_lr(intid: u32, priority: u8) -> (r: u64)
        ensures
            r == spec_build_lr(intid, priority),
            lr_state(r) == LR_STATE_PENDING,
            lr_intid(r) == intid,
            lr_priority(r) == priority,
            (r >> 60u64) & 1 == 1,
    {
        let r = (LR_STATE_PENDING << LR_STATE_SHIFT) | LR_GROUP1_BIT | ((priority as u64) << LR_PRIORITY_SHIFT)
            | (intid as u64);
        proof { lemma_build_lr_fields(intid, priority); }
        r
    }

    /// State field of a list-register value.
    pub fn get_lr_state(lr: u64) -> (r: u64)
        ensures
            r == lr_state(lr),
            r <= 3,
    {
        let r = (lr >> LR_STATE_SHIFT) & LR_STATE_MASK;
        assert(r <= 3) by (bit_vector)
            requires r == (lr >> 62u64) & 3u64;
        r
    }

    /// Virtual INTID field of a list-register value.
    pub fn get_lr_intid(lr: u64) -> (r: u32)
        ensures
            r == lr_intid(lr),
    {
        (lr & LR_VINTID_MASK) as u32
    }

    /// Priority field of a list-register value.
    pub fn get_lr_priority(lr: u64) -> (r: u8)
        ensures
            r == lr_priority(lr),
    {
        ((lr >> LR_PRIORITY_SHIFT) & 0xFF) as u8
    }

    /// Index of the first free list register.
    pub fn find_free_lr(lrs: &Vec<u64>) -> (r: Option<usize>)
        ensures
            match r {
                Some(i) => is_first_free(lrs@, i as int),
                None => !has_free(lrs@),
            },
    {
        let mut i: usize = 0;
        while i < lrs.len()
            invariant
                i <= lrs.len(),
                forall|j: int| 0 <= j < i ==> lr_state(#[trigger] lrs@[j]) != LR_STATE_INVALID,
            decreases lrs.len() - i,
        {
            if Self::get_lr_state(lrs[i]) == LR_STATE_INVALID {
                return Some(i);
            }
            i = i + 1;
        }
        None
    }

    /// Number of list registers holding a pending interrupt.
    pub fn pending_count(lrs: &Vec<u64>) -> (r: usize)
        ensures
            r == pending_prefix(lrs@, lrs@.len() as int),
    {
        let mut count: usize = 0;
        let mut i: usize = 0;
        while i < lrs.len()
            invariant
                i <= lrs.len(),
                count == pending_prefix(lrs@, i as int),
            decreases lrs.len() - i,
        {
            proof { lemma_pending_prefix_bound(lrs@, i as int); }
            let state = Self::get_lr_state(lrs[i]);
            if state == LR_STATE_PENDING || state == LR_STATE_PENDING_ACTIVE {
                count = count + 1;
            }
            i = i + 1;
        }
        count
    }

    /// Present `intid` to the guest in the first free list register.
    pub fn inject_interrupt(lrs: &mut Vec<u64>, intid: u32, priority: u8) -> (r: Result<(), &'static str>)
        ensures
            has_free(old(lrs)@) ==> r is Ok && exists|i: int| #[trigger] is_first_free(old(lrs)@, i)
                && final(lrs)@ == old(lrs)@.update(i, spec_build_lr(intid, priority)),
            !has_free(old(lrs)@) ==> r == Err::<(), &'static str>("No free list register for interrupt injection")
                && final(lrs)@ == old(lrs)@,
            inject_post(old(lrs)@, final(lrs)@, intid, priority, r is Ok),
    {
        match Self::find_free_lr(lrs) {
            Some(i) => {
                let v = Self::build_lr(intid, priority);
                lrs.set(i, v);
                assert(is_first_free(old(lrs)@, i as int));
                Ok(())
            },
            None => Err("No free list register for interrupt injection"),
        }
    }

    /// Present `intid` to the guest linked to physical interrupt `pintid`,
    /// after dropping any register left active for `intid`.
    pub fn inject_hw_interrupt(lrs: &mut Vec<u64>, intid: u32, pintid: u32, priority: u8)
        -> (r: Result<(), &'static str>)
        ensures
            ({
                let cleaned = drop_stale_active(old(lrs)@, intid);
                &&& has_free(cleaned) ==> r is Ok && exists|i: int| #[trigger] is_first_free(cleaned, i)
                    && final(lrs)@ == cleaned.update(i, spec_build_hw_lr(intid, pintid, priority))
                &&& !has_free(cleaned) ==> r == Err::<(), &'static str>("No free list register for interrupt injection")
                    && final(lrs)@ == cleaned
            }),
            inject_hw_post(old(lrs)@, final(lrs)@, intid, pintid, priority, r is Ok),
    {
        let mut i: usize = 0;
        while i < lrs.len()
            invariant
                i <= lrs.len(),
                lrs@.len() == old(lrs)@.len(),
                forall|j: int| 0 <= j < i ==> lrs@[j] == #[trigger] drop_stale_active(old(lrs)@, intid)[j],
                forall|j: int| i <= j < lrs@.len() ==> lrs@[j] == #[trigger] old(lrs)@[j],
            decreases lrs.len() - i,
        {
            let lr = lrs[i];
            if Self::get_lr_intid(lr) == intid && Self::get_lr_state(lr) == LR_STATE_ACTIVE {
                lrs.set(i, 0);
            }
            i = i + 1;
        }
        assert(lrs@ =~= drop_stale_active(old(lrs)@, intid));
        let ghost cleaned = lrs@;
        match Self::find_free_lr(lrs) {
            Some(k) => {
                let v = (LR_STATE_PENDING << LR_STATE_SHIFT) | LR_HW_BIT | LR_GROUP1_BIT
                    | ((priority as u64) << LR_PRIORITY_SHIFT)
                    | (((pintid as u64) & LR_PINTID_MASK) << LR_PINTID_SHIFT) | (intid as u64);
                lrs.set(k, v);
                assert(is_first_free(cleaned, k as int));
                Ok(())
            },
            None => Err("No free list register for interrupt injection"),
        }
    }

    /// Free the first list register that holds `intid`.
    pub fn clear_interrupt(lrs: &mut Vec<u64>, intid: u32)
        ensures
            (exists|i: int| #[trigger] is_first_with_intid(old(lrs)@, intid, i)
                && final(lrs)@ == old(lrs)@.update(i, 0))
            || ((forall|j: int| 0 <= j < old(lrs)@.len() ==> lr_intid(#[trigger] old(lrs)@[j]) != intid)
                && final(lrs)@ == old(lrs)@),
    {
        let mut i: usize = 0;
        while i < lrs.len()
            invariant
                i <= lrs.len(),
                lrs@ == old(lrs)@,
                forall|j: int| 0 <= j < i ==> lr_intid(#[trigger] lrs@[j]) != intid,
            decreases lrs.len() - i,
        {
            if Self::get_lr_intid(lrs[i]) == intid {
                lrs.set(i, 0);
                assert(is_first_with_intid(old(lrs)@, intid, i as int));
                return;
            }
            i = i + 1;
        }
    }

    /// Whether the CPU implements the GICv3 system-register interface,
    /// from ID_AA64PFR0_EL1.GIC.
    pub fn is_available(pfr0: u64) -> (r: bool)
        ensures
            r == ((pfr0 >> 24u64) & 0xF >= 1),
    {
        is_gicv3_available(pfr0)
    }

    /// Whether the CPU supports nested virtualisation (ARMv8.4), from
    /// ID_AA64MMFR2_EL1.NV.
    pub fn has_armv8_4_features(mmfr2: u64) -> (r: bool)
        ensures
            r == ((mmfr2 >> 24u64) & 0xF >= 1),
    {
        let nv = (mmfr2 >> 24) & 0xF;
        nv >= 1
    }
}

/// Whether the CPU implements the GICv3 system-register interface, from
/// ID_AA64PFR0_EL1.GIC (bits [27:24]).
pub fn is_gicv3_available(pfr0: u64) -> (r: bool)
    ensures
        r == ((pfr0 >> 24u64) & 0xF >= 1),
{
    let gic_version = (pfr0 >> 24) & 0xF;
    gic_version >= 1
}

/// The fields of a built list-register value read back as given.
pub proof fn lemma_build_lr_fields(intid: u32, priority: u8)
    ensures
        lr_state(spec_build_lr(intid, priority)) == LR_STATE_PENDING,
        lr_intid(spec_build_lr(intid, priority)) == intid,
        lr_priority(spec_build_lr(intid, priority)) == priority,
        (spec_build_lr(intid, priority) >> 60u64) & 1 == 1,
{
    let p = priority as u64;
    let x = intid as u64;
    assert(p < 256 && x < 0x1_0000_0000);
    let v = (1u64 << 62u64) | 0x1000_0000_0000_0000u64 | (p << 48u64) | x;
    assert((v >> 62u64) & 3u64 == 1) by (bit_vector)
        requires v == (1u64 << 62u64) | 0x1000_0000_0000_0000u64 | (p << 48u64) | x, p < 256, x < 0x1_0000_0000u64;
    assert(v & 0xFFFF_FFFFu64 == x) by (bit_vector)
        requires v == (1u64 << 62u64) | 0x1000_0000_0000_0000u64 | (p << 48u64) | x, p < 256, x < 0x1_0000_0000u64;
    assert((v >> 48u64) & 0xFFu64 == p) by (bit_vector)
        requires v == (1u64 << 62u64) | 0x1000_0000_0000_0000u64 | (p << 48u64) | x, p < 256, x < 0x1_0000_0000u64;
    assert((v >> 60u64) & 1u64 == 1) by (bit_vector)
        requires v == (1u64 << 62u64) | 0x1000_0000_0000_0000u64 | (p << 48u64) | x, p < 256, x < 0x1_0000_0000u64;
    assert(spec_build_lr(intid, priority) == v);
}

} // verus!
