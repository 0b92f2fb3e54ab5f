//! Secure-partition contexts: register state plus the lifecycle state
//! machine, pending virtual interrupts and CPU ownership of each partition,
//! and the table of registered partitions.

use vstd::prelude::*;
use crate::defs::SPSR_EL1H_DAIF_MASKED;
use crate::ffa::FFA_MSG_WAIT;
use crate::regs::{spec_zero_sys, GeneralPurposeRegs, SystemRegs, VcpuContext};

verus! {

/// EL1 system registers a secure partition owns; saved when it traps out and
/// restored before it is entered again.
#[derive(Clone, Copy, Debug)]
pub struct SpEl1State {
    pub sctlr_el1: u64,
    pub ttbr0_el1: u64,
    pub ttbr1_el1: u64,
    pub tcr_el1: u64,
    pub mair_el1: u64,
    pub vbar_el1: u64,
    pub cpacr_el1: u64,
    pub contextidr_el1: u64,
    pub tpidr_el1: u64,
    pub tpidrro_el0: u64,
    pub tpidr_el0: u64,
    pub par_el1: u64,
    pub cntkctl_el1: u64,
    pub sp_el1: u64,
    pub sp_el0: u64,
    pub afsr0_el1: u64,
    pub afsr1_el1: u64,
    pub amair_el1: u64,
    pub mdscr_el1: u64,
}

/// All EL1 registers zero.
pub open spec fn spec_zero_el1() -> SpEl1State {
    SpEl1State {
        sctlr_el1: 0,
        ttbr0_el1: 0,
        ttbr1_el1: 0,
        tcr_el1: 0,
        mair_el1: 0,
        vbar_el1: 0,
        cpacr_el1: 0,
        contextidr_el1: 0,
        tpidr_el1: 0,
        tpidrro_el0: 0,
        tpidr_el0: 0,
        par_el1: 0,
        cntkctl_el1: 0,
        sp_el1: 0,
        sp_el0: 0,
        afsr0_el1: 0,
        afsr1_el1: 0,
        amair_el1: 0,
        mdscr_el1: 0,
    }
}

impl SpEl1State {
    /// All registers zero.
    pub fn new() -> (r: Self)
        ensures
            r == spec_zero_el1(),
    {
        SpEl1State {
            sctlr_el1: 0,
            ttbr0_el1: 0,
            ttbr1_el1: 0,
            tcr_el1: 0,
            mair_el1: 0,
            vbar_el1: 0,
            cpacr_el1: 0,
            contextidr_el1: 0,
            tpidr_el1: 0,
            tpidrro_el0: 0,
            tpidr_el0: 0,
            par_el1: 0,
            cntkctl_el1: 0,
            sp_el1: 0,
            sp_el0: 0,
            afsr0_el1: 0,
            afsr1_el1: 0,
            amair_el1: 0,
            mdscr_el1: 0,
        }
    }
}

impl Default for SpEl1State {
    fn default() -> (r: Self)
        ensures
            r == spec_zero_el1(),
    {
        Self::new()
    }
}

/// Lifecycle state of a secure partition.
#[derive(Clone, Copy, Debug, PartialEq, Eq, Structural)]
pub enum SpState {
    /// Loaded, not yet booted.
    Reset,
    /// Waiting for a message (called FFA_MSG_WAIT).
    Idle,
    /// Executing.
    Running,
    /// Waiting for an event.
    Blocked,
    /// Preempted by a non-secure interrupt; resumed with FFA_RUN.
    Preempted,
}

/// The state whose encoding is `v` (0 Reset, 1 Idle, 2 Running, 3 Blocked,
/// 4 Preempted).
pub open spec fn spec_state_of_u8(v: u8) -> Option<SpState> {
    if v == 0 {
        Some(SpState::Reset)
    } else if v == 1 {
        Some(SpState::Idle)
    } else if v == 2 {
        Some(SpState::Running)
    } else if v == 3 {
        Some(SpState::Blocked)
    } else if v == 4 {
        Some(SpState::Preempted)
    } else {
        None
    }
}

impl SpState {
    /// Decode a state stored as a byte; `None` for an unknown value.
    pub fn try_from_u8(v: u8) -> (r: Option<SpState>)
        ensures
            r == spec_state_of_u8(v),
    {
        match v {
            0 => Some(SpState::Reset),
            1 => Some(SpState::Idle),
            2 => Some(SpState::Running),
            3 => Some(SpState::Blocked),
            4 => Some(SpState::Preempted),
            _ => None,
        }
    }
}

/// The transitions the partition manager allows.
pub open spec fn valid_transition(from: SpState, to: SpState) -> bool {
    match (from, to) {
        (SpState::Reset, SpState::Idle) => true,
        (SpState::Idle, SpState::Running) => true,
        (SpState::Running, SpState::Idle) => true,
        (SpState::Running, SpState::Blocked) => true,
        (SpState::Blocked, SpState::Running) => true,
        (SpState::Blocked, SpState::Preempted) => true,
        (SpState::Running, SpState::Preempted) => true,
        (SpState::Preempted, SpState::Running) => true,
        _ => false,
    }
}

/// Marker of an empty pending-interrupt slot.
pub const NO_PENDING_IRQ: u32 = 0xFFFF_FFFF;
/// Number of pending-interrupt slots per partition.
pub const PENDING_IRQ_SLOTS: usize = 4;
/// Marker of "no CPU recorded".
pub const NO_PREEMPTED_CPU: u16 = 0xFFFF;
/// Marker of "no owner CPU".
pub const NO_OWNER_CPU: u16 = 0xFFFF;

/// What a partition context holds, as values.
pub struct SpContextView {
    pub ctx: VcpuContext,
    pub el1: SpEl1State,
    pub id: u16,
    pub state: SpState,
    pub entry: u64,
    pub vsttbr: u64,
    pub uuid: Seq<u32>,
    pub pending: Seq<u32>,
    pub preempted_cpu: u16,
    pub owner_cpu: u16,
    pub owned: Seq<u32>,
}

/// Context of one secure partition.
pub struct SpContext {
    ctx: VcpuContext,
    el1_state: SpEl1State,
    id: u16,
    state: SpState,
    entry: u64,
    vsttbr: u64,
    uuid: [u32; 4],
    pending_irqs: [u32; 4],
    preempted_cpu: u16,
    owner_cpu: u16,
    owned_intids: [u32; 4],
}

impl View for SpContext {
    type V = SpContextView;

    closed spec fn view(&self) -> SpContextView {
        SpContextView {
            ctx: self.ctx,
            el1: self.el1_state,
            id: self.id,
            state: self.state,
            entry: self.entry,
            vsttbr: self.vsttbr,
            uuid: self.uuid@,
            pending: self.pending_irqs@,
            preempted_cpu: self.preempted_cpu,
            owner_cpu: self.owner_cpu,
            owned: self.owned_intids@,
        }
    }
}

/// A partition has four UUID words, four pending-interrupt slots and four
/// owned-interrupt slots.
pub open spec fn slots_ok(v: SpContextView) -> bool {
    &&& v.uuid.len() == 4
    &&& v.pending.len() == 4
    &&& v.owned.len() == 4
}

/// Some pending slot holds an interrupt.
pub open spec fn any_pending(pending: Seq<u32>) -> bool {
    exists|i: int| 0 <= i < pending.len() && #[trigger] pending[i] != NO_PENDING_IRQ
}

/// `i` is the first slot of `s` holding `v`.
pub open spec fn first_index_of(s: Seq<u32>, v: u32, i: int) -> bool {
    &&& 0 <= i < s.len()
    &&& s[i] == v
    &&& forall|j: int| 0 <= j < i ==> #[trigger] s[j] != v
}

/// `i` is the first slot of `s` not holding `v`.
pub open spec fn first_index_not(s: Seq<u32>, v: u32, i: int) -> bool {
    &&& 0 <= i < s.len()
    &&& s[i] != v
    &&& forall|j: int| 0 <= j < i ==> #[trigger] s[j] == v
}

/// Pending slots after recording `intid`: unchanged when it is already
/// recorded; otherwise it goes into the first empty slot, or is dropped when
/// there is none.
pub open spec fn pending_after_set(p: Seq<u32>, intid: u32) -> Seq<u32> {
    if p.contains(intid) {
        p
    } else if p.contains(NO_PENDING_IRQ) {
        p.update(p.index_of_first(NO_PENDING_IRQ).unwrap(), intid)
    } else {
        p
    }
}

impl SpContext {
    /// A partition in `Reset` state that starts at `entry_point` with stack
    /// `stack_top`, interrupts masked, and no pending interrupts or owners.
    pub fn new(sp_id: u16, entry_point: u64, stack_top: u64, uuid: [u32; 4]) -> (r: Self)
        ensures
            r@.id == sp_id,
            r@.state == SpState::Reset,
            r@.entry == entry_point,
            r@.vsttbr == 0,
            r@.uuid == uuid@,
            r@.ctx.pc == entry_point,
            r@.ctx.sp == stack_top,
            r@.ctx.spsr_el2 == SPSR_EL1H_DAIF_MASKED,
            r@.ctx.sys_regs == (SystemRegs { sp_el1: stack_top, ..spec_zero_sys() }),
            forall|i: int| 0 <= i < 31 ==> r@.ctx.gp_regs.x@[i] == 0,
            r@.el1 == spec_zero_el1(),
            r@.pending == seq![NO_PENDING_IRQ, NO_PENDING_IRQ, NO_PENDING_IRQ, NO_PENDING_IRQ],
            r@.preempted_cpu == NO_PREEMPTED_CPU,
            r@.owner_cpu == NO_OWNER_CPU,
            r@.owned == seq![0u32, 0u32, 0u32, 0u32],
    {
        let mut sys_regs = SystemRegs::zeroed();
        sys_regs.sp_el1 = stack_top;
        let ctx = VcpuContext {
            gp_regs: GeneralPurposeRegs::zeroed(),
            sys_regs,
            sp: stack_top,
            pc: entry_point,
            spsr_el2: SPSR_EL1H_DAIF_MASKED,
        };
        let r = SpContext {
            ctx,
            el1_state: SpEl1State::new(),
            id: sp_id,
            state: SpState::Reset,
            entry: entry_point,
            vsttbr: 0,
            uuid,
            pending_irqs: [NO_PENDING_IRQ; 4],
            preempted_cpu: NO_PREEMPTED_CPU,
            owner_cpu: NO_OWNER_CPU,
            owned_intids: [0; 4],
        };
        assert(r@.pending =~= seq![NO_PENDING_IRQ, NO_PENDING_IRQ, NO_PENDING_IRQ, NO_PENDING_IRQ]);
        assert(r@.owned =~= seq![0u32, 0u32, 0u32, 0u32]);
        r
    }

    /// FF-A partition ID.
    pub fn sp_id(&self) -> (r: u16)
        ensures
            r == self@.id,
    {
        self.id
    }

    /// Current lifecycle state.
    pub fn state(&self) -> (r: SpState)
        ensures
            r == self@.state,
    {
        self.state
    }

    /// Cold-boot entry point.
    pub fn entry_point(&self) -> (r: u64)
        ensures
            r == self@.entry,
    {
        self.entry
    }

    /// Secure Stage-2 translation base.
    pub fn vsttbr(&self) -> (r: u64)
        ensures
            r == self@.vsttbr,
    {
        self.vsttbr
    }

    /// UUID from the partition manifest.
    pub fn uuid(&self) -> (r: &[u32; 4])
        ensures
            slots_ok(self@),
            r@ == self@.uuid,
    {
        &self.uuid
    }

    /// Record the secure Stage-2 translation base.
    pub fn set_vsttbr(&mut self, vsttbr: u64)
        ensures
            final(self)@ == (SpContextView { vsttbr, ..old(self)@ }),
    {
        self.vsttbr = vsttbr;
    }

    /// The register context.
    pub fn vcpu_ctx(&self) -> (r: &VcpuContext)
        ensures
            *r == self@.ctx,
    {
        &self.ctx
    }

    /// Replace the register context (after the partition ran).
    pub fn vcpu_ctx_mut(&mut self, ctx: VcpuContext)
        ensures
            final(self)@ == (SpContextView { ctx, ..old(self)@ }),
    {
        self.ctx = ctx;
    }

    /// Store the EL1 registers read from the CPU after the partition trapped out.
    pub fn save_el1_state(&mut self, el1: SpEl1State)
        ensures
            final(self)@ == (SpContextView { el1, ..old(self)@ }),
    {
        self.el1_state = el1;
    }

    /// The EL1 registers to load into the CPU before entering the partition.
    pub fn restore_el1_state(&self) -> (r: SpEl1State)
        ensures
            r == self@.el1,
    {
        self.el1_state
    }

    /// Move to `new_state` when the lifecycle allows it.
    pub fn transition_to(&mut self, new_state: SpState) -> (r: Result<(), &'static str>)
        ensures
            valid_transition(old(self)@.state, new_state) ==> r is Ok
                && final(self)@ == (SpContextView { state: new_state, ..old(self)@ }),
            !valid_transition(old(self)@.state, new_state) ==> r == Err::<(), &'static str>("invalid SP state transition")
                && final(self)@ == old(self)@,
    {
        let valid = match (self.state, new_state) {
            (SpState::Reset, SpState::Idle) => true,
            (SpState::Idle, SpState::Running) => true,
            (SpState::Running, SpState::Idle) => true,
            (SpState::Running, SpState::Blocked) => true,
            (SpState::Blocked, SpState::Running) => true,
            (SpState::Blocked, SpState::Preempted) => true,
            (SpState::Running, SpState::Preempted) => true,
            (SpState::Preempted, SpState::Running) => true,
            _ => false,
        };
        if valid {
            self.state = new_state;
            Ok(())
        } else {
            Err("invalid SP state transition")
        }
    }

    /// Move from `expected` to `new_state`; fails with the actual state when
    /// the partition is not in `expected`. No lifecycle check is made.
    pub fn try_transition(&mut self, expected: SpState, new_state: SpState) -> (r: Result<(), SpState>)
        ensures
            old(self)@.state == expected ==> r is Ok
                && final(self)@ == (SpContextView { state: new_state, ..old(self)@ }),
            old(self)@.state != expected ==> r == Err::<(), SpState>(old(self)@.state) && final(self)@ == old(self)@,
    {
        if self.state == expected {
            self.state = new_state;
            Ok(())
        } else {
            Err(self.state)
        }
    }

    /// Put the arguments of a direct request into x0-x7.
    pub fn set_args(&mut self, x0: u64, x1: u64, x2: u64, x3: u64, x4: u64, x5: u64, x6: u64, x7: u64)
        ensures
            final(self)@.ctx.gp_regs.x@ == old(self)@.ctx.gp_regs.x@.update(0, x0).update(1, x1).update(2, x2)
                .update(3, x3).update(4, x4).update(5, x5).update(6, x6).update(7, x7),
            final(self)@ == (SpContextView {
                ctx: VcpuContext { gp_regs: final(self)@.ctx.gp_regs, ..old(self)@.ctx },
                ..old(self)@
            }),
    {
        self.ctx.gp_regs.set_reg(0, x0);
        self.ctx.gp_regs.set_reg(1, x1);
        self.ctx.gp_regs.set_reg(2, x2);
        self.ctx.gp_regs.set_reg(3, x3);
        self.ctx.gp_regs.set_reg(4, x4);
        self.ctx.gp_regs.set_reg(5, x5);
        self.ctx.gp_regs.set_reg(6, x6);
        self.ctx.gp_regs.set_reg(7, x7);
    }

    /// x0-x7 of the context (the partition's response).
    pub fn get_args(&self) -> (r: (u64, u64, u64, u64, u64, u64, u64, u64))
        ensures
            r == (self@.ctx.gp_regs.x@[0], self@.ctx.gp_regs.x@[1], self@.ctx.gp_regs.x@[2],
                self@.ctx.gp_regs.x@[3], self@.ctx.gp_regs.x@[4], self@.ctx.gp_regs.x@[5],
                self@.ctx.gp_regs.x@[6], self@.ctx.gp_regs.x@[7]),
    {
        let g = &self.ctx.gp_regs;
        (g.get_reg(0), g.get_reg(1), g.get_reg(2), g.get_reg(3), g.get_reg(4), g.get_reg(5), g.get_reg(6),
            g.get_reg(7))
    }

    /// Record the interrupt IDs this partition owns (0 marks an unused slot).
    pub fn set_owned_intids(&mut self, intids: [u32; 4])
        ensures
            final(self)@ == (SpContextView { owned: intids@, ..old(self)@ }),
    {
        self.owned_intids = intids;
    }

    /// Whether this partition owns `intid` (0 is never owned).
    pub fn owns_intid(&self, intid: u32) -> (r: bool)
        ensures
            slots_ok(self@),
            r == (intid != 0 && self@.owned.contains(intid)),
    {
        let mut i: usize = 0;
        while i < 4
            invariant
                i <= 4,
                self.owned_intids@.len() == 4,
                forall|j: int| 0 <= j < i ==> !(self.owned_intids@[j] != 0 && #[trigger] self.owned_intids@[j] == intid),
            decreases 4 - i,
        {
            if self.owned_intids[i] != 0 && self.owned_intids[i] == intid {
                assert(self@.owned[i as int] == intid);
                return true;
            }
            i = i + 1;
        }
        proof {
            if intid != 0 && self@.owned.contains(intid) {
                let k = choose|k: int| 0 <= k < self@.owned.len() && self@.owned[k] == intid;
                assert(!(self.owned_intids@[k] != 0 && self.owned_intids@[k] == intid));
            }
        }
        false
    }

    /// First non-zero owned interrupt ID.
    pub fn first_owned_intid(&self) -> (r: Option<u32>)
        ensures
            slots_ok(self@),
            match r {
                Some(id) => exists|i: int| #[trigger] first_index_not(self@.owned, 0, i) && self@.owned[i] == id,
                None => forall|i: int| 0 <= i < 4 ==> #[trigger] self@.owned[i] == 0,
            },
    {
        let mut i: usize = 0;
        while i < 4
            invariant
                i <= 4,
                self.owned_intids@.len() == 4,
                forall|j: int| 0 <= j < i ==> #[trigger] self.owned_intids@[j] == 0,
            decreases 4 - i,
        {
            if self.owned_intids[i] != 0 {
                assert(first_index_not(self@.owned, 0, i as int));
                return Some(self.owned_intids[i]);
            }
            i = i + 1;
        }
        None
    }

    /// Record `intid` as pending for the next entry: nothing happens when it
    /// is already pending; it takes the first empty slot; it is dropped
    /// when all slots are taken.
    pub fn set_pending_irq(&mut self, intid: u32)
        ensures
            slots_ok(old(self)@),
            final(self)@ == (SpContextView { pending: pending_after_set(old(self)@.pending, intid), ..old(self)@ }),
    {
        let mut i: usize = 0;
        while i < PENDING_IRQ_SLOTS
            invariant
                i <= 4,
                self.pending_irqs@.len() == 4,
                self@ == old(self)@,
                forall|j: int| 0 <= j < i ==> #[trigger] self.pending_irqs@[j] != intid,
            decreases 4 - i,
        {
            if self.pending_irqs[i] == intid {
                assert(self@.pending.contains(intid)) by {
                    assert(self@.pending[i as int] == intid);
                }
                return;
            }
            i = i + 1;
        }
        assert(!self@.pending.contains(intid));
        let mut k: usize = 0;
        while k < PENDING_IRQ_SLOTS
            invariant
                k <= 4,
                self.pending_irqs@.len() == 4,
                self@ == old(self)@,
                !self@.pending.contains(intid),
                forall|j: int| 0 <= j < k ==> #[trigger] self.pending_irqs@[j] != NO_PENDING_IRQ,
            decreases 4 - k,
        {
            if self.pending_irqs[k] == NO_PENDING_IRQ {
                proof {
                    let p = old(self)@.pending;
                    assert(p[k as int] == NO_PENDING_IRQ);
                    assert(p.contains(NO_PENDING_IRQ));
                    p.index_of_first_ensures(NO_PENDING_IRQ);
                    assert(p.index_of_first(NO_PENDING_IRQ) == Some(k as int));
                }
                self.pending_irqs[k] = intid;
                return;
            }
            k = k + 1;
        }
    }

    /// Take the first pending interrupt, emptying its slot.
    pub fn take_pending_irq(&mut self) -> (r: Option<u32>)
        ensures
            slots_ok(old(self)@),
            match r {
                Some(id) => exists|i: int| #[trigger] first_index_not(old(self)@.pending, NO_PENDING_IRQ, i)
                    && old(self)@.pending[i] == id
                    && final(self)@ == (SpContextView {
                        pending: old(self)@.pending.update(i, NO_PENDING_IRQ),
                        ..old(self)@
                    }),
                None => !any_pending(old(self)@.pending) && final(self)@ == old(self)@,
            },
    {
        let mut i: usize = 0;
        while i < PENDING_IRQ_SLOTS
            invariant
                i <= 4,
                self.pending_irqs@.len() == 4,
                self@ == old(self)@,
                forall|j: int| 0 <= j < i ==> #[trigger] self.pending_irqs@[j] == NO_PENDING_IRQ,
            decreases 4 - i,
        {
            let intid = self.pending_irqs[i];
            if intid != NO_PENDING_IRQ {
                self.pending_irqs[i] = NO_PENDING_IRQ;
                assert(first_index_not(old(self)@.pending, NO_PENDING_IRQ, i as int));
                return Some(intid);
            }
            i = i + 1;
        }
        None
    }

    /// Whether some interrupt is pending.
    pub fn has_pending_irq(&self) -> (r: bool)
        ensures
            slots_ok(self@),
            r == any_pending(self@.pending),
    {
        let mut i: usize = 0;
        while i < PENDING_IRQ_SLOTS
            invariant
                i <= 4,
                self.pending_irqs@.len() == 4,
                forall|j: int| 0 <= j < i ==> #[trigger] self.pending_irqs@[j] == NO_PENDING_IRQ,
            decreases 4 - i,
        {
            if self.pending_irqs[i] != NO_PENDING_IRQ {
                assert(self@.pending[i as int] != NO_PENDING_IRQ);
                return true;
            }
            i = i + 1;
        }
        false
    }

    /// Record the CPU that preempted the partition (kept as 16 bits).
    pub fn set_preempted_cpu(&mut self, cpu: usize)
        ensures
            final(self)@ == (SpContextView { preempted_cpu: cpu as u16, ..old(self)@ }),
    {
        self.preempted_cpu = cpu as u16;
    }

    /// The CPU that preempted the partition, if one is recorded.
    pub fn preempted_cpu(&self) -> (r: Option<usize>)
        ensures
            self@.preempted_cpu == NO_PREEMPTED_CPU ==> r.is_none(),
            self@.preempted_cpu != NO_PREEMPTED_CPU ==> r == Some(self@.preempted_cpu as usize),
    {
        if self.preempted_cpu == NO_PREEMPTED_CPU {
            None
        } else {
            Some(self.preempted_cpu as usize)
        }
    }

    /// Forget the preempting CPU.
    pub fn clear_preempted_cpu(&mut self)
        ensures
            final(self)@ == (SpContextView { preempted_cpu: NO_PREEMPTED_CPU, ..old(self)@ }),
    {
        self.preempted_cpu = NO_PREEMPTED_CPU;
    }

    /// The CPU that currently owns the partition, if any.
    pub fn owner_cpu(&self) -> (r: Option<usize>)
        ensures
            self@.owner_cpu == NO_OWNER_CPU ==> r.is_none(),
            self@.owner_cpu != NO_OWNER_CPU ==> r == Some(self@.owner_cpu as usize),
    {
        if self.owner_cpu == NO_OWNER_CPU {
            None
        } else {
            Some(self.owner_cpu as usize)
        }
    }

    /// Take ownership for `cpu` when no CPU owns the partition.
    pub fn try_claim_owner_cpu(&mut self, cpu: usize) -> (r: bool)
        ensures
            r == (old(self)@.owner_cpu == NO_OWNER_CPU),
            r ==> final(self)@ == (SpContextView { owner_cpu: cpu as u16, ..old(self)@ }),
            !r ==> final(self)@ == old(self)@,
    {
        if self.owner_cpu == NO_OWNER_CPU {
            self.owner_cpu = cpu as u16;
            true
        } else {
            false
        }
    }

    /// Hand ownership from `from_cpu` to `to_cpu` when `from_cpu` owns it.
    pub fn try_migrate_owner_cpu(&mut self, from_cpu: usize, to_cpu: usize) -> (r: bool)
        ensures
            r == (old(self)@.owner_cpu == from_cpu as u16),
            r ==> final(self)@ == (SpContextView { owner_cpu: to_cpu as u16, ..old(self)@ }),
            !r ==> final(self)@ == old(self)@,
    {
        if self.owner_cpu == from_cpu as u16 {
            self.owner_cpu = to_cpu as u16;
            true
        } else {
            false
        }
    }

    /// Release ownership.
    pub fn clear_owner_cpu(&mut self)
        ensures
            final(self)@ == (SpContextView { owner_cpu: NO_OWNER_CPU, ..old(self)@ }),
    {
        self.owner_cpu = NO_OWNER_CPU;
    }

    /// After the first entry a partition that stopped with FFA_MSG_WAIT in
    /// x0 has finished booting and becomes `Idle`; one that stopped with
    /// anything else stays as it is. Answers whether it became `Idle`.
    pub fn settle_after_boot(&mut self) -> (r: bool)
        requires
            old(self)@.ctx.gp_regs.x@[0] == FFA_MSG_WAIT ==> valid_transition(old(self)@.state, SpState::Idle),
        ensures
            r == (old(self)@.ctx.gp_regs.x@[0] == FFA_MSG_WAIT),
            r ==> final(self)@ == (SpContextView { state: SpState::Idle, ..old(self)@ }),
            !r ==> final(self)@ == old(self)@,
    {
        let (x0, _, _, _, _, _, _, _) = self.get_args();
        if x0 == FFA_MSG_WAIT {
            let _ = self.transition_to(SpState::Idle);
            true
        } else {
            false
        }
    }
}

/// Offset of the image-offset word in a partition package header.
pub const SP_PKG_IMG_OFFSET_FIELD: usize = 0x10;

/// The image offset of a partition package: the little-endian 32-bit word
/// at byte 0x10 of its header.
pub open spec fn spec_pkg_img_offset(header: Seq<u8>) -> u32 {
    (header[0x10] as u32) | ((header[0x11] as u32) << 8u32) | ((header[0x12] as u32) << 16u32)
        | ((header[0x13] as u32) << 24u32)
}

/// The image offset read from a partition package header.
pub fn sp_package_img_offset(header: &[u8]) -> (r: u32)
    requires
        header@.len() >= 0x14,
    ensures
        r == spec_pkg_img_offset(header@),
{
    let o = SP_PKG_IMG_OFFSET_FIELD;
    (header[o] as u32) | ((header[o + 1] as u32) << 8) | ((header[o + 2] as u32) << 16) | ((header[o + 3] as u32)
        << 24)
}

/// Entry point of a partition whose package is loaded at `pkg_base`: the
/// package base plus the image offset from its header.
pub fn sp_package_entry(pkg_base: u64, header: &[u8]) -> (r: u64)
    requires
        header@.len() >= 0x14,
        pkg_base + 0xFFFF_FFFFu64 <= u64::MAX,
    ensures
        r == pkg_base + spec_pkg_img_offset(header@),
{
    pkg_base + sp_package_img_offset(header) as u64
}

/// Recording an interrupt other than the empty marker leaves one pending:
/// it is either recorded or every slot was already taken.
pub proof fn law_set_pending_makes_pending(p: Seq<u32>, intid: u32)
    requires
        intid != NO_PENDING_IRQ,
    ensures
        any_pending(pending_after_set(p, intid)) || p.len() == 0,
{
    let q = pending_after_set(p, intid);
    if p.contains(intid) {
        let i = choose|i: int| 0 <= i < p.len() && p[i] == intid;
        assert(q[i] != NO_PENDING_IRQ);
    } else if p.contains(NO_PENDING_IRQ) {
        p.index_of_first_ensures(NO_PENDING_IRQ);
        let i = p.index_of_first(NO_PENDING_IRQ).unwrap();
        assert(q[i] == intid);
    } else if p.len() > 0 {
        assert(p[0] != NO_PENDING_IRQ);
        assert(q[0] != NO_PENDING_IRQ);
    }
}

/// Number of partitions the store holds.
pub const MAX_SPS: usize = 4;

/// Why a partition could not be locked for dispatch.
#[derive(Clone, Copy, Debug, PartialEq, Eq, Structural)]
pub enum SpLockError {
    NotFound,
    Busy,
}

/// Exclusive dispatch access to the partition in store slot `slot`.
pub struct SpDispatchGuard {
    pub slot: usize,
}

/// The registered partitions, one per slot, with a dispatch lock per slot.
pub struct SpStore {
    contexts: Vec<Option<SpContext>>,
    locks: Vec<bool>,
}

/// `i` is the first occupied slot of `s` whose partition has ID `id`.
pub open spec fn first_slot_of(s: Seq<Option<SpContextView>>, id: u16, i: int) -> bool {
    &&& 0 <= i < s.len()
    &&& s[i] is Some && s[i]->0.id == id
    &&& forall|j: int| 0 <= j < i ==> !(#[trigger] s[j] is Some && s[j]->0.id == id)
}

/// Some occupied slot holds partition `id`.
pub open spec fn has_sp(s: Seq<Option<SpContextView>>, id: u16) -> bool {
    exists|i: int| 0 <= i < s.len() && #[trigger] s[i] is Some && s[i]->0.id == id
}

impl SpStore {
    /// The slots, by value.
    pub closed spec fn slots(&self) -> Seq<Option<SpContextView>> {
        Seq::new(self.contexts@.len(), |i: int| match self.contexts@[i] {
            Some(c) => Some(c@),
            None => None,
        })
    }

    /// Dispatch locks, one per slot.
    pub closed spec fn locked(&self) -> Seq<bool> {
        self.locks@
    }

    pub closed spec fn wf(&self) -> bool {
        &&& self.contexts@.len() == MAX_SPS
        &&& self.locks@.len() == MAX_SPS
    }

    /// An empty store.
    pub fn new() -> (r: Self)
        ensures
            r.wf(),
            r.slots() == Seq::new(MAX_SPS as nat, |i: int| None::<SpContextView>),
            r.locked() == Seq::new(MAX_SPS as nat, |i: int| false),
    {
        let mut contexts: Vec<Option<SpContext>> = Vec::new();
        let mut locks: Vec<bool> = Vec::new();
        let mut i: usize = 0;
        while i < MAX_SPS
            invariant
                i <= MAX_SPS,
                contexts@.len() == i,
                locks@.len() == i,
                forall|j: int| 0 <= j < i ==> #[trigger] contexts@[j] is None,
                forall|j: int| 0 <= j < i ==> !#[trigger] locks@[j],
            decreases MAX_SPS - i,
        {
            contexts.push(None);
            locks.push(false);
            i = i + 1;
        }
        let r = SpStore { contexts, locks };
        assert(r.slots() =~= Seq::new(MAX_SPS as nat, |i: int| None::<SpContextView>));
        assert(r.locked() =~= Seq::new(MAX_SPS as nat, |i: int| false));
        r
    }

    /// Index of the first slot holding partition `sp_id`.
    fn find(&self, sp_id: u16) -> (r: Option<usize>)
        requires
            self.wf(),
        ensures
            match r {
                Some(i) => first_slot_of(self.slots(), sp_id, i as int),
                None => !has_sp(self.slots(), sp_id),
            },
    {
        let mut i: usize = 0;
        while i < self.contexts.len()
            invariant
                self.wf(),
                i <= self.contexts@.len(),
                forall|j: int| 0 <= j < i ==> !(#[trigger] self.slots()[j] is Some && self.slots()[j]->0.id == sp_id),
            decreases self.contexts@.len() - i,
        {
            match &self.contexts[i] {
                Some(sp) => {
                    if sp.sp_id() == sp_id {
                        return Some(i);
                    }
                },
                None => {},
            }
            i = i + 1;
        }
        None
    }
}

/// Register a booted partition in the first free slot; `Err` when all
/// slots are taken (the store is then unchanged).
pub fn register_sp(store: &mut SpStore, sp: SpContext) -> (r: Result<(), SpContext>)
    requires
        old(store).wf(),
    ensures
        final(store).wf(),
        final(store).locked() == old(store).locked(),
        old(store).slots().contains(None) ==> r is Ok && final(store).slots()
            == old(store).slots().update(old(store).slots().index_of_first(None).unwrap(), Some(sp@)),
        !old(store).slots().contains(None) ==> r is Err && final(store).slots() == old(store).slots(),
{
    let mut i: usize = 0;
    while i < store.contexts.len()
        invariant
            store.wf(),
            *store == *old(store),
            i <= store.contexts@.len(),
            forall|j: int| 0 <= j < i ==> #[trigger] store.slots()[j] is Some,
        decreases store.contexts@.len() - i,
    {
        if store.contexts[i].is_none() {
            proof {
                let s = old(store).slots();
                assert(s[i as int] == None::<SpContextView>);
                assert(s.contains(None));
                s.index_of_first_ensures(None);
                assert(s.index_of_first(None) == Some(i as int));
            }
            store.contexts.set(i, Some(sp));
            assert(store.slots() =~= old(store).slots().update(i as int, Some(sp@)));
            return Ok(());
        }
        i = i + 1;
    }
    proof {
        if old(store).slots().contains(None) {
            let k = choose|k: int| 0 <= k < old(store).slots().len() && old(store).slots()[k] == None::<SpContextView>;
            assert(store.slots()[k] is Some);
        }
    }
    Err(sp)
}

/// Take the dispatch lock of partition `sp_id`.
pub fn try_lock_sp(store: &mut SpStore, sp_id: u16) -> (r: Result<SpDispatchGuard, SpLockError>)
    requires
        old(store).wf(),
    ensures
        final(store).wf(),
        final(store).slots() == old(store).slots(),
        !has_sp(old(store).slots(), sp_id) ==> r == Err::<SpDispatchGuard, SpLockError>(SpLockError::NotFound)
            && final(store).locked() == old(store).locked(),
        has_sp(old(store).slots(), sp_id) ==> exists|i: int| #[trigger] first_slot_of(old(store).slots(), sp_id, i) && {
            &&& old(store).locked()[i] ==> r == Err::<SpDispatchGuard, SpLockError>(SpLockError::Busy)
                && final(store).locked() == old(store).locked()
            &&& !old(store).locked()[i] ==> r is Ok && r->Ok_0.slot == i
                && final(store).locked() == old(store).locked().update(i, true)
        },
{
    match store.find(sp_id) {
        None => Err(SpLockError::NotFound),
        Some(i) => {
            if store.locks[i] {
                Err(SpLockError::Busy)
            } else {
                store.locks.set(i, true);
                assert(store.slots() =~= old(store).slots());
                Ok(SpDispatchGuard { slot: i })
            }
        },
    }
}

/// Release a dispatch lock taken with `try_lock_sp`.
pub fn unlock_sp(store: &mut SpStore, guard: SpDispatchGuard)
    requires
        old(store).wf(),
        guard.slot < MAX_SPS,
    ensures
        final(store).wf(),
        final(store).slots() == old(store).slots(),
        final(store).locked() == old(store).locked().update(guard.slot as int, false),
{
    store.locks.set(guard.slot, false);
    assert(store.slots() =~= old(store).slots());
}

/// Run `f` on partition `sp_id` while holding its dispatch lock, and put
/// back the context `f` returns; `None` when the partition is unknown or
/// its lock is taken (the store is then unchanged). `f` gets the context
/// by value and hands it back with its result.
pub fn with_sp_locked<R, F: FnOnce(SpContext) -> (SpContext, R)>(store: &mut SpStore, sp_id: u16, f: F) -> (r: Option<R>)
    requires
        old(store).wf(),
        forall|c: SpContext| #[trigger] f.requires((c,)),
    ensures
        final(store).wf(),
        final(store).locked() == old(store).locked(),
        !has_sp(old(store).slots(), sp_id) ==> r.is_none() && final(store).slots() == old(store).slots(),
        has_sp(old(store).slots(), sp_id) ==> exists|i: int| #[trigger] first_slot_of(old(store).slots(), sp_id, i) && {
            &&& old(store).locked()[i] ==> r.is_none() && final(store).slots() == old(store).slots()
            &&& !old(store).locked()[i] ==> exists|c0: SpContext, c1: SpContext, res: R| {
                &&& c0@ == old(store).slots()[i]->0
                &&& #[trigger] f.ensures((c0,), (c1, res))
                &&& r == Some(res)
                &&& final(store).slots() == old(store).slots().update(i, Some(c1@))
            }
        },
{
    let guard = match try_lock_sp(store, sp_id) {
        Ok(g) => g,
        Err(_) => { return None; },
    };
    let i = guard.slot;
    let ghost s0 = store.slots();
    let mut slot: Option<SpContext> = None;
    std::mem::swap(&mut slot, &mut store.contexts[i]);
    let c0 = match slot {
        Some(c) => c,
        None => {
            proof { assert(s0[i as int] is Some); }
            store.contexts.set(i, None);
            unlock_sp(store, guard);
            return None;
        },
    };
    let ghost c0g = c0;
    let (c1, res) = f(c0);
    store.contexts.set(i, Some(c1));
    assert(store.slots() =~= s0.update(i as int, Some(c1@)));
    unlock_sp(store, guard);
    proof {
        assert(f.ensures((c0g,), (c1, res)));
    }
    Some(res)
}

/// Lifecycle state of partition `sp_id`.
pub fn state_of(store: &SpStore, sp_id: u16) -> (r: Option<SpState>)
    requires
        store.wf(),
    ensures
        !has_sp(store.slots(), sp_id) ==> r.is_none(),
        has_sp(store.slots(), sp_id) ==> exists|i: int| #[trigger] first_slot_of(store.slots(), sp_id, i)
            && r == Some(store.slots()[i]->0.state),
{
    match store.find(sp_id) {
        None => None,
        Some(i) => match &store.contexts[i] {
            Some(sp) => Some(sp.state()),
            None => None,
        },
    }
}

/// Whether partition `sp_id` is registered.
pub fn is_registered_sp(store: &SpStore, sp_id: u16) -> (r: bool)
    requires
        store.wf(),
    ensures
        r == has_sp(store.slots(), sp_id),
{
    store.find(sp_id).is_some()
}

/// Number of occupied slots among the first `n` of `s`.
pub open spec fn occupied_count(s: Seq<Option<SpContextView>>, n: int) -> nat
    decreases n,
{
    if n <= 0 {
        0
    } else {
        occupied_count(s, n - 1) + if s[n - 1] is Some { 1nat } else { 0nat }
    }
}

/// Number of registered partitions.
pub fn registered_count(store: &SpStore) -> (r: usize)
    requires
        store.wf(),
    ensures
        r == occupied_count(store.slots(), MAX_SPS as int),
{
    let mut n: usize = 0;
    let mut i: usize = 0;
    while i < MAX_SPS
        invariant
            store.wf(),
            i <= MAX_SPS,
            n == occupied_count(store.slots(), i as int),
            n <= i,
        decreases MAX_SPS - i,
    {
        if store.contexts[i].is_some() {
            n = n + 1;
        }
        i = i + 1;
    }
    n
}

/// Record `intid` as pending for partition `sp_id`; `false` when it is not registered.
pub fn set_pending_irq_for(store: &mut SpStore, sp_id: u16, intid: u32) -> (r: bool)
    requires
        old(store).wf(),
    ensures
        final(store).wf(),
        final(store).locked() == old(store).locked(),
        r == has_sp(old(store).slots(), sp_id),
        !r ==> final(store).slots() == old(store).slots(),
        r ==> exists|i: int| #[trigger] first_slot_of(old(store).slots(), sp_id, i)
            && final(store).slots() == old(store).slots().update(i, Some(SpContextView {
                pending: pending_after_set(old(store).slots()[i]->0.pending, intid),
                ..old(store).slots()[i]->0
            })),
{
    match store.find(sp_id) {
        None => false,
        Some(i) => {
            let mut slot: Option<SpContext> = None;
            std::mem::swap(&mut slot, &mut store.contexts[i]);
            match slot {
                Some(mut sp) => {
                    sp.set_pending_irq(intid);
                    store.contexts.set(i, Some(sp));
                },
                None => {},
            }
            assert(store.slots() =~= old(store).slots().update(i as int, Some(SpContextView {
                pending: pending_after_set(old(store).slots()[i as int]->0.pending, intid),
                ..old(store).slots()[i as int]->0
            })));
            true
        },
    }
}

/// Take the first pending interrupt of partition `sp_id`.
pub fn take_pending_irq_for(store: &mut SpStore, sp_id: u16) -> (r: Option<u32>)
    requires
        old(store).wf(),
    ensures
        final(store).wf(),
        final(store).locked() == old(store).locked(),
        !has_sp(old(store).slots(), sp_id) ==> r.is_none() && final(store).slots() == old(store).slots(),
        has_sp(old(store).slots(), sp_id) ==> exists|i: int| #[trigger] first_slot_of(old(store).slots(), sp_id, i) && {
            let p = old(store).slots()[i]->0.pending;
            match r {
                Some(id) => exists|k: int| #[trigger] first_index_not(p, NO_PENDING_IRQ, k) && p[k] == id
                    && final(store).slots() == old(store).slots().update(i, Some(SpContextView {
                        pending: p.update(k, NO_PENDING_IRQ),
                        ..old(store).slots()[i]->0
                    })),
                None => !any_pending(p) && final(store).slots() == old(store).slots(),
            }
        },
{
    match store.find(sp_id) {
        None => None,
        Some(i) => {
            let mut slot: Option<SpContext> = None;
            std::mem::swap(&mut slot, &mut store.contexts[i]);
            let ghost s0 = old(store).slots();
            let mut sp = match slot {
                Some(sp) => sp,
                None => { return None; },
            };
            let ghost v0 = sp@;
            let r = sp.take_pending_irq();
            store.contexts.set(i, Some(sp));
            proof {
                assert(s0[i as int] == Some(v0));
                match r {
                    Some(id) => {
                        let k = choose|k: int| #[trigger] first_index_not(v0.pending, NO_PENDING_IRQ, k)
                            && v0.pending[k] == id
                            && sp@ == (SpContextView { pending: v0.pending.update(k, NO_PENDING_IRQ), ..v0 });
                        assert(store.slots() =~= s0.update(i as int, Some(SpContextView {
                            pending: v0.pending.update(k, NO_PENDING_IRQ),
                            ..v0
                        })));
                    },
                    None => {
                        assert(store.slots() =~= s0);
                    },
                }
            }
            r
        },
    }
}

/// First non-zero interrupt ID owned by partition `sp_id`.
pub fn first_owned_intid_for(store: &SpStore, sp_id: u16) -> (r: Option<u32>)
    requires
        store.wf(),
    ensures
        !has_sp(store.slots(), sp_id) ==> r.is_none(),
        has_sp(store.slots(), sp_id) ==> exists|i: int| #[trigger] first_slot_of(store.slots(), sp_id, i) && {
            let o = store.slots()[i]->0.owned;
            match r {
                Some(id) => exists|k: int| #[trigger] first_index_not(o, 0, k) && o[k] == id,
                None => forall|k: int| 0 <= k < 4 ==> #[trigger] o[k] == 0,
            }
        },
{
    match store.find(sp_id) {
        None => None,
        Some(i) => match &store.contexts[i] {
            Some(sp) => sp.first_owned_intid(),
            None => None,
        },
    }
}

/// The first registered partition that owns `intid`.
pub fn find_sp_for_intid(store: &SpStore, intid: u32) -> (r: Option<u16>)
    requires
        store.wf(),
    ensures
        match r {
            Some(id) => exists|i: int| 0 <= i < MAX_SPS && #[trigger] store.slots()[i] is Some
                && store.slots()[i]->0.id == id && intid != 0 && store.slots()[i]->0.owned.contains(intid)
                && forall|j: int| 0 <= j < i ==> !(#[trigger] store.slots()[j] is Some && intid != 0
                    && store.slots()[j]->0.owned.contains(intid)),
            None => forall|j: int| 0 <= j < MAX_SPS ==> !(#[trigger] store.slots()[j] is Some && intid != 0
                && store.slots()[j]->0.owned.contains(intid)),
        },
{
    let mut i: usize = 0;
    while i < store.contexts.len()
        invariant
            store.wf(),
            i <= MAX_SPS,
            forall|j: int| 0 <= j < i ==> !(#[trigger] store.slots()[j] is Some && intid != 0
                && store.slots()[j]->0.owned.contains(intid)),
        decreases MAX_SPS - i,
    {
        match &store.contexts[i] {
            Some(sp) => {
                if sp.owns_intid(intid) {
                    assert(store.slots()[i as int] == Some(sp@));
                    return Some(sp.sp_id());
                }
            },
            None => {},
        }
        i = i + 1;
    }
    None
}

/// The first registered partition with a pending interrupt.
pub fn find_sp_with_pending_irq(store: &SpStore) -> (r: Option<u16>)
    requires
        store.wf(),
    ensures
        match r {
            Some(id) => exists|i: int| 0 <= i < MAX_SPS && #[trigger] store.slots()[i] is Some
                && store.slots()[i]->0.id == id && any_pending(store.slots()[i]->0.pending)
                && forall|j: int| 0 <= j < i ==> !(#[trigger] store.slots()[j] is Some
                    && any_pending(store.slots()[j]->0.pending)),
            None => forall|j: int| 0 <= j < MAX_SPS ==> !(#[trigger] store.slots()[j] is Some
                && any_pending(store.slots()[j]->0.pending)),
        },
{
    let mut i: usize = 0;
    while i < store.contexts.len()
        invariant
            store.wf(),
            i <= MAX_SPS,
            forall|j: int| 0 <= j < i ==> !(#[trigger] store.slots()[j] is Some
                && any_pending(store.slots()[j]->0.pending)),
        decreases MAX_SPS - i,
    {
        match &store.contexts[i] {
            Some(sp) => {
                if sp.has_pending_irq() {
                    assert(store.slots()[i as int] == Some(sp@));
                    return Some(sp.sp_id());
                }
            },
            None => {},
        }
        i = i + 1;
    }
    None
}

} // verus!
