//! Round-robin vCPU scheduler.

use vstd::prelude::*;

verus! {

/// Number of vCPU slots.
pub const MAX_VCPUS: usize = 8;

/// Run state of a vCPU slot.
#[derive(Clone, Copy, Debug, PartialEq, Eq, Structural)]
pub enum RunState {
    /// No vCPU registered in the slot.
    Unused,
    /// Ready to run.
    Ready,
    /// Running.
    Running,
    /// Waiting (for I/O, an interrupt, ...).
    Blocked,
}

/// Round-robin scheduler over `MAX_VCPUS` slots.
pub struct Scheduler {
    states: [RunState; 8],
    current: Option<usize>,
    next_idx: usize,
}

/// Slot checked at step `i` of a round starting at `start`.
pub open spec fn rr_slot(start: int, i: int) -> int {
    (start + i) % (MAX_VCPUS as int)
}

impl Scheduler {
    /// Run states of the slots.
    pub closed spec fn states(&self) -> Seq<RunState> {
        self.states@
    }

    /// The vCPU picked last, if it has not yielded or blocked since.
    pub closed spec fn spec_current(&self) -> Option<usize> {
        self.current
    }

    /// Where the next round starts.
    pub closed spec fn next_idx(&self) -> int {
        self.next_idx as int
    }

    /// One run state per slot, and the round and current vCPU within the slots.
    pub open spec fn wf(&self) -> bool {
        &&& self.states().len() == MAX_VCPUS
        &&& self.indices_ok()
    }

    /// The round start and the current vCPU name slots.
    pub closed spec fn indices_ok(&self) -> bool {
        &&& self.next_idx < MAX_VCPUS
        &&& match self.current {
            Some(id) => id < MAX_VCPUS,
            None => true,
        }
    }

    /// Every slot empty, nothing running, rounds start at slot 0.
    pub fn new() -> (r: Self)
        ensures
            r.wf(),
            r.states() == Seq::new(MAX_VCPUS as nat, |i: int| RunState::Unused),
            r.spec_current().is_none(),
            r.next_idx() == 0,
    {
        let r = Scheduler { states: [RunState::Unused; 8], current: None, next_idx: 0 };
        assert(r.states() =~= Seq::new(MAX_VCPUS as nat, |i: int| RunState::Unused));
        r
    }

    /// Make vCPU `vcpu_id` ready (ignored for IDs beyond the slots).
    pub fn add_vcpu(&mut self, vcpu_id: usize)
        requires
            old(self).wf(),
        ensures
            final(self).wf(),
            final(self).spec_current() == old(self).spec_current(),
            final(self).next_idx() == old(self).next_idx(),
            vcpu_id < MAX_VCPUS ==> final(self).states() == old(self).states().update(vcpu_id as int, RunState::Ready),
            vcpu_id >= MAX_VCPUS ==> final(self).states() == old(self).states(),
    {
        if vcpu_id < MAX_VCPUS {
            self.states[vcpu_id] = RunState::Ready;
        }
    }

    /// Remove vCPU `vcpu_id`; it stops being current.
    pub fn remove_vcpu(&mut self, vcpu_id: usize)
        requires
            old(self).wf(),
        ensures
            final(self).wf(),
            final(self).next_idx() == old(self).next_idx(),
            vcpu_id < MAX_VCPUS ==> final(self).states() == old(self).states().update(vcpu_id as int, RunState::Unused),
            vcpu_id < MAX_VCPUS && old(self).spec_current() == Some(vcpu_id) ==> final(self).spec_current().is_none(),
            !(vcpu_id < MAX_VCPUS && old(self).spec_current() == Some(vcpu_id))
                ==> final(self).spec_current() == old(self).spec_current(),
            vcpu_id >= MAX_VCPUS ==> final(self).states() == old(self).states(),
    {
        if vcpu_id < MAX_VCPUS {
            self.states[vcpu_id] = RunState::Unused;
            if self.current == Some(vcpu_id) {
                self.current = None;
            }
        }
    }

    /// The vCPU to run: the current one while it is running; otherwise the
    /// first ready slot of a round starting at the next index, which becomes
    /// running and current.
    pub fn pick_next(&mut self) -> (r: Option<usize>)
        requires
            old(self).wf(),
        ensures
            final(self).wf(),
            final(self).next_idx() == old(self).next_idx(),
            ({
                let s = old(self).states();
                let running = match old(self).spec_current() {
                    Some(id) => s[id as int] == RunState::Running,
                    None => false,
                };
                &&& running ==> r == old(self).spec_current() && *final(self) == *old(self)
                &&& !running ==> match r {
                        Some(idx) => exists|i: int| 0 <= i < MAX_VCPUS && idx == #[trigger] rr_slot(old(self).next_idx(), i)
                            && s[idx as int] == RunState::Ready
                            && (forall|j: int| 0 <= j < i ==> s[#[trigger] rr_slot(old(self).next_idx(), j)] != RunState::Ready)
                            && final(self).states() == s.update(idx as int, RunState::Running)
                            && final(self).spec_current() == Some(idx),
                        None => (forall|j: int| 0 <= j < MAX_VCPUS ==> s[j] != RunState::Ready)
                            && *final(self) == *old(self),
                    }
            }),
    {
        if let Some(id) = self.current {
            if self.states[id] == RunState::Running {
                return self.current;
            }
        }
        let mut i: usize = 0;
        while i < MAX_VCPUS
            invariant
                i <= MAX_VCPUS,
                *self == *old(self),
                self.wf(),
                match old(self).spec_current() {
                    Some(id) => old(self).states()[id as int] != RunState::Running,
                    None => true,
                },
                forall|j: int| 0 <= j < i ==> self.states@[#[trigger] rr_slot(self.next_idx as int, j)] != RunState::Ready,
            decreases MAX_VCPUS - i,
        {
            let idx = (self.next_idx + i) % MAX_VCPUS;
            if self.states[idx] == RunState::Ready {
                self.current = Some(idx);
                self.states[idx] = RunState::Running;
                assert(idx == rr_slot(old(self).next_idx(), i as int));
                return Some(idx);
            }
            i = i + 1;
        }
        proof {
            assert forall|j: int| 0 <= j < MAX_VCPUS implies old(self).states()[j] != RunState::Ready by {
                let n = self.next_idx as int;
                let k = if j >= n { j - n } else { j + 8 - n };
                assert(rr_slot(n, k) == j);
            }
        }
        None
    }

    /// Put the current vCPU back into the ready set; the next round starts
    /// after it.
    pub fn yield_current(&mut self)
        requires
            old(self).wf(),
        ensures
            final(self).wf(),
            match old(self).spec_current() {
                Some(id) => final(self).states() == old(self).states().update(id as int, RunState::Ready)
                    && final(self).spec_current().is_none()
                    && final(self).next_idx() == (id + 1) % (MAX_VCPUS as int),
                None => *final(self) == *old(self),
            },
    {
        if let Some(id) = self.current {
            self.states[id] = RunState::Ready;
            self.current = None;
            self.next_idx = (id + 1) % MAX_VCPUS;
        }
    }

    /// Block the current vCPU; the next round starts after it.
    pub fn block_current(&mut self)
        requires
            old(self).wf(),
        ensures
            final(self).wf(),
            match old(self).spec_current() {
                Some(id) => final(self).states() == old(self).states().update(id as int, RunState::Blocked)
                    && final(self).spec_current().is_none()
                    && final(self).next_idx() == (id + 1) % (MAX_VCPUS as int),
                None => *final(self) == *old(self),
            },
    {
        if let Some(id) = self.current {
            self.states[id] = RunState::Blocked;
            self.current = None;
            self.next_idx = (id + 1) % MAX_VCPUS;
        }
    }

    /// Make a blocked vCPU ready again; other states are left alone.
    pub fn unblock(&mut self, vcpu_id: usize)
        requires
            old(self).wf(),
        ensures
            final(self).wf(),
            final(self).spec_current() == old(self).spec_current(),
            final(self).next_idx() == old(self).next_idx(),
            vcpu_id < MAX_VCPUS && old(self).states()[vcpu_id as int] == RunState::Blocked
                ==> final(self).states() == old(self).states().update(vcpu_id as int, RunState::Ready),
            !(vcpu_id < MAX_VCPUS && old(self).states()[vcpu_id as int] == RunState::Blocked)
                ==> final(self).states() == old(self).states(),
    {
        if vcpu_id < MAX_VCPUS && self.states[vcpu_id] == RunState::Blocked {
            self.states[vcpu_id] = RunState::Ready;
        }
    }

    /// The current vCPU.
    pub fn current(&self) -> (r: Option<usize>)
        ensures
            r == self.spec_current(),
    {
        self.current
    }

    /// Run state of `vcpu_id` (`None` beyond the slots).
    pub fn state(&self, vcpu_id: usize) -> (r: RunState)
        ensures
            vcpu_id < MAX_VCPUS ==> r == self.states()[vcpu_id as int],
            vcpu_id >= MAX_VCPUS ==> r == RunState::Unused,
    {
        if vcpu_id < MAX_VCPUS {
            self.states[vcpu_id]
        } else {
            RunState::Unused
        }
    }
}

impl Default for Scheduler {
    fn default() -> (r: Self)
        ensures
            r.wf(),
            r.states() == Seq::new(MAX_VCPUS as nat, |i: int| RunState::Unused),
            r.spec_current().is_none(),
            r.next_idx() == 0,
    {
        Self::new()
    }
}

/// A vCPU that yields goes to the back of the round: when it is the only
/// ready vCPU it is picked again, and otherwise the next ready vCPU after it
/// is picked first.
pub proof fn law_yield_rotates(id: int, i: int)
    requires
        0 <= id < MAX_VCPUS,
        0 <= i < MAX_VCPUS,
    ensures
        rr_slot((id + 1) % (MAX_VCPUS as int), i) == (id + 1 + i) % (MAX_VCPUS as int),
        rr_slot((id + 1) % (MAX_VCPUS as int), MAX_VCPUS as int - 1) == id,
{
}

} // verus!
