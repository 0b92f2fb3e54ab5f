//! Nesting of direct requests between secure partitions: who called whom,
//! used to refuse cycles and to resume a waiting caller.

use vstd::prelude::*;

verus! {

/// One partition-to-partition call: `caller_id` waits for `callee_id`.
#[derive(Clone, Copy, Debug, PartialEq, Eq, Structural)]
pub struct CallFrame {
    pub caller_id: u16,
    pub callee_id: u16,
}

/// Deepest nesting (one partition must be the innermost callee).
pub const MAX_CALL_DEPTH: usize = 3;

/// The open partition-to-partition calls, outermost first.
pub struct CallStack {
    frames: Vec<CallFrame>,
}

impl View for CallStack {
    type V = Seq<CallFrame>;

    closed spec fn view(&self) -> Seq<CallFrame> {
        self.frames@
    }
}

/// `sp_id` takes part in frame `f`.
pub open spec fn frame_mentions(f: CallFrame, sp_id: u16) -> bool {
    f.caller_id == sp_id || f.callee_id == sp_id
}

impl CallStack {
    pub closed spec fn wf(&self) -> bool {
        self.frames@.len() <= MAX_CALL_DEPTH
    }

    /// No open calls.
    pub fn new() -> (r: Self)
        ensures
            r.wf(),
            r@ == Seq::<CallFrame>::empty(),
    {
        CallStack { frames: Vec::new() }
    }

    /// Open a call from `caller` to `callee`; `Err` when the nesting is
    /// already at its limit.
    pub fn push(&mut self, caller: u16, callee: u16) -> (r: Result<(), ()>)
        requires
            old(self).wf(),
        ensures
            final(self).wf(),
            old(self)@.len() >= MAX_CALL_DEPTH ==> r is Err && final(self)@ == old(self)@,
            old(self)@.len() < MAX_CALL_DEPTH ==> r is Ok
                && final(self)@ == old(self)@.push(CallFrame { caller_id: caller, callee_id: callee }),
    {
        if self.frames.len() >= MAX_CALL_DEPTH {
            return Err(());
        }
        self.frames.push(CallFrame { caller_id: caller, callee_id: callee });
        Ok(())
    }

    /// Close the innermost call.
    pub fn pop(&mut self) -> (r: Option<CallFrame>)
        requires
            old(self).wf(),
        ensures
            final(self).wf(),
            old(self)@.len() == 0 ==> r.is_none() && final(self)@ == old(self)@,
            old(self)@.len() > 0 ==> r == Some(old(self)@.last()) && final(self)@ == old(self)@.drop_last(),
    {
        self.frames.pop()
    }

    /// Whether `sp_id` is a caller or callee of an open call.
    pub fn contains(&self, sp_id: u16) -> (r: bool)
        ensures
            r == exists|i: int| 0 <= i < self@.len() && frame_mentions(#[trigger] self@[i], sp_id),
    {
        let mut i: usize = 0;
        while i < self.frames.len()
            invariant
                i <= self.frames@.len(),
                forall|j: int| 0 <= j < i ==> !frame_mentions(#[trigger] self.frames@[j], sp_id),
            decreases self.frames@.len() - i,
        {
            let f = self.frames[i];
            if f.caller_id == sp_id || f.callee_id == sp_id {
                assert(frame_mentions(self@[i as int], sp_id));
                return true;
            }
            i = i + 1;
        }
        false
    }

    /// Number of open calls.
    pub fn depth(&self) -> (r: usize)
        ensures
            r == self@.len(),
    {
        self.frames.len()
    }

    /// The caller of the outermost open call to `callee_id`.
    pub fn find_caller(&self, callee_id: u16) -> (r: Option<u16>)
        ensures
            match r {
                Some(c) => exists|i: int| 0 <= i < self@.len() && #[trigger] self@[i].callee_id == callee_id
                    && self@[i].caller_id == c
                    && forall|j: int| 0 <= j < i ==> (#[trigger] self@[j]).callee_id != callee_id,
                None => forall|j: int| 0 <= j < self@.len() ==> (#[trigger] self@[j]).callee_id != callee_id,
            },
    {
        let mut i: usize = 0;
        while i < self.frames.len()
            invariant
                i <= self.frames@.len(),
                forall|j: int| 0 <= j < i ==> (#[trigger] self.frames@[j]).callee_id != callee_id,
            decreases self.frames@.len() - i,
        {
            let f = self.frames[i];
            if f.callee_id == callee_id {
                assert(self@[i as int].callee_id == callee_id);
                return Some(f.caller_id);
            }
            i = i + 1;
        }
        None
    }
}

/// A call pushed and then popped leaves the stack as it was and hands back
/// the frame that was pushed.
pub proof fn law_push_pop(s: Seq<CallFrame>, caller: u16, callee: u16)
    ensures
        s.push(CallFrame { caller_id: caller, callee_id: callee }).drop_last() == s,
        s.push(CallFrame { caller_id: caller, callee_id: callee }).last()
            == (CallFrame { caller_id: caller, callee_id: callee }),
{
    assert(s.push(CallFrame { caller_id: caller, callee_id: callee }).drop_last() =~= s);
}

} // verus!
