//! A ticket lock: each locker draws the next ticket and owns the data
//! while its ticket is being served; unlocking serves the next ticket.

use vstd::prelude::*;

verus! {

/// A value behind a ticket lock.
pub struct SpinLock<T> {
    pub next_ticket: u32,
    pub now_serving: u32,
    pub data: T,
}

/// Proof of holding the lock with `ticket`.
pub struct SpinLockGuard {
    pub ticket: u32,
}

impl<T> SpinLock<T> {
    /// An unlocked lock around `data`.
    pub fn new(data: T) -> (r: Self)
        ensures
            r.next_ticket == 0,
            r.now_serving == 0,
            r.data == data,
    {
        SpinLock { next_ticket: 0, now_serving: 0, data }
    }

    /// Nobody holds the lock or waits for it.
    pub open spec fn is_free(&self) -> bool {
        self.next_ticket == self.now_serving
    }

    /// Draw a ticket and take the lock. A caller waits until its ticket is
    /// served, so only a free lock is taken without waiting forever.
    pub fn lock(&mut self) -> (g: SpinLockGuard)
        requires
            old(self).is_free(),
        ensures
            g.ticket == old(self).next_ticket,
            final(self).next_ticket == old(self).next_ticket.wrapping_add(1),
            final(self).now_serving == old(self).now_serving,
            final(self).data == old(self).data,
    {
        let ticket = self.next_ticket;
        self.next_ticket = self.next_ticket.wrapping_add(1);
        g_from(ticket)
    }

    /// The locked data.
    pub fn get_mut(&mut self, g: &SpinLockGuard) -> (r: &mut T)
        requires
            g.ticket == old(self).now_serving,
        ensures
            *r == old(self).data,
            final(self).data == *final(r),
            final(self).next_ticket == old(self).next_ticket,
            final(self).now_serving == old(self).now_serving,
    {
        &mut self.data
    }

    /// Release the lock held with `g`: the next ticket is served.
    pub fn unlock(&mut self, g: SpinLockGuard)
        ensures
            final(self).now_serving == g.ticket.wrapping_add(1),
            final(self).next_ticket == old(self).next_ticket,
            final(self).data == old(self).data,
    {
        self.now_serving = g.ticket.wrapping_add(1);
    }
}

fn g_from(ticket: u32) -> (g: SpinLockGuard)
    ensures
        g.ticket == ticket,
{
    SpinLockGuard { ticket }
}

/// Locking a free lock and unlocking it leaves it free again, with the
/// data as the holder left it.
pub proof fn law_lock_unlock_frees(l0: SpinLock<u64>, l1: SpinLock<u64>, l2: SpinLock<u64>, g: SpinLockGuard)
    requires
        l0.is_free(),
        g.ticket == l0.next_ticket,
        l1.next_ticket == l0.next_ticket.wrapping_add(1),
        l1.now_serving == l0.now_serving,
        l2.now_serving == g.ticket.wrapping_add(1),
        l2.next_ticket == l1.next_ticket,
    ensures
        l2.is_free(),
{
}

} // verus!
