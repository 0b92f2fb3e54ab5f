//! FF-A v1.1 notification state: per-endpoint pending bitmaps with
//! sender-to-receiver bind records.

use vstd::prelude::*;
use crate::ffa::{
    partition_id_to_vm_id, spec_partition_vm, vm_id_to_partition_id, FFA_DENIED,
    FFA_INVALID_PARAMETERS, FFA_MAX_VMS, FFA_NO_MEMORY,
};

verus! {

/// Number of endpoints (VMs + SPs) with notification support.
pub const MAX_ENDPOINTS: usize = 8;
/// Number of bind records per endpoint.
pub const MAX_BINDS: usize = 8;

/// A sender-to-notification binding record.
#[derive(Clone, Copy, PartialEq, Eq, Structural, Debug)]
pub struct NotifBind {
    pub sender_id: u16,
    pub bitmap: u64,
    pub active: bool,
}

/// The cleared bind record.
pub open spec fn no_bind() -> NotifBind {
    NotifBind { sender_id: 0, bitmap: 0, active: false }
}

impl NotifBind {
    pub fn empty() -> (r: Self)
        ensures
            r == no_bind(),
    {
        NotifBind { sender_id: 0, bitmap: 0, active: false }
    }
}

/// Notification state of all endpoints.
pub struct NotificationState {
    enabled: Vec<bool>,
    pending: Vec<u64>,
    /// Bind records, endpoint `e` owns slots `e * MAX_BINDS .. (e + 1) * MAX_BINDS`.
    binds: Vec<NotifBind>,
}

/// Endpoint index of a partition ID: VMs first, then the SPs 0x8001 and 0x8002.
pub open spec fn spec_endpoint_index(part_id: u16) -> Option<int> {
    if spec_partition_vm(part_id).is_some() {
        Some(spec_partition_vm(part_id).unwrap() as int)
    } else if part_id == 0x8001 {
        Some(FFA_MAX_VMS as int)
    } else if part_id == 0x8002 {
        Some(FFA_MAX_VMS as int + 1)
    } else {
        None
    }
}

/// Union of the bitmaps that `sender` has bound in the first `n` records of `binds`.
pub open spec fn allowed_bits(binds: Seq<NotifBind>, sender: u16, n: int) -> u64
    decreases n,
{
    if n <= 0 {
        0
    } else {
        let rest = allowed_bits(binds, sender, n - 1);
        let b = binds[n - 1];
        if b.active && b.sender_id == sender {
            rest | b.bitmap
        } else {
            rest
        }
    }
}

/// Some active bind record overlaps `bitmap`.
pub open spec fn overlaps(binds: Seq<NotifBind>, bitmap: u64) -> bool {
    exists|j: int| 0 <= j < binds.len() && #[trigger] binds[j].active && binds[j].bitmap & bitmap != 0
}

/// Index of the first active record of `sender` that overlaps `bitmap`, searching from `i`.
pub open spec fn first_unbind_match(binds: Seq<NotifBind>, sender: u16, bitmap: u64, i: int) -> Option<int>
    decreases binds.len() - i,
{
    if i < 0 || i >= binds.len() {
        None
    } else if binds[i].active && binds[i].sender_id == sender && binds[i].bitmap & bitmap != 0 {
        Some(i)
    } else {
        first_unbind_match(binds, sender, bitmap, i + 1)
    }
}

/// Index of the first inactive record, searching from `i`.
pub open spec fn first_free(binds: Seq<NotifBind>, i: int) -> Option<int>
    decreases binds.len() - i,
{
    if i < 0 || i >= binds.len() {
        None
    } else if !binds[i].active {
        Some(i)
    } else {
        first_free(binds, i + 1)
    }
}

impl NotificationState {
    /// The invariant: every endpoint has its flag, pending word and bind records.
    pub closed spec fn wf(&self) -> bool {
        &&& self.enabled@.len() == MAX_ENDPOINTS
        &&& self.pending@.len() == MAX_ENDPOINTS
        &&& self.binds@.len() == MAX_ENDPOINTS * MAX_BINDS
    }

    /// Whether endpoint `e` has created its notification bitmap.
    pub closed spec fn enabled_at(&self, e: int) -> bool {
        self.enabled@[e]
    }

    /// Pending notification bits of endpoint `e`.
    pub closed spec fn pending_at(&self, e: int) -> u64 {
        self.pending@[e]
    }

    /// Bind records of endpoint `e`.
    pub closed spec fn binds_at(&self, e: int) -> Seq<NotifBind> {
        self.binds@.subrange(e * MAX_BINDS, e * MAX_BINDS + MAX_BINDS)
    }

    /// Every endpoint other than `e` is unchanged from `before`.
    pub open spec fn others_unchanged(&self, before: &Self, e: int) -> bool {
        forall|k: int| 0 <= k < MAX_ENDPOINTS && k != e ==> {
            &&& #[trigger] self.enabled_at(k) == before.enabled_at(k)
            &&& self.pending_at(k) == before.pending_at(k)
            &&& self.binds_at(k) == before.binds_at(k)
        }
    }

    /// Every endpoint is unchanged from `before`.
    pub open spec fn same_as(&self, before: &Self) -> bool {
        forall|k: int| 0 <= k < MAX_ENDPOINTS ==> {
            &&& #[trigger] self.enabled_at(k) == before.enabled_at(k)
            &&& self.pending_at(k) == before.pending_at(k)
            &&& self.binds_at(k) == before.binds_at(k)
        }
    }

    /// All endpoints disabled, nothing pending, no binds.
    pub fn new() -> (r: Self)
        ensures
            r.wf(),
            forall|k: int| 0 <= k < MAX_ENDPOINTS ==> {
                &&& !#[trigger] r.enabled_at(k)
                &&& r.pending_at(k) == 0
            },
            forall|k: int, j: int| 0 <= k < MAX_ENDPOINTS && 0 <= j < MAX_BINDS
                ==> #[trigger] r.binds_at(k)[j] == no_bind(),
    {
        let mut enabled: Vec<bool> = Vec::new();
        let mut pending: Vec<u64> = Vec::new();
        let mut i: usize = 0;
        while i < MAX_ENDPOINTS
            invariant
                i <= MAX_ENDPOINTS,
                enabled@.len() == i,
                pending@.len() == i,
                forall|k: int| 0 <= k < i ==> !enabled@[k] && pending@[k] == 0,
            decreases MAX_ENDPOINTS - i,
        {
            enabled.push(false);
            pending.push(0);
            i = i + 1;
        }
        let mut binds: Vec<NotifBind> = Vec::new();
        let mut j: usize = 0;
        while j < MAX_ENDPOINTS * MAX_BINDS
            invariant
                j <= MAX_ENDPOINTS * MAX_BINDS,
                binds@.len() == j,
                forall|k: int| 0 <= k < j ==> binds@[k] == no_bind(),
            decreases MAX_ENDPOINTS * MAX_BINDS - j,
        {
            binds.push(NotifBind::empty());
            j = j + 1;
        }
        let r = NotificationState { enabled, pending, binds };
        assert forall|k: int, j: int| 0 <= k < MAX_ENDPOINTS && 0 <= j < MAX_BINDS
            implies #[trigger] r.binds_at(k)[j] == no_bind() by {
            assert(0 <= k * MAX_BINDS + j < MAX_ENDPOINTS * MAX_BINDS) by (nonlinear_arith)
                requires 0 <= k < MAX_ENDPOINTS, 0 <= j < MAX_BINDS;
        }
        r
    }
}

/// Endpoint index of a partition ID.
fn endpoint_index(part_id: u16) -> (r: Option<usize>)
    ensures
        match r {
            Some(i) => spec_endpoint_index(part_id) == Some(i as int) && i < MAX_ENDPOINTS,
            None => spec_endpoint_index(part_id).is_none(),
        },
{
    if let Some(vm_id) = partition_id_to_vm_id(part_id) {
        Some(vm_id)
    } else if part_id == 0x8001 {
        Some(FFA_MAX_VMS)
    } else if part_id == 0x8002 {
        Some(FFA_MAX_VMS + 1)
    } else {
        None
    }
}


/// Outcome of `bitmap_create`: `after` and `r` after it ran on `before`.
pub open spec fn create_post(before: NotificationState, after: NotificationState, part_id: u16, r: Result<(), i32>) -> bool {
    &&& match spec_endpoint_index(part_id) {
                None => r == Err::<(), i32>(FFA_INVALID_PARAMETERS) && after.same_as(&before),
                Some(e) => if before.enabled_at(e) {
                    r == Err::<(), i32>(FFA_DENIED) && after.same_as(&before)
                } else {
                    &&& r == Ok::<(), i32>(())
                    &&& after.enabled_at(e)
                    &&& after.pending_at(e) == before.pending_at(e)
                    &&& after.binds_at(e) == before.binds_at(e)
                    &&& after.others_unchanged(&before, e)
                },
            }
}

/// Create the notification bitmap of an endpoint.
///
/// Fails with INVALID_PARAMETERS for an unknown partition and with DENIED
/// when the bitmap already exists.
pub fn bitmap_create(state: &mut NotificationState, part_id: u16) -> (r: Result<(), i32>)
    requires
        old(state).wf(),
    ensures
        final(state).wf(),
        create_post(*old(state), *final(state), part_id, r),
{
    let idx = match endpoint_index(part_id) {
        Some(i) => i,
        None => return Err(FFA_INVALID_PARAMETERS),
    };
    if state.enabled[idx] {
        return Err(FFA_DENIED);
    }
    state.enabled.set(idx, true);
    Ok(())
}

/// Outcome of `bitmap_destroy`: `after` and `r` after it ran on `before`.
pub open spec fn destroy_post(before: NotificationState, after: NotificationState, part_id: u16, r: Result<(), i32>) -> bool {
    &&& match spec_endpoint_index(part_id) {
                None => r == Err::<(), i32>(FFA_INVALID_PARAMETERS) && after.same_as(&before),
                Some(e) => if !before.enabled_at(e) {
                    r == Err::<(), i32>(FFA_DENIED) && after.same_as(&before)
                } else {
                    &&& r == Ok::<(), i32>(())
                    &&& !after.enabled_at(e)
                    &&& after.pending_at(e) == 0
                    &&& forall|j: int| 0 <= j < MAX_BINDS ==> #[trigger] after.binds_at(e)[j] == no_bind()
                    &&& after.others_unchanged(&before, e)
                },
            }
}

/// Destroy the notification bitmap of an endpoint, dropping its pending bits
/// and bind records.
pub fn bitmap_destroy(state: &mut NotificationState, part_id: u16) -> (r: Result<(), i32>)
    requires
        old(state).wf(),
    ensures
        final(state).wf(),
        destroy_post(*old(state), *final(state), part_id, r),
{
    let idx = match endpoint_index(part_id) {
        Some(i) => i,
        None => return Err(FFA_INVALID_PARAMETERS),
    };
    if !state.enabled[idx] {
        return Err(FFA_DENIED);
    }
    state.enabled.set(idx, false);
    state.pending.set(idx, 0);
    let base = idx * MAX_BINDS;
    let ghost old_binds = state.binds@;
    assert(old_binds == old(state).binds@);
    let mut i: usize = 0;
    while i < MAX_BINDS
        invariant
            idx < MAX_ENDPOINTS,
            base == idx * MAX_BINDS,
            i <= MAX_BINDS,
            state.wf(),
            state.enabled@ == old(state).enabled@.update(idx as int, false),
            state.pending@ == old(state).pending@.update(idx as int, 0),
            forall|k: int| 0 <= k < state.binds@.len() && !(base <= k < base + i)
                ==> state.binds@[k] == old_binds[k],
            forall|k: int| base <= k < base + i ==> state.binds@[k] == no_bind(),
        decreases MAX_BINDS - i,
    {
        state.binds.set(base + i, NotifBind::empty());
        i = i + 1;
    }
    proof {
        let e = idx as int;
        assert forall|k: int| 0 <= k < MAX_ENDPOINTS && k != e implies
            state.binds_at(k) == old(state).binds_at(k) by {
            assert(state.binds_at(k) =~= old(state).binds_at(k));
        }
    }
    Ok(())
}

/// Outcome of `bind`: `after` and `r` after it ran on `before`.
pub open spec fn bind_post(before: NotificationState, after: NotificationState, sender: u16, receiver: u16, bitmap: u64, r: Result<(), i32>) -> bool {
    &&& bitmap == 0 ==> r == Err::<(), i32>(FFA_INVALID_PARAMETERS) && after.same_as(&before)
    &&& bitmap != 0 ==> match spec_endpoint_index(receiver) {
                None => r == Err::<(), i32>(FFA_INVALID_PARAMETERS) && after.same_as(&before),
                Some(e) => if !before.enabled_at(e) || overlaps(before.binds_at(e), bitmap) {
                    r == Err::<(), i32>(FFA_DENIED) && after.same_as(&before)
                } else {
                    match first_free(before.binds_at(e), 0) {
                        None => r == Err::<(), i32>(FFA_NO_MEMORY) && after.same_as(&before),
                        Some(j) => {
                            &&& r == Ok::<(), i32>(())
                            &&& after.binds_at(e) == before.binds_at(e).update(
                                j, NotifBind { sender_id: sender, bitmap: bitmap, active: true })
                            &&& after.enabled_at(e) == before.enabled_at(e)
                            &&& after.pending_at(e) == before.pending_at(e)
                            &&& after.others_unchanged(&before, e)
                        },
                    }
                },
            }
}

/// Bind `bitmap` of receiver's notification IDs to `sender`.
///
/// Fails with INVALID_PARAMETERS for an empty bitmap or an unknown receiver,
/// DENIED when the receiver has no bitmap or a bound ID overlaps, and
/// NO_MEMORY when all bind records are in use.
pub fn bind(state: &mut NotificationState, sender: u16, receiver: u16, _flags: u32, bitmap: u64) -> (r: Result<(), i32>)
    requires
        old(state).wf(),
    ensures
        final(state).wf(),
        bind_post(*old(state), *final(state), sender, receiver, bitmap, r),
{
    if bitmap == 0 {
        return Err(FFA_INVALID_PARAMETERS);
    }
    let idx = match endpoint_index(receiver) {
        Some(i) => i,
        None => return Err(FFA_INVALID_PARAMETERS),
    };
    if !state.enabled[idx] {
        return Err(FFA_DENIED);
    }
    let base = idx * MAX_BINDS;
    let ghost binds = state.binds_at(idx as int);
    let mut i: usize = 0;
    while i < MAX_BINDS
        invariant
            idx < MAX_ENDPOINTS,
            base == idx * MAX_BINDS,
            i <= MAX_BINDS,
            state.wf(),
            bitmap != 0,
            spec_endpoint_index(receiver) == Some(idx as int),
            old(state).enabled_at(idx as int),
            *state == *old(state),
            binds == state.binds_at(idx as int),
            forall|k: int| 0 <= k < i ==> !(#[trigger] binds[k].active && binds[k].bitmap & bitmap != 0),
        decreases MAX_BINDS - i,
    {
        let b = state.binds[base + i];
        assert(b == binds[i as int]);
        if b.active && b.bitmap & bitmap != 0 {
            return Err(FFA_DENIED);
        }
        i = i + 1;
    }
    assert(!overlaps(binds, bitmap));
    let mut i: usize = 0;
    while i < MAX_BINDS
        invariant
            idx < MAX_ENDPOINTS,
            base == idx * MAX_BINDS,
            i <= MAX_BINDS,
            state.wf(),
            bitmap != 0,
            spec_endpoint_index(receiver) == Some(idx as int),
            old(state).enabled_at(idx as int),
            !overlaps(binds, bitmap),
            *state == *old(state),
            binds == state.binds_at(idx as int),
            first_free(binds, 0) == first_free(binds, i as int),
        decreases MAX_BINDS - i,
    {
        let b = state.binds[base + i];
        assert(b == binds[i as int]);
        if !b.active {
            state.binds.set(base + i, NotifBind { sender_id: sender, bitmap: bitmap, active: true });
            proof {
                let e = idx as int;
                assert(state.binds_at(e) =~= binds.update(i as int,
                    NotifBind { sender_id: sender, bitmap: bitmap, active: true }));
                assert forall|k: int| 0 <= k < MAX_ENDPOINTS && k != e implies
                    state.binds_at(k) == old(state).binds_at(k) by {
                    assert(state.binds_at(k) =~= old(state).binds_at(k));
                }
            }
            return Ok(());
        }
        i = i + 1;
    }
    Err(FFA_NO_MEMORY)
}


/// Outcome of `unbind`: `after` and `r` after it ran on `before`.
pub open spec fn unbind_post(before: NotificationState, after: NotificationState, sender: u16, receiver: u16, bitmap: u64, r: Result<(), i32>) -> bool {
    &&& match spec_endpoint_index(receiver) {
                None => r == Err::<(), i32>(FFA_INVALID_PARAMETERS) && after.same_as(&before),
                Some(e) => match first_unbind_match(before.binds_at(e), sender, bitmap, 0) {
                    None => r == Err::<(), i32>(FFA_DENIED) && after.same_as(&before),
                    Some(j) => {
                        let b = before.binds_at(e)[j];
                        let nb = b.bitmap & !bitmap;
                        &&& r == Ok::<(), i32>(())
                        &&& after.binds_at(e) == before.binds_at(e).update(
                            j, NotifBind { sender_id: b.sender_id, bitmap: nb, active: nb != 0 })
                        &&& after.enabled_at(e) == before.enabled_at(e)
                        &&& after.pending_at(e) == before.pending_at(e)
                        &&& after.others_unchanged(&before, e)
                    },
                },
            }
}

/// Remove `bitmap` from the first active bind record of `sender` on
/// `receiver` that shares a bit with it; the record is freed once empty.
///
/// Fails with INVALID_PARAMETERS for an unknown receiver and with DENIED when
/// no such record exists.
pub fn unbind(state: &mut NotificationState, sender: u16, receiver: u16, bitmap: u64) -> (r: Result<(), i32>)
    requires
        old(state).wf(),
    ensures
        final(state).wf(),
        unbind_post(*old(state), *final(state), sender, receiver, bitmap, r),
{
    let idx = match endpoint_index(receiver) {
        Some(i) => i,
        None => return Err(FFA_INVALID_PARAMETERS),
    };
    let base = idx * MAX_BINDS;
    let ghost binds = state.binds_at(idx as int);
    let mut i: usize = 0;
    while i < MAX_BINDS
        invariant
            idx < MAX_ENDPOINTS,
            base == idx * MAX_BINDS,
            i <= MAX_BINDS,
            state.wf(),
            spec_endpoint_index(receiver) == Some(idx as int),
            *state == *old(state),
            binds == state.binds_at(idx as int),
            first_unbind_match(binds, sender, bitmap, 0) == first_unbind_match(binds, sender, bitmap, i as int),
        decreases MAX_BINDS - i,
    {
        let b = state.binds[base + i];
        assert(b == binds[i as int]);
        if b.active && b.sender_id == sender && b.bitmap & bitmap != 0 {
            let nb = b.bitmap & !bitmap;
            state.binds.set(base + i, NotifBind { sender_id: b.sender_id, bitmap: nb, active: nb != 0 });
            proof {
                let e = idx as int;
                assert(state.binds_at(e) =~= binds.update(i as int,
                    NotifBind { sender_id: b.sender_id, bitmap: nb, active: nb != 0 }));
                assert forall|k: int| 0 <= k < MAX_ENDPOINTS && k != e implies
                    state.binds_at(k) == old(state).binds_at(k) by {
                    assert(state.binds_at(k) =~= old(state).binds_at(k));
                }
            }
            return Ok(());
        }
        i = i + 1;
    }
    Err(FFA_DENIED)
}

/// Outcome of `set`: `after` and `r` after it ran on `before`.
pub open spec fn set_post(before: NotificationState, after: NotificationState, sender: u16, receiver: u16, bitmap: u64, r: Result<(), i32>) -> bool {
    &&& match spec_endpoint_index(receiver) {
                None => r == Err::<(), i32>(FFA_INVALID_PARAMETERS) && after.same_as(&before),
                Some(e) => if !before.enabled_at(e)
                    || bitmap & !allowed_bits(before.binds_at(e), sender, MAX_BINDS as int) != 0 {
                    r == Err::<(), i32>(FFA_DENIED) && after.same_as(&before)
                } else {
                    &&& r == Ok::<(), i32>(())
                    &&& after.pending_at(e) == before.pending_at(e) | bitmap
                    &&& after.enabled_at(e) == before.enabled_at(e)
                    &&& after.binds_at(e) == before.binds_at(e)
                    &&& after.others_unchanged(&before, e)
                },
            }
}

/// Raise notification bits `bitmap` on `receiver` on behalf of `sender`.
///
/// Fails with INVALID_PARAMETERS for an unknown receiver, and with DENIED
/// when the receiver has no bitmap or `sender` has not bound every bit.
pub fn set(state: &mut NotificationState, sender: u16, receiver: u16, bitmap: u64) -> (r: Result<(), i32>)
    requires
        old(state).wf(),
    ensures
        final(state).wf(),
        set_post(*old(state), *final(state), sender, receiver, bitmap, r),
{
    let idx = match endpoint_index(receiver) {
        Some(i) => i,
        None => return Err(FFA_INVALID_PARAMETERS),
    };
    if !state.enabled[idx] {
        return Err(FFA_DENIED);
    }
    let base = idx * MAX_BINDS;
    let ghost binds = state.binds_at(idx as int);
    let mut allowed: u64 = 0;
    let mut i: usize = 0;
    while i < MAX_BINDS
        invariant
            idx < MAX_ENDPOINTS,
            base == idx * MAX_BINDS,
            i <= MAX_BINDS,
            state.wf(),
            binds == state.binds_at(idx as int),
            allowed == allowed_bits(binds, sender, i as int),
        decreases MAX_BINDS - i,
    {
        let b = state.binds[base + i];
        assert(b == binds[i as int]);
        if b.active && b.sender_id == sender {
            allowed = allowed | b.bitmap;
        }
        i = i + 1;
    }
    if bitmap & !allowed != 0 {
        return Err(FFA_DENIED);
    }
    let p = state.pending[idx];
    state.pending.set(idx, p | bitmap);
    Ok(())
}

/// Outcome of `get`: `after` and `r` after it ran on `before`.
pub open spec fn get_post(before: NotificationState, after: NotificationState, receiver: u16, r: Result<u64, i32>) -> bool {
    &&& match spec_endpoint_index(receiver) {
                None => r == Err::<u64, i32>(FFA_INVALID_PARAMETERS) && after.same_as(&before),
                Some(e) => if !before.enabled_at(e) {
                    r == Err::<u64, i32>(FFA_DENIED) && after.same_as(&before)
                } else {
                    &&& r == Ok::<u64, i32>(before.pending_at(e))
                    &&& after.pending_at(e) == 0
                    &&& after.enabled_at(e) == before.enabled_at(e)
                    &&& after.binds_at(e) == before.binds_at(e)
                    &&& after.others_unchanged(&before, e)
                },
            }
}

/// Read and clear the pending notification bits of `receiver`.
///
/// Fails with INVALID_PARAMETERS for an unknown receiver and with DENIED when
/// it has no bitmap.
pub fn get(state: &mut NotificationState, receiver: u16) -> (r: Result<u64, i32>)
    requires
        old(state).wf(),
    ensures
        final(state).wf(),
        get_post(*old(state), *final(state), receiver, r),
{
    let idx = match endpoint_index(receiver) {
        Some(i) => i,
        None => return Err(FFA_INVALID_PARAMETERS),
    };
    if !state.enabled[idx] {
        return Err(FFA_DENIED);
    }
    let p = state.pending[idx];
    state.pending.set(idx, 0);
    Ok(p)
}

/// Partition ID reported for endpoint `e` by FFA_NOTIFICATION_INFO_GET.
pub open spec fn info_partition_id(e: int) -> u16 {
    if e < FFA_MAX_VMS as int { (e + 1) as u16 } else { (0x8001 + (e - FFA_MAX_VMS)) as u16 }
}

/// Partition IDs with pending notifications among the first `n` reportable
/// endpoints (the VMs, then the two SPs), in that order.
pub open spec fn info_ids(st: &NotificationState, n: int) -> Seq<u16>
    decreases n,
{
    if n <= 0 {
        Seq::empty()
    } else {
        let rest = info_ids(st, n - 1);
        let e = n - 1;
        if st.enabled_at(e) && st.pending_at(e) != 0 {
            rest.push(info_partition_id(e))
        } else {
            rest
        }
    }
}

/// Number of endpoints scanned by FFA_NOTIFICATION_INFO_GET (the VMs and two SPs).
pub const INFO_ENDPOINTS: usize = 6;

/// List (up to four) partitions with pending notifications: VMs first, then SPs.
pub fn info_get(state: &NotificationState) -> (r: (usize, [u16; 4]))
    requires
        state.wf(),
    ensures
        ({
            let all = info_ids(state, INFO_ENDPOINTS as int);
            let n = if all.len() < 4 { all.len() } else { 4 };
            &&& r.0 == n
            &&& forall|k: int| 0 <= k < n ==> #[trigger] r.1@[k] == all[k]
            &&& forall|k: int| n <= k < 4 ==> #[trigger] r.1@[k] == 0
        }),
{
    let mut ids: [u16; 4] = [0u16; 4];
    let mut count: usize = 0;
    let mut e: usize = 0;
    while e < INFO_ENDPOINTS
        invariant
            state.wf(),
            e <= INFO_ENDPOINTS,
            count <= 4,
            count == if info_ids(state, e as int).len() < 4 { info_ids(state, e as int).len() } else { 4 },
            forall|k: int| 0 <= k < count ==> #[trigger] ids@[k] == info_ids(state, e as int)[k],
            forall|k: int| count <= k < 4 ==> #[trigger] ids@[k] == 0,
        decreases INFO_ENDPOINTS - e,
    {
        proof { lemma_info_ids_prefix(state, e as int); }
        if count < 4 && state.enabled[e] && state.pending[e] != 0 {
            let id: u16 = if e < FFA_MAX_VMS { (e + 1) as u16 } else { (0x8001 + (e - FFA_MAX_VMS)) as u16 };
            ids[count] = id;
            count = count + 1;
        }
        e = e + 1;
    }
    (count, ids)
}

/// Extending the scan by one endpoint only appends to the reported list.
proof fn lemma_info_ids_prefix(st: &NotificationState, n: int)
    requires
        n >= 0,
    ensures
        info_ids(st, n + 1).len() >= info_ids(st, n).len(),
        info_ids(st, n + 1).len() <= info_ids(st, n).len() + 1,
        forall|k: int| 0 <= k < info_ids(st, n).len() ==> info_ids(st, n + 1)[k] == info_ids(st, n)[k],
{
}


/// The union of a sender's bound bitmaps contains each of its active records.
proof fn lemma_allowed_contains(binds: Seq<NotifBind>, sender: u16, n: int, j: int)
    requires
        0 <= j < n <= binds.len(),
        binds[j].active,
        binds[j].sender_id == sender,
    ensures
        binds[j].bitmap & !allowed_bits(binds, sender, n) == 0,
    decreases n,
{
    let x = binds[j].bitmap;
    let rest = allowed_bits(binds, sender, n - 1);
    if j == n - 1 {
        assert(x & !(rest | x) == 0) by (bit_vector);
    } else {
        lemma_allowed_contains(binds, sender, n - 1, j);
        let b = binds[n - 1];
        if b.active && b.sender_id == sender {
            let y = b.bitmap;
            assert(x & !rest == 0 ==> x & !(rest | y) == 0) by (bit_vector);
        }
    }
}

/// A successful bind lets the sender raise exactly the bound bits: once
/// `bind(sender, receiver, b)` has stored its record, `set(sender, receiver, b)`
/// is no longer refused for lack of binding.
pub proof fn law_bind_allows_set(binds: Seq<NotifBind>, sender: u16, bitmap: u64, j: int)
    requires
        binds.len() == MAX_BINDS,
        0 <= j < MAX_BINDS,
    ensures
        ({
            let after = binds.update(j, NotifBind { sender_id: sender, bitmap: bitmap, active: true });
            bitmap & !allowed_bits(after, sender, MAX_BINDS as int) == 0
        }),
{
    let after = binds.update(j, NotifBind { sender_id: sender, bitmap: bitmap, active: true });
    lemma_allowed_contains(after, sender, MAX_BINDS as int, j);
}

/// Unbinding what was just bound finds the new record and frees it again:
/// when `bind(sender, receiver, b)` stored its record in free slot `j` (so no
/// active record overlapped `b`), `unbind(sender, receiver, b)` matches slot
/// `j` and leaves it inactive with an empty bitmap.
pub proof fn law_unbind_undoes_bind(binds: Seq<NotifBind>, sender: u16, bitmap: u64, j: int)
    requires
        binds.len() == MAX_BINDS,
        bitmap != 0,
        !overlaps(binds, bitmap),
        first_free(binds, 0) == Some(j),
    ensures
        ({
            let after = binds.update(j, NotifBind { sender_id: sender, bitmap: bitmap, active: true });
            &&& first_unbind_match(after, sender, bitmap, 0) == Some(j)
            &&& after[j].bitmap & !bitmap == 0
        }),
{
    let after = binds.update(j, NotifBind { sender_id: sender, bitmap: bitmap, active: true });
    lemma_first_free_bounds(binds, 0, j);
    lemma_unbind_match_is_j(after, sender, bitmap, 0, j);
    assert(bitmap & !bitmap == 0) by (bit_vector);
}

/// What a successful `set` raised, the next `get` of that receiver returns
/// (with what was pending before), and the receiver has nothing pending
/// afterwards.
pub proof fn law_set_then_get(s0: NotificationState, s1: NotificationState, s2: NotificationState, sender: u16,
    receiver: u16, bitmap: u64, r1: Result<(), i32>, r2: Result<u64, i32>)
    requires
        set_post(s0, s1, sender, receiver, bitmap, r1),
        r1 is Ok,
        get_post(s1, s2, receiver, r2),
    ensures
        spec_endpoint_index(receiver) is Some,
        r2 == Ok::<u64, i32>(s0.pending_at(spec_endpoint_index(receiver).unwrap()) | bitmap),
        s2.pending_at(spec_endpoint_index(receiver).unwrap()) == 0,
{
}

proof fn lemma_first_free_bounds(binds: Seq<NotifBind>, i: int, j: int)
    requires
        0 <= i,
        first_free(binds, i) == Some(j),
    ensures
        i <= j < binds.len(),
        !binds[j].active,
    decreases binds.len() - i,
{
    if i < binds.len() && binds[i].active {
        lemma_first_free_bounds(binds, i + 1, j);
    }
}

proof fn lemma_unbind_match_is_j(after: Seq<NotifBind>, sender: u16, bitmap: u64, i: int, j: int)
    requires
        0 <= i <= j < after.len(),
        after[j] == (NotifBind { sender_id: sender, bitmap: bitmap, active: true }),
        bitmap != 0,
        forall|k: int| 0 <= k < after.len() && k != j ==> !(#[trigger] after[k].active && after[k].bitmap & bitmap != 0),
    ensures
        first_unbind_match(after, sender, bitmap, i) == Some(j),
    decreases j - i,
{
    if i < j {
        lemma_unbind_match_is_j(after, sender, bitmap, i + 1, j);
    } else {
        assert(bitmap & bitmap != 0) by (bit_vector) requires bitmap != 0;
    }
}

} // verus!
