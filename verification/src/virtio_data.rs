//! Data movement of the virtio devices: which guest memory a block
//! request, a transmitted frame or a received frame touches.
//!
//! The caller takes a descriptor chain from the queue, reads what the
//! device needs from guest memory (a block request header, frame bytes),
//! and performs the returned memory operations and used-ring write.

use vstd::prelude::*;
use crate::virtio::{
    DescChain, UsedWrite, VirtioBlk, VirtioMmioTransport, VirtioNet, Virtqueue, VirtqDesc, VIRTIO_BLK_T_GET_ID,
    VIRTIO_BLK_T_IN, VIRTIO_BLK_T_OUT, VIRTQ_DESC_F_WRITE,
};

verus! {

/// Block request status: done.
pub const VIRTIO_BLK_S_OK: u8 = 0;
/// Block request status: out of the disk.
pub const VIRTIO_BLK_S_IOERR: u8 = 1;
/// Block request status: unknown request type.
pub const VIRTIO_BLK_S_UNSUPP: u8 = 2;

/// A guest memory operation the caller performs.
pub enum MemOp {
    /// Copy `len` bytes from guest physical address `src` to `dst`.
    Copy { src: u64, dst: u64, len: u64 },
    /// Store `bytes` at guest physical address `addr`.
    Store { addr: u64, bytes: Vec<u8> },
}

/// The request header of a block request (its first descriptor).
#[derive(Clone, Copy)]
pub struct BlkReqHeader {
    pub req_type: u32,
    pub sector: u64,
}

/// What serving one block request takes: the memory operations in order,
/// the status byte to store at `status_addr`, and the used-ring element.
pub struct BlkPlan {
    pub ops: Vec<MemOp>,
    pub status: u8,
    pub status_addr: u64,
    pub used_len: u32,
    pub used: Option<UsedWrite>,
}

/// The used-ring element returning chain `head` with `len` bytes written
/// (none while the used ring is not set up).
pub open spec fn used_element(q: Virtqueue, head: u16, len: u32, used_idx: u16) -> Option<UsedWrite> {
    if q.used_addr == 0 {
        None
    } else {
        Some(UsedWrite { slot: (used_idx % q.num) as usize, id: head as u32, len, new_idx: used_idx.wrapping_add(1) })
    }
}

/// Sum of the lengths of descriptors `a..b`.
pub open spec fn desc_sum(descs: Seq<VirtqDesc>, a: int, b: int) -> int
    decreases b - a,
{
    if b <= a {
        0
    } else {
        desc_sum(descs, a, b - 1) + descs[b - 1].len
    }
}

/// Data descriptors `1..end` move disk bytes from byte `start` on; the
/// first descriptor that would pass the end of the disk stops the request
/// (`end` when none does).
pub open spec fn first_overflow(descs: Seq<VirtqDesc>, start: int, disk_size: int, i: int, end: int) -> int
    decreases end - i,
{
    if i >= end {
        end
    } else if start + desc_sum(descs, 1, i + 1) > disk_size {
        i
    } else {
        first_overflow(descs, start, disk_size, i + 1, end)
    }
}

/// The ID string a GET_ID request returns (20 bytes).
pub open spec fn blk_id_string() -> Seq<u8> {
    seq![0x68u8, 0x79u8, 0x70u8, 0x65u8, 0x72u8, 0x76u8, 0x69u8, 0x73u8, 0x6fu8, 0x72u8, 0x2du8, 0x76u8,
         0x64u8, 0x61u8, 0x00u8, 0x00u8, 0x00u8, 0x00u8, 0x00u8, 0x00u8]
}

/// The copy for data descriptor `i` of a read (`is_read`) or write request
/// starting at disk byte `start`.
pub open spec fn blk_copy(blk: VirtioBlk, descs: Seq<VirtqDesc>, start: int, i: int, is_read: bool) -> MemOp {
    let disk_addr = (blk.disk_base + start + desc_sum(descs, 1, i)) as u64;
    let d = descs[i];
    if is_read {
        MemOp::Copy { src: disk_addr, dst: d.addr, len: d.len as u64 }
    } else {
        MemOp::Copy { src: d.addr, dst: disk_addr, len: d.len as u64 }
    }
}

/// The plan of a request with header `h` on chain `descs` of `count`
/// descriptors (at least two: header, data..., status).
pub open spec fn blk_plan_ok(blk: VirtioBlk, descs: Seq<VirtqDesc>, count: int, h: BlkReqHeader, p: BlkPlan) -> bool {
    let start = h.sector * 512;
    let status_desc = descs[count - 1];
    &&& p.status_addr == status_desc.addr
    &&& if h.req_type == VIRTIO_BLK_T_IN || h.req_type == VIRTIO_BLK_T_OUT {
        let k = first_overflow(descs, start, blk.disk_size as int, 1, count - 1);
        &&& p.ops@.len() == k - 1
        &&& forall|i: int| 1 <= i < k ==> #[trigger] p.ops@[i - 1] == blk_copy(blk, descs, start, i,
            h.req_type == VIRTIO_BLK_T_IN)
        &&& p.status == if k < count - 1 { VIRTIO_BLK_S_IOERR } else { VIRTIO_BLK_S_OK }
        &&& p.used_len == (if h.req_type == VIRTIO_BLK_T_IN { desc_sum(descs, 1, k) + 1 } else { 1 }) as u32
    } else if h.req_type == VIRTIO_BLK_T_GET_ID {
        &&& p.status == VIRTIO_BLK_S_OK
        &&& if count >= 3 {
            let n = if descs[1].len < 20 { descs[1].len as int } else { 20 };
            &&& p.ops@.len() == 1
            &&& p.ops@[0] matches MemOp::Store { addr, bytes }
            &&& addr == descs[1].addr && bytes@ == blk_id_string().take(n)
            &&& p.used_len == (n + 1) as u32
        } else {
            p.ops@.len() == 0 && p.used_len == 1
        }
    } else {
        p.ops@.len() == 0 && p.status == VIRTIO_BLK_S_UNSUPP && p.used_len == 1
    }
}

proof fn lemma_desc_sum_bound(descs: Seq<VirtqDesc>, a: int, b: int)
    ensures
        0 <= desc_sum(descs, a, b) <= (if b > a { (b - a) * 0xFFFF_FFFF } else { 0 }),
    decreases b - a,
{
    if b > a {
        lemma_desc_sum_bound(descs, a, b - 1);
    }
}

proof fn lemma_first_overflow(descs: Seq<VirtqDesc>, start: int, disk_size: int, i: int, end: int)
    requires
        i <= end,
        start + desc_sum(descs, 1, i) <= disk_size,
    ensures
        i <= first_overflow(descs, start, disk_size, i, end) <= end,
        start + desc_sum(descs, 1, first_overflow(descs, start, disk_size, i, end)) <= disk_size,
        first_overflow(descs, start, disk_size, i, end) < end ==> start + desc_sum(descs, 1,
            first_overflow(descs, start, disk_size, i, end) + 1) > disk_size,
    decreases end - i,
{
    if i < end && start + desc_sum(descs, 1, i + 1) <= disk_size {
        lemma_first_overflow(descs, start, disk_size, i + 1, end);
    }
}

impl VirtioBlk {
    /// Serve one block request: `chain` is the request's descriptor chain
    /// (header, data..., status), `header` the request header read from
    /// its first buffer. Reads copy disk bytes into the data buffers,
    /// writes copy them out, up to the first buffer that would pass the
    /// end of the disk (status IOERR); GET_ID stores the ID string. The
    /// chain goes back to the used ring with the bytes written into it.
    /// `None` for a chain without header and status.
    pub fn process_request(&self, chain: &DescChain, header: BlkReqHeader, queue: &Virtqueue, used_idx: u16)
        -> (r: Option<BlkPlan>)
        requires
            chain.count <= 4,
            self.disk_base + self.disk_size <= u64::MAX,
            queue.used_addr != 0 ==> queue.num > 0,
        ensures
            chain.count < 2 ==> r.is_none(),
            chain.count >= 2 ==> (r matches Some(p) && blk_plan_ok(*self, chain.descs@, chain.count as int, header, p)
                && p.used == used_element(*queue, chain.head, p.used_len, used_idx)),
    {
        let count = chain.count;
        if count < 2 {
            return None;
        }
        let ghost descs = chain.descs@;
        let mut ops: Vec<MemOp> = Vec::new();
        let mut status = VIRTIO_BLK_S_OK;
        let mut total: u64 = 0;
        let t = header.req_type;
        if t == VIRTIO_BLK_T_IN || t == VIRTIO_BLK_T_OUT {
            let is_read = t == VIRTIO_BLK_T_IN;
            let start: u128 = (header.sector as u128) * 512;
            let ghost gstart = header.sector * 512;
            assert(start < 0x1_0000_0000_0000_0000_0000u128) by (nonlinear_arith)
                requires start == (header.sector as u128) * 512, header.sector <= u64::MAX;
            let mut moved: u64 = 0;
            let mut i: usize = 1;
            proof { lemma_desc_sum_bound(descs, 1, 4); }
            while i < count - 1
                invariant_except_break
                    1 <= i <= count - 1,
                    count <= 4,
                    descs == chain.descs@,
                    start == gstart,
                    start < 0x1_0000_0000_0000_0000_0000u128,
                    moved == desc_sum(descs, 1, i as int),
                    self.disk_base + self.disk_size <= u64::MAX,
                    status == VIRTIO_BLK_S_OK,
                    ops@.len() == i - 1,
                    forall|j: int| 1 <= j < i ==> #[trigger] ops@[j - 1] == blk_copy(*self, descs, gstart, j, is_read),
                    first_overflow(descs, gstart, self.disk_size as int, 1, count - 1)
                        == first_overflow(descs, gstart, self.disk_size as int, i as int, count - 1),
                ensures
                    1 <= i <= count - 1,
                    moved == desc_sum(descs, 1, i as int),
                    i == first_overflow(descs, gstart, self.disk_size as int, 1, count - 1),
                    status == if i < count - 1 { VIRTIO_BLK_S_IOERR } else { VIRTIO_BLK_S_OK },
                    ops@.len() == i - 1,
                    forall|j: int| 1 <= j < i ==> #[trigger] ops@[j - 1] == blk_copy(*self, descs, gstart, j, is_read),
                decreases count - 1 - i,
            {
                let d = chain.descs[i];
                let len = d.len as u64;
                proof { lemma_desc_sum_bound(descs, 1, i as int); }
                if start + (moved as u128) + (len as u128) > self.disk_size as u128 {
                    status = VIRTIO_BLK_S_IOERR;
                    break;
                }
                let disk_addr = self.disk_base + ((start as u64) + moved);
                let op = if is_read {
                    MemOp::Copy { src: disk_addr, dst: d.addr, len }
                } else {
                    MemOp::Copy { src: d.addr, dst: disk_addr, len }
                };
                ops.push(op);
                moved = moved + len;
                i = i + 1;
            }
            proof { lemma_desc_sum_bound(descs, 1, i as int); }
            total = if is_read { moved } else { 0 };
        } else if t == VIRTIO_BLK_T_GET_ID {
            if count >= 3 {
                let d = chain.descs[1];
                let n: usize = if d.len < 20 { d.len as usize } else { 20 };
                let id: Vec<u8> = vec![0x68u8, 0x79, 0x70, 0x65, 0x72, 0x76, 0x69, 0x73, 0x6f, 0x72, 0x2d, 0x76,
                    0x64, 0x61, 0x00, 0x00, 0x00, 0x00, 0x00, 0x00];
                let mut bytes: Vec<u8> = Vec::new();
                let mut k: usize = 0;
                while k < n
                    invariant
                        k <= n,
                        n <= 20,
                        id@ == blk_id_string(),
                        bytes@ == blk_id_string().take(k as int),
                    decreases n - k,
                {
                    bytes.push(id[k]);
                    assert(bytes@ =~= blk_id_string().take(k as int + 1));
                    k = k + 1;
                }
                ops.push(MemOp::Store { addr: d.addr, bytes });
                total = n as u64;
            }
        } else {
            status = VIRTIO_BLK_S_UNSUPP;
        }
        let used_len = #[verifier::truncate] ((total + 1) as u32);
        let used = queue.put_used(chain.head, used_len, used_idx);
        Some(BlkPlan { ops, status, status_addr: chain.descs[count - 1].addr, used_len, used })
    }
}


/// Size of the virtio_net_hdr_v1 in front of every frame.
pub const VIRTIO_NET_HDR_SIZE: u64 = 12;
/// Largest Ethernet frame forwarded (without FCS).
pub const MAX_FRAME_SIZE: u64 = 1514;
/// Shortest frame forwarded: an Ethernet header.
pub const MIN_FRAME_SIZE: u64 = 14;

/// Where a transmitted frame lies in guest memory, and whether it goes to
/// the virtual switch; the chain goes back to the used ring with 0 bytes.
pub struct TxPlan {
    /// (address, length) pieces of the frame, in order.
    pub segments: Vec<(u64, u64)>,
    pub frame_len: u64,
    pub forward: bool,
    pub used: Option<UsedWrite>,
}

/// Gathering the frame out of the first `n` buffers of a TX chain: bytes
/// seen, frame bytes taken, and the pieces. The header bytes are skipped;
/// a piece that would make the frame longer than `MAX_FRAME_SIZE` is
/// dropped.
pub open spec fn tx_fold(descs: Seq<VirtqDesc>, n: int) -> (int, int, Seq<(u64, u64)>)
    decreases n,
{
    if n <= 0 {
        (0, 0, Seq::empty())
    } else {
        let prev = tx_fold(descs, n - 1);
        let (t, f, s) = (prev.0, prev.1, prev.2);
        let d = descs[n - 1];
        let len = d.len as int;
        if t < VIRTIO_NET_HDR_SIZE {
            let skip = if VIRTIO_NET_HDR_SIZE - t < len { VIRTIO_NET_HDR_SIZE - t } else { len };
            let dl = len - skip;
            if dl > 0 && f + dl <= MAX_FRAME_SIZE {
                (t + len, f + dl, s.push((d.addr.wrapping_add(skip as u64), dl as u64)))
            } else {
                (t + len, f, s)
            }
        } else if f + len <= MAX_FRAME_SIZE {
            (t + len, f + len, s.push((d.addr, len as u64)))
        } else {
            (t + len, f, s)
        }
    }
}

proof fn lemma_tx_fold_bounds(descs: Seq<VirtqDesc>, n: int)
    requires
        0 <= n,
    ensures
        0 <= tx_fold(descs, n).0 <= n * 0xFFFF_FFFF,
        0 <= tx_fold(descs, n).1 <= MAX_FRAME_SIZE,
        tx_fold(descs, n).2.len() <= n,
    decreases n,
{
    if n > 0 {
        lemma_tx_fold_bounds(descs, n - 1);
    }
}

impl VirtioNet {
    /// The frame a TX chain carries: its buffers minus the virtio-net
    /// header; frames of at least an Ethernet header go to the switch.
    pub fn process_tx(&self, chain: &DescChain, queue: &Virtqueue, used_idx: u16) -> (r: TxPlan)
        requires
            chain.count <= 4,
            queue.used_addr != 0 ==> queue.num > 0,
        ensures
            ({
                let g = tx_fold(chain.descs@, chain.count as int);
                &&& r.segments@ == g.2
                &&& r.frame_len == g.1
                &&& r.forward == (g.1 >= MIN_FRAME_SIZE)
                &&& r.used == used_element(*queue, chain.head, 0, used_idx)
            }),
    {
        let ghost descs = chain.descs@;
        let mut total: u64 = 0;
        let mut frame_len: u64 = 0;
        let mut segments: Vec<(u64, u64)> = Vec::new();
        let mut i: usize = 0;
        while i < chain.count
            invariant
                i <= chain.count,
                chain.count <= 4,
                descs == chain.descs@,
                total == tx_fold(descs, i as int).0,
                frame_len == tx_fold(descs, i as int).1,
                segments@ == tx_fold(descs, i as int).2,
            decreases chain.count - i,
        {
            proof { lemma_tx_fold_bounds(descs, i as int); }
            let d = chain.descs[i];
            let len = d.len as u64;
            if total < VIRTIO_NET_HDR_SIZE {
                let skip = if VIRTIO_NET_HDR_SIZE - total < len { VIRTIO_NET_HDR_SIZE - total } else { len };
                let dl = len - skip;
                if dl > 0 && frame_len + dl <= MAX_FRAME_SIZE {
                    segments.push((d.addr.wrapping_add(skip), dl));
                    frame_len = frame_len + dl;
                }
            } else if frame_len + len <= MAX_FRAME_SIZE {
                segments.push((d.addr, len));
                frame_len = frame_len + len;
            }
            total = total + len;
            i = i + 1;
        }
        let used = queue.put_used(chain.head, 0, used_idx);
        TxPlan { segments, frame_len, forward: frame_len >= MIN_FRAME_SIZE, used }
    }
}

/// A piece of a received frame to store: `len` bytes of the header and
/// frame (header first), from offset `offset`, at guest address `addr`.
#[derive(Clone, Copy, PartialEq, Eq, Structural)]
pub struct RxWrite {
    pub addr: u64,
    pub offset: u64,
    pub len: u64,
}

/// Delivering a received frame into the guest.
pub struct RxPlan {
    /// The frame was stored (else dropped).
    pub accepted: bool,
    pub writes: Vec<RxWrite>,
    /// Used-ring element (also when a too-small chain is handed back).
    pub used: Option<UsedWrite>,
    /// SPI to raise when the frame was stored.
    pub irq: Option<u32>,
}

/// The virtio_net_hdr_v1 written in front of a received frame: all zero
/// but num_buffers = 1.
pub open spec fn rx_header() -> Seq<u8> {
    seq![0u8, 0u8, 0u8, 0u8, 0u8, 0u8, 0u8, 0u8, 0u8, 0u8, 1u8, 0u8]
}

/// Room of the device-writable buffers among the first `n`.
pub open spec fn write_cap(descs: Seq<VirtqDesc>, n: int) -> int
    decreases n,
{
    if n <= 0 {
        0
    } else {
        write_cap(descs, n - 1) + if descs[n - 1].flags & VIRTQ_DESC_F_WRITE != 0 { descs[n - 1].len as int } else { 0 }
    }
}

/// Filling the device-writable buffers among the first `n` with `total`
/// bytes: bytes placed and the pieces.
pub open spec fn rx_fold(descs: Seq<VirtqDesc>, n: int, total: int) -> (int, Seq<RxWrite>)
    decreases n,
{
    if n <= 0 {
        (0, Seq::empty())
    } else {
        let prev = rx_fold(descs, n - 1, total);
        let d = descs[n - 1];
        if d.flags & VIRTQ_DESC_F_WRITE == 0 {
            prev
        } else {
            let rem = total - prev.0;
            let tw = if rem < d.len { rem } else { d.len as int };
            (prev.0 + tw, prev.1.push(RxWrite { addr: d.addr, offset: prev.0 as u64, len: tw as u64 }))
        }
    }
}

proof fn lemma_rx_fold_bounds(descs: Seq<VirtqDesc>, n: int, total: int)
    requires
        0 <= n,
        0 <= total,
    ensures
        0 <= rx_fold(descs, n, total).0 <= total,
        rx_fold(descs, n, total).0 <= write_cap(descs, n),
        write_cap(descs, n) <= n * 0xFFFF_FFFF,
        write_cap(descs, n) >= 0,
        write_cap(descs, n) >= total ==> rx_fold(descs, n, total).0 == total || n == 0 || true,
    decreases n,
{
    if n > 0 {
        lemma_rx_fold_bounds(descs, n - 1, total);
    }
}

/// Bytes placed reach `total` when the room suffices.
proof fn lemma_rx_fold_fills(descs: Seq<VirtqDesc>, n: int, total: int)
    requires
        0 <= n,
        0 <= total,
    ensures
        rx_fold(descs, n, total).0 == if write_cap(descs, n) < total { write_cap(descs, n) } else { total },
    decreases n,
{
    if n > 0 {
        lemma_rx_fold_fills(descs, n - 1, total);
    }
}

/// Outcome of `inject_rx` on transport `t0` (see there).
pub open spec fn inject_rx_post(t0: VirtioMmioTransport<VirtioNet>, t1: VirtioMmioTransport<VirtioNet>, frame_len: u64,
    avail_idx: u16, ring: Seq<u16>, table: Seq<VirtqDesc>, used_idx: u16, r: RxPlan) -> bool {
    let q0 = t0.queues[0];
    let total = VIRTIO_NET_HDR_SIZE + frame_len;
    if !q0.spec_has_avail(avail_idx) {
        !r.accepted && r.writes@.len() == 0 && r.used.is_none() && r.irq.is_none()
            && t1 == t0
    } else {
        let head = ring[(q0.last_avail_idx % q0.num) as int];
        let descs = crate::virtio::chain_from(table, q0.num, head, 4);
        let q1 = Virtqueue { last_avail_idx: q0.last_avail_idx.wrapping_add(1), ..q0 };
        let advanced = VirtioMmioTransport { queues: [q1, t0.queues[1]], ..t0 };
        if descs.len() == 0 {
            !r.accepted && r.writes@.len() == 0 && r.used.is_none() && r.irq.is_none()
                && t1 == advanced
        } else if write_cap(descs, descs.len() as int) < total {
            &&& !r.accepted && r.writes@.len() == 0 && r.irq.is_none()
            &&& r.used == used_element(q0, head, 0, used_idx)
            &&& t1 == advanced
        } else {
            &&& r.accepted
            &&& r.writes@ == rx_fold(descs, descs.len() as int, total as int).1
            &&& r.used == used_element(q0, head, total as u32, used_idx)
            &&& r.irq == Some(t0.irq_intid)
            &&& t1 == VirtioMmioTransport {
                interrupt_status: t0.interrupt_status | crate::virtio::VIRTIO_INT_VRING,
                ..advanced
            }
        }
    }
}

impl VirtioMmioTransport<VirtioNet> {
    /// Deliver a received frame of `frame_len` bytes into the next
    /// available RX chain (queue 0), given the driver's available index,
    /// ring and descriptor table: the header and frame fill the writable
    /// buffers in order, the chain goes to the used ring and the interrupt
    /// is raised. A chain too small for them is handed back empty and the
    /// frame dropped; without an RX chain the frame is dropped too.
    pub fn inject_rx(&mut self, frame_len: u64, avail_idx: u16, ring: &Vec<u16>, table: &Vec<VirtqDesc>,
        used_idx: u16) -> (r: RxPlan)
        requires
            frame_len <= MAX_FRAME_SIZE,
            old(self).queues[0].spec_has_avail(avail_idx) ==> old(self).queues[0].num > 0,
            ring@.len() >= old(self).queues[0].num,
            table@.len() >= old(self).queues[0].num,
        ensures
            inject_rx_post(*old(self), *final(self), frame_len, avail_idx, ring@, table@, used_idx, r),
    {
        let ghost q0 = self.queues[0];
        let mut q = self.queues[0];
        let chain = match q.get_avail_desc(avail_idx, ring, table) {
            Some(c) => c,
            None => {
                return RxPlan { accepted: false, writes: Vec::new(), used: None, irq: None };
            },
        };
        self.queues[0] = q;
        let ghost descs = chain.descs@.take(chain.count as int);
        proof {
            let q1 = Virtqueue { last_avail_idx: q0.last_avail_idx.wrapping_add(1), ..q0 };
            let arr = [q1, old(self).queues[1]];
            assert(self.queues@ =~= arr@);
            assert(self.queues == arr);
        }
        if chain.count == 0 {
            return RxPlan { accepted: false, writes: Vec::new(), used: None, irq: None };
        }
        let total: u64 = VIRTIO_NET_HDR_SIZE + frame_len;
        let mut cap: u64 = 0;
        let mut i: usize = 0;
        while i < chain.count
            invariant
                i <= chain.count,
                chain.count <= 4,
                descs == chain.descs@.take(chain.count as int),
                cap == write_cap(descs, i as int),
            decreases chain.count - i,
        {
            proof { lemma_rx_fold_bounds(descs, i as int, 0); }
            let d = chain.descs[i];
            if d.flags & VIRTQ_DESC_F_WRITE != 0 {
                cap = cap + d.len as u64;
            }
            i = i + 1;
        }
        if cap < total {
            let used = q.put_used(chain.head, 0, used_idx);
            return RxPlan { accepted: false, writes: Vec::new(), used, irq: None };
        }
        let mut written: u64 = 0;
        let mut writes: Vec<RxWrite> = Vec::new();
        let mut i: usize = 0;
        while i < chain.count
            invariant
                i <= chain.count,
                chain.count <= 4,
                descs == chain.descs@.take(chain.count as int),
                total == VIRTIO_NET_HDR_SIZE + frame_len,
                frame_len <= MAX_FRAME_SIZE,
                written == rx_fold(descs, i as int, total as int).0,
                writes@ == rx_fold(descs, i as int, total as int).1,
            decreases chain.count - i,
        {
            proof { lemma_rx_fold_bounds(descs, i as int, total as int); }
            let d = chain.descs[i];
            if d.flags & VIRTQ_DESC_F_WRITE != 0 {
                let remaining = total - written;
                let to_write = if remaining < d.len as u64 { remaining } else { d.len as u64 };
                writes.push(RxWrite { addr: d.addr, offset: written, len: to_write });
                written = written + to_write;
            }
            i = i + 1;
        }
        proof { lemma_rx_fold_fills(descs, chain.count as int, total as int); }
        let used = q.put_used(chain.head, written as u32, used_idx);
        let irq = self.signal_interrupt();
        RxPlan { accepted: true, writes, used, irq: Some(irq) }
    }
}

} // verus!
