//! Virtio over MMIO (modern, version 2): split virtqueues, the transport's
//! register file, and the block and network device models.
//!
//! Guest memory is not touched here: a virtqueue works on the values the
//! caller read from the guest's rings and tables, and says which values to
//! write back. A doorbell write is reported to the caller, which lets the
//! device process the queue and then raises the interrupt.

use vstd::prelude::*;

verus! {

/// One descriptor of a descriptor table.
#[derive(Clone, Copy, Debug)]
pub struct VirtqDesc {
    /// Guest physical address of the buffer.
    pub addr: u64,
    /// Buffer length in bytes.
    pub len: u32,
    /// NEXT / WRITE / INDIRECT flags.
    pub flags: u16,
    /// Next descriptor of the chain when NEXT is set.
    pub next: u16,
}

/// The descriptor continues in `next`.
pub const VIRTQ_DESC_F_NEXT: u16 = 1;
/// The buffer is device-writable.
pub const VIRTQ_DESC_F_WRITE: u16 = 2;
/// Longest chain followed.
pub const MAX_CHAIN: usize = 4;

/// A descriptor chain taken from the available ring.
#[derive(Clone, Copy, Debug)]
pub struct DescChain {
    /// Head index (handed back in the used ring).
    pub head: u16,
    /// The chain's descriptors, in order; the first `count` are valid.
    pub descs: [VirtqDesc; 4],
    /// Number of valid descriptors.
    pub count: usize,
}

/// An element to store in the used ring, and the used index to publish
/// after it.
#[derive(Clone, Copy, Debug, PartialEq, Eq, Structural)]
pub struct UsedWrite {
    /// Slot of the used ring.
    pub slot: usize,
    /// Head of the returned chain.
    pub id: u32,
    /// Bytes written into the chain.
    pub len: u32,
    /// New value of the used index.
    pub new_idx: u16,
}

/// Split virtqueue state kept by the device side.
#[derive(Clone, Copy, Debug)]
pub struct Virtqueue {
    /// Guest physical address of the descriptor table.
    pub desc_addr: u64,
    /// Guest physical address of the available ring.
    pub avail_addr: u64,
    /// Guest physical address of the used ring.
    pub used_addr: u64,
    /// Queue size.
    pub num: u16,
    /// Available index up to which chains have been taken.
    pub last_avail_idx: u16,
    /// Set up by the driver.
    pub ready: bool,
}

/// A 64-bit address from its two 32-bit halves.
pub open spec fn spec_addr64(low: u32, high: u32) -> u64 {
    (low as u64) | ((high as u64) << 32u64)
}

/// The queue after a reset.
pub open spec fn spec_queue_reset() -> Virtqueue {
    Virtqueue { desc_addr: 0, avail_addr: 0, used_addr: 0, num: 0, last_avail_idx: 0, ready: false }
}

/// The descriptors of the chain that starts at `idx`, following NEXT for at
/// most `fuel` descriptors and stopping at an index outside the table.
pub open spec fn chain_from(table: Seq<VirtqDesc>, num: u16, idx: u16, fuel: nat) -> Seq<VirtqDesc>
    decreases fuel,
{
    if fuel == 0 || idx >= num {
        Seq::empty()
    } else {
        let d = table[idx as int];
        if d.flags & VIRTQ_DESC_F_NEXT == 0 {
            seq![d]
        } else {
            seq![d] + chain_from(table, num, d.next, (fuel - 1) as nat)
        }
    }
}

proof fn lemma_chain_len(table: Seq<VirtqDesc>, num: u16, idx: u16, fuel: nat)
    ensures
        chain_from(table, num, idx, fuel).len() <= fuel,
    decreases fuel,
{
    if fuel > 0 && idx < num {
        lemma_chain_len(table, num, table[idx as int].next, (fuel - 1) as nat);
    }
}

impl Virtqueue {
    /// A queue the driver has not set up.
    pub fn new() -> (r: Self)
        ensures
            r == spec_queue_reset(),
    {
        Virtqueue { desc_addr: 0, avail_addr: 0, used_addr: 0, num: 0, last_avail_idx: 0, ready: false }
    }

    /// Set the descriptor-table address from its halves.
    pub fn set_desc_addr(&mut self, low: u32, high: u32)
        ensures
            *final(self) == (Virtqueue { desc_addr: spec_addr64(low, high), ..*old(self) }),
    {
        self.desc_addr = (low as u64) | ((high as u64) << 32);
    }

    /// Set the available-ring address from its halves.
    pub fn set_avail_addr(&mut self, low: u32, high: u32)
        ensures
            *final(self) == (Virtqueue { avail_addr: spec_addr64(low, high), ..*old(self) }),
    {
        self.avail_addr = (low as u64) | ((high as u64) << 32);
    }

    /// Set the used-ring address from its halves.
    pub fn set_used_addr(&mut self, low: u32, high: u32)
        ensures
            *final(self) == (Virtqueue { used_addr: spec_addr64(low, high), ..*old(self) }),
    {
        self.used_addr = (low as u64) | ((high as u64) << 32);
    }

    /// Low half of the descriptor-table address.
    pub fn desc_addr_low(&self) -> (r: u32)
        ensures
            r == self.desc_addr as u32,
    {
        self.desc_addr as u32
    }

    /// Low half of the available-ring address.
    pub fn avail_addr_low(&self) -> (r: u32)
        ensures
            r == self.avail_addr as u32,
    {
        self.avail_addr as u32
    }

    /// Low half of the used-ring address.
    pub fn used_addr_low(&self) -> (r: u32)
        ensures
            r == self.used_addr as u32,
    {
        self.used_addr as u32
    }

    /// Forget the driver's setup.
    pub fn reset(&mut self)
        ensures
            *final(self) == spec_queue_reset(),
    {
        self.desc_addr = 0;
        self.avail_addr = 0;
        self.used_addr = 0;
        self.num = 0;
        self.last_avail_idx = 0;
        self.ready = false;
    }

    /// New chains are available: the queue is set up and the driver's
    /// available index moved past ours.
    pub open spec fn spec_has_avail(&self, avail_idx: u16) -> bool {
        self.ready && self.avail_addr != 0 && avail_idx != self.last_avail_idx
    }

    /// Whether chains are available, given the driver's available index.
    pub fn has_avail(&self, avail_idx: u16) -> (r: bool)
        ensures
            r == self.spec_has_avail(avail_idx),
    {
        if !self.ready || self.avail_addr == 0 {
            return false;
        }
        avail_idx != self.last_avail_idx
    }

    /// Take the next available chain, given the driver's available index,
    /// its available ring and its descriptor table.
    pub fn get_avail_desc(&mut self, avail_idx: u16, ring: &Vec<u16>, table: &Vec<VirtqDesc>) -> (r: Option<DescChain>)
        requires
            old(self).spec_has_avail(avail_idx) ==> old(self).num > 0,
            ring@.len() >= old(self).num,
            table@.len() >= old(self).num,
        ensures
            !old(self).spec_has_avail(avail_idx) ==> r.is_none() && *final(self) == *old(self),
            old(self).spec_has_avail(avail_idx) ==> {
                let head = ring@[(old(self).last_avail_idx % old(self).num) as int];
                let c = r->0;
                &&& r is Some
                &&& *final(self) == (Virtqueue {
                    last_avail_idx: old(self).last_avail_idx.wrapping_add(1),
                    ..*old(self)
                })
                &&& c.head == head
                &&& c.count <= MAX_CHAIN
                &&& c.descs@.take(c.count as int) == chain_from(table@, old(self).num, head, MAX_CHAIN as nat)
            },
    {
        if !self.has_avail(avail_idx) {
            return None;
        }
        let ring_idx = (self.last_avail_idx % self.num) as usize;
        let head = ring[ring_idx];
        self.last_avail_idx = self.last_avail_idx.wrapping_add(1);
        let mut chain = DescChain {
            head,
            descs: [VirtqDesc { addr: 0, len: 0, flags: 0, next: 0 }; 4],
            count: 0,
        };
        let mut idx = head;
        let mut step: usize = 0;
        proof { lemma_chain_len(table@, self.num, head, 4); }
        while step < 4
            invariant_except_break
                step <= 4,
                chain.count == step,
                chain.head == head,
                table@.len() >= self.num,
                chain.descs@.len() == 4,
                chain_from(table@, self.num, head, 4)
                    == chain.descs@.take(step as int) + chain_from(table@, self.num, idx, (4 - step) as nat),
            ensures
                chain.count <= 4,
                chain.head == head,
                chain.descs@.len() == 4,
                chain_from(table@, self.num, head, 4) == chain.descs@.take(chain.count as int),
            decreases 4 - step,
        {
            if idx >= self.num {
                assert(chain_from(table@, self.num, idx, (4 - step) as nat) =~= Seq::<VirtqDesc>::empty());
                assert(chain.descs@.take(step as int) + Seq::<VirtqDesc>::empty() =~= chain.descs@.take(step as int));
                break;
            }
            let desc = table[idx as usize];
            let ghost before = chain.descs@;
            chain.descs[chain.count] = desc;
            chain.count = chain.count + 1;
            assert(chain.descs@.take(step as int + 1) =~= before.take(step as int).push(desc));
            if desc.flags & VIRTQ_DESC_F_NEXT == 0 {
                assert(chain_from(table@, self.num, idx, (4 - step) as nat) =~= seq![desc]);
                assert(before.take(step as int) + seq![desc] =~= before.take(step as int).push(desc));
                break;
            }
            assert(chain_from(table@, self.num, idx, (4 - step) as nat)
                =~= seq![desc] + chain_from(table@, self.num, desc.next, (4 - step - 1) as nat));
            assert(before.take(step as int) + (seq![desc] + chain_from(table@, self.num, desc.next, (4 - step - 1) as nat))
                =~= before.take(step as int).push(desc) + chain_from(table@, self.num, desc.next, (4 - step - 1) as nat));
            idx = desc.next;
            step = step + 1;
        }
        Some(chain)
    }

    /// Where to return chain `head` with `len` bytes written, given the
    /// driver-visible used index; `None` when the used ring is not set up.
    pub fn put_used(&self, head: u16, len: u32, used_idx: u16) -> (r: Option<UsedWrite>)
        requires
            self.used_addr != 0 ==> self.num > 0,
        ensures
            self.used_addr == 0 ==> r.is_none(),
            self.used_addr != 0 ==> r == Some(UsedWrite {
                slot: (used_idx % self.num) as usize,
                id: head as u32,
                len,
                new_idx: used_idx.wrapping_add(1),
            }),
    {
        if self.used_addr == 0 {
            return None;
        }
        let slot = (used_idx % self.num) as usize;
        Some(UsedWrite { slot, id: head as u32, len, new_idx: used_idx.wrapping_add(1) })
    }
}

/// A virtio device model behind the MMIO transport.
pub trait VirtioDevice: Sized {
    /// Virtio device ID.
    spec fn spec_device_id(&self) -> u32;
    /// Offered feature bits.
    spec fn spec_features(&self) -> u64;
    /// Value read from the device configuration space.
    spec fn spec_config_read(&self, offset: u64, size: u8) -> u64;
    /// Number of virtqueues.
    spec fn spec_num_queues(&self) -> u16;
    /// Largest queue size.
    spec fn spec_max_queue_size(&self) -> u16;

    fn device_id(&self) -> (r: u32)
        ensures
            r == self.spec_device_id();

    fn device_features(&self) -> (r: u64)
        ensures
            r == self.spec_features();

    fn config_read(&self, offset: u64, size: u8) -> (r: u64)
        ensures
            r == self.spec_config_read(offset, size);

    fn num_queues(&self) -> (r: u16)
        ensures
            r == self.spec_num_queues();

    /// Device state after a configuration-space write.
    spec fn spec_config_write(&self, offset: u64, value: u64, size: u8) -> Self;

    fn config_write(&mut self, offset: u64, value: u64, size: u8)
        ensures
            *final(self) == old(self).spec_config_write(offset, value, size);

    fn max_queue_size(&self) -> (r: u16)
        ensures
            r == self.spec_max_queue_size();
}

/// Virtio-blk request: read.
pub const VIRTIO_BLK_T_IN: u32 = 0;
/// Virtio-blk request: write.
pub const VIRTIO_BLK_T_OUT: u32 = 1;
/// Virtio-blk request: device ID string.
pub const VIRTIO_BLK_T_GET_ID: u32 = 8;
/// Feature: VERSION_1.
pub const VIRTIO_F_VERSION_1: u64 = 0x1_0000_0000;
/// Block features offered: VERSION_1, BLK_SIZE, SIZE_MAX, SEG_MAX.
pub const VIRTIO_BLK_FEATURES: u64 = 0x1_0000_0046;
/// Network features offered: VERSION_1, MAC, STATUS.
pub const VIRTIO_NET_FEATURES: u64 = 0x1_0001_0020;
/// Network link status: up.
pub const VIRTIO_NET_S_LINK_UP: u16 = 1;

/// Block device over a disk image in memory.
#[derive(Clone, Copy, Debug)]
pub struct VirtioBlk {
    pub disk_base: u64,
    pub disk_size: u64,
    /// Capacity in 512-byte sectors.
    pub capacity: u64,
}

impl VirtioBlk {
    /// A block device over `disk_size` bytes at `disk_base`.
    pub fn new(disk_base: u64, disk_size: u64) -> (r: Self)
        ensures
            r.disk_base == disk_base,
            r.disk_size == disk_size,
            r.capacity == disk_size / 512,
    {
        VirtioBlk { disk_base, disk_size, capacity: disk_size / 512 }
    }
}

/// Block configuration space: capacity (64-bit at 0), size_max (8),
/// seg_max (12), blk_size (20).
pub open spec fn spec_blk_config(capacity: u64, offset: u64, size: u8) -> u64 {
    if offset == 0 && size == 4 {
        (capacity as u32) as u64
    } else if offset == 4 && size == 4 {
        ((capacity >> 32u64) as u32) as u64
    } else if offset == 0 && size == 8 {
        capacity
    } else if offset == 8 && size == 4 {
        0x0020_0000
    } else if offset == 12 && size == 4 {
        128
    } else if offset == 20 && size == 4 {
        512
    } else {
        0
    }
}

/// The capacity a driver reads as two 32-bit words (low word at 0, high
/// word at 4) is the one it reads as a 64-bit value at 0, and that is the
/// device's capacity in 512-byte sectors.
pub proof fn law_blk_capacity_words(b: VirtioBlk)
    ensures
        b.spec_config_read(0, 4) <= 0xFFFF_FFFF,
        b.spec_config_read(4, 4) <= 0xFFFF_FFFF,
        b.spec_config_read(0, 4) | (b.spec_config_read(4, 4) << 32u64) == b.spec_config_read(0, 8),
        b.spec_config_read(0, 8) == b.capacity,
{
    let c = b.capacity;
    assert(((c as u32) as u64) | ((((c >> 32u64) as u32) as u64) << 32u64) == c) by (bit_vector);
}

impl VirtioDevice for VirtioBlk {
    /// The configuration space is read-only: writes are ignored.
    open spec fn spec_config_write(&self, offset: u64, value: u64, size: u8) -> Self {
        *self
    }

    fn config_write(&mut self, offset: u64, value: u64, size: u8) {
    }

    open spec fn spec_device_id(&self) -> u32 {
        2
    }

    open spec fn spec_features(&self) -> u64 {
        VIRTIO_BLK_FEATURES
    }

    open spec fn spec_config_read(&self, offset: u64, size: u8) -> u64 {
        spec_blk_config(self.capacity, offset, size)
    }

    open spec fn spec_num_queues(&self) -> u16 {
        1
    }

    open spec fn spec_max_queue_size(&self) -> u16 {
        256
    }

    fn device_id(&self) -> (r: u32) {
        2
    }

    fn device_features(&self) -> (r: u64) {
        VIRTIO_BLK_FEATURES
    }

    fn config_read(&self, offset: u64, size: u8) -> (r: u64) {
        if offset == 0 && size == 4 {
            (self.capacity as u32) as u64
        } else if offset == 4 && size == 4 {
            ((self.capacity >> 32) as u32) as u64
        } else if offset == 0 && size == 8 {
            self.capacity
        } else if offset == 8 && size == 4 {
            0x0020_0000
        } else if offset == 12 && size == 4 {
            128
        } else if offset == 20 && size == 4 {
            512
        } else {
            0
        }
    }

    fn num_queues(&self) -> (r: u16) {
        1
    }

    fn max_queue_size(&self) -> (r: u16) {
        256
    }
}

/// Network device of one VM, attached to the virtual switch port of that VM.
#[derive(Clone, Copy, Debug)]
pub struct VirtioNet {
    pub mac: [u8; 6],
    pub port_id: usize,
    pub status: u16,
}

/// MAC address of VM `vm_id`: 52:54:00:00:00:(vm_id + 1).
pub open spec fn spec_mac_for_vm(vm_id: usize) -> Seq<u8> {
    seq![0x52u8, 0x54u8, 0x00u8, 0x00u8, 0x00u8, ((vm_id + 1) as u8)]
}

/// Network configuration space: MAC bytes (0-5), status (6).
pub open spec fn spec_net_config(mac: Seq<u8>, status: u16, offset: u64, size: u8) -> u64 {
    if offset <= 5 && size == 1 {
        mac[offset as int] as u64
    } else if offset == 6 && size == 2 {
        status as u64
    } else if offset == 0 && size == 4 {
        (mac[0] as u64) | ((mac[1] as u64) << 8u64) | ((mac[2] as u64) << 16u64) | ((mac[3] as u64) << 24u64)
    } else if offset == 4 && size == 4 {
        (mac[4] as u64) | ((mac[5] as u64) << 8u64) | ((status as u64) << 16u64)
    } else {
        0
    }
}

impl VirtioNet {
    /// The network device of VM `vm_id`, link up.
    pub fn new(vm_id: usize) -> (r: Self)
        requires
            vm_id < usize::MAX,
        ensures
            r.mac@ == spec_mac_for_vm(vm_id),
            r.port_id == vm_id,
            r.status == VIRTIO_NET_S_LINK_UP,
    {
        VirtioNet { mac: Self::mac_for_vm(vm_id), port_id: vm_id, status: VIRTIO_NET_S_LINK_UP }
    }

    /// MAC address of VM `vm_id`.
    pub fn mac_for_vm(vm_id: usize) -> (r: [u8; 6])
        requires
            vm_id < usize::MAX,
        ensures
            r@ == spec_mac_for_vm(vm_id),
    {
        let r = [0x52u8, 0x54, 0x00, 0x00, 0x00, (vm_id + 1) as u8];
        assert(r@ =~= spec_mac_for_vm(vm_id));
        r
    }
}

impl VirtioDevice for VirtioNet {
    /// The configuration space is read-only: writes are ignored.
    open spec fn spec_config_write(&self, offset: u64, value: u64, size: u8) -> Self {
        *self
    }

    fn config_write(&mut self, offset: u64, value: u64, size: u8) {
    }

    open spec fn spec_device_id(&self) -> u32 {
        1
    }

    open spec fn spec_features(&self) -> u64 {
        VIRTIO_NET_FEATURES
    }

    open spec fn spec_config_read(&self, offset: u64, size: u8) -> u64 {
        spec_net_config(self.mac@, self.status, offset, size)
    }

    open spec fn spec_num_queues(&self) -> u16 {
        2
    }

    open spec fn spec_max_queue_size(&self) -> u16 {
        256
    }

    fn device_id(&self) -> (r: u32) {
        1
    }

    fn device_features(&self) -> (r: u64) {
        VIRTIO_NET_FEATURES
    }

    fn config_read(&self, offset: u64, size: u8) -> (r: u64) {
        if offset <= 5 && size == 1 {
            self.mac[offset as usize] as u64
        } else if offset == 6 && size == 2 {
            self.status as u64
        } else if offset == 0 && size == 4 {
            (self.mac[0] as u64) | ((self.mac[1] as u64) << 8) | ((self.mac[2] as u64) << 16) | ((self.mac[3] as u64)
                << 24)
        } else if offset == 4 && size == 4 {
            (self.mac[4] as u64) | ((self.mac[5] as u64) << 8) | ((self.status as u64) << 16)
        } else {
            0
        }
    }

    fn num_queues(&self) -> (r: u16) {
        2
    }

    fn max_queue_size(&self) -> (r: u16) {
        256
    }
}


/// Virtqueues per transport.
pub const MAX_QUEUES: usize = 2;

pub const REG_MAGIC_VALUE: u64 = 0x000;
pub const REG_VERSION: u64 = 0x004;
pub const REG_DEVICE_ID: u64 = 0x008;
pub const REG_VENDOR_ID: u64 = 0x00C;
pub const REG_DEVICE_FEATURES: u64 = 0x010;
pub const REG_DEVICE_FEATURES_SEL: u64 = 0x014;
pub const REG_DRIVER_FEATURES: u64 = 0x020;
pub const REG_DRIVER_FEATURES_SEL: u64 = 0x024;
pub const REG_QUEUE_SEL: u64 = 0x030;
pub const REG_QUEUE_NUM_MAX: u64 = 0x034;
pub const REG_QUEUE_NUM: u64 = 0x038;
pub const REG_QUEUE_READY: u64 = 0x044;
pub const REG_QUEUE_NOTIFY: u64 = 0x050;
pub const REG_INTERRUPT_STATUS: u64 = 0x060;
pub const REG_INTERRUPT_ACK: u64 = 0x064;
pub const REG_STATUS: u64 = 0x070;
pub const REG_QUEUE_DESC_LOW: u64 = 0x080;
pub const REG_QUEUE_DESC_HIGH: u64 = 0x084;
pub const REG_QUEUE_DRIVER_LOW: u64 = 0x090;
pub const REG_QUEUE_DRIVER_HIGH: u64 = 0x094;
pub const REG_QUEUE_DEVICE_LOW: u64 = 0x0A0;
pub const REG_QUEUE_DEVICE_HIGH: u64 = 0x0A4;
pub const REG_CONFIG_GENERATION: u64 = 0x0FC;
pub const REG_CONFIG_SPACE: u64 = 0x100;

/// "virt" in little-endian.
pub const VIRTIO_MMIO_MAGIC: u32 = 0x7472_6976;
/// Modern (non-legacy) transport.
pub const VIRTIO_MMIO_VERSION: u32 = 2;
/// "QEMU".
pub const VIRTIO_VENDOR_ID: u32 = 0x554D_4551;
/// Interrupt status bit: used ring updated.
pub const VIRTIO_INT_VRING: u32 = 1;

/// Virtio-MMIO register file in front of a device model.
pub struct VirtioMmioTransport<D: VirtioDevice> {
    pub base: u64,
    pub device: D,
    pub queues: [Virtqueue; 2],
    pub queue_sel: u32,
    pub status: u32,
    pub interrupt_status: u32,
    pub device_features_sel: u32,
    pub driver_features_sel: u32,
    pub driver_features: u64,
    pub config_generation: u32,
    /// SPI raised when a queue was processed.
    pub irq_intid: u32,
    pub queue_desc_high: u32,
    pub queue_driver_high: u32,
    pub queue_device_high: u32,
}

impl<D: VirtioDevice> VirtioMmioTransport<D> {
    /// The selected queue, when the device has it.
    pub open spec fn spec_current_queue(&self) -> Option<int> {
        if (self.queue_sel as int) < MAX_QUEUES && (self.queue_sel as int) < self.device.spec_num_queues() {
            Some(self.queue_sel as int)
        } else {
            None
        }
    }

    /// Value a 32-bit register read returns.
    pub open spec fn spec_reg(&self, offset: u64) -> u32 {
        if offset == REG_MAGIC_VALUE {
            VIRTIO_MMIO_MAGIC
        } else if offset == REG_VERSION {
            VIRTIO_MMIO_VERSION
        } else if offset == REG_DEVICE_ID {
            self.device.spec_device_id()
        } else if offset == REG_VENDOR_ID {
            VIRTIO_VENDOR_ID
        } else if offset == REG_DEVICE_FEATURES {
            if self.device_features_sel == 0 {
                self.device.spec_features() as u32
            } else {
                (self.device.spec_features() >> 32u64) as u32
            }
        } else if offset == REG_QUEUE_NUM_MAX {
            if self.spec_current_queue() is Some { self.device.spec_max_queue_size() as u32 } else { 0 }
        } else if offset == REG_QUEUE_READY {
            match self.spec_current_queue() {
                Some(i) => if self.queues@[i].ready { 1 } else { 0 },
                None => 0,
            }
        } else if offset == REG_INTERRUPT_STATUS {
            self.interrupt_status
        } else if offset == REG_STATUS {
            self.status
        } else if offset == REG_CONFIG_GENERATION {
            self.config_generation
        } else {
            0
        }
    }

    /// Value a read of `size` bytes at `offset` returns.
    pub open spec fn spec_read(&self, offset: u64, size: u8) -> u64 {
        if offset >= REG_CONFIG_SPACE {
            self.device.spec_config_read((offset - REG_CONFIG_SPACE) as u64, size)
        } else if size != 4 {
            0
        } else {
            self.spec_reg(offset) as u64
        }
    }

    /// The queue a write rings the doorbell of, when it is one the device
    /// has and the driver made ready.
    pub open spec fn spec_notify(&self, offset: u64, value: u64, size: u8) -> Option<u16> {
        let q = (value as u32) as u16;
        if offset < REG_CONFIG_SPACE && size == 4 && offset == REG_QUEUE_NOTIFY && (q as int) < MAX_QUEUES
            && (q as int) < self.device.spec_num_queues() && self.queues@[q as int].ready {
            Some(q)
        } else {
            None
        }
    }

    /// Registers other than the queues after a write.
    pub open spec fn spec_regs_after(&self, offset: u64, value: u64, size: u8) -> Self {
        let val = value as u32;
        if offset >= REG_CONFIG_SPACE {
            Self { device: self.device.spec_config_write((offset - REG_CONFIG_SPACE) as u64, value, size), ..*self }
        } else if size != 4 {
            *self
        } else if offset == REG_DEVICE_FEATURES_SEL {
            Self { device_features_sel: val, ..*self }
        } else if offset == REG_DRIVER_FEATURES {
            if self.driver_features_sel == 0 {
                Self { driver_features: (self.driver_features & 0xFFFF_FFFF_0000_0000) | (val as u64), ..*self }
            } else {
                Self { driver_features: (self.driver_features & 0x0000_0000_FFFF_FFFF) | ((val as u64) << 32u64), ..*self }
            }
        } else if offset == REG_DRIVER_FEATURES_SEL {
            Self { driver_features_sel: val, ..*self }
        } else if offset == REG_QUEUE_SEL {
            Self { queue_sel: val, queue_desc_high: 0, queue_driver_high: 0, queue_device_high: 0, ..*self }
        } else if offset == REG_INTERRUPT_ACK {
            Self { interrupt_status: self.interrupt_status & !val, ..*self }
        } else if offset == REG_STATUS {
            if val == 0 {
                Self {
                    status: 0,
                    interrupt_status: 0,
                    device_features_sel: 0,
                    driver_features_sel: 0,
                    driver_features: 0,
                    queue_sel: 0,
                    ..*self
                }
            } else {
                Self { status: val, ..*self }
            }
        } else if offset == REG_QUEUE_DESC_HIGH {
            Self { queue_desc_high: val, ..*self }
        } else if offset == REG_QUEUE_DRIVER_HIGH {
            Self { queue_driver_high: val, ..*self }
        } else if offset == REG_QUEUE_DEVICE_HIGH {
            Self { queue_device_high: val, ..*self }
        } else {
            *self
        }
    }

    /// The selected queue after a write to one of its registers.
    pub open spec fn spec_queue_after(&self, q: Virtqueue, offset: u64, val: u32) -> Virtqueue {
        if offset == REG_QUEUE_NUM {
            Virtqueue { num: val as u16, ..q }
        } else if offset == REG_QUEUE_READY {
            Virtqueue { ready: val != 0, ..q }
        } else if offset == REG_QUEUE_DESC_LOW {
            Virtqueue { desc_addr: spec_addr64(val, self.queue_desc_high), ..q }
        } else if offset == REG_QUEUE_DESC_HIGH {
            Virtqueue { desc_addr: spec_addr64(q.desc_addr as u32, val), ..q }
        } else if offset == REG_QUEUE_DRIVER_LOW {
            Virtqueue { avail_addr: spec_addr64(val, self.queue_driver_high), ..q }
        } else if offset == REG_QUEUE_DRIVER_HIGH {
            Virtqueue { avail_addr: spec_addr64(q.avail_addr as u32, val), ..q }
        } else if offset == REG_QUEUE_DEVICE_LOW {
            Virtqueue { used_addr: spec_addr64(val, self.queue_device_high), ..q }
        } else if offset == REG_QUEUE_DEVICE_HIGH {
            Virtqueue { used_addr: spec_addr64(q.used_addr as u32, val), ..q }
        } else {
            q
        }
    }

    /// Whether a register offset belongs to the selected queue.
    pub open spec fn is_queue_reg(offset: u64) -> bool {
        offset == REG_QUEUE_NUM || offset == REG_QUEUE_READY || offset == REG_QUEUE_DESC_LOW
            || offset == REG_QUEUE_DESC_HIGH || offset == REG_QUEUE_DRIVER_LOW || offset == REG_QUEUE_DRIVER_HIGH
            || offset == REG_QUEUE_DEVICE_LOW || offset == REG_QUEUE_DEVICE_HIGH
    }

    /// The queues after a write.
    pub open spec fn spec_queues_after(&self, offset: u64, value: u64, size: u8) -> Seq<Virtqueue> {
        let val = value as u32;
        if offset >= REG_CONFIG_SPACE || size != 4 {
            self.queues@
        } else if offset == REG_STATUS && val == 0 {
            seq![spec_queue_reset(), spec_queue_reset()]
        } else if Self::is_queue_reg(offset) {
            match self.spec_current_queue() {
                Some(i) => self.queues@.update(i, self.spec_queue_after(self.queues@[i], offset, val)),
                None => self.queues@,
            }
        } else {
            self.queues@
        }
    }

    /// A transport for `device` at `base` raising SPI `irq_intid`; all
    /// registers and queues reset.
    pub fn new(base: u64, device: D, irq_intid: u32) -> (r: Self)
        ensures
            r.base == base,
            r.device == device,
            r.irq_intid == irq_intid,
            r.queues@ == seq![spec_queue_reset(), spec_queue_reset()],
            r.queue_sel == 0 && r.status == 0 && r.interrupt_status == 0,
            r.device_features_sel == 0 && r.driver_features_sel == 0 && r.driver_features == 0,
            r.config_generation == 0,
            r.queue_desc_high == 0 && r.queue_driver_high == 0 && r.queue_device_high == 0,
    {
        let r = VirtioMmioTransport {
            base,
            device,
            queues: [Virtqueue::new(), Virtqueue::new()],
            queue_sel: 0,
            status: 0,
            interrupt_status: 0,
            device_features_sel: 0,
            driver_features_sel: 0,
            driver_features: 0,
            config_generation: 0,
            irq_intid,
            queue_desc_high: 0,
            queue_driver_high: 0,
            queue_device_high: 0,
        };
        assert(r.queues@ =~= seq![spec_queue_reset(), spec_queue_reset()]);
        r
    }

    /// The selected queue, when the device has it.
    fn current_queue(&self) -> (r: Option<usize>)
        ensures
            match self.spec_current_queue() {
                Some(i) => r == Some(i as usize),
                None => r.is_none(),
            },
    {
        let idx = self.queue_sel as usize;
        if idx < MAX_QUEUES && idx < self.device.num_queues() as usize {
            Some(idx)
        } else {
            None
        }
    }

    /// Record that a queue was processed; returns the SPI to raise.
    pub fn signal_interrupt(&mut self) -> (r: u32)
        ensures
            r == old(self).irq_intid,
            *final(self) == (Self { interrupt_status: old(self).interrupt_status | VIRTIO_INT_VRING, ..*old(self) }),
    {
        self.interrupt_status = self.interrupt_status | VIRTIO_INT_VRING;
        self.irq_intid
    }

    /// Return the device to its initial state (driver wrote 0 to Status).
    fn reset(&mut self)
        ensures
            *final(self) == (Self {
                status: 0,
                interrupt_status: 0,
                device_features_sel: 0,
                driver_features_sel: 0,
                driver_features: 0,
                queue_sel: 0,
                queues: final(self).queues,
                ..*old(self)
            }),
            final(self).queues@ == seq![spec_queue_reset(), spec_queue_reset()],
    {
        self.status = 0;
        self.interrupt_status = 0;
        self.device_features_sel = 0;
        self.driver_features_sel = 0;
        self.driver_features = 0;
        self.queue_sel = 0;
        self.queues[0] = Virtqueue::new();
        self.queues[1] = Virtqueue::new();
        assert(self.queues@ =~= seq![spec_queue_reset(), spec_queue_reset()]);
    }

    /// Read `size` bytes at register `offset`.
    pub fn read(&self, offset: u64, size: u8) -> (r: Option<u64>)
        ensures
            r == Some(self.spec_read(offset, size)),
    {
        if offset >= REG_CONFIG_SPACE {
            return Some(self.device.config_read(offset - REG_CONFIG_SPACE, size));
        }
        if size != 4 {
            return Some(0);
        }
        let val: u32 = if offset == REG_MAGIC_VALUE {
            VIRTIO_MMIO_MAGIC
        } else if offset == REG_VERSION {
            VIRTIO_MMIO_VERSION
        } else if offset == REG_DEVICE_ID {
            self.device.device_id()
        } else if offset == REG_VENDOR_ID {
            VIRTIO_VENDOR_ID
        } else if offset == REG_DEVICE_FEATURES {
            let features = self.device.device_features();
            if self.device_features_sel == 0 {
                features as u32
            } else {
                (features >> 32) as u32
            }
        } else if offset == REG_QUEUE_NUM_MAX {
            if self.current_queue().is_some() {
                self.device.max_queue_size() as u32
            } else {
                0
            }
        } else if offset == REG_QUEUE_READY {
            match self.current_queue() {
                Some(idx) => if self.queues[idx].ready { 1 } else { 0 },
                None => 0,
            }
        } else if offset == REG_INTERRUPT_STATUS {
            self.interrupt_status
        } else if offset == REG_STATUS {
            self.status
        } else if offset == REG_CONFIG_GENERATION {
            self.config_generation
        } else {
            0
        };
        Some(val as u64)
    }

    /// Write `size` bytes of `value` at register `offset`. Returns the queue
    /// whose doorbell was rung: the caller lets the device process it and
    /// then calls `signal_interrupt`.
    pub fn write(&mut self, offset: u64, value: u64, size: u8) -> (r: Option<u16>)
        ensures
            r == old(self).spec_notify(offset, value, size),
            *final(self) == (Self { queues: final(self).queues, ..old(self).spec_regs_after(offset, value, size) }),
            final(self).queues@ == old(self).spec_queues_after(offset, value, size),
    {
        if offset >= REG_CONFIG_SPACE {
            self.device.config_write(offset - REG_CONFIG_SPACE, value, size);
            return None;
        }
        if size != 4 {
            return None;
        }
        let val = value as u32;
        if offset == REG_DEVICE_FEATURES_SEL {
            self.device_features_sel = val;
        } else if offset == REG_DRIVER_FEATURES {
            if self.driver_features_sel == 0 {
                self.driver_features = (self.driver_features & 0xFFFF_FFFF_0000_0000) | (val as u64);
            } else {
                self.driver_features = (self.driver_features & 0x0000_0000_FFFF_FFFF) | ((val as u64) << 32);
            }
        } else if offset == REG_DRIVER_FEATURES_SEL {
            self.driver_features_sel = val;
        } else if offset == REG_QUEUE_SEL {
            self.queue_sel = val;
            self.queue_desc_high = 0;
            self.queue_driver_high = 0;
            self.queue_device_high = 0;
        } else if offset == REG_QUEUE_NUM {
            if let Some(idx) = self.current_queue() {
                let mut q = self.queues[idx];
                q.num = val as u16;
                self.queues[idx] = q;
            }
        } else if offset == REG_QUEUE_READY {
            if let Some(idx) = self.current_queue() {
                let mut q = self.queues[idx];
                q.ready = val != 0;
                self.queues[idx] = q;
            }
        } else if offset == REG_QUEUE_NOTIFY {
            let queue_idx = val as u16;
            if (queue_idx as usize) < MAX_QUEUES && (queue_idx as usize) < self.device.num_queues() as usize
                && self.queues[queue_idx as usize].ready {
                return Some(queue_idx);
            }
        } else if offset == REG_INTERRUPT_ACK {
            self.interrupt_status = self.interrupt_status & !val;
        } else if offset == REG_STATUS {
            if val == 0 {
                self.reset();
            } else {
                self.status = val;
            }
        } else if offset == REG_QUEUE_DESC_LOW {
            if let Some(idx) = self.current_queue() {
                let mut q = self.queues[idx];
                q.set_desc_addr(val, self.queue_desc_high);
                self.queues[idx] = q;
            }
        } else if offset == REG_QUEUE_DESC_HIGH {
            self.queue_desc_high = val;
            if let Some(idx) = self.current_queue() {
                let mut q = self.queues[idx];
                let low = q.desc_addr_low();
                q.set_desc_addr(low, val);
                self.queues[idx] = q;
            }
        } else if offset == REG_QUEUE_DRIVER_LOW {
            if let Some(idx) = self.current_queue() {
                let mut q = self.queues[idx];
                q.set_avail_addr(val, self.queue_driver_high);
                self.queues[idx] = q;
            }
        } else if offset == REG_QUEUE_DRIVER_HIGH {
            self.queue_driver_high = val;
            if let Some(idx) = self.current_queue() {
                let mut q = self.queues[idx];
                let low = q.avail_addr_low();
                q.set_avail_addr(low, val);
                self.queues[idx] = q;
            }
        } else if offset == REG_QUEUE_DEVICE_LOW {
            if let Some(idx) = self.current_queue() {
                let mut q = self.queues[idx];
                q.set_used_addr(val, self.queue_device_high);
                self.queues[idx] = q;
            }
        } else if offset == REG_QUEUE_DEVICE_HIGH {
            self.queue_device_high = val;
            if let Some(idx) = self.current_queue() {
                let mut q = self.queues[idx];
                let low = q.used_addr_low();
                q.set_used_addr(low, val);
                self.queues[idx] = q;
            }
        }
        None
    }

    /// Size of the register window.
    pub fn size(&self) -> (r: u64)
        ensures
            r == 0x200,
    {
        0x200
    }

    /// Base address of the register window.
    pub fn base_address(&self) -> (r: u64)
        ensures
            r == self.base,
    {
        self.base
    }
}

} // verus!
