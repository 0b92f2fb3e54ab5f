//! MMIO routing: the emulated devices of a VM and the dispatch of a trapped
//! guest access to the device whose window contains it.

use vstd::prelude::*;
use crate::pl011::{uart_after_pop, uart_reg, uart_width_ok, uart_write, VirtualUart, UARTDR};
use crate::vgic::{
    gicd_read, gicd_write, gicr_decode, gicr_read_rd, gicr_read_sgi, gicr_write_rd, gicr_write_sgi, VirtualGicd,
    VirtualGicr,
};
use crate::virtio::{VirtioBlk, VirtioMmioTransport, VirtioNet, VirtqDesc};
use crate::virtio_data::{inject_rx_post, RxPlan, MAX_FRAME_SIZE};

verus! {

/// An emulated device.
pub enum Device {
    Uart(VirtualUart),
    Gicd(VirtualGicd),
    Gicr(VirtualGicr),
    VirtioBlk(VirtioMmioTransport<VirtioBlk>),
    VirtioNet(VirtioMmioTransport<VirtioNet>),
}

/// What a device access asks of the caller besides its value.
#[derive(Clone, Copy, Debug, PartialEq, Eq, Structural)]
pub enum MmioEffect {
    /// Nothing.
    Nothing,
    /// Transmit a character on the physical UART.
    UartTx(u8),
    /// Let the virtio device process a queue, then signal its interrupt.
    VirtioNotify(u16),
}

/// Base address of a device's window.
pub open spec fn dev_base(d: Device) -> u64 {
    match d {
        Device::Uart(_) => crate::pl011::UART_BASE,
        Device::Gicd(_) => crate::vgic::GICD_BASE,
        Device::Gicr(g) => g.spec_base(),
        Device::VirtioBlk(t) => t.base,
        Device::VirtioNet(t) => t.base,
    }
}

/// Size of a device's window.
pub open spec fn dev_size(d: Device) -> int {
    match d {
        Device::Uart(_) => crate::pl011::UART_SIZE as int,
        Device::Gicd(_) => crate::vgic::GICD_SIZE as int,
        Device::Gicr(g) => crate::vgic::GICR_PER_CPU * g.spec_num_vcpus(),
        Device::VirtioBlk(_) => 0x200,
        Device::VirtioNet(_) => 0x200,
    }
}

/// The device's window contains `addr`.
pub open spec fn dev_contains(d: Device, addr: u64) -> bool {
    dev_base(d) <= addr && addr < dev_base(d) + dev_size(d)
}

/// The device's own invariant holds.
pub open spec fn dev_wf(d: Device) -> bool {
    match d {
        Device::Uart(u) => u.wf(),
        Device::Gicr(g) => g.wf(),
        _ => true,
    }
}

/// `after` and `r` are a possible outcome of reading `size` bytes at
/// `offset` from `before`.
pub open spec fn dev_read(before: Device, after: Device, offset: u64, size: u8, r: Option<u64>) -> bool {
    match (before, after) {
        (Device::Uart(a), Device::Uart(b)) => {
            &&& b.wf()
            &&& !uart_width_ok(size) ==> r == Some(0u64) && b@ == a@
            &&& uart_width_ok(size) && offset == UARTDR ==> b@ == uart_after_pop(a@)
                && r == Some(if a@.rx.len() > 0 { a@.rx[0] as u64 } else { 0 })
            &&& uart_width_ok(size) && offset != UARTDR ==> b@ == a@ && r == Some(uart_reg(a@, offset))
        },
        (Device::Gicd(a), Device::Gicd(b)) => b@ == a@ && r == Some(gicd_read(a@, offset, size)),
        (Device::Gicr(a), Device::Gicr(b)) => {
            &&& b == a
            &&& match gicr_decode(offset, a.spec_num_vcpus()) {
                None => r.is_none(),
                Some((id, sgi, off)) => r == Some(if sgi {
                    gicr_read_sgi(a.states()[id as int], off)
                } else {
                    gicr_read_rd(a.states()[id as int], id, a.spec_num_vcpus(), off, size)
                }),
            }
        },
        (Device::VirtioBlk(a), Device::VirtioBlk(b)) => b == a && r == Some(a.spec_read(offset, size)),
        (Device::VirtioNet(a), Device::VirtioNet(b)) => b == a && r == Some(a.spec_read(offset, size)),
        _ => false,
    }
}

/// `after` and `e` are the outcome of writing `size` bytes of `value` at
/// `offset` to `before`.
pub open spec fn dev_write(before: Device, after: Device, offset: u64, value: u64, size: u8, e: MmioEffect) -> bool {
    match (before, after) {
        (Device::Uart(a), Device::Uart(b)) => {
            &&& b.wf()
            &&& !uart_width_ok(size) ==> b@ == a@ && e == MmioEffect::Nothing
            &&& uart_width_ok(size) ==> b@ == uart_write(a@, offset, value)
            &&& uart_width_ok(size) && offset == UARTDR ==> e == MmioEffect::UartTx((value & 0xFF) as u8)
            &&& uart_width_ok(size) && offset != UARTDR ==> e == MmioEffect::Nothing
        },
        (Device::Gicd(a), Device::Gicd(b)) => b@ == gicd_write(a@, offset, value, size) && e == MmioEffect::Nothing,
        (Device::Gicr(a), Device::Gicr(b)) => {
            &&& b.wf()
            &&& b.spec_num_vcpus() == a.spec_num_vcpus()
            &&& b.spec_base() == a.spec_base()
            &&& e == MmioEffect::Nothing
            &&& match gicr_decode(offset, a.spec_num_vcpus()) {
                None => b.states() == a.states(),
                Some((id, sgi, off)) => b.states() == a.states().update(id as int,
                    if sgi {
                        gicr_write_sgi(a.states()[id as int], off, value)
                    } else {
                        gicr_write_rd(a.states()[id as int], off, value)
                    }),
            }
        },
        (Device::VirtioBlk(a), Device::VirtioBlk(b)) => {
            &&& b == (VirtioMmioTransport { queues: b.queues, ..a.spec_regs_after(offset, value, size) })
            &&& b.queues@ == a.spec_queues_after(offset, value, size)
            &&& e == match a.spec_notify(offset, value, size) {
                Some(q) => MmioEffect::VirtioNotify(q),
                None => MmioEffect::Nothing,
            }
        },
        (Device::VirtioNet(a), Device::VirtioNet(b)) => {
            &&& b == (VirtioMmioTransport { queues: b.queues, ..a.spec_regs_after(offset, value, size) })
            &&& b.queues@ == a.spec_queues_after(offset, value, size)
            &&& e == match a.spec_notify(offset, value, size) {
                Some(q) => MmioEffect::VirtioNotify(q),
                None => MmioEffect::Nothing,
            }
        },
        _ => false,
    }
}

impl Device {
    /// Base address of the device's window.
    pub fn base_address(&self) -> (r: u64)
        ensures
            r == dev_base(*self),
    {
        match self {
            Device::Uart(d) => d.base_address(),
            Device::Gicd(d) => d.base_address(),
            Device::Gicr(d) => d.base_address(),
            Device::VirtioBlk(d) => d.base_address(),
            Device::VirtioNet(d) => d.base_address(),
        }
    }

    /// Whether the device's window contains `addr`.
    pub fn contains(&self, addr: u64) -> (r: bool)
        requires
            dev_wf(*self),
        ensures
            r == dev_contains(*self, addr),
    {
        let base = self.base_address();
        if addr < base {
            return false;
        }
        let size: u64 = match self {
            Device::Uart(d) => d.size(),
            Device::Gicd(d) => d.size(),
            Device::Gicr(d) => d.size(),
            Device::VirtioBlk(d) => d.size(),
            Device::VirtioNet(d) => d.size(),
        };
        addr - base < size
    }

    /// A guest read of `size` bytes at `offset` in the device's window.
    pub fn read(&mut self, offset: u64, size: u8) -> (r: Option<u64>)
        requires
            dev_wf(*old(self)),
        ensures
            dev_read(*old(self), *final(self), offset, size, r),
    {
        match self {
            Device::Uart(d) => d.read(offset, size),
            Device::Gicd(d) => d.read(offset, size),
            Device::Gicr(d) => d.read(offset, size),
            Device::VirtioBlk(d) => d.read(offset, size),
            Device::VirtioNet(d) => d.read(offset, size),
        }
    }

    /// A guest write of `size` bytes of `value` at `offset` in the device's window.
    pub fn write(&mut self, offset: u64, value: u64, size: u8) -> (e: MmioEffect)
        requires
            dev_wf(*old(self)),
        ensures
            dev_write(*old(self), *final(self), offset, value, size, e),
    {
        match self {
            Device::Uart(d) => {
                let w = d.write(offset, value, size);
                match w.tx {
                    Some(c) => MmioEffect::UartTx(c),
                    None => MmioEffect::Nothing,
                }
            },
            Device::Gicd(d) => {
                d.write(offset, value, size);
                MmioEffect::Nothing
            },
            Device::Gicr(d) => {
                d.write(offset, value, size);
                MmioEffect::Nothing
            },
            Device::VirtioBlk(d) => match d.write(offset, value, size) {
                Some(q) => MmioEffect::VirtioNotify(q),
                None => MmioEffect::Nothing,
            },
            Device::VirtioNet(d) => match d.write(offset, value, size) {
                Some(q) => MmioEffect::VirtioNotify(q),
                None => MmioEffect::Nothing,
            },
        }
    }

    /// The SPI the device wants raised (only the UART raises one).
    pub fn pending_irq(&self) -> (r: Option<u32>)
        ensures
            match *self {
                Device::Uart(u) => r == (if u@.ris & u@.imsc != 0 { Some(crate::pl011::UART_SPI_INTID) } else { None }),
                _ => r.is_none(),
            },
    {
        match self {
            Device::Uart(d) => d.pending_irq(),
            _ => None,
        }
    }
}

/// Slots of a device manager.
pub const MAX_DEVICES: usize = 8;
/// Base of the virtio-blk transport (first virtio-mmio slot of QEMU virt).
pub const VIRTIO_BLK_BASE: u64 = 0x0a00_0000;
/// SPI of the virtio-blk transport.
pub const VIRTIO_BLK_INTID: u32 = 48;
/// Base of the virtio-net transport (second virtio-mmio slot).
pub const VIRTIO_NET_BASE: u64 = 0x0a00_0200;
/// SPI of the virtio-net transport.
pub const VIRTIO_NET_INTID: u32 = 49;

/// The devices of a VM, one per slot, registered in order.
pub struct DeviceManager {
    devices: Vec<Option<Device>>,
    count: usize,
}

/// The vCPU that the first distributor at or after slot `i` routes `intid` to.
pub open spec fn first_gicd_route(s: Seq<Option<Device>>, intid: u32, i: int) -> usize
    decreases s.len() - i,
{
    if i < 0 || i >= s.len() {
        0
    } else {
        match s[i] {
            Some(Device::Gicd(g)) => crate::vgic::gicd_route(g@, intid),
            _ => first_gicd_route(s, intid, i + 1),
        }
    }
}

/// The interrupt asserted by the first UART at or after slot `i`.
pub open spec fn first_uart_irq_from(s: Seq<Option<Device>>, i: int) -> Option<u32>
    decreases s.len() - i,
{
    if i < 0 || i >= s.len() {
        None
    } else {
        match s[i] {
            Some(Device::Uart(u)) => if u@.ris & u@.imsc != 0 { Some(crate::pl011::UART_SPI_INTID) } else { None },
            _ => first_uart_irq_from(s, i + 1),
        }
    }
}

/// `i` is the first occupied slot whose device contains `addr`.
pub open spec fn first_containing(s: Seq<Option<Device>>, addr: u64, i: int) -> bool {
    &&& 0 <= i < s.len()
    &&& s[i] is Some && dev_contains(s[i]->0, addr)
    &&& forall|j: int| 0 <= j < i ==> !(#[trigger] s[j] is Some && dev_contains(s[j]->0, addr))
}

/// Some occupied slot's device contains `addr`.
pub open spec fn any_containing(s: Seq<Option<Device>>, addr: u64) -> bool {
    exists|i: int| 0 <= i < s.len() && #[trigger] s[i] is Some && dev_contains(s[i]->0, addr)
}

/// Outcome of `DeviceManager::handle_mmio`.
pub open spec fn mmio_post(s0: Seq<Option<Device>>, s1: Seq<Option<Device>>, c0: nat, c1: nat, addr: u64, value: u64, size: u8, is_write: bool, r: (Option<u64>, MmioEffect)) -> bool {
    &&& c1 == c0
    &&& !any_containing(s0, addr) ==> s1 == s0
        && r == (if is_write { (None::<u64>, MmioEffect::Nothing) } else { (Some(0u64), MmioEffect::Nothing) })
    &&& any_containing(s0, addr) ==> exists|i: int| #[trigger] first_containing(s0, addr, i)
        && s1 == s0.update(i, s1[i])
        && s1[i] is Some
        && ({
            let before = s0[i]->0;
            let after = s1[i]->0;
            let offset = (addr - dev_base(before)) as u64;
            if is_write {
                r.0.is_none() && dev_write(before, after, offset, value, size, r.1)
            } else {
                r.1 == MmioEffect::Nothing && dev_read(before, after, offset, size, r.0)
            }
        })
}

/// Outcome of `DeviceManager::attach_virtio_blk`.
pub open spec fn attach_blk_post(s0: Seq<Option<Device>>, s1: Seq<Option<Device>>, c0: nat, disk_base: u64, disk_size: u64, r: Option<usize>) -> bool {
    &&& c0 >= MAX_DEVICES ==> r.is_none() && s1 == s0
    &&& c0 < MAX_DEVICES ==> r == Some(c0 as usize) && ({
        let d = s1[c0 as int];
        &&& d matches Some(Device::VirtioBlk(t))
        &&& t.base == VIRTIO_BLK_BASE && t.irq_intid == VIRTIO_BLK_INTID
        &&& t.device == VirtioBlk { disk_base, disk_size, capacity: disk_size / 512 }
    })
}

/// Outcome of `DeviceManager::attach_virtio_net`.
pub open spec fn attach_net_post(s0: Seq<Option<Device>>, s1: Seq<Option<Device>>, c0: nat, vm_id: usize, r: Option<usize>) -> bool {
    &&& c0 >= MAX_DEVICES ==> r.is_none() && s1 == s0
    &&& c0 < MAX_DEVICES ==> r == Some(c0 as usize) && ({
        let d = s1[c0 as int];
        &&& d matches Some(Device::VirtioNet(t))
        &&& t.base == VIRTIO_NET_BASE && t.irq_intid == VIRTIO_NET_INTID
        &&& t.device.port_id == vm_id
        &&& t.device.mac@ == crate::virtio::spec_mac_for_vm(vm_id)
    })
}

/// Outcome of `DeviceManager::uart_push_rx`.
pub open spec fn uart_push_rx_post(s0: Seq<Option<Device>>, s1: Seq<Option<Device>>, c0: nat, c1: nat, ch: u8, r: bool) -> bool {
    &&& c1 == c0
    &&& !r ==> s1 == s0
        && forall|j: int| 0 <= j < MAX_DEVICES ==> !(#[trigger] s0[j] matches Some(Device::Uart(_)))
    &&& r ==> exists|i: int| 0 <= i < MAX_DEVICES
        && (#[trigger] s0[i] matches Some(Device::Uart(u)) && ({
            &&& s1[i] matches Some(Device::Uart(u2))
            &&& u2.wf()
            &&& u@.rx.len() >= 63 ==> u2@ == u@
            &&& u@.rx.len() < 63 ==> u2@ == (crate::pl011::UartView {
                rx: u@.rx.push(ch),
                ris: u@.ris | crate::pl011::INT_RX,
                ..u@
            })
        }))
        && s1 == s0.update(i, s1[i])
        && forall|j: int| 0 <= j < i ==> !(#[trigger] s0[j] matches Some(Device::Uart(_)))
}

impl DeviceManager {
    /// The slots.
    pub closed spec fn slots(&self) -> Seq<Option<Device>> {
        self.devices@
    }

    /// Number of devices registered.
    pub closed spec fn spec_count(&self) -> nat {
        self.count as nat
    }

    /// One slot per possible device, at most that many registered, and
    /// every device in a slot well formed.
    pub open spec fn wf(&self) -> bool {
        &&& self.slots().len() == MAX_DEVICES
        &&& self.spec_count() <= MAX_DEVICES
        &&& self.devices_ok()
    }

    /// Every device in a slot is well formed.
    pub closed spec fn devices_ok(&self) -> bool {
        forall|i: int| 0 <= i < MAX_DEVICES && #[trigger] self.devices@[i] is Some ==> dev_wf(self.devices@[i]->0)
    }

    /// There is a slot for each possible device.
    pub proof fn lemma_slots_len(&self)
        requires
            self.wf(),
        ensures
            self.slots().len() == MAX_DEVICES,
    {
    }

    /// No devices.
    pub fn new() -> (r: Self)
        ensures
            r.wf(),
            r.spec_count() == 0,
            r.slots() == Seq::new(MAX_DEVICES as nat, |i: int| None::<Device>),
    {
        let mut devices: Vec<Option<Device>> = Vec::new();
        let mut i: usize = 0;
        while i < MAX_DEVICES
            invariant
                i <= MAX_DEVICES,
                devices@.len() == i,
                forall|j: int| 0 <= j < i ==> #[trigger] devices@[j] is None,
            decreases MAX_DEVICES - i,
        {
            devices.push(None);
            i = i + 1;
        }
        let r = DeviceManager { devices, count: 0 };
        assert(r.slots() =~= Seq::new(MAX_DEVICES as nat, |i: int| None::<Device>));
        r
    }

    /// Remove every device.
    pub fn reset(&mut self)
        requires
            old(self).wf(),
        ensures
            final(self).wf(),
            final(self).spec_count() == 0,
            final(self).slots() == Seq::new(MAX_DEVICES as nat, |i: int| None::<Device>),
    {
        let mut i: usize = 0;
        while i < MAX_DEVICES
            invariant
                i <= MAX_DEVICES,
                self.devices@.len() == MAX_DEVICES,
                forall|j: int| 0 <= j < i ==> #[trigger] self.devices@[j] is None,
            decreases MAX_DEVICES - i,
        {
            self.devices.set(i, None);
            i = i + 1;
        }
        self.count = 0;
        assert(self.slots() =~= Seq::new(MAX_DEVICES as nat, |i: int| None::<Device>));
    }

    /// Put `dev` in the next slot; `None` when all slots are taken.
    pub fn register_device(&mut self, dev: Device) -> (r: Option<usize>)
        requires
            old(self).wf(),
            dev_wf(dev),
        ensures
            final(self).wf(),
            old(self).spec_count() >= MAX_DEVICES ==> r.is_none() && final(self).slots() == old(self).slots()
                && final(self).spec_count() == old(self).spec_count(),
            old(self).spec_count() < MAX_DEVICES ==> r == Some(old(self).spec_count() as usize)
                && final(self).slots() == old(self).slots().update(old(self).spec_count() as int, Some(dev))
                && final(self).spec_count() == old(self).spec_count() + 1,
    {
        if self.count >= MAX_DEVICES {
            return None;
        }
        let idx = self.count;
        self.devices.set(idx, Some(dev));
        self.count = self.count + 1;
        Some(idx)
    }

    /// Register a virtio-blk transport at the first virtio-mmio slot over a
    /// disk image of `disk_size` bytes at `disk_base`.
    pub fn attach_virtio_blk(&mut self, disk_base: u64, disk_size: u64) -> (r: Option<usize>)
        requires
            old(self).wf(),
        ensures
            final(self).wf(),
            attach_blk_post(old(self).slots(), final(self).slots(), old(self).spec_count(), disk_base, disk_size, r),
    {
        let blk = VirtioBlk::new(disk_base, disk_size);
        let transport = VirtioMmioTransport::new(VIRTIO_BLK_BASE, blk, VIRTIO_BLK_INTID);
        self.register_device(Device::VirtioBlk(transport))
    }

    /// Register the virtio-net transport of VM `vm_id` at the second
    /// virtio-mmio slot.
    pub fn attach_virtio_net(&mut self, vm_id: usize) -> (r: Option<usize>)
        requires
            old(self).wf(),
            vm_id < usize::MAX,
        ensures
            final(self).wf(),
            attach_net_post(old(self).slots(), final(self).slots(), old(self).spec_count(), vm_id, r),
    {
        let net = VirtioNet::new(vm_id);
        let transport = VirtioMmioTransport::new(VIRTIO_NET_BASE, net, VIRTIO_NET_INTID);
        self.register_device(Device::VirtioNet(transport))
    }

    /// Route a trapped guest access at `addr` to the first device whose
    /// window contains it. Reads return the device's value; writes return
    /// `None`. An address no device claims reads as 0 and ignores writes.
    pub fn handle_mmio(&mut self, addr: u64, value: u64, size: u8, is_write: bool) -> (r: (Option<u64>, MmioEffect))
        requires
            old(self).wf(),
        ensures
            final(self).wf(),
            mmio_post(old(self).slots(), final(self).slots(), old(self).spec_count(), final(self).spec_count(), addr, value, size, is_write, r),
    {
        let mut i: usize = 0;
        while i < MAX_DEVICES
            invariant
                self.wf(),
                *self == *old(self),
                i <= MAX_DEVICES,
                forall|j: int| 0 <= j < i ==> !(#[trigger] self.devices@[j] is Some && dev_contains(self.devices@[j]->0, addr)),
            decreases MAX_DEVICES - i,
        {
            let hit = match &self.devices[i] {
                Some(dev) => dev.contains(addr),
                None => false,
            };
            if hit {
                let mut slot: Option<Device> = None;
                std::mem::swap(&mut slot, &mut self.devices[i]);
                let mut dev = match slot {
                    Some(d) => d,
                    None => { return (None, MmioEffect::Nothing); },
                };
                let ghost before = dev;
                let offset = addr - dev.base_address();
                let r = if is_write {
                    let e = dev.write(offset, value, size);
                    (None, e)
                } else {
                    let v = dev.read(offset, size);
                    (v, MmioEffect::Nothing)
                };
                self.devices.set(i, Some(dev));
                proof {
                    assert(first_containing(old(self).slots(), addr, i as int));
                    assert(self.slots() =~= old(self).slots().update(i as int, self.slots()[i as int]));
                }
                return r;
            }
            i = i + 1;
        }
        if is_write {
            (None, MmioEffect::Nothing)
        } else {
            (Some(0), MmioEffect::Nothing)
        }
    }

    /// The vCPU an SPI is routed to by the first distributor; 0 without one.
    pub fn route_spi(&self, intid: u32) -> (r: usize)
        requires
            self.wf(),
        ensures
            r == first_gicd_route(self.slots(), intid, 0),
    {
        let mut i: usize = 0;
        while i < MAX_DEVICES
            invariant
                self.wf(),
                i <= MAX_DEVICES,
                first_gicd_route(self.slots(), intid, 0) == first_gicd_route(self.slots(), intid, i as int),
            decreases MAX_DEVICES - i,
        {
            match &self.devices[i] {
                Some(Device::Gicd(g)) => {
                    return g.route_spi(intid);
                },
                _ => {},
            }
            i = i + 1;
        }
        0
    }

    /// The SPI asserted by the first UART, if it asserts one.
    pub fn first_uart_irq(&self) -> (r: Option<u32>)
        requires
            self.wf(),
        ensures
            r == first_uart_irq_from(self.slots(), 0),
    {
        let mut i: usize = 0;
        while i < MAX_DEVICES
            invariant
                self.wf(),
                i <= MAX_DEVICES,
                first_uart_irq_from(self.slots(), 0) == first_uart_irq_from(self.slots(), i as int),
            decreases MAX_DEVICES - i,
        {
            match &self.devices[i] {
                Some(Device::Uart(u)) => {
                    return u.pending_irq();
                },
                _ => {},
            }
            i = i + 1;
        }
        None
    }

    /// Queue a character received on the physical UART into the first
    /// emulated UART; `false` when there is none.
    pub fn uart_push_rx(&mut self, ch: u8) -> (r: bool)
        requires
            old(self).wf(),
        ensures
            final(self).wf(),
            uart_push_rx_post(old(self).slots(), final(self).slots(), old(self).spec_count(), final(self).spec_count(), ch, r),
    {
        let mut i: usize = 0;
        while i < MAX_DEVICES
            invariant
                self.wf(),
                *self == *old(self),
                i <= MAX_DEVICES,
                forall|j: int| 0 <= j < i ==> !(#[trigger] self.slots()[j] matches Some(Device::Uart(_))),
            decreases MAX_DEVICES - i,
        {
            let is_uart = match &self.devices[i] {
                Some(Device::Uart(_)) => true,
                _ => false,
            };
            if is_uart {
                let mut slot: Option<Device> = None;
                std::mem::swap(&mut slot, &mut self.devices[i]);
                match slot {
                    Some(Device::Uart(mut u)) => {
                        u.push_rx(ch);
                        self.devices.set(i, Some(Device::Uart(u)));
                    },
                    _ => {
                        return false;
                    },
                }
                assert(self.slots() =~= old(self).slots().update(i as int, self.slots()[i as int]));
                return true;
            }
            i = i + 1;
        }
        false
    }
}


/// `i` is the first slot holding a network device.
pub open spec fn first_net_slot(s: Seq<Option<Device>>, i: int) -> bool {
    &&& 0 <= i < s.len()
    &&& s[i] matches Some(Device::VirtioNet(_))
    &&& forall|j: int| 0 <= j < i ==> !(#[trigger] s[j] matches Some(Device::VirtioNet(_)))
}

/// The network device's RX queue can be read with rings of these lengths.
pub open spec fn net_rx_ready(t: VirtioMmioTransport<VirtioNet>, avail_idx: u16, ring_len: nat, table_len: nat) -> bool {
    &&& t.queues[0].spec_has_avail(avail_idx) ==> t.queues[0].num > 0
    &&& ring_len >= t.queues[0].num
    &&& table_len >= t.queues[0].num
}

impl DeviceManager {
    /// Deliver a received frame to the first network device (see
    /// `VirtioMmioTransport::inject_rx`); dropped without one.
    pub fn inject_net_rx(&mut self, frame_len: u64, avail_idx: u16, ring: &Vec<u16>, table: &Vec<VirtqDesc>,
        used_idx: u16) -> (r: RxPlan)
        requires
            old(self).wf(),
            frame_len <= MAX_FRAME_SIZE,
            forall|i: int| #[trigger] first_net_slot(old(self).slots(), i) ==> net_rx_ready(
                old(self).slots()[i]->0->VirtioNet_0, avail_idx, ring@.len(), table@.len()),
        ensures
            final(self).wf(),
            final(self).spec_count() == old(self).spec_count(),
            (forall|i: int| 0 <= i < MAX_DEVICES ==> !(#[trigger] old(self).slots()[i] matches Some(Device::VirtioNet(_))))
                ==> !r.accepted && final(self).slots() == old(self).slots(),
            forall|i: int| #[trigger] first_net_slot(old(self).slots(), i) ==> {
                &&& final(self).slots()[i] matches Some(Device::VirtioNet(t1))
                &&& inject_rx_post(old(self).slots()[i]->0->VirtioNet_0, t1, frame_len, avail_idx, ring@, table@,
                    used_idx, r)
                &&& final(self).slots() == old(self).slots().update(i, final(self).slots()[i])
            },
    {
        let mut i: usize = 0;
        while i < MAX_DEVICES
            invariant
                self.wf(),
                *self == *old(self),
                i <= MAX_DEVICES,
                forall|j: int| 0 <= j < i ==> !(#[trigger] self.slots()[j] matches Some(Device::VirtioNet(_))),
                frame_len <= MAX_FRAME_SIZE,
                forall|k: int| #[trigger] first_net_slot(old(self).slots(), k) ==> net_rx_ready(
                    old(self).slots()[k]->0->VirtioNet_0, avail_idx, ring@.len(), table@.len()),
            decreases MAX_DEVICES - i,
        {
            let is_net = match &self.devices[i] {
                Some(Device::VirtioNet(_)) => true,
                _ => false,
            };
            if is_net {
                let mut slot: Option<Device> = None;
                std::mem::swap(&mut slot, &mut self.devices[i]);
                match slot {
                    Some(Device::VirtioNet(mut t)) => {
                        assert(first_net_slot(old(self).slots(), i as int));
                        let r = t.inject_rx(frame_len, avail_idx, ring, table, used_idx);
                        self.devices.set(i, Some(Device::VirtioNet(t)));
                        assert(self.slots() =~= old(self).slots().update(i as int, self.slots()[i as int]));
                        return r;
                    },
                    _ => {
                        self.devices.set(i, slot);
                        return RxPlan { accepted: false, writes: Vec::new(), used: None, irq: None };
                    },
                }
            }
            i = i + 1;
        }
        RxPlan { accepted: false, writes: Vec::new(), used: None, irq: None }
    }
}

} // verus!
