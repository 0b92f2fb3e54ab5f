//! State shared between the exception handlers and the run loop: per-VM
//! device managers and interrupt bookkeeping, PSCI CPU_ON hand-off, and the
//! ring that carries characters from the UART interrupt to the run loop.

use vstd::prelude::*;
use crate::devices::{
    attach_blk_post, attach_net_post, first_uart_irq_from, mmio_post, uart_push_rx_post, Device, DeviceManager, MmioEffect,
    MAX_DEVICES,
};

verus! {

/// Number of VMs.
pub const MAX_VMS: usize = 2;
/// vCPUs per VM.
pub const MAX_VCPUS: usize = 8;
/// SPI of the emulated UART.
pub const UART_SPI: u32 = 33;

/// The device manager of one VM.
pub struct GlobalDeviceManager {
    pub devices: DeviceManager,
}

impl GlobalDeviceManager {
    /// No devices.
    pub fn new() -> (r: Self)
        ensures
            r.devices.wf(),
            r.devices.spec_count() == 0,
            r.devices.slots() == Seq::new(crate::devices::MAX_DEVICES as nat, |i: int| None::<crate::devices::Device>),
    {
        GlobalDeviceManager { devices: DeviceManager::new() }
    }

    /// Remove every device.
    pub fn reset(&mut self)
        requires
            old(self).devices.wf(),
        ensures
            final(self).devices.wf(),
            final(self).devices.spec_count() == 0,
            final(self).devices.slots() == Seq::new(crate::devices::MAX_DEVICES as nat, |i: int| None::<crate::devices::Device>),
    {
        self.devices.reset();
    }

    /// Register a device (dropped when all slots are taken).
    pub fn register_device(&mut self, dev: crate::devices::Device)
        requires
            old(self).devices.wf(),
            crate::devices::dev_wf(dev),
        ensures
            final(self).devices.wf(),
            old(self).devices.spec_count() >= crate::devices::MAX_DEVICES ==> final(self).devices.slots()
                == old(self).devices.slots(),
            old(self).devices.spec_count() < crate::devices::MAX_DEVICES ==> final(self).devices.slots()
                == old(self).devices.slots().update(old(self).devices.spec_count() as int, Some(dev)),
    {
        let _ = self.devices.register_device(dev);
    }

    /// Attach the VM's virtio-blk device.
    pub fn attach_virtio_blk(&mut self, disk_base: u64, disk_size: u64)
        requires
            old(self).devices.wf(),
        ensures
            final(self).devices.wf(),
            exists|r: Option<usize>| #[trigger] attach_blk_post(old(self).devices.slots(), final(self).devices.slots(),
                old(self).devices.spec_count(), disk_base, disk_size, r),
    {
        let _ = self.devices.attach_virtio_blk(disk_base, disk_size);
    }

    /// Attach the virtio-net device of VM `vm_id`.
    pub fn attach_virtio_net(&mut self, vm_id: usize)
        requires
            old(self).devices.wf(),
            vm_id < usize::MAX,
        ensures
            final(self).devices.wf(),
            exists|r: Option<usize>| #[trigger] attach_net_post(old(self).devices.slots(), final(self).devices.slots(),
                old(self).devices.spec_count(), vm_id, r),
    {
        let _ = self.devices.attach_virtio_net(vm_id);
    }

    /// Route a trapped access (see `DeviceManager::handle_mmio`).
    pub fn handle_mmio(&mut self, addr: u64, value: u64, size: u8, is_write: bool) -> (r: (Option<u64>, MmioEffect))
        requires
            old(self).devices.wf(),
        ensures
            final(self).devices.wf(),
            mmio_post(old(self).devices.slots(), final(self).devices.slots(), old(self).devices.spec_count(),
                final(self).devices.spec_count(), addr, value, size, is_write, r),
    {
        self.devices.handle_mmio(addr, value, size, is_write)
    }

    /// Deliver a received frame to the VM's network device (see
    /// `DeviceManager::inject_net_rx`).
    pub fn inject_net_rx(&mut self, frame_len: u64, avail_idx: u16, ring: &Vec<u16>,
        table: &Vec<crate::virtio::VirtqDesc>, used_idx: u16) -> (r: crate::virtio_data::RxPlan)
        requires
            old(self).devices.wf(),
            frame_len <= crate::virtio_data::MAX_FRAME_SIZE,
            forall|i: int| #[trigger] crate::devices::first_net_slot(old(self).devices.slots(), i)
                ==> crate::devices::net_rx_ready(old(self).devices.slots()[i]->0->VirtioNet_0, avail_idx,
                ring@.len(), table@.len()),
        ensures
            final(self).devices.wf(),
            final(self).devices.spec_count() == old(self).devices.spec_count(),
            (forall|i: int| 0 <= i < crate::devices::MAX_DEVICES
                ==> !(#[trigger] old(self).devices.slots()[i] matches Some(crate::devices::Device::VirtioNet(_))))
                ==> !r.accepted && final(self).devices.slots() == old(self).devices.slots(),
            forall|i: int| #[trigger] crate::devices::first_net_slot(old(self).devices.slots(), i) ==> {
                &&& final(self).devices.slots()[i] matches Some(crate::devices::Device::VirtioNet(t1))
                &&& crate::virtio_data::inject_rx_post(old(self).devices.slots()[i]->0->VirtioNet_0, t1, frame_len,
                    avail_idx, ring@, table@, used_idx, r)
                &&& final(self).devices.slots() == old(self).devices.slots().update(i, final(self).devices.slots()[i])
            },
    {
        self.devices.inject_net_rx(frame_len, avail_idx, ring, table, used_idx)
    }

    /// The vCPU an SPI is routed to.
    pub fn route_spi(&self, intid: u32) -> (r: usize)
        requires
            self.devices.wf(),
        ensures
            r == crate::devices::first_gicd_route(self.devices.slots(), intid, 0),
    {
        self.devices.route_spi(intid)
    }

    /// Queue a received character in the VM's UART.
    pub fn uart_push_rx(&mut self, ch: u8)
        requires
            old(self).devices.wf(),
        ensures
            final(self).devices.wf(),
            exists|r: bool| #[trigger] uart_push_rx_post(old(self).devices.slots(), final(self).devices.slots(),
                old(self).devices.spec_count(), final(self).devices.spec_count(), ch, r),
    {
        let _ = self.devices.uart_push_rx(ch);
    }

    /// Move every character waiting in `ring` into the VM's first UART (the
    /// ring is emptied even without one; a full receive FIFO drops what
    /// does not fit). Returns the SPI to raise when characters arrived and
    /// the UART then has an enabled interrupt.
    pub fn drain_uart_rx(&mut self, ring: &mut UartRxRing) -> (r: Option<u32>)
        requires
            old(self).devices.wf(),
            old(ring).wf(),
        ensures
            final(self).devices.wf(),
            final(ring).wf(),
            final(ring)@.len() == 0,
            final(self).devices.spec_count() == old(self).devices.spec_count(),
            (forall|j: int| 0 <= j < MAX_DEVICES ==> !(#[trigger] old(self).devices.slots()[j] matches Some(Device::Uart(_))))
                ==> final(self).devices.slots() == old(self).devices.slots(),
            forall|i: int| #[trigger] first_uart(old(self).devices.slots(), i) ==> {
                &&& old(self).devices.slots()[i] matches Some(Device::Uart(u0))
                &&& final(self).devices.slots()[i] matches Some(Device::Uart(u1))
                &&& u1@.rx == rx_after(u0@.rx, old(ring)@)
                &&& final(self).devices.slots() == old(self).devices.slots().update(i, final(self).devices.slots()[i])
            },
            r == if old(ring)@.len() == 0 {
                None
            } else if first_uart_irq_from(final(self).devices.slots(), 0).is_some() {
                Some(UART_SPI)
            } else {
                None
            },
    {
        let mut buf: Vec<u8> = Vec::new();
        proof { ring.lemma_len(); }
        loop
            invariant_except_break
                ring.wf(),
                buf@ + ring@ == old(ring)@,
                old(ring)@.len() < 64,
            ensures
                ring.wf(),
                ring@.len() == 0,
                buf@ == old(ring)@,
            decreases ring@.len(),
        {
            let ghost before = ring@;
            match ring.pop() {
                Some(ch) => {
                    if buf.len() < 64 {
                        buf.push(ch);
                    }
                    assert(buf@ + ring@ =~= old(ring)@) by {
                        assert(before =~= seq![ch] + ring@);
                    }
                },
                None => {
                    assert(buf@ =~= old(ring)@);
                    break;
                },
            }
        }
        if buf.len() == 0 {
            return None;
        }
        let ghost s0 = self.devices.slots();
        let mut k: usize = 0;
        while k < buf.len()
            invariant
                self.devices.wf(),
                k <= buf@.len(),
                buf@ == old(ring)@,
                s0 == old(self).devices.slots(),
                self.devices.spec_count() == old(self).devices.spec_count(),
                (forall|j: int| 0 <= j < MAX_DEVICES ==> !(#[trigger] s0[j] matches Some(Device::Uart(_))))
                    ==> self.devices.slots() == s0,
                forall|i: int| #[trigger] first_uart(s0, i) ==> {
                    &&& s0[i] matches Some(Device::Uart(u0))
                    &&& self.devices.slots()[i] matches Some(Device::Uart(u1))
                    &&& u1@.rx == rx_after(u0@.rx, buf@.take(k as int))
                    &&& self.devices.slots() == s0.update(i, self.devices.slots()[i])
                },
            decreases buf@.len() - k,
        {
            let ghost sk = self.devices.slots();
            let pushed = self.devices.uart_push_rx(buf[k]);
            proof {
                assert(buf@.take(k + 1).drop_last() =~= buf@.take(k as int));
                if pushed {
                    let i2 = choose|i2: int| 0 <= i2 < MAX_DEVICES
                        && (#[trigger] sk[i2] matches Some(Device::Uart(u)) && ({
                            &&& self.devices.slots()[i2] matches Some(Device::Uart(u2))
                            &&& u2.wf()
                            &&& u@.rx.len() >= 63 ==> u2@ == u@
                            &&& u@.rx.len() < 63 ==> u2@ == (crate::pl011::UartView {
                                rx: u@.rx.push(buf[k as int]),
                                ris: u@.ris | crate::pl011::INT_RX,
                                ..u@
                            })
                        }))
                        && self.devices.slots() == sk.update(i2, self.devices.slots()[i2])
                        && forall|j: int| 0 <= j < i2 ==> !(#[trigger] sk[j] matches Some(Device::Uart(_)));
                    assert forall|i: int| #[trigger] first_uart(s0, i) implies {
                        &&& s0[i] matches Some(Device::Uart(u0))
                        &&& self.devices.slots()[i] matches Some(Device::Uart(u1))
                        &&& u1@.rx == rx_after(u0@.rx, buf@.take(k + 1))
                        &&& self.devices.slots() == s0.update(i, self.devices.slots()[i])
                    } by {
                        if i2 < i {
                            assert(sk[i2] == s0[i2]);
                        } else if i < i2 {
                            assert(sk[i] matches Some(Device::Uart(_)));
                        }
                        assert(self.devices.slots() =~= s0.update(i, self.devices.slots()[i]));
                    }
                    if forall|j: int| 0 <= j < MAX_DEVICES ==> !(#[trigger] s0[j] matches Some(Device::Uart(_))) {
                        assert(sk == s0);
                        assert(!(sk[i2] matches Some(Device::Uart(_))));
                    }
                } else {
                    self.devices.lemma_slots_len();
                    assert forall|i: int| #[trigger] first_uart(s0, i) implies false by {
                        assert(sk[i] matches Some(Device::Uart(_)));
                        assert(!(sk[i] matches Some(Device::Uart(_))));
                    }
                }
            }
            k = k + 1;
        }
        proof {
            assert(buf@.take(buf@.len() as int) =~= buf@);
        }
        if self.uart_irq_pending() {
            Some(UART_SPI)
        } else {
            None
        }
    }

    /// Whether the first UART of the VM asserts an enabled interrupt.
    fn uart_irq_pending(&self) -> (r: bool)
        requires
            self.devices.wf(),
        ensures
            r == first_uart_irq_from(self.devices.slots(), 0).is_some(),
    {
        self.devices.first_uart_irq().is_some()
    }
}

/// Interrupt and lifecycle bookkeeping of one VM.
pub struct VmGlobalState {
    /// Pending SGIs per vCPU (bit n = SGI n).
    pub pending_sgis: [u32; 8],
    /// Pending SPIs per vCPU (bit n = INTID 32 + n).
    pub pending_spis: [u32; 8],
    /// The vCPU executed PSCI CPU_OFF, SYSTEM_OFF or SYSTEM_RESET.
    pub terminal_exit: [bool; 8],
    /// Online vCPUs (bit n = vCPU n).
    pub vcpu_online_mask: u64,
    /// The vCPU running now.
    pub current_vcpu_id: usize,
    /// CPU_ON request for the run loop.
    pub pending_cpu_on: PendingCpuOn,
    /// The interrupt handler asked for a preemptive exit.
    pub preemption_exit: bool,
}

impl VmGlobalState {
    /// Nothing pending, no vCPU online.
    pub fn new() -> (r: Self)
        ensures
            forall|i: int| 0 <= i < 8 ==> r.pending_sgis@[i] == 0 && r.pending_spis@[i] == 0 && !r.terminal_exit@[i],
            r.vcpu_online_mask == 0,
            r.current_vcpu_id == 0,
            !r.pending_cpu_on.requested,
            !r.preemption_exit,
    {
        VmGlobalState {
            pending_sgis: [0; 8],
            pending_spis: [0; 8],
            terminal_exit: [false; 8],
            vcpu_online_mask: 0,
            current_vcpu_id: 0,
            pending_cpu_on: PendingCpuOn::new(),
            preemption_exit: false,
        }
    }
}

/// A CPU_ON request handed from the exception handler to the run loop.
#[derive(Clone, Copy, Debug)]
pub struct PendingCpuOn {
    pub requested: bool,
    pub target_cpu: u64,
    pub entry_point: u64,
    pub context_id: u64,
}

impl PendingCpuOn {
    /// No request.
    pub fn new() -> (r: Self)
        ensures
            r == (PendingCpuOn { requested: false, target_cpu: 0, entry_point: 0, context_id: 0 }),
    {
        PendingCpuOn { requested: false, target_cpu: 0, entry_point: 0, context_id: 0 }
    }

    /// Post a request (replacing an unserved one).
    pub fn request(&mut self, target: u64, entry: u64, ctx: u64)
        ensures
            *final(self) == (PendingCpuOn { requested: true, target_cpu: target, entry_point: entry, context_id: ctx }),
    {
        self.target_cpu = target;
        self.entry_point = entry;
        self.context_id = ctx;
        self.requested = true;
    }

    /// Take the posted request, if any.
    pub fn take(&mut self) -> (r: Option<(u64, u64, u64)>)
        ensures
            old(self).requested ==> r == Some((old(self).target_cpu, old(self).entry_point, old(self).context_id))
                && *final(self) == (PendingCpuOn { requested: false, ..*old(self) }),
            !old(self).requested ==> r.is_none() && *final(self) == *old(self),
    {
        if self.requested {
            self.requested = false;
            Some((self.target_cpu, self.entry_point, self.context_id))
        } else {
            None
        }
    }
}

/// A CPU_ON request addressed to one vCPU.
#[derive(Clone, Copy, Debug)]
pub struct PerVcpuCpuOnRequest {
    pub requested: bool,
    pub entry_point: u64,
    pub context_id: u64,
}

impl PerVcpuCpuOnRequest {
    /// No request.
    pub fn new() -> (r: Self)
        ensures
            r == (PerVcpuCpuOnRequest { requested: false, entry_point: 0, context_id: 0 }),
    {
        PerVcpuCpuOnRequest { requested: false, entry_point: 0, context_id: 0 }
    }

    /// Post a request.
    pub fn request(&mut self, entry: u64, ctx: u64)
        ensures
            *final(self) == (PerVcpuCpuOnRequest { requested: true, entry_point: entry, context_id: ctx }),
    {
        self.entry_point = entry;
        self.context_id = ctx;
        self.requested = true;
    }

    /// Take the posted request, if any.
    pub fn take(&mut self) -> (r: Option<(u64, u64)>)
        ensures
            old(self).requested ==> r == Some((old(self).entry_point, old(self).context_id))
                && *final(self) == (PerVcpuCpuOnRequest { requested: false, ..*old(self) }),
            !old(self).requested ==> r.is_none() && *final(self) == *old(self),
    {
        if self.requested {
            self.requested = false;
            Some((self.entry_point, self.context_id))
        } else {
            None
        }
    }
}

/// A posted CPU_ON request is taken exactly once, with what was posted.
pub proof fn law_cpu_on_taken_once(p: PendingCpuOn, target: u64, entry: u64, ctx: u64)
    ensures
        ({
            let posted = PendingCpuOn { requested: true, target_cpu: target, entry_point: entry, context_id: ctx };
            let after = PendingCpuOn { requested: false, ..posted };
            &&& posted.requested
            &&& (posted.target_cpu, posted.entry_point, posted.context_id) == (target, entry, ctx)
            &&& !after.requested
        }),
{
}

/// The receive FIFO `rx` after `chars` arrive one by one (a FIFO holding
/// 63 characters drops what arrives).
pub open spec fn rx_after(rx: Seq<u8>, chars: Seq<u8>) -> Seq<u8>
    decreases chars.len(),
{
    if chars.len() == 0 {
        rx
    } else {
        let r = rx_after(rx, chars.drop_last());
        if r.len() < 63 { r.push(chars.last()) } else { r }
    }
}

/// `i` is the first UART among the slots `s`.
pub open spec fn first_uart(s: Seq<Option<Device>>, i: int) -> bool {
    &&& 0 <= i < s.len()
    &&& s[i] matches Some(Device::Uart(_))
    &&& forall|j: int| 0 <= j < i ==> !(#[trigger] s[j] matches Some(Device::Uart(_)))
}

/// Slots of the UART receive ring (one stays free).
pub const UART_RX_RING_SIZE: usize = 64;

/// Characters received by the UART interrupt handler, waiting for the run loop.
pub struct UartRxRing {
    buf: [u8; 64],
    head: usize,
    tail: usize,
}

impl View for UartRxRing {
    type V = Seq<u8>;

    /// Waiting characters, oldest first.
    closed spec fn view(&self) -> Seq<u8> {
        Seq::new(((self.tail + 64 - self.head) % 64) as nat, |i: int| self.buf@[(self.head + i) % 64])
    }
}

impl UartRxRing {
    pub closed spec fn wf(&self) -> bool {
        self.head < 64 && self.tail < 64
    }

    /// An empty ring.
    pub fn new() -> (r: Self)
        ensures
            r.wf(),
            r@ == Seq::<u8>::empty(),
    {
        let r = UartRxRing { buf: [0; 64], head: 0, tail: 0 };
        assert(r@ =~= Seq::<u8>::empty());
        r
    }

    /// Append a character; dropped when 63 are waiting.
    #[verifier::rlimit(40)]
    pub fn push(&mut self, ch: u8)
        requires
            old(self).wf(),
        ensures
            final(self).wf(),
            old(self)@.len() >= 63 ==> final(self)@ == old(self)@,
            old(self)@.len() < 63 ==> final(self)@ == old(self)@.push(ch),
    {
        let tail = self.tail;
        let next = (tail + 1) % UART_RX_RING_SIZE;
        if next == self.head {
            return;
        }
        let ghost before = self@;
        self.buf[tail] = ch;
        self.tail = next;
        assert(self@ =~= before.push(ch));
    }

    /// At most 63 characters wait.
    pub proof fn lemma_len(&self)
        requires
            self.wf(),
        ensures
            self@.len() < 64,
    {
    }

    /// Take the oldest character.
    pub fn pop(&mut self) -> (r: Option<u8>)
        requires
            old(self).wf(),
        ensures
            final(self).wf(),
            old(self)@.len() == 0 ==> r.is_none() && final(self)@ == old(self)@,
            old(self)@.len() > 0 ==> r == Some(old(self)@[0]) && final(self)@ == old(self)@.drop_first(),
    {
        let head = self.head;
        if head == self.tail {
            return None;
        }
        let ghost before = self@;
        let ch = self.buf[head];
        self.head = (head + 1) % UART_RX_RING_SIZE;
        assert(self@ =~= before.drop_first());
        Some(ch)
    }
}

/// Every VM's state, and which VM runs now.
pub struct Globals {
    pub current_vm_id: usize,
    pub devices: Vec<GlobalDeviceManager>,
    pub vm_states: Vec<VmGlobalState>,
}

impl Globals {
    pub open spec fn wf(&self) -> bool {
        &&& self.current_vm_id < MAX_VMS
        &&& self.devices@.len() == MAX_VMS
        &&& self.vm_states@.len() == MAX_VMS
        &&& forall|i: int| 0 <= i < MAX_VMS ==> (#[trigger] self.devices@[i]).devices.wf()
    }
}

/// The running VM's device manager.
pub fn current_devices(g: &Globals) -> (r: &GlobalDeviceManager)
    requires
        g.wf(),
    ensures
        *r == g.devices@[g.current_vm_id as int],
{
    &g.devices[g.current_vm_id]
}

/// The running VM's state.
pub fn current_vm_state(g: &Globals) -> (r: &VmGlobalState)
    requires
        g.wf(),
    ensures
        *r == g.vm_states@[g.current_vm_id as int],
{
    &g.vm_states[g.current_vm_id]
}

/// The state of VM `vm_id`.
pub fn vm_state(g: &Globals, vm_id: usize) -> (r: &VmGlobalState)
    requires
        g.wf(),
        vm_id < MAX_VMS,
    ensures
        *r == g.vm_states@[vm_id as int],
{
    &g.vm_states[vm_id]
}

/// The vCPU running in the current VM.
pub fn current_vcpu_id(g: &Globals) -> (r: usize)
    requires
        g.wf(),
    ensures
        r == g.vm_states@[g.current_vm_id as int].current_vcpu_id,
{
    g.vm_states[g.current_vm_id].current_vcpu_id
}

/// Mark SPI `intid` (32-63 only) pending for the vCPU that the current
/// VM's distributor routes it to; nothing happens for other IDs or an
/// out-of-range target.
pub fn inject_spi(g: &mut Globals, intid: u32)
    requires
        old(g).wf(),
    ensures
        final(g).wf(),
        final(g).current_vm_id == old(g).current_vm_id,
        final(g).devices@ == old(g).devices@,
        (intid < 32 || intid > 63) ==> final(g).vm_states@ == old(g).vm_states@,
        32 <= intid <= 63 ==> {
            let vm = old(g).current_vm_id as int;
            let target = crate::devices::first_gicd_route(old(g).devices@[vm].devices.slots(), intid, 0);
            let before = old(g).vm_states@[vm];
            let after = final(g).vm_states@[vm];
            &&& target >= MAX_VCPUS ==> final(g).vm_states@ == old(g).vm_states@
            &&& target < MAX_VCPUS ==> {
                &&& final(g).vm_states@ == old(g).vm_states@.update(vm, after)
                &&& after.pending_spis@ == before.pending_spis@.update(target as int,
                    before.pending_spis@[target as int] | (1u32 << (intid - 32) as u32))
                &&& after.pending_sgis == before.pending_sgis
                &&& after.terminal_exit == before.terminal_exit
                &&& after.vcpu_online_mask == before.vcpu_online_mask
                &&& after.current_vcpu_id == before.current_vcpu_id
                &&& after.pending_cpu_on == before.pending_cpu_on
                &&& after.preemption_exit == before.preemption_exit
            }
        },
{
    if intid < 32 || intid > 63 {
        return;
    }
    let bit = intid - 32;
    let vm_id = g.current_vm_id;
    let target = g.devices[vm_id].route_spi(intid);
    if target < MAX_VCPUS {
        let mut vs = g.vm_states.remove(vm_id);
        vs.pending_spis[target] = vs.pending_spis[target] | (1u32 << bit);
        g.vm_states.insert(vm_id, vs);
        assert(g.vm_states@ =~= old(g).vm_states@.update(vm_id as int, vs));
    }
}

} // verus!
