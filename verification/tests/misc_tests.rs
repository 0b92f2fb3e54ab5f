use hypervisor::allocator::BumpAllocator;
use hypervisor::call_stack::{CallFrame, CallStack};
use hypervisor::console::{uart_put_hex, uart_put_u64};
use hypervisor::decode::MmioAccess;
use hypervisor::devices::Device;
use hypervisor::global::{GlobalDeviceManager, UartRxRing, UART_SPI};
use hypervisor::pl011::{VirtualUart, UART_BASE, UARTDR, UARTIMSC};
use hypervisor::pl031::{VirtualPl031, RTCDR, RTCLR};
use hypervisor::scheduler::{RunState, Scheduler};
use hypervisor::sp_context::{sp_package_entry, sp_package_img_offset, SpContext, SpState};
use hypervisor::vgic::VirtualGicr;
use hypervisor::sync::SpinLock;
use hypervisor::timer::{is_guest_vtimer_pending, is_pending, mask_guest_vtimer};

#[test]
fn allocator_bump_and_free_list() {
    let mut a = BumpAllocator::new(0x1000, 0x4000);
    assert_eq!(a.alloc_page(), Some(0x1000));
    assert_eq!(a.alloc_bytes(3), Some(0x2000));
    assert_eq!(a.alloc_aligned(16, 0x100), Some(0x2100));
    assert_eq!(a.allocated(), 4096 + 3 + 16);
    a.free_page(0x1000);
    assert_eq!(a.alloc_page(), Some(0x1000));
    assert_eq!(a.alloc_page(), Some(0x3000));
    assert_eq!(a.alloc_page(), Some(0x4000));
    assert_eq!(a.alloc_page(), None);
    assert_eq!(a.alloc_aligned(0x1000, 0x1000), None);
}

#[test]
fn allocator_alignment() {
    let mut a = BumpAllocator::new(0x1001, 0x10000);
    let p = a.alloc_aligned(1, 64).unwrap();
    assert_eq!(p % 64, 0);
    assert_eq!(p, 0x1040);
}

#[test]
fn spinlock_lock_unlock() {
    let mut l = SpinLock::new(5u64);
    let g = l.lock();
    *l.get_mut(&g) = 9;
    l.unlock(g);
    assert_eq!(l.next_ticket, l.now_serving);
    let g = l.lock();
    assert_eq!(*l.get_mut(&g), 9);
    l.unlock(g);
}

#[test]
fn call_stack_push_pop() {
    let mut s = CallStack::new();
    assert_eq!(s.push(0x8001, 0x8002), Ok(()));
    assert_eq!(s.push(0x8002, 0x8003), Ok(()));
    assert_eq!(s.push(0x8003, 0x8004), Ok(()));
    assert_eq!(s.push(0x8004, 0x8001), Err(()));
    assert!(s.contains(0x8003));
    assert!(!s.contains(0x8005));
    assert_eq!(s.find_caller(0x8003), Some(0x8002));
    assert_eq!(s.find_caller(0x8001), None);
    assert_eq!(s.pop(), Some(CallFrame { caller_id: 0x8003, callee_id: 0x8004 }));
    assert_eq!(s.depth(), 2);
    assert_eq!(s.pop(), Some(CallFrame { caller_id: 0x8002, callee_id: 0x8003 }));
    assert_eq!(s.pop(), Some(CallFrame { caller_id: 0x8001, callee_id: 0x8002 }));
    assert_eq!(s.pop(), None);
}

#[test]
fn scheduler_yield_rotates() {
    let mut s = Scheduler::new();
    s.add_vcpu(0);
    s.add_vcpu(1);
    s.add_vcpu(2);
    assert_eq!(s.pick_next(), Some(0));
    assert_eq!(s.pick_next(), Some(0));
    s.yield_current();
    assert_eq!(s.pick_next(), Some(1));
    s.block_current();
    assert_eq!(s.state(1), RunState::Blocked);
    assert_eq!(s.pick_next(), Some(2));
    s.yield_current();
    assert_eq!(s.pick_next(), Some(0));
    s.unblock(1);
    s.yield_current();
    assert_eq!(s.pick_next(), Some(1));
}

#[test]
fn scheduler_single_vcpu_is_picked_again() {
    let mut s = Scheduler::new();
    s.add_vcpu(5);
    assert_eq!(s.pick_next(), Some(5));
    s.yield_current();
    assert_eq!(s.pick_next(), Some(5));
    assert_eq!(s.current(), Some(5));
}

#[test]
fn uart_rx_fifo_order() {
    let mut u = VirtualUart::new();
    assert!(!u.rx_has_data());
    u.push_rx(b'a');
    u.push_rx(b'b');
    assert!(u.rx_has_data());
    assert_eq!(u.pop_rx(), Some(b'a'));
    assert_eq!(u.pop_rx(), Some(b'b'));
    assert_eq!(u.pop_rx(), None);
}

#[test]
fn rtc_load_then_read() {
    let mut r = VirtualPl031::new(0);
    assert!(r.write(RTCLR, 1_000_000, 4, 500));
    assert_eq!(r.read(RTCDR, 4, 500, 100), Some(1_000_000));
    assert_eq!(r.read(RTCDR, 4, 500 + 250, 100), Some(1_000_002));
    assert_eq!(r.read(RTCDR, 8, 500, 100), Some(0));
}

#[test]
fn decode_from_syndrome_and_instruction() {
    let iss = (1 << 24) | (2 << 22) | (5 << 16) | (1 << 6);
    assert_eq!(MmioAccess::decode(0, iss), Some(MmioAccess::Store { reg: 5, size: 4 }));
    let iss = (1 << 24) | (3 << 22) | (7 << 16);
    let a = MmioAccess::decode(0, iss).unwrap();
    assert!(a.is_load() && !a.is_store());
    assert_eq!((a.reg(), a.size()), (7, 8));
    // LDR w3, [x1] = 0xB9400023; STR x2, [x0] = 0xF9000002
    assert_eq!(MmioAccess::decode(0xB940_0023, 0), Some(MmioAccess::Load { reg: 3, size: 4, sign_extend: false }));
    assert_eq!(MmioAccess::decode(0xF900_0002, 0), Some(MmioAccess::Store { reg: 2, size: 8 }));
    assert_eq!(MmioAccess::decode(0xD503_201F, 0), None);
}

#[test]
fn console_number_formatting() {
    assert_eq!(&uart_put_hex(0xDEAD_BEEF), b"00000000deadbeef");
    assert_eq!(uart_put_u64(0), b"0".to_vec());
    assert_eq!(uart_put_u64(1234567890), b"1234567890".to_vec());
    assert_eq!(uart_put_u64(u64::MAX), b"18446744073709551615".to_vec());
}

#[test]
fn timer_bits() {
    assert!(is_pending(0b101));
    assert!(is_pending(0b100));
    assert!(!is_pending(0b001));
    assert!(is_guest_vtimer_pending(0b101));
    assert!(!is_guest_vtimer_pending(0b111));
    assert_eq!(mask_guest_vtimer(0b101), 0b111);
}

#[test]
fn sp_pending_interrupts() {
    let mut sp = SpContext::new(0x8001, 0, 0, [0; 4]);
    assert!(!sp.has_pending_irq());
    sp.set_pending_irq(40);
    sp.set_pending_irq(41);
    assert!(sp.has_pending_irq());
    assert_eq!(sp.take_pending_irq(), Some(40));
    assert_eq!(sp.take_pending_irq(), Some(41));
    assert_eq!(sp.take_pending_irq(), None);
}

#[test]
fn sp_state_from_byte() {
    assert_eq!(SpState::try_from_u8(0), Some(SpState::Reset));
    assert_eq!(SpState::try_from_u8(4), Some(SpState::Preempted));
    assert_eq!(SpState::try_from_u8(5), None);
}

#[test]
fn uart_ring_drains_into_vm_uart() {
    let mut g = GlobalDeviceManager::new();
    let mut ring = UartRxRing::new();
    ring.push(b'h');
    assert_eq!(g.drain_uart_rx(&mut ring), None);
    assert_eq!(ring.pop(), None);
    g.register_device(Device::Uart(VirtualUart::new()));
    ring.push(b'h');
    ring.push(b'i');
    assert_eq!(g.drain_uart_rx(&mut ring), None);
    assert_eq!(ring.pop(), None);
    assert_eq!(g.handle_mmio(UART_BASE + UARTDR, 0, 4, false).0, Some(b'h' as u64));
    g.handle_mmio(UART_BASE + UARTIMSC, 0x10, 4, true);
    ring.push(b'x');
    assert_eq!(g.drain_uart_rx(&mut ring), Some(UART_SPI));
    assert_eq!(g.drain_uart_rx(&mut ring), None);
    assert_eq!(g.handle_mmio(UART_BASE + UARTDR, 0, 4, false).0, Some(b'i' as u64));
    assert_eq!(g.handle_mmio(UART_BASE + UARTDR, 0, 4, false).0, Some(b'x' as u64));
}

#[test]
fn sp_package_header_gives_entry() {
    let mut header = vec![0u8; 0x18];
    header[0..4].copy_from_slice(b"SPKG");
    header[0x10..0x14].copy_from_slice(&0x4000u32.to_le_bytes());
    assert_eq!(sp_package_img_offset(&header), 0x4000);
    assert_eq!(sp_package_entry(0x0E30_0000, &header), 0x0E30_4000);
}

#[test]
fn partition_waiting_after_boot_becomes_idle() {
    let mut sp = SpContext::new(0x8001, 0x1000, 0x2000, [0; 4]);
    sp.set_args(hypervisor::ffa::FFA_MSG_WAIT, 0, 0, 0, 0, 0, 0, 0);
    assert!(sp.settle_after_boot());
    assert_eq!(sp.state(), SpState::Idle);
    let mut other = SpContext::new(0x8002, 0x1000, 0x2000, [0; 4]);
    other.set_args(0x8400_0061, 0, 0, 0, 0, 0, 0, 0);
    assert!(!other.settle_after_boot());
    assert_eq!(other.state(), SpState::Reset);
}

#[test]
fn redistributor_waker_reads_back_and_icfgr0_is_fixed() {
    let mut r = VirtualGicr::new(1);
    assert!(r.write(0x14, 0, 4));
    assert_eq!(r.read(0x14, 4), Some(0));
    assert!(r.write(0x14, 0x2, 4));
    assert_eq!(r.read(0x14, 4), Some(6));
    assert!(r.write(0x10C00, 0, 4));
    assert_eq!(r.read(0x10C00, 4), Some(0xAAAA_AAAA));
}
