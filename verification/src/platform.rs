//! Board constants of the QEMU virt machine.

use vstd::prelude::*;
use crate::dtb::PlatformState;

verus! {

pub const UART_BASE: u64 = 0x0900_0000;
pub const UART_SIZE: u64 = 0x1000;
pub const GICD_BASE: u64 = 0x0800_0000;
pub const GICD_SIZE: u64 = 0x1_0000;
pub const GICC_BASE: u64 = 0x0801_0000;
pub const GIC_REGION_BASE: u64 = 0x0800_0000;
/// GICD and GICR: eight 2 MiB blocks.
pub const GIC_REGION_SIZE: u64 = 0x100_0000;

pub const GUEST_RAM_BASE: u64 = 0x4000_0000;
pub const GUEST_LOAD_ADDR: u64 = 0x4800_0000;
pub const LINUX_DTB_ADDR: u64 = 0x4700_0000;
pub const LINUX_MEM_SIZE: u64 = 0x4000_0000;
pub const ZEPHYR_MEM_SIZE: u64 = 0x800_0000;
pub const GUEST_STACK_RESERVE: u64 = 0x1000;

/// Disk image address (placed by the QEMU loader) and size.
pub const VIRTIO_DISK_ADDR: u64 = 0x5800_0000;
pub const VIRTIO_DISK_SIZE: u64 = 0x20_0000;

/// First virtio-mmio transport, the stride between transports, and the
/// INTID of the first one.
pub const VIRTIO_MMIO_BASE: u64 = 0x0a00_0000;
pub const VIRTIO_MMIO_STRIDE: u64 = 0x200;
pub const VIRTIO_SPI_BASE: u32 = 48;

pub const MAX_SMP_CPUS: usize = 8;
/// CPU count without a device tree.
pub const SMP_CPUS: usize = 4;

pub const GICR_WAKER_OFF: u64 = 0x014;
pub const GICR_IGROUPR0_OFF: u64 = 0x080;
pub const GICR_ISENABLER0_OFF: u64 = 0x100;
pub const GICR_ISPENDR0_OFF: u64 = 0x200;
pub const GICR_ICPENDR0_OFF: u64 = 0x280;

pub const VM1_GUEST_LOAD_ADDR: u64 = 0x6800_0000;
pub const VM1_LINUX_DTB_ADDR: u64 = 0x6700_0000;
pub const VM1_LINUX_MEM_SIZE: u64 = 0x1000_0000;
pub const VM1_VIRTIO_DISK_ADDR: u64 = 0x7800_0000;

pub const HEAP_START: u64 = 0x4100_0000;
pub const HEAP_SIZE: u64 = 0x100_0000;

/// Base address and INTID of virtio-mmio slot `n` (slot 0: block device,
/// slot 1: network device).
pub fn virtio_slot(n: usize) -> (r: (u64, u32))
    requires
        VIRTIO_MMIO_BASE + n * VIRTIO_MMIO_STRIDE <= u64::MAX,
        VIRTIO_SPI_BASE + n <= u32::MAX,
    ensures
        r.0 == VIRTIO_MMIO_BASE + n * VIRTIO_MMIO_STRIDE,
        r.1 == VIRTIO_SPI_BASE + n,
{
    (VIRTIO_MMIO_BASE + (n as u64) * VIRTIO_MMIO_STRIDE, VIRTIO_SPI_BASE + n as u32)
}

/// The CPU count in force (from the device tree, else the default).
pub fn num_cpus(state: &PlatformState) -> (r: usize)
    ensures
        r == state.info.num_cpus,
{
    state.info.num_cpus
}

} // verus!
