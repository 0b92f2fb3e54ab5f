//! A small AArch64 hypervisor / secure partition manager core, written as a
//! verified library: device emulation, Stage-2 page tables, FF-A memory
//! sharing and notifications, interrupt list-register management and the
//! trap-decision logic of the exception handlers.

pub mod allocator;
pub mod call_stack;
pub mod console;
pub mod decode;
pub mod defs;
pub mod devices;
pub mod dtb;
pub mod fdt_layout;
pub mod exception;
pub mod ffa;
pub mod guest_loader;
pub mod heap;
pub mod gic;
pub mod gicd;
pub mod global;
pub mod gicv3;
pub mod log;
pub mod manifest;
pub mod mmu;
pub mod percpu;
pub mod pl011;
pub mod platform;
pub mod pl031;
pub mod region_registry;
pub mod regs;
pub mod scheduler;
pub mod secure_stage2;
pub mod sp_context;
pub mod spmc_handler;
pub mod sync;
pub mod table_store;
pub mod timer;
pub mod traits;
pub mod uart;
pub mod vgic;
pub mod vcpu_arch_state;
pub mod virtio;
pub mod virtio_data;
