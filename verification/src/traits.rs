//! Interfaces an architecture port provides: interrupt controllers, the
//! guest timer, Stage-2 mapping, vCPU register access and exception
//! decoding.

use vstd::prelude::*;
use crate::mmu::MemoryAttribute;

verus! {

/// A physical interrupt controller.
pub trait InterruptController {
    fn init(&mut self);
    fn enable(&mut self);
    fn disable(&mut self);
    fn acknowledge(&mut self) -> u32;
    fn eoi(&mut self, intid: u32);
    fn deactivate(&mut self, intid: u32);
    fn set_priority_mask(&mut self, mask: u8);
}

/// Virtual interrupt injection.
pub trait VirtualInterruptController {
    fn inject_interrupt(&mut self, intid: u32, priority: u8) -> Result<(), &'static str>;
    fn inject_hw_interrupt(&mut self, vintid: u32, pintid: u32, priority: u8) -> Result<(), &'static str>;
    fn clear_interrupt(&mut self, intid: u32);
    fn pending_count(&self) -> usize;
}

/// The timer a guest sees.
pub trait GuestTimer {
    fn init_hypervisor(&mut self);
    fn init_guest(&mut self);
    fn is_pending(&self) -> bool;
    fn mask(&mut self);
    fn get_frequency(&self) -> u64;
    fn get_counter(&self) -> u64;
}

/// Kind of memory a Stage-2 region maps.
#[derive(Clone, Copy, Debug, PartialEq, Eq, Structural)]
pub enum MemoryType {
    Normal,
    Device,
    ReadOnly,
}

/// The mapper attribute for a memory type.
pub fn memory_attr_of(mem_type: MemoryType) -> (r: MemoryAttribute)
    ensures
        mem_type == MemoryType::Normal ==> r == MemoryAttribute::Normal,
        mem_type == MemoryType::Device ==> r == MemoryAttribute::Device,
        mem_type == MemoryType::ReadOnly ==> r == MemoryAttribute::ReadOnly,
{
    match mem_type {
        MemoryType::Normal => MemoryAttribute::Normal,
        MemoryType::Device => MemoryAttribute::Device,
        MemoryType::ReadOnly => MemoryAttribute::ReadOnly,
    }
}

/// Stage-2 translation of a VM.
pub trait Stage2Mapper {
    fn map_region(&mut self, ipa: u64, size: u64, mem_type: MemoryType) -> Result<(), &'static str>;
    fn reset(&mut self);
    fn install(&self);
    fn root_table_addr(&self) -> u64;
}

/// Register access of a vCPU context.
pub trait VcpuContextOps: Sized {
    fn new(entry: u64, sp: u64) -> Self;
    fn pc(&self) -> u64;
    fn set_pc(&mut self, val: u64);
    fn sp(&self) -> u64;
    fn set_sp(&mut self, val: u64);
    fn get_reg(&self, n: u8) -> u64;
    fn set_reg(&mut self, n: u8, val: u64);
    fn advance_pc(&mut self);
}

/// Decoding of a trapped exception.
pub trait ExceptionInfo {
    fn is_wfi(&self) -> bool;
    fn is_hypercall(&self) -> bool;
    fn is_data_abort(&self) -> bool;
    fn is_instruction_abort(&self) -> bool;
    fn fault_address(&self) -> Option<u64>;
}

} // verus!
