//! Stage-2 regions a VM gets mapped, described by memory type, access,
//! execution and action.

use vstd::prelude::*;
use crate::defs::BLOCK_SIZE_2MB;
use crate::mmu::{DynamicIdentityMapper, MemoryAttribute};
use crate::table_store::TableStore;

verus! {

#[derive(Clone, Copy, Debug, PartialEq, Eq, Structural)]
pub enum RegionMemType {
    Normal,
    Device,
}

#[derive(Clone, Copy, Debug, PartialEq, Eq, Structural)]
pub enum RegionPerm {
    ReadWrite,
    ReadOnly,
}

#[derive(Clone, Copy, Debug, PartialEq, Eq, Structural)]
pub enum RegionExec {
    Executable,
    ExecuteNever,
}

#[derive(Clone, Copy, Debug, PartialEq, Eq, Structural)]
pub enum RegionAction {
    /// Map the region into the VM.
    MapRegion,
    /// Leave it unmapped so accesses trap.
    Trap,
}

/// A registered Stage-2 region kind.
#[derive(Clone, Copy, Debug)]
pub struct VmStage2RegionRegistration {
    pub name: &'static str,
    /// Order of application (lower first).
    pub priority: u32,
    pub mem_type: RegionMemType,
    pub perm: RegionPerm,
    pub execute: RegionExec,
    pub action: RegionAction,
}

/// The mapping kind of a region; executable mappings are refused.
pub open spec fn spec_memory_attr(mem_type: RegionMemType, perm: RegionPerm, execute: RegionExec)
    -> Result<MemoryAttribute, &'static str> {
    if execute == RegionExec::Executable {
        Err("Executable Stage-2 mapping is not supported")
    } else {
        match (mem_type, perm) {
            (RegionMemType::Normal, RegionPerm::ReadWrite) => Ok(MemoryAttribute::Normal),
            (RegionMemType::Normal, RegionPerm::ReadOnly) => Ok(MemoryAttribute::ReadOnly),
            (RegionMemType::Device, RegionPerm::ReadWrite) => Ok(MemoryAttribute::Device),
            (RegionMemType::Device, RegionPerm::ReadOnly) => Ok(MemoryAttribute::DeviceReadOnly),
        }
    }
}

pub fn to_memory_attr(mem_type: RegionMemType, perm: RegionPerm, execute: RegionExec)
    -> (r: Result<MemoryAttribute, &'static str>)
    ensures
        r == spec_memory_attr(mem_type, perm, execute),
{
    if execute == RegionExec::Executable {
        return Err("Executable Stage-2 mapping is not supported");
    }
    match (mem_type, perm) {
        (RegionMemType::Normal, RegionPerm::ReadWrite) => Ok(MemoryAttribute::Normal),
        (RegionMemType::Normal, RegionPerm::ReadOnly) => Ok(MemoryAttribute::ReadOnly),
        (RegionMemType::Device, RegionPerm::ReadWrite) => Ok(MemoryAttribute::Device),
        (RegionMemType::Device, RegionPerm::ReadOnly) => Ok(MemoryAttribute::DeviceReadOnly),
    }
}

/// Identity-map `[ipa, ipa + size)` with the region's mapping kind: an
/// executable region is refused and nothing is mapped; otherwise as
/// `DynamicIdentityMapper::map_region` with that kind.
pub fn map_region_with_registered_attrs(reg: &VmStage2RegionRegistration, mapper: &mut DynamicIdentityMapper,
    store: &mut TableStore, ipa: u64, size: u64) -> (r: Result<(), &'static str>)
    requires
        old(mapper).wf(old(store)),
        ipa + size <= u64::MAX,
        size <= u64::MAX - BLOCK_SIZE_2MB,
    ensures
        final(mapper).wf(final(store)),
        final(mapper).l0() == old(mapper).l0(),
        spec_memory_attr(reg.mem_type, reg.perm, reg.execute) is Err ==> r == Err::<(), &'static str>(
            "Executable Stage-2 mapping is not supported") && *final(store) == *old(store)
            && *final(mapper) == *old(mapper),
        spec_memory_attr(reg.mem_type, reg.perm, reg.execute) matches Ok(attr) ==> {
            &&& r is Err ==> r == Err::<(), &'static str>("Too many L2 tables")
                || r == Err::<(), &'static str>("Failed to allocate L2 table")
            &&& r is Ok && ipa + size <= crate::mmu::DYN_IPA_LIMIT ==> forall|k: int| 0 <= k < crate::mmu::spec_num_blocks(size)
                ==> #[trigger] final(store).leaf(final(mapper).l0(), crate::mmu::spec_block_addr(ipa, k))
                    == Some(crate::mmu::spec_dyn_block(crate::mmu::spec_block_addr(ipa, k), attr))
        },
{
    let attr = to_memory_attr(reg.mem_type, reg.perm, reg.execute)?;
    mapper.map_region(store, ipa, size, attr)
}

} // verus!
