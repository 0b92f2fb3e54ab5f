//! Secure Stage-2 translation for secure partitions at S-EL2 (VSTTBR_EL2 /
//! VSTCR_EL2), and the tables of one partition.

use vstd::prelude::*;
use crate::defs::{
    BLOCK_SIZE_2MB, VTCR_IRGN0_WB, VTCR_ORGN0_WB, VTCR_PS_48BIT, VTCR_SH0_INNER, VTCR_SL0_LEVEL0, VTCR_T0SZ_48BIT,
    VTCR_TG0_4KB,
};
use crate::mmu::{
    lemma_dyn_desc_kinds, map_clash, spec_block_addr, spec_dyn_block, spec_index, spec_num_blocks, spec_vtcr,
    DynamicIdentityMapper, MemoryAttribute, DYN_IPA_LIMIT,
};
use crate::table_store::TableStore;

verus! {

/// The secure partitions' UART (the QEMU virt secure PL011).
pub const SP_UART_BASE: u64 = 0x0904_0000;

/// Secure Stage-2 configuration.
pub struct SecureStage2Config {
    pub vsttbr: u64,
    pub vstcr: u64,
}

impl SecureStage2Config {
    /// Translation rooted at `page_table_addr` (bits [47:1]) with the
    /// same geometry as the non-secure Stage-2.
    pub fn new(page_table_addr: u64) -> (r: Self)
        ensures
            r.vstcr == spec_vtcr(),
            r.vsttbr == page_table_addr & 0x0000_FFFF_FFFF_FFFE,
    {
        let vstcr = VTCR_T0SZ_48BIT | VTCR_SL0_LEVEL0 | VTCR_IRGN0_WB | VTCR_ORGN0_WB | VTCR_SH0_INNER
            | VTCR_TG0_4KB | VTCR_PS_48BIT;
        SecureStage2Config { vsttbr: page_table_addr & 0x0000_FFFF_FFFF_FFFE, vstcr }
    }

    /// Translation with a ready VSTTBR_EL2 value.
    pub fn new_from_vsttbr(vsttbr: u64) -> (r: Self)
        ensures
            r.vstcr == spec_vtcr(),
            r.vsttbr == vsttbr,
    {
        let vstcr = VTCR_T0SZ_48BIT | VTCR_SL0_LEVEL0 | VTCR_IRGN0_WB | VTCR_ORGN0_WB | VTCR_SH0_INNER
            | VTCR_TG0_4KB | VTCR_PS_48BIT;
        SecureStage2Config { vsttbr, vstcr }
    }
}

/// The blocks `a` and `b` use the same L1 and L2 slots.
pub open spec fn same_block_slot(a: u64, b: u64) -> bool {
    spec_index(a, 30) == spec_index(b, 30) && spec_index(a, 21) == spec_index(b, 21)
}

/// The Stage-2 tables of a secure partition: its memory `[sp_base,
/// sp_base + sp_size)` mapped with 2 MiB normal-memory blocks, then its
/// UART's 2 MiB block as device memory (which replaces a partition block
/// in the same slot).
pub fn build_sp_stage2(store: &mut TableStore, sp_base: u64, sp_size: u64) -> (r: Result<DynamicIdentityMapper,
    &'static str>)
    requires
        old(store).wf(),
        old(store).capacity() - old(store).count() >= 2,
        sp_base + sp_size <= u64::MAX,
        sp_size <= u64::MAX - BLOCK_SIZE_2MB,
    ensures
        r matches Ok(m) ==> m.wf(final(store)) && final(store).leaf(m.l0(), SP_UART_BASE)
            == Some(spec_dyn_block(SP_UART_BASE, MemoryAttribute::Device)),
        r matches Ok(m) ==> sp_base + sp_size <= DYN_IPA_LIMIT ==> forall|k: int| 0 <= k < spec_num_blocks(sp_size)
            && !same_block_slot(#[trigger] spec_block_addr(sp_base, k), SP_UART_BASE)
            ==> final(store).leaf(m.l0(), spec_block_addr(sp_base, k))
                == Some(spec_dyn_block(spec_block_addr(sp_base, k), MemoryAttribute::Normal)),
        r is Err ==> r == Err::<DynamicIdentityMapper, &'static str>("Too many L2 tables")
            || r == Err::<DynamicIdentityMapper, &'static str>("Failed to allocate L2 table"),
{
    let mut mapper = DynamicIdentityMapper::new(store);
    mapper.map_region(store, sp_base, sp_size, MemoryAttribute::Normal)?;
    let ghost m1 = mapper;
    let ghost s1 = *store;
    mapper.map_region(store, SP_UART_BASE, BLOCK_SIZE_2MB, MemoryAttribute::Device)?;
    proof {
        assert(spec_num_blocks(BLOCK_SIZE_2MB) == 1);
        assert(spec_block_addr(SP_UART_BASE, 0) == SP_UART_BASE);
        if sp_base + sp_size <= DYN_IPA_LIMIT {
            assert forall|k: int| 0 <= k < spec_num_blocks(sp_size)
                && !same_block_slot(#[trigger] spec_block_addr(sp_base, k), SP_UART_BASE)
                implies store.leaf(mapper.l0(), spec_block_addr(sp_base, k))
                    == Some(spec_dyn_block(spec_block_addr(sp_base, k), MemoryAttribute::Normal)) by {
                let b = spec_block_addr(sp_base, k);
                let v = spec_dyn_block(b, MemoryAttribute::Normal);
                assert(m1.block_mapped(&s1, b, v));
                if map_clash(SP_UART_BASE, BLOCK_SIZE_2MB, b) {
                    let j = choose|j: int| 0 <= j < spec_num_blocks(BLOCK_SIZE_2MB)
                        && spec_index(b, 30) == spec_index(#[trigger] spec_block_addr(SP_UART_BASE, j), 30)
                        && spec_index(b, 21) == spec_index(spec_block_addr(SP_UART_BASE, j), 21);
                    assert(j == 0);
                }
                assert(mapper.block_mapped(store, b, v));
                assert(k * BLOCK_SIZE_2MB < sp_size) by (nonlinear_arith)
                    requires 0 <= k < spec_num_blocks(sp_size), spec_num_blocks(sp_size) == (sp_size + 0x1F_FFFF) / 0x20_0000;
                assert(b < DYN_IPA_LIMIT);
                lemma_dyn_desc_kinds(b, MemoryAttribute::Normal);
                mapper.lemma_block_mapped_leaf(store, b, v);
            }
        }
    }
    Ok(mapper)
}

} // verus!
