//! AArch64 architectural constants: system register fields, exception
//! classes, GICv3 list register encoding and Stage-2 descriptor bits.

use vstd::prelude::*;

verus! {

// ── HCR_EL2 ─────────────────────────────────────────────────────────
pub const HCR_VM: u64 = 0x1;
pub const HCR_SWIO: u64 = 0x2;
pub const HCR_FMO: u64 = 0x8;
pub const HCR_IMO: u64 = 0x10;
pub const HCR_AMO: u64 = 0x20;
pub const HCR_FB: u64 = 0x200;
pub const HCR_BSU_INNER: u64 = 0x400;
pub const HCR_TWI: u64 = 0x2000;
pub const HCR_TWE: u64 = 0x4000;
pub const HCR_RW: u64 = 0x8000_0000;
pub const HCR_TEA: u64 = 0x20_0000_0000;
pub const HCR_APK: u64 = 0x100_0000_0000;
pub const HCR_API: u64 = 0x200_0000_0000;

// ── ESR_EL2 ─────────────────────────────────────────────────────────
pub const ESR_EC_SHIFT: u64 = 26;
pub const ESR_EC_MASK: u64 = 0x3F;
pub const ESR_ISS_MASK: u64 = 0x1FF_FFFF;
pub const ESR_HVC_IMM_MASK: u64 = 0xFFFF;

// ── Exception classes ───────────────────────────────────────────────
pub const EC_UNKNOWN: u64 = 0x00;
pub const EC_WFI_WFE: u64 = 0x01;
pub const EC_TRAPPED_SIMD_FP: u64 = 0x07;
pub const EC_TRAPPED_SVE: u64 = 0x09;
pub const EC_HVC64: u64 = 0x16;
pub const EC_MSR_MRS: u64 = 0x18;
pub const EC_SVE_TRAP: u64 = 0x19;
pub const EC_IABT_LOWER: u64 = 0x20;
pub const EC_IABT_SAME: u64 = 0x21;
pub const EC_DABT_LOWER: u64 = 0x24;
pub const EC_DABT_SAME: u64 = 0x25;

// ── SPSR defaults ───────────────────────────────────────────────────
pub const SPSR_EL1H_DAIF_MASKED: u64 = 0x3C5;
pub const SPSR_EL1H: u64 = 0b0101;

// ── ICH_HCR_EL2 / ICC bits ──────────────────────────────────────────
pub const ICH_HCR_EN: u64 = 0x1;
pub const ICH_HCR_TALL1: u64 = 0x2000;
pub const ICC_SRE_SRE: u32 = 0x1;
pub const ICC_SRE_ENABLE: u32 = 0x8;
pub const ICC_CTLR_EOIMODE: u32 = 0x2;
pub const ICC_PMR_ALLOW_ALL: u32 = 0xFF;

// ── GICv3 list register fields ──────────────────────────────────────
pub const LR_STATE_SHIFT: u64 = 62;
pub const LR_STATE_MASK: u64 = 0x3;
pub const LR_HW_BIT: u64 = 0x2000_0000_0000_0000;
pub const LR_GROUP1_BIT: u64 = 0x1000_0000_0000_0000;
pub const LR_PRIORITY_SHIFT: u64 = 48;
pub const LR_PINTID_SHIFT: u64 = 32;
pub const LR_PINTID_MASK: u64 = 0x3FF;
pub const LR_VINTID_MASK: u64 = 0xFFFF_FFFF;
pub const VTR_LISTREGS_MASK: u32 = 0x1F;
pub const GIC_SPURIOUS_INTID: u32 = 1020;

/// Default priority of injected virtual interrupts.
pub const IRQ_DEFAULT_PRIORITY: u8 = 0xA0;

// ── VTCR_EL2 fields ─────────────────────────────────────────────────
pub const VTCR_T0SZ_48BIT: u64 = 16;
pub const VTCR_SL0_LEVEL0: u64 = 0x80;
pub const VTCR_IRGN0_WB: u64 = 0x100;
pub const VTCR_ORGN0_WB: u64 = 0x400;
pub const VTCR_SH0_INNER: u64 = 0x3000;
pub const VTCR_TG0_4KB: u64 = 0;
pub const VTCR_PS_48BIT: u64 = 0x5_0000;

// ── CNTHCTL_EL2 bits ────────────────────────────────────────────────
pub const CNTHCTL_EL1PCTEN: u64 = 0x1;
pub const CNTHCTL_EL1PCEN: u64 = 0x2;

// ── Stage-2 descriptors ─────────────────────────────────────────────
pub const PTE_VALID: u64 = 0x1;
pub const PTE_TABLE: u64 = 0x2;
pub const PTE_ADDR_MASK: u64 = 0x0000_FFFF_FFFF_F000;
pub const PAGE_OFFSET_MASK: u64 = 0xFFF;
pub const PT_INDEX_MASK: u64 = 0x1FF;
pub const BLOCK_SIZE_2MB: u64 = 0x20_0000;
pub const BLOCK_MASK_2MB: u64 = 0x1F_FFFF;
pub const PAGE_SIZE_4KB: u64 = 4096;
pub const PAGE_MASK_4KB: u64 = 0xFFF;
/// Stage-2 access permission field S2AP, bits [7:6].
pub const S2AP_SHIFT: u64 = 6;
pub const S2AP_MASK: u64 = 0xC0;
pub const S2AP_NONE: u64 = 0x00;
pub const S2AP_RO: u64 = 0x40;
pub const S2AP_RW: u64 = 0xC0;
/// Software-defined page ownership field, bits [56:55].
pub const PTE_SW_SHIFT: u64 = 55;
pub const PTE_SW_MASK: u64 = 0x0180_0000_0000_0000;

/// Size of an AArch64 instruction.
pub const AARCH64_INSN_SIZE: u64 = 4;

} // verus!
