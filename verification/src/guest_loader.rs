//! Guest boot configuration: where a guest kernel lies, where it starts,
//! and the vCPU state it is entered with.

use vstd::prelude::*;
use crate::defs::SPSR_EL1H_DAIF_MASKED;
use crate::platform::{
    GUEST_LOAD_ADDR, GUEST_RAM_BASE, GUEST_STACK_RESERVE, LINUX_DTB_ADDR, LINUX_MEM_SIZE, VM1_GUEST_LOAD_ADDR,
    VM1_LINUX_DTB_ADDR, VM1_LINUX_MEM_SIZE, ZEPHYR_MEM_SIZE,
};
use crate::regs::VcpuContext;
use crate::vcpu_arch_state::VcpuArchState;

verus! {

/// Kind of guest kernel.
#[derive(Clone, Copy, Debug, PartialEq, Eq, Structural)]
pub enum GuestType {
    /// Zephyr RTOS (ELF or raw binary).
    Zephyr,
    /// Linux (ARM64 Image).
    Linux,
}

/// Memory layout and entry point of a guest.
#[derive(Clone, Copy, Debug, PartialEq, Eq, Structural)]
pub struct GuestConfig {
    pub guest_type: GuestType,
    /// Start of the guest's Stage-2 mapped memory.
    pub load_addr: u64,
    /// Size of the mapped memory.
    pub mem_size: u64,
    pub entry_point: u64,
    /// Device tree address handed to Linux (0 otherwise).
    pub dtb_addr: u64,
}

/// Little-endian 32-bit value at `off`.
pub open spec fn le32_at(b: Seq<u8>, off: int) -> u32 {
    (b[off] as u32) | ((b[off + 1] as u32) << 8u32) | ((b[off + 2] as u32) << 16u32) | ((b[off + 3] as u32) << 24u32)
}

/// Little-endian 64-bit value at `off`.
pub open spec fn le64_at(b: Seq<u8>, off: int) -> u64 {
    (le32_at(b, off) as u64) | ((le32_at(b, off + 4) as u64) << 32u64)
}

fn read_le32(b: &Vec<u8>, off: usize) -> (r: u32)
    requires
        off + 4 <= b@.len(),
        off < 0x100,
    ensures
        r == le32_at(b@, off as int),
{
    (b[off] as u32) | ((b[off + 1] as u32) << 8) | ((b[off + 2] as u32) << 16) | ((b[off + 3] as u32) << 24)
}

fn read_le64(b: &Vec<u8>, off: usize) -> (r: u64)
    requires
        off + 8 <= b@.len(),
        off < 0xF0,
    ensures
        r == le64_at(b@, off as int),
{
    (read_le32(b, off) as u64) | ((read_le32(b, off + 4) as u64) << 32)
}

/// Byte offset of an unconditional branch `B imm26`: the sign-extended
/// immediate times four.
pub open spec fn branch_offset(instr: u32) -> int {
    let imm26 = instr & 0x03FF_FFFF;
    if imm26 & 0x0200_0000 != 0 { (imm26 as int - 0x0400_0000) * 4 } else { imm26 as int * 4 }
}

/// Where a Zephyr image loaded at `load_addr` starts, from its first 32
/// bytes: e_entry of an ELF header; else the target of a leading `B`
/// instruction; else the load address.
pub open spec fn spec_zephyr_entry(load_addr: u64, header: Seq<u8>) -> u64 {
    if header[0] == 0x7F && header[1] == 0x45 && header[2] == 0x4C && header[3] == 0x46 {
        le64_at(header, 0x18)
    } else if le32_at(header, 0) >> 26u32 == 5 {
        (load_addr + branch_offset(le32_at(header, 0))) as u64
    } else {
        load_addr
    }
}

/// The entry point of a Zephyr image whose first bytes are `header`.
pub fn zephyr_entry_point(load_addr: u64, header: &Vec<u8>) -> (r: u64)
    requires
        header@.len() >= 0x20,
        load_addr < 0x4000_0000_0000_0000,
    ensures
        r == spec_zephyr_entry(load_addr, header@),
{
    if header[0] == 0x7F && header[1] == 0x45 && header[2] == 0x4C && header[3] == 0x46 {
        return read_le64(header, 0x18);
    }
    let instr = read_le32(header, 0);
    if instr >> 26 == 5 {
        let imm26 = instr & 0x03FF_FFFF;
        let offset: i64 = if imm26 & 0x0200_0000 != 0 {
            (imm26 as i64 - 0x0400_0000) * 4
        } else {
            (imm26 as i64) * 4
        };
        assert(offset == branch_offset(instr));
        (load_addr as i64 + offset) as u64
    } else {
        load_addr
    }
}

/// ARM64 Image magic "ARMd" at offset 0x38.
pub const ARM64_IMAGE_MAGIC: u32 = 0x644d_5241;

/// Where a Linux Image loaded at `kernel_addr` starts, from its first 64
/// bytes: the load address plus text_offset for an ARM64 Image whose
/// text_offset is non-zero and below 1 MiB, else the load address.
pub open spec fn spec_linux_entry(kernel_addr: u64, header: Seq<u8>) -> u64 {
    let text_offset = le64_at(header, 0x08);
    if le32_at(header, 0x38) == ARM64_IMAGE_MAGIC && text_offset != 0 && text_offset < 0x10_0000 {
        (kernel_addr + text_offset) as u64
    } else {
        kernel_addr
    }
}

/// The entry point of a Linux Image whose first bytes are `header`.
pub fn linux_entry_point(kernel_addr: u64, header: &Vec<u8>) -> (r: u64)
    requires
        header@.len() >= 0x40,
        kernel_addr + 0x10_0000 <= u64::MAX,
    ensures
        r == spec_linux_entry(kernel_addr, header@),
{
    let magic = read_le32(header, 0x38);
    if magic == ARM64_IMAGE_MAGIC {
        let text_offset = read_le64(header, 0x08);
        if text_offset != 0 && text_offset < 0x10_0000 {
            return kernel_addr + text_offset;
        }
    }
    kernel_addr
}

impl GuestConfig {
    /// Zephyr at the guest load address with 128 MiB; `header` holds the
    /// image's first bytes.
    pub fn zephyr_default(header: &Vec<u8>) -> (r: Self)
        requires
            header@.len() >= 0x20,
        ensures
            r == (GuestConfig {
                guest_type: GuestType::Zephyr,
                load_addr: GUEST_LOAD_ADDR,
                mem_size: ZEPHYR_MEM_SIZE,
                entry_point: spec_zephyr_entry(GUEST_LOAD_ADDR, header@),
                dtb_addr: 0,
            }),
    {
        let entry_point = zephyr_entry_point(GUEST_LOAD_ADDR, header);
        GuestConfig {
            guest_type: GuestType::Zephyr,
            load_addr: GUEST_LOAD_ADDR,
            mem_size: ZEPHYR_MEM_SIZE,
            entry_point,
            dtb_addr: 0,
        }
    }

    /// Linux loaded at the guest load address; the mapping starts at guest
    /// RAM so it also covers the device tree below the kernel. `header`
    /// holds the Image's first bytes.
    pub fn linux_default(header: &Vec<u8>) -> (r: Self)
        requires
            header@.len() >= 0x40,
        ensures
            r == (GuestConfig {
                guest_type: GuestType::Linux,
                load_addr: GUEST_RAM_BASE,
                mem_size: (GUEST_LOAD_ADDR - GUEST_RAM_BASE + LINUX_MEM_SIZE) as u64,
                entry_point: spec_linux_entry(GUEST_LOAD_ADDR, header@),
                dtb_addr: LINUX_DTB_ADDR,
            }),
    {
        let entry_point = linux_entry_point(GUEST_LOAD_ADDR, header);
        GuestConfig {
            guest_type: GuestType::Linux,
            load_addr: GUEST_RAM_BASE,
            mem_size: (GUEST_LOAD_ADDR - GUEST_RAM_BASE) + LINUX_MEM_SIZE,
            entry_point,
            dtb_addr: LINUX_DTB_ADDR,
        }
    }

    /// Linux for the second VM, in its own memory 128 MiB below its kernel.
    pub fn linux_vm1(header: &Vec<u8>) -> (r: Self)
        requires
            header@.len() >= 0x40,
        ensures
            r == (GuestConfig {
                guest_type: GuestType::Linux,
                load_addr: (VM1_GUEST_LOAD_ADDR - 0x0800_0000) as u64,
                mem_size: (0x0800_0000 + VM1_LINUX_MEM_SIZE) as u64,
                entry_point: spec_linux_entry(VM1_GUEST_LOAD_ADDR, header@),
                dtb_addr: VM1_LINUX_DTB_ADDR,
            }),
    {
        let mem_start = VM1_GUEST_LOAD_ADDR - 0x0800_0000;
        let entry_point = linux_entry_point(VM1_GUEST_LOAD_ADDR, header);
        GuestConfig {
            guest_type: GuestType::Linux,
            load_addr: mem_start,
            mem_size: (VM1_GUEST_LOAD_ADDR - mem_start) + VM1_LINUX_MEM_SIZE,
            entry_point,
            dtb_addr: VM1_LINUX_DTB_ADDR,
        }
    }

    /// The stack pointer a guest starts with: the top of its memory less
    /// the reserve.
    pub open spec fn spec_stack_top(&self) -> int {
        self.load_addr + self.mem_size - GUEST_STACK_RESERVE
    }
}

/// The vCPU 0 context a guest is entered with: PC at the entry point,
/// SP below the top of its memory, and for Linux the boot protocol
/// (x0 = device tree, x1-x3 = 0); `daif_masked` starts it at EL1h with
/// interrupts masked (the multi-VM boot), else SPSR is left 0.
pub fn guest_boot_context(config: &GuestConfig, daif_masked: bool) -> (r: VcpuContext)
    requires
        GUEST_STACK_RESERVE <= config.load_addr + config.mem_size <= u64::MAX,
    ensures
        r.pc == config.entry_point,
        r.sp == config.spec_stack_top(),
        r.spsr_el2 == if daif_masked { SPSR_EL1H_DAIF_MASKED } else { 0 },
        r.sys_regs == crate::regs::spec_zero_sys(),
        forall|i: int| 0 <= i < 31 ==> #[trigger] r.gp_regs.x@[i] == if i == 0 && config.guest_type == GuestType::Linux {
            config.dtb_addr
        } else {
            0
        },
{
    let mut ctx = VcpuContext::zeroed();
    ctx.pc = config.entry_point;
    ctx.sp = config.load_addr + config.mem_size - GUEST_STACK_RESERVE;
    if config.guest_type == GuestType::Linux {
        ctx.gp_regs.x[0] = config.dtb_addr;
        ctx.gp_regs.x[1] = 0;
        ctx.gp_regs.x[2] = 0;
        ctx.gp_regs.x[3] = 0;
    }
    if daif_masked {
        ctx.spsr_el2 = SPSR_EL1H_DAIF_MASKED;
    }
    ctx
}

/// SCTLR_EL1 a Linux guest starts with: RES1 bits, MMU and caches off.
pub const LINUX_SCTLR_EL1: u64 = 0x30D0_0800;
/// CPACR_EL1 a Linux guest starts with: FP/SIMD enabled.
pub const LINUX_CPACR_EL1: u64 = 0x30_0000;

/// EL1 state of vCPU 0 of a guest: a Linux guest starts with MMU and
/// caches off and FP/SIMD enabled; everything else is zero.
pub fn guest_boot_arch_state(config: &GuestConfig) -> (r: VcpuArchState)
    ensures
        config.guest_type == GuestType::Linux ==> r == (VcpuArchState {
            sctlr_el1: LINUX_SCTLR_EL1,
            cpacr_el1: LINUX_CPACR_EL1,
            ..r
        }) && crate::vcpu_arch_state::spec_all_zero(VcpuArchState { sctlr_el1: 0, cpacr_el1: 0, ..r }),
        config.guest_type == GuestType::Zephyr ==> crate::vcpu_arch_state::spec_all_zero(r),
        config.guest_type == GuestType::Linux ==> r.sctlr_el1 == LINUX_SCTLR_EL1 && r.cpacr_el1 == LINUX_CPACR_EL1,
{
    let mut s = VcpuArchState::new();
    if config.guest_type == GuestType::Linux {
        s.sctlr_el1 = LINUX_SCTLR_EL1;
        s.cpacr_el1 = LINUX_CPACR_EL1;
    }
    s
}

} // verus!
