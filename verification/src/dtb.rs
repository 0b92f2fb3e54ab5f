//! Platform discovery from the host device tree blob: UART, GIC, RAM and
//! CPU count, with the QEMU virt values as defaults.
//!
//! The blob is parsed by the `fdt` crate; the caller reads the blob's
//! bytes from the address the boot loader passed.

use vstd::prelude::*;
use crate::fdt_layout::{check_structure, fdt_structure_ok};

verus! {

/// Platform facts found in the device tree.
#[derive(Clone, Copy, Debug, PartialEq, Eq, Structural)]
pub struct PlatformInfo {
    /// PL011 UART base address.
    pub uart_base: u64,
    /// GIC distributor base address.
    pub gicd_base: u64,
    /// GIC redistributor base address (first frame).
    pub gicr_base: u64,
    /// GIC redistributor region size.
    pub gicr_size: u64,
    /// Number of CPUs under /cpus.
    pub num_cpus: usize,
    /// RAM base address.
    pub ram_base: u64,
    /// RAM size in bytes.
    pub ram_size: u64,
}

/// The QEMU virt platform, used while no device tree was read.
pub open spec fn spec_qemu_virt() -> PlatformInfo {
    PlatformInfo {
        uart_base: 0x0900_0000,
        gicd_base: 0x0800_0000,
        gicr_base: 0x080A_0000,
        gicr_size: 0,
        num_cpus: 4,
        ram_base: 0x4000_0000,
        ram_size: 0x4000_0000,
    }
}

impl PlatformInfo {
    /// The QEMU virt platform.
    pub fn qemu_virt() -> (r: Self)
        ensures
            r == spec_qemu_virt(),
    {
        PlatformInfo {
            uart_base: 0x0900_0000,
            gicd_base: 0x0800_0000,
            gicr_base: 0x080A_0000,
            gicr_size: 0,
            num_cpus: 4,
            ram_base: 0x4000_0000,
            ram_size: 0x4000_0000,
        }
    }
}

/// Big-endian 32-bit value at `off`.
pub open spec fn be32(data: Seq<u8>, off: int) -> int {
    data[off] * 0x100_0000 + data[off + 1] * 0x1_0000 + data[off + 2] * 0x100 + data[off + 3]
}

/// The `fdt` crate accepts `data` as a flattened device tree: it holds the
/// 40-byte header, the header starts with the magic 0xD00DFEED, and the
/// blob is at least as long as the header's total size.
pub open spec fn fdt_accepts(data: Seq<u8>) -> bool {
    &&& data.len() >= 40
    &&& be32(data, 0) == 0xD00D_FEED
    &&& be32(data, 4) <= data.len()
}

/// The `fdt` crate finds the node at `path`.
pub uninterp spec fn fdt_node_found(data: Seq<u8>, path: Seq<char>) -> bool;

/// Start and size of the first `reg` entry of the /memory node; `None`
/// without such a node or without a usable `reg`.
pub uninterp spec fn fdt_first_memory_region(data: Seq<u8>) -> Option<(u64, Option<u64>)>;

/// The `reg` entries (start, size) of the first node compatible with
/// `compat`; `None` without such a node or without a usable `reg`.
pub uninterp spec fn fdt_compatible_reg(data: Seq<u8>, compat: Seq<char>) -> Option<Seq<(u64, Option<u64>)>>;

/// Number of `cpu` nodes under /cpus.
pub uninterp spec fn fdt_cpu_count(data: Seq<u8>) -> usize;

/// Checks the blob with `fdt::Fdt::new`, which reads the ten big-endian
/// header words, and accepts the blob when there are forty bytes, the magic
/// is right and the blob holds the header's total size.
#[verifier::external_body]
fn fdt_check(data: &[u8]) -> (r: bool)
    ensures
        r == fdt_accepts(data@),
{
    fdt::Fdt::new(data).is_ok()
}

/// Looks `path` up with `fdt::Fdt::find_node` (which also tries `path` as
/// an alias): true when a node is found. The crate walks the structure
/// block without panicking on a blob of the shape `fdt_structure_ok`
/// describes; since no property name there holds '/', an absolute path is
/// never taken for an alias.
#[verifier::external_body]
fn fdt_has_node(data: &[u8], path: &str) -> (r: bool)
    requires
        fdt_structure_ok(data@),
        path@.len() > 0,
        path@[0] == '/',
    ensures
        r == fdt_node_found(data@, path@),
{
    match fdt::Fdt::new(data) {
        Ok(f) => f.find_node(path).is_some(),
        Err(_) => false,
    }
}

/// The first `reg` entry of the /memory node, as (start, size): what
/// `fdt::Fdt::memory().regions()` is made of, `find_node("/memory")` and
/// `FdtNode::reg`, taken one by one so that a missing node or `reg` gives
/// `None` (`memory()` and `regions()` would panic there). The result is
/// named, not stated.
#[verifier::external_body]
fn fdt_memory_region(data: &[u8]) -> (r: Option<(u64, Option<u64>)>)
    requires
        fdt_structure_ok(data@),
    ensures
        r == fdt_first_memory_region(data@),
{
    match fdt::Fdt::new(data) {
        Ok(f) => f.find_node("/memory").and_then(|n| n.reg()).and_then(|mut it| it.next()).map(|m|
            (m.starting_address as usize as u64, m.size.map(|s| s as u64))),
        Err(_) => None,
    }
}

/// The `reg` entries of `fdt::Fdt::find_compatible(&[compat])`, each as
/// (start, size). On a blob of the shape `fdt_structure_ok` describes the
/// walk over all nodes stays within its 63 levels and `#address-cells` and
/// `#size-cells` hold a word, so nothing panics.
#[verifier::external_body]
fn fdt_compat_reg(data: &[u8], compat: &str) -> (r: Option<Vec<(u64, Option<u64>)>>)
    requires
        fdt_structure_ok(data@),
    ensures
        match r {
            Some(v) => fdt_compatible_reg(data@, compat@) == Some(v@),
            None => fdt_compatible_reg(data@, compat@).is_none(),
        },
{
    match fdt::Fdt::new(data) {
        Ok(f) => f.find_compatible(&[compat]).and_then(|n| n.reg()).map(|it|
            it.map(|m| (m.starting_address as usize as u64, m.size.map(|s| s as u64))).collect()),
        Err(_) => None,
    }
}

/// The number of items of `fdt::Fdt::cpus()`, the `cpu` children of
/// /cpus. `cpus()` panics without a /cpus node, hence the precondition;
/// the children walk does not panic on a blob of the shape
/// `fdt_structure_ok` describes.
#[verifier::external_body]
fn fdt_cpus(data: &[u8]) -> (r: usize)
    requires
        fdt_structure_ok(data@),
        fdt_node_found(data@, "/cpus"@),
    ensures
        r == fdt_cpu_count(data@),
{
    match fdt::Fdt::new(data) {
        Ok(f) => f.cpus().count(),
        Err(_) => 0,
    }
}

/// `data` is a device tree the `fdt` crate accepts.
pub fn is_device_tree(data: &[u8]) -> (r: bool)
    ensures
        r == fdt_accepts(data@),
{
    fdt_check(data)
}

/// The address a boot loader passed can hold a device tree: in QEMU virt
/// RAM [0x4000_0000, 0x8000_0000) and starting with the FDT magic
/// 0xD00DFEED (big-endian `magic`, the first four bytes there).
pub open spec fn spec_dtb_address_ok(addr: usize, magic: Seq<u8>) -> bool {
    &&& addr != 0
    &&& 0x4000_0000 <= addr < 0x8000_0000
    &&& magic == seq![0xD0u8, 0x0Du8, 0xFEu8, 0xEDu8]
}

pub fn validate_dtb_address(addr: usize, magic: [u8; 4]) -> (r: bool)
    ensures
        r == spec_dtb_address_ok(addr, magic@),
{
    if addr == 0 || addr < 0x4000_0000 || addr >= 0x8000_0000 {
        return false;
    }
    let ok = magic[0] == 0xD0 && magic[1] == 0x0D && magic[2] == 0xFE && magic[3] == 0xED;
    assert(ok == (magic@ == seq![0xD0u8, 0x0Du8, 0xFEu8, 0xEDu8])) by {
        if ok {
            assert(magic@ =~= seq![0xD0u8, 0x0Du8, 0xFEu8, 0xEDu8]);
        }
    }
    ok
}

/// Start of `reg` entry `k`, or `default`.
pub open spec fn reg_start(regs: Option<Seq<(u64, Option<u64>)>>, k: int, default: u64) -> u64 {
    match regs {
        Some(v) => if k < v.len() { v[k].0 } else { default },
        None => default,
    }
}

/// Platform facts read from an accepted blob that has /memory and /cpus.
pub open spec fn spec_host_info(data: Seq<u8>) -> PlatformInfo {
    let mem = fdt_first_memory_region(data);
    let gic = fdt_compatible_reg(data, "arm,gic-v3"@);
    let cpus = fdt_cpu_count(data);
    PlatformInfo {
        uart_base: reg_start(fdt_compatible_reg(data, "arm,pl011"@), 0, 0x0900_0000),
        gicd_base: reg_start(gic, 0, 0x0800_0000),
        gicr_base: reg_start(gic, 1, 0x080A_0000),
        gicr_size: match gic {
            Some(v) => if 1 < v.len() { match v[1].1 { Some(z) => z, None => 0 } } else { 0 },
            None => 0,
        },
        num_cpus: if cpus > 0 { cpus } else { 4 },
        ram_base: match mem { Some(m) => m.0, None => 0x4000_0000 },
        ram_size: match mem { Some(m) => match m.1 { Some(z) => z, None => 0 }, None => 0 },
    }
}

/// Read the platform from the blob `data` found at `dtb_addr` (whose
/// first four bytes are `magic`). `None` when the address is not a device
/// tree's or the blob does not have the shape `fdt_structure_ok` describes.
/// The blob must have a /cpus node.
pub fn parse_host_dtb(dtb_addr: usize, magic: [u8; 4], data: &[u8]) -> (r: Option<PlatformInfo>)
    requires
        spec_dtb_address_ok(dtb_addr, magic@) && fdt_structure_ok(data@) ==> fdt_node_found(data@, "/cpus"@),
    ensures
        r == if spec_dtb_address_ok(dtb_addr, magic@) && fdt_structure_ok(data@) {
            Some(spec_host_info(data@))
        } else {
            None
        },
{
    if !validate_dtb_address(dtb_addr, magic) {
        return None;
    }
    if !fdt_check(data) || !check_structure(data) {
        return None;
    }
    let mut info = PlatformInfo {
        uart_base: 0x0900_0000,
        gicd_base: 0x0800_0000,
        gicr_base: 0x080A_0000,
        gicr_size: 0,
        num_cpus: 4,
        ram_base: 0x4000_0000,
        ram_size: 0,
    };
    match fdt_memory_region(data) {
        Some((base, size)) => {
            info.ram_base = base;
            match size {
                Some(z) => { info.ram_size = z; },
                None => {},
            }
        },
        None => {},
    }
    match fdt_compat_reg(data, "arm,pl011") {
        Some(regs) => {
            if regs.len() > 0 {
                info.uart_base = regs[0].0;
            }
        },
        None => {},
    }
    match fdt_compat_reg(data, "arm,gic-v3") {
        Some(regs) => {
            if regs.len() > 0 {
                info.gicd_base = regs[0].0;
            }
            if regs.len() > 1 {
                info.gicr_base = regs[1].0;
                match regs[1].1 {
                    Some(z) => { info.gicr_size = z; },
                    None => {},
                }
            }
        },
        None => {},
    }
    let count = fdt_cpus(data);
    if count > 0 {
        info.num_cpus = count;
    }
    Some(info)
}

/// The platform record: the device tree's facts once read, else QEMU virt.
pub struct PlatformState {
    pub info: PlatformInfo,
    pub initialized: bool,
}

impl PlatformState {
    /// QEMU virt, no device tree read.
    pub fn new() -> (r: Self)
        ensures
            r.info == spec_qemu_virt(),
            !r.initialized,
    {
        PlatformState { info: PlatformInfo::qemu_virt(), initialized: false }
    }
}

/// Read the platform from the blob at `dtb_addr` (see `parse_host_dtb`).
/// A blob without /memory or /cpus is treated like one that does not
/// parse: the record keeps its values.
pub fn init(state: &mut PlatformState, dtb_addr: usize, magic: [u8; 4], data: &[u8])
    ensures
        ({
            let usable = spec_dtb_address_ok(dtb_addr, magic@) && fdt_structure_ok(data@)
                && fdt_node_found(data@, "/memory"@) && fdt_node_found(data@, "/cpus"@);
            &&& usable ==> final(state).info == spec_host_info(data@) && final(state).initialized
            &&& !usable ==> *final(state) == *old(state)
        }),
{
    if !validate_dtb_address(dtb_addr, magic) || !fdt_check(data) || !check_structure(data) {
        return;
    }
    proof {
        reveal_strlit("/memory");
        reveal_strlit("/cpus");
    }
    if !fdt_has_node(data, "/memory") || !fdt_has_node(data, "/cpus") {
        return;
    }
    match parse_host_dtb(dtb_addr, magic, data) {
        Some(info) => {
            state.info = info;
            state.initialized = true;
        },
        None => {},
    }
}

/// A device tree was read.
pub fn is_initialized(state: &PlatformState) -> (r: bool)
    ensures
        r == state.initialized,
{
    state.initialized
}

/// The platform facts in force.
pub fn platform_info(state: &PlatformState) -> (r: &PlatformInfo)
    ensures
        *r == state.info,
{
    &state.info
}

/// Redistributor frames are 128 KiB apart.
pub const GICR_FRAME_STRIDE: u64 = 0x20000;
/// The SGI frame follows the RD frame at 64 KiB.
pub const GICR_SGI_OFFSET: u64 = 0x10000;

/// RD frame of CPU `cpu_id`'s redistributor.
pub fn gicr_rd_base(info: &PlatformInfo, cpu_id: usize) -> (r: u64)
    requires
        info.gicr_base + cpu_id * GICR_FRAME_STRIDE <= u64::MAX,
    ensures
        r == info.gicr_base + cpu_id * GICR_FRAME_STRIDE,
{
    assert(cpu_id * GICR_FRAME_STRIDE <= u64::MAX);
    info.gicr_base + (cpu_id as u64) * GICR_FRAME_STRIDE
}

/// SGI frame of CPU `cpu_id`'s redistributor.
pub fn gicr_sgi_base(info: &PlatformInfo, cpu_id: usize) -> (r: u64)
    requires
        info.gicr_base + cpu_id * GICR_FRAME_STRIDE + GICR_SGI_OFFSET <= u64::MAX,
    ensures
        r == info.gicr_base + cpu_id * GICR_FRAME_STRIDE + GICR_SGI_OFFSET,
{
    gicr_rd_base(info, cpu_id) + GICR_SGI_OFFSET
}

} // verus!
