//! FF-A v1.1 memory region descriptors (DEN0077A tables 5.19-5.25) as they
//! appear in a TX buffer for MEM_SHARE / MEM_LEND, and their parsing.
//!
//! Layout (little-endian, packed):
//! - memory region, 48 bytes: sender ID at 0, attributes at 2, flags at 8,
//!   handle at 16, tag at 24, receiver count at 32, receivers offset at 36;
//! - memory access descriptor, 16 bytes: receiver ID at 0, permissions at
//!   2, flags at 3, composite offset at 4;
//! - composite region, 16 bytes: total page count at 0, range count at 4;
//! - address ranges of 16 bytes each after it: address at 0, page count at 8.

use vstd::prelude::*;
use crate::ffa::FFA_INVALID_PARAMETERS;

verus! {

/// Most address ranges kept from one descriptor.
pub const MAX_ADDR_RANGES: usize = 16;
/// Size of the memory region header.
pub const MEM_REGION_SIZE: u64 = 48;
/// Size of a memory access descriptor.
pub const MEM_ACCESS_DESC_SIZE: u64 = 16;
/// Size of the composite region header.
pub const COMPOSITE_SIZE: u64 = 16;
/// Size of an address range descriptor.
pub const ADDR_RANGE_SIZE: u64 = 16;

/// Memory region descriptor (header of a share).
#[derive(Clone, Copy, Debug)]
pub struct FfaMemRegion {
    pub sender_id: u16,
    pub attributes: u16,
    pub reserved_0: u32,
    pub flags: u32,
    pub handle: u64,
    pub tag: u64,
    pub reserved_1: u32,
    pub receiver_count: u32,
    pub receivers_offset: u32,
    pub reserved_2: u32,
}

/// Memory access permission descriptor (one per receiver).
#[derive(Clone, Copy, Debug)]
pub struct FfaMemAccessDesc {
    pub receiver_id: u16,
    pub permissions: u8,
    pub flags: u8,
    pub composite_offset: u32,
    pub reserved: u64,
}

/// Composite memory region descriptor header.
#[derive(Clone, Copy, Debug)]
pub struct FfaCompositeMemRegion {
    pub total_page_count: u32,
    pub address_range_count: u32,
    pub reserved: u64,
}

/// Address range descriptor.
#[derive(Clone, Copy, Debug)]
pub struct FfaMemRegionAddrRange {
    pub address: u64,
    pub page_count: u32,
    pub reserved: u32,
}

/// What a parsed share descriptor says.
#[derive(Clone, Copy, Debug)]
pub struct ParsedMemRegion {
    pub sender_id: u16,
    pub receiver_id: u16,
    pub flags: u32,
    /// (base IPA, page count) of each range; the first `range_count` are valid.
    pub ranges: [(u64, u32); 16],
    pub range_count: usize,
    pub total_page_count: u32,
}

/// Little-endian 16-bit value at `off`.
pub open spec fn le16(b: Seq<u8>, off: int) -> u16 {
    ((b[off] as u16) | ((b[off + 1] as u16) << 8u16)) as u16
}

/// Little-endian 32-bit value at `off`.
pub open spec fn le32(b: Seq<u8>, off: int) -> u32 {
    ((b[off] as u32) | ((b[off + 1] as u32) << 8u32) | ((b[off + 2] as u32) << 16u32)
        | ((b[off + 3] as u32) << 24u32)) as u32
}

/// Little-endian 64-bit value at `off`.
pub open spec fn le64(b: Seq<u8>, off: int) -> u64 {
    ((le32(b, off) as u64) | ((le32(b, off + 4) as u64) << 32u64)) as u64
}

pub(crate) fn read_le16(b: &[u8], off: usize) -> (r: u16)
    requires
        off + 2 <= b@.len(),
    ensures
        r == le16(b@, off as int),
{
    (b[off] as u16) | ((b[off + 1] as u16) << 8)
}

pub(crate) fn read_le32(b: &[u8], off: usize) -> (r: u32)
    requires
        off + 4 <= b@.len(),
    ensures
        r == le32(b@, off as int),
{
    (b[off] as u32) | ((b[off + 1] as u32) << 8) | ((b[off + 2] as u32) << 16) | ((b[off + 3] as u32) << 24)
}

fn read_le64(b: &[u8], off: usize) -> (r: u64)
    requires
        off + 8 <= b@.len(),
        off + 8 <= u32::MAX,
    ensures
        r == le64(b@, off as int),
{
    (read_le32(b, off) as u64) | ((read_le32(b, off + 4) as u64) << 32)
}

/// Offset of the access descriptor.
pub open spec fn desc_access_off(b: Seq<u8>) -> int {
    le32(b, 36) as int
}

/// Offset of the composite descriptor.
pub open spec fn desc_comp_off(b: Seq<u8>) -> int {
    le32(b, desc_access_off(b) + 4) as int
}

/// Number of ranges read: the range count, at most `MAX_ADDR_RANGES`.
pub open spec fn desc_range_count(b: Seq<u8>) -> int {
    let n = le32(b, desc_comp_off(b) + 4) as int;
    if n < MAX_ADDR_RANGES { n } else { MAX_ADDR_RANGES as int }
}

/// Offset of range `i`.
pub open spec fn desc_range_off(b: Seq<u8>, i: int) -> int {
    desc_comp_off(b) + COMPOSITE_SIZE + i * ADDR_RANGE_SIZE
}

/// Range `i` lies inside the descriptor and its address is page aligned.
pub open spec fn desc_range_ok(b: Seq<u8>, total: int, i: int) -> bool {
    desc_range_off(b, i) + ADDR_RANGE_SIZE <= total && le64(b, desc_range_off(b, i)) & 0xFFF == 0
}

/// The descriptor of `total` bytes in `b` is one this parser accepts: a
/// single receiver, every part within bounds, at least one range, and every
/// range read (up to `MAX_ADDR_RANGES`) page aligned.
pub open spec fn desc_valid(b: Seq<u8>, total: int) -> bool {
    &&& total >= MEM_REGION_SIZE
    &&& le32(b, 32) == 1
    &&& desc_access_off(b) + MEM_ACCESS_DESC_SIZE <= total
    &&& desc_comp_off(b) + COMPOSITE_SIZE <= total
    &&& le32(b, desc_comp_off(b) + 4) != 0
    &&& forall|i: int| 0 <= i < desc_range_count(b) ==> #[trigger] desc_range_ok(b, total, i)
}

/// Parse the share descriptor in the first `total_length` bytes of `buf`.
/// Every failure is `FFA_INVALID_PARAMETERS`. Only the first
/// `MAX_ADDR_RANGES` ranges are read.
pub fn parse_mem_region(buf: &[u8], total_length: u32) -> (r: Result<ParsedMemRegion, i32>)
    requires
        buf@.len() >= total_length,
    ensures
        !desc_valid(buf@, total_length as int) ==> r == Err::<ParsedMemRegion, i32>(FFA_INVALID_PARAMETERS),
        desc_valid(buf@, total_length as int) ==> r is Ok && ({
            let p = r->Ok_0;
            let b = buf@;
            &&& p.sender_id == le16(b, 0)
            &&& p.receiver_id == le16(b, desc_access_off(b))
            &&& p.flags == le32(b, 8)
            &&& p.total_page_count == le32(b, desc_comp_off(b))
            &&& p.range_count == desc_range_count(b)
            &&& forall|i: int| 0 <= i < p.range_count ==> #[trigger] p.ranges@[i]
                == (le64(b, desc_range_off(b, i)), le32(b, desc_range_off(b, i) + 8))
        }),
{
    let total = total_length as u64;
    if total < MEM_REGION_SIZE {
        return Err(FFA_INVALID_PARAMETERS);
    }
    let sender_id = read_le16(buf, 0);
    let flags = read_le32(buf, 8);
    let receiver_count = read_le32(buf, 32);
    let receivers_offset = read_le32(buf, 36);
    if receiver_count == 0 || receiver_count > 1 {
        return Err(FFA_INVALID_PARAMETERS);
    }
    let access_offset = receivers_offset as u64;
    if access_offset + MEM_ACCESS_DESC_SIZE > total {
        return Err(FFA_INVALID_PARAMETERS);
    }
    let receiver_id = read_le16(buf, access_offset as usize);
    let composite_offset = read_le32(buf, (access_offset + 4) as usize);
    let comp_offset = composite_offset as u64;
    let comp_end = comp_offset + COMPOSITE_SIZE;
    if comp_end > total {
        return Err(FFA_INVALID_PARAMETERS);
    }
    let total_page_count = read_le32(buf, comp_offset as usize);
    let address_range_count = read_le32(buf, (comp_offset + 4) as usize);
    if address_range_count == 0 {
        return Err(FFA_INVALID_PARAMETERS);
    }
    let count: usize = if (address_range_count as usize) < MAX_ADDR_RANGES {
        address_range_count as usize
    } else {
        MAX_ADDR_RANGES
    };
    let mut ranges: [(u64, u32); 16] = [(0u64, 0u32); 16];
    let mut i: usize = 0;
    while i < count
        invariant
            i <= count,
            count == desc_range_count(buf@),
            count <= MAX_ADDR_RANGES,
            total == total_length,
            buf@.len() >= total,
            comp_offset == desc_comp_off(buf@),
            comp_end == comp_offset + COMPOSITE_SIZE,
            comp_end <= total,
            forall|k: int| 0 <= k < i ==> #[trigger] desc_range_ok(buf@, total as int, k),
            forall|k: int| 0 <= k < i ==> #[trigger] ranges@[k]
                == (le64(buf@, desc_range_off(buf@, k)), le32(buf@, desc_range_off(buf@, k) + 8)),
        decreases count - i,
    {
        let range_off = comp_end + (i as u64) * ADDR_RANGE_SIZE;
        assert(range_off == desc_range_off(buf@, i as int));
        if range_off + ADDR_RANGE_SIZE > total {
            assert(!desc_range_ok(buf@, total as int, i as int));
            return Err(FFA_INVALID_PARAMETERS);
        }
        let address = read_le64(buf, range_off as usize);
        let page_count = read_le32(buf, (range_off + 8) as usize);
        if address & 0xFFF != 0 {
            assert(!desc_range_ok(buf@, total as int, i as int));
            return Err(FFA_INVALID_PARAMETERS);
        }
        ranges[i] = (address, page_count);
        i = i + 1;
    }
    Ok(ParsedMemRegion {
        sender_id,
        receiver_id,
        flags,
        ranges,
        range_count: count,
        total_page_count,
    })
}

} // verus!
