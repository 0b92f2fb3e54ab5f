//! Decoding of the load/store that caused a data abort on an emulated
//! MMIO region, from the syndrome or from the instruction itself.

use vstd::prelude::*;
use vstd::arithmetic::power2::{lemma2_to64, pow2};

verus! {

/// A decoded load or store.
#[derive(Clone, Copy, Debug, PartialEq, Eq, Structural)]
pub enum MmioAccess {
    /// Load into register `reg` (0-30, 31 = xzr) of `size` bytes.
    Load { reg: u8, size: u8, sign_extend: bool },
    /// Store from register `reg` of `size` bytes.
    Store { reg: u8, size: u8 },
}

/// Access size in bytes of a size field (0 = byte ... 3 = doubleword).
pub open spec fn size_of_field(f: u32) -> u8 {
    if f == 0 {
        1
    } else if f == 1 {
        2
    } else if f == 2 {
        4
    } else {
        8
    }
}

/// Decoding from a valid syndrome (ISV set): SAS, SRT, SSE and WnR.
pub open spec fn decode_iss(iss: u32) -> MmioAccess {
    let size = size_of_field((iss >> 22u32) & 3);
    let srt = ((iss >> 16u32) & 0x1F) as u8;
    if (iss >> 6u32) & 1 == 1 {
        MmioAccess::Store { reg: srt, size }
    } else {
        MmioAccess::Load { reg: srt, size, sign_extend: (iss >> 23u32) & 1 != 0 }
    }
}

/// Decoding from the instruction: only LDR/STR (unsigned immediate offset)
/// are recognised.
pub open spec fn decode_insn(insn: u32) -> Option<MmioAccess> {
    if insn & 0x3B00_0000 == 0x3900_0000 {
        let size = size_of_field((insn >> 30u32) & 3);
        let rt = (insn & 0x1F) as u8;
        if (insn >> 22u32) & 1 == 1 {
            Some(MmioAccess::Load { reg: rt, size, sign_extend: false })
        } else {
            Some(MmioAccess::Store { reg: rt, size })
        }
    } else {
        None
    }
}

/// The access decoded from syndrome `iss`, falling back to the instruction
/// when the syndrome carries no valid description.
pub open spec fn spec_decode(insn: u32, iss: u32) -> Option<MmioAccess> {
    if (iss >> 24u32) & 1 == 0 {
        decode_insn(insn)
    } else {
        Some(decode_iss(iss))
    }
}

/// The two-bit size fields of a syndrome and of an instruction are below 4.
proof fn lemma_two_bit_fields(iss: u32, insn: u32)
    by (bit_vector)
    ensures
        (iss >> 22u32) & 3u32 <= 3,
        (insn >> 30u32) & 3u32 <= 3,
        (iss >> 16u32) & 0x1Fu32 <= 31,
        insn & 0x1Fu32 <= 31,
{
}

/// Size in bytes of a decoded access.
pub open spec fn access_size(a: MmioAccess) -> u8 {
    match a {
        MmioAccess::Load { size, .. } => size,
        MmioAccess::Store { size, .. } => size,
    }
}

/// Register of a decoded access.
pub open spec fn access_reg(a: MmioAccess) -> u8 {
    match a {
        MmioAccess::Load { reg, .. } => reg,
        MmioAccess::Store { reg, .. } => reg,
    }
}

/// With a valid syndrome (ISV, bit 24, set) the access is a store exactly when
/// WnR (bit 6) is set, names register SRT (bits 20:16), and moves
/// 2^SAS bytes (SAS in bits 23:22: 1, 2, 4 or 8). Without one, a
/// recognised load/store instruction moves 2^size bytes (size in bits
/// 31:30) through register Rt (bits 4:0).
pub proof fn law_decoded_access_size(insn: u32, iss: u32)
    ensures
        (iss >> 24u32) & 1 != 0 ==> (spec_decode(insn, iss) matches Some(a)
            && access_size(a) as nat == pow2(((iss >> 22u32) & 3) as nat)
            && access_reg(a) as u32 == (iss >> 16u32) & 0x1F
            && (a is Store <==> (iss >> 6u32) & 1 == 1)),
        (iss >> 24u32) & 1 == 0 ==> match spec_decode(insn, iss) {
            Some(a) => access_size(a) as nat == pow2(((insn >> 30u32) & 3) as nat)
                && access_reg(a) as u32 == insn & 0x1F,
            None => true,
        },
{
    lemma_two_bit_fields(iss, insn);
    lemma2_to64();
    let sas = (iss >> 22u32) & 3;
    let sz = (insn >> 30u32) & 3;
    assert(sas == 0 || sas == 1 || sas == 2 || sas == 3);
    assert(sz == 0 || sz == 1 || sz == 2 || sz == 3);
}

fn size_bytes(f: u32) -> (r: u8)
    requires
        f <= 3,
    ensures
        r == size_of_field(f),
{
    if f == 0 {
        1
    } else if f == 1 {
        2
    } else if f == 2 {
        4
    } else {
        8
    }
}

impl MmioAccess {
    /// Decode the access from the faulting instruction `insn` and the
    /// syndrome `iss` of ESR_EL2.
    pub fn decode(insn: u32, iss: u32) -> (r: Option<Self>)
        ensures
            r == spec_decode(insn, iss),
    {
        let isv = (iss >> 24) & 1;
        if isv == 0 {
            return Self::decode_instruction(insn);
        }
        let sas = (iss >> 22) & 0x3;
        let srt = (iss >> 16) & 0x1F;
        let wnr = (iss >> 6) & 1;
        let sext = (iss >> 23) & 1;
        proof { lemma_two_bit_fields(iss, 0); }
        let size = size_bytes(sas);
        if wnr == 1 {
            Some(MmioAccess::Store { reg: srt as u8, size })
        } else {
            Some(MmioAccess::Load { reg: srt as u8, size, sign_extend: sext != 0 })
        }
    }

    /// Decode LDR/STR (unsigned immediate) from the instruction encoding.
    fn decode_instruction(insn: u32) -> (r: Option<Self>)
        ensures
            r == decode_insn(insn),
    {
        if (insn & 0x3B00_0000) == 0x3900_0000 {
            let size_bits = (insn >> 30) & 0x3;
            proof { lemma_two_bit_fields(0, insn); }
            let size = size_bytes(size_bits);
            let rt = (insn & 0x1F) as u8;
            let is_load = (insn >> 22) & 1;
            if is_load == 1 {
                Some(MmioAccess::Load { reg: rt, size, sign_extend: false })
            } else {
                Some(MmioAccess::Store { reg: rt, size })
            }
        } else {
            None
        }
    }

    /// Register number of the access.
    pub fn reg(&self) -> (r: u8)
        ensures
            r == match *self {
                MmioAccess::Load { reg, .. } => reg,
                MmioAccess::Store { reg, .. } => reg,
            },
    {
        match self {
            MmioAccess::Load { reg, .. } => *reg,
            MmioAccess::Store { reg, .. } => *reg,
        }
    }

    /// Size of the access in bytes.
    pub fn size(&self) -> (r: u8)
        ensures
            r == match *self {
                MmioAccess::Load { size, .. } => size,
                MmioAccess::Store { size, .. } => size,
            },
    {
        match self {
            MmioAccess::Load { size, .. } => *size,
            MmioAccess::Store { size, .. } => *size,
        }
    }

    /// Whether the access is a load.
    pub fn is_load(&self) -> (r: bool)
        ensures
            r == (*self is Load),
    {
        match self {
            MmioAccess::Load { .. } => true,
            MmioAccess::Store { .. } => false,
        }
    }

    /// Whether the access is a store.
    pub fn is_store(&self) -> (r: bool)
        ensures
            r == (*self is Store),
    {
        match self {
            MmioAccess::Load { .. } => false,
            MmioAccess::Store { .. } => true,
        }
    }
}

/// Every decoded access is 1, 2, 4 or 8 bytes wide and names a register
/// below 32.
pub proof fn law_decoded_access_shape(insn: u32, iss: u32)
    ensures
        match spec_decode(insn, iss) {
            Some(a) => {
                let (reg, size) = match a {
                    MmioAccess::Load { reg, size, .. } => (reg, size),
                    MmioAccess::Store { reg, size } => (reg, size),
                };
                &&& size == 1 || size == 2 || size == 4 || size == 8
                &&& reg < 32
            },
            None => true,
        },
{
    assert((iss >> 16u32) & 0x1Fu32 < 32) by (bit_vector);
    assert(insn & 0x1Fu32 < 32) by (bit_vector);
}

} // verus!
