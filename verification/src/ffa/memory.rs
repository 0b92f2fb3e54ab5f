//! Page ownership for FF-A memory sharing, kept in the two software bits
//! [56:55] of a page's Stage-2 descriptor.

use vstd::prelude::*;
use crate::ffa::FFA_DENIED;

verus! {

/// Ownership state of a page.
#[derive(Clone, Copy, Debug, PartialEq, Eq, Structural)]
pub enum PageOwnership {
    /// Exclusively owned (0b00).
    Owned,
    /// Owned and shared with another partition (0b01).
    SharedOwned,
    /// Borrowed from another partition (0b10).
    SharedBorrowed,
    /// Given away (0b11).
    Donated,
}

/// The state the low two bits of `bits` encode.
pub open spec fn spec_ownership(bits: u8) -> PageOwnership {
    let b = bits & 3;
    if b == 0 {
        PageOwnership::Owned
    } else if b == 1 {
        PageOwnership::SharedOwned
    } else if b == 2 {
        PageOwnership::SharedBorrowed
    } else {
        PageOwnership::Donated
    }
}

/// The two-bit encoding of a state.
pub open spec fn spec_ownership_bits(s: PageOwnership) -> u8 {
    match s {
        PageOwnership::Owned => 0,
        PageOwnership::SharedOwned => 1,
        PageOwnership::SharedBorrowed => 2,
        PageOwnership::Donated => 3,
    }
}

impl PageOwnership {
    /// The state encoded by the low two bits of `bits`.
    pub fn from_bits(bits: u8) -> (r: Self)
        ensures
            r == spec_ownership(bits),
    {
        let b = bits & 0x3;
        if b == 0 {
            PageOwnership::Owned
        } else if b == 1 {
            PageOwnership::SharedOwned
        } else if b == 2 {
            PageOwnership::SharedBorrowed
        } else {
            PageOwnership::Donated
        }
    }

    /// The state's two-bit encoding.
    pub fn bits(&self) -> (r: u8)
        ensures
            r == spec_ownership_bits(*self),
    {
        match self {
            PageOwnership::Owned => 0,
            PageOwnership::SharedOwned => 1,
            PageOwnership::SharedBorrowed => 2,
            PageOwnership::Donated => 3,
        }
    }
}

/// A page can be shared or lent only while it is exclusively owned;
/// otherwise the request is denied.
pub fn validate_page_for_share(sw_bits: u8) -> (r: Result<(), i32>)
    ensures
        spec_ownership(sw_bits) == PageOwnership::Owned ==> r == Ok::<(), i32>(()),
        spec_ownership(sw_bits) != PageOwnership::Owned ==> r == Err::<(), i32>(FFA_DENIED),
{
    match PageOwnership::from_bits(sw_bits) {
        PageOwnership::Owned => Ok(()),
        _ => Err(FFA_DENIED),
    }
}

/// Decoding inverts encoding.
pub proof fn law_ownership_roundtrip(s: PageOwnership)
    ensures
        spec_ownership(spec_ownership_bits(s)) == s,
{
    assert(0u8 & 3 == 0 && 1u8 & 3 == 1 && 2u8 & 3 == 2 && 3u8 & 3 == 3) by (bit_vector);
}

} // verus!
