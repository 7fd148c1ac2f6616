use vstd::prelude::*;

use crate::game::dl::DLWString;

verus! {

/// A string together with the hash of its text.
pub struct FD4BasicHashString {
    pub vftable: usize,
    pub allocator: usize,
    pub string: DLWString,
    pub unk1: usize,
    pub hash: u32,
    /// Not zero while the hash has yet to be computed from the text.
    pub needs_hashing: u8,
    pub pad: [u8; 7],
}

} // verus!
