use vstd::prelude::*;

use crate::game::dl::DLPlainLightMutex;
use crate::game::fd4::{FD4ResCap, FD4ResCapHolder};

verus! {

/// The file system of the host.
pub struct CSFile {
    pub vftable: usize,
    /// Address of the first file repository.
    pub file_repository_1: usize,
}

/// A repository of files.
pub struct CSFileRepository {
    pub repository_res_cap: FD4ResCap<[u8; 0x10]>,
    pub holder1: FD4ResCapHolder,
    pub holder2: FD4ResCapHolder,
    pub unkc8_allocator: usize,
    pub unkd0_tree_pointer: usize,
    pub unkd8_tree_size: u32,
    pub unkdc_tree_pad: u32,
    /// The addresses of the five `CSFileRepositoryMutex` of the repository.
    pub mutexes: [usize; 5],
    pub unk108: usize,
    pub unk110: usize,
    pub unk118: usize,
    pub unk120: usize,
    pub unk128: usize,
}

/// One of the locks of a file repository.
pub struct CSFileRepositoryMutex {
    pub mutex: DLPlainLightMutex,
    pub unk30: u32,
    pub unk34: u32,
    pub unk38: u32,
    pub unk3c: u32,
    pub unk40: usize,
    pub unk48: usize,
}

} // verus!
