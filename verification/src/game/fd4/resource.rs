use vstd::prelude::*;

use crate::game::fd4::basic_hash_string::FD4BasicHashString;
use crate::util::singleton::DLRFLocatable;

verus! {

/// A resource under management: a token for data that was handed over to
/// another part of the host, by which the data is unloaded again.
pub struct FD4ResCap<TRes> {
    pub header: FD4ResCapHeader,
    pub data: TRes,
}

/// What every resource starts with: its name, its holder and its place in
/// the chain of its slot.
pub struct FD4ResCapHeader {
    pub vftable: usize,
    pub name: FD4BasicHashString,
    /// Address of the holder that the resource belongs to.
    pub owning_repository: usize,
    /// Address of the next resource of the same slot, or zero.
    pub next_item: usize,
    pub reference_count: u32,
    pub pad5c: [u8; 4],
    pub debug_menu_item: usize,
}

/// A collection of resources of the host: a hash map from the hash of a
/// resource's name to a chain of resources.
///
/// The slot of a resource is the hash of its name modulo the capacity of the
/// holder. Resources that fall into one slot are chained, the newest first.
pub struct FD4ResCapHolder {
    pub vftable: usize,
    pub allocator: usize,
    pub owning_repository: usize,
    pub unk18: u32,
    /// Number of slots.
    pub capacity: u32,
    /// Address of the first slot.
    pub map: usize,
}

impl FD4ResCapHolder {
    /// Starts a walk over the resources of the holder.
    pub fn iter(&self) -> (walk: ResIterator<'_>)
        ensures
            walk.current_index == 0,
            walk.last_item is None,
            *walk.repository == *self,
    {
        ResIterator { current_index: 0, last_item: None, repository: self }
    }
}

/// A walk over the resources of a holder.
pub struct ResIterator<'a> {
    /// The slot that the walk has come to.
    pub current_index: u32,
    /// Address of the resource given last.
    pub last_item: Option<usize>,
    pub repository: &'a FD4ResCapHolder,
}

impl<'a> ResIterator<'a> {
    /// Gives the address of the next resource. The chains of the host are
    /// not followed: the walk gives nothing.
    pub fn next(&mut self) -> (item: Option<usize>)
        ensures
            item is None,
            *final(self) == *old(self),
    {
        None
    }
}

/// The singleton that keeps the visual effects.
pub struct FfxRepositoryImp {
    pub repository_res_cap: FD4ResCap<[u8; 0x10]>,
    pub map: FD4ResCapHolder,
}

impl DLRFLocatable for FfxRepositoryImp {
    const DLRF_NAME: &'static str = "FfxRepository";
}

/// The singleton that keeps the models.
pub struct FlverRepository {
    pub repository_res_cap: FD4ResCap<[u8; 0x8]>,
    pub map: FD4ResCapHolder,
}

impl DLRFLocatable for FlverRepository {
    const DLRF_NAME: &'static str = "FlverRepository";
}

} // verus!
