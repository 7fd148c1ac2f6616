use vstd::prelude::*;

verus! {

/// A character of the game world.
pub struct ChrIns {
    pub vftable: usize,
    pub field_ins_handle: u32,
    pub padc: u32,
    /// Address of the entry of the character set that holds this character.
    pub chr_set_entry: usize,
    pub unk18: usize,
    pub unk20: u32,
    pub unk24: u32,
    pub chr_res: usize,
    pub map_id_1: u32,
    pub map_id_origin_1: u32,
    pub map_id_2: u32,
    pub map_id_origin_2: u32,
    pub unk40: u32,
    pub unk44: u32,
    pub unk48: usize,
    pub chr_model: usize,
    /// Address of the character's `ChrCtrl`.
    pub chr_ctrl: usize,
}

/// The controller of a character.
pub struct ChrCtrl {
    pub vftable: usize,
    pub unk8: u64,
    /// Address of the `ChrIns` that this controller belongs to.
    pub owner: usize,
    pub manipulator: usize,
    pub unk20: usize,
    pub ragdoll_ins: usize,
    pub chr_collision: usize,
    pub unk38: [u8; 240],
    pub chr_ragdoll_state: u8,
}

} // verus!
