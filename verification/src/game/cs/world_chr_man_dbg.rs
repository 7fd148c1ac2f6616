use vstd::prelude::*;

use crate::util::singleton::DLRFLocatable;

verus! {

/// The singleton with the debugging aids of the character manager.
pub struct WorldChrManDbg {
    pub unk0: [u8; 0xa8],
    pub manipulator: usize,
    pub player_session_holder: usize,
    /// Address of the character that the camera follows in place of the
    /// player, or zero.
    pub cam_override_chr_ins: usize,
}

impl DLRFLocatable for WorldChrManDbg {
    const DLRF_NAME: &'static str = "WorldChrManDbg";
}

} // verus!
