use vstd::prelude::*;

use crate::game::fd4::FD4BasicHashString;
use crate::util::singleton::DLRFLocatable;

verus! {

/// The singleton that keeps the task groups of the host.
pub struct CSTaskGroup {
    pub vftable: usize,
    /// The addresses of the task groups.
    pub task_groups: [usize; 169],
}

impl DLRFLocatable for CSTaskGroup {
    const DLRF_NAME: &'static str = "CSTaskGroup";
}

/// A group of tasks that the host runs together.
pub struct CSTaskGroupIns {
    pub vftable: usize,
    pub name: FD4BasicHashString,
    pub unk48: [u8; 0x10],
}

/// A task group that is run at a fixed point of each frame.
pub struct CSTimeLineTaskGroupIns {
    pub base: CSTaskGroupIns,
    pub step_impl: usize,
    pub unk60: [u8; 0x20],
}

} // verus!
