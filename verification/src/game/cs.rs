pub mod chr_ins;
pub mod file;
pub mod session_manager;
pub mod task_group;
pub mod world_chr_man;
pub mod world_chr_man_dbg;

pub use chr_ins::{ChrCtrl, ChrIns};
pub use file::{CSFile, CSFileRepository, CSFileRepositoryMutex};
pub use session_manager::{CSSessionManager, ProtocolState, WorldState};
pub use task_group::{CSTaskGroup, CSTaskGroupIns, CSTimeLineTaskGroupIns};
pub use world_chr_man::{
    ChrSet, ChrSetEntry, ChrSetIter, ChrSetIterElement, MapId, OpenFieldChrSetList1Entry,
    OpenFieldChrSetList2Entry, UnkBtree, WorldAreaChr, WorldAreaChrBase, WorldBlockChr,
    WorldGridAreaChr,
};
pub use world_chr_man_dbg::WorldChrManDbg;
