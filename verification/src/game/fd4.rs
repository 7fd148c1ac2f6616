pub mod basic_hash_string;
pub mod resource;

pub use basic_hash_string::FD4BasicHashString;
pub use resource::{
    FD4ResCap, FD4ResCapHeader, FD4ResCapHolder, FfxRepositoryImp, FlverRepository, ResIterator,
};
