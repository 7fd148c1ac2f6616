use vstd::prelude::*;

use crate::util::singleton::DLRFLocatable;

verus! {

/// What the session of the game world is doing.
#[derive(Clone, Copy, Debug, PartialEq, Eq)]
pub enum WorldState {
    /// Nothing is happening.
    Offline,
    /// A lobby is being created.
    CreatingLobby,
    Unk2,
    /// The player hosts a lobby, a quickmatch pooling lobby included.
    Host,
    /// The player tries to join another player, or waits in a quickmatch
    /// lobby without hosting it.
    AwaitingJoin,
    Unk5,
    /// The player is in someone else's world.
    Client,
    /// The host's lobby closes.
    ClosingLobby,
}

impl WorldState {
    /// The number that the host stores for a state.
    pub open spec fn code_of(self) -> u32 {
        match self {
            WorldState::Offline => 0,
            WorldState::CreatingLobby => 1,
            WorldState::Unk2 => 2,
            WorldState::Host => 3,
            WorldState::AwaitingJoin => 4,
            WorldState::Unk5 => 5,
            WorldState::Client => 6,
            WorldState::ClosingLobby => 7,
        }
    }

    /// The number that the host stores for this state.
    pub fn code(&self) -> (code: u32)
        ensures
            code == self.code_of(),
    {
        match self {
            WorldState::Offline => 0,
            WorldState::CreatingLobby => 1,
            WorldState::Unk2 => 2,
            WorldState::Host => 3,
            WorldState::AwaitingJoin => 4,
            WorldState::Unk5 => 5,
            WorldState::Client => 6,
            WorldState::ClosingLobby => 7,
        }
    }

    /// The state that a stored number stands for; numbers above 7 stand for
    /// none.
    pub fn from_code(code: u32) -> (state: Option<WorldState>)
        ensures
            match state {
                Some(state) => state.code_of() == code,
                None => code > 7,
            },
    {
        match code {
            0 => Some(WorldState::Offline),
            1 => Some(WorldState::CreatingLobby),
            2 => Some(WorldState::Unk2),
            3 => Some(WorldState::Host),
            4 => Some(WorldState::AwaitingJoin),
            5 => Some(WorldState::Unk5),
            6 => Some(WorldState::Client),
            7 => Some(WorldState::ClosingLobby),
            _ => None,
        }
    }
}

/// How far the exchange with the other players has come.
#[derive(Clone, Copy, Debug, PartialEq, Eq)]
pub enum ProtocolState {
    /// Nothing is happening.
    Inactive,
    AwaitingWorldData,
    Unk2,
    Unk3,
    Unk4,
    Unk5,
    InWorld,
    Unk7,
}

impl ProtocolState {
    /// The number that the host stores for a state.
    pub open spec fn code_of(self) -> u32 {
        match self {
            ProtocolState::Inactive => 0,
            ProtocolState::AwaitingWorldData => 1,
            ProtocolState::Unk2 => 2,
            ProtocolState::Unk3 => 3,
            ProtocolState::Unk4 => 4,
            ProtocolState::Unk5 => 5,
            ProtocolState::InWorld => 6,
            ProtocolState::Unk7 => 7,
        }
    }

    /// The number that the host stores for this state.
    pub fn code(&self) -> (code: u32)
        ensures
            code == self.code_of(),
    {
        match self {
            ProtocolState::Inactive => 0,
            ProtocolState::AwaitingWorldData => 1,
            ProtocolState::Unk2 => 2,
            ProtocolState::Unk3 => 3,
            ProtocolState::Unk4 => 4,
            ProtocolState::Unk5 => 5,
            ProtocolState::InWorld => 6,
            ProtocolState::Unk7 => 7,
        }
    }

    /// The state that a stored number stands for; numbers above 7 stand for
    /// none.
    pub fn from_code(code: u32) -> (state: Option<ProtocolState>)
        ensures
            match state {
                Some(state) => state.code_of() == code,
                None => code > 7,
            },
    {
        match code {
            0 => Some(ProtocolState::Inactive),
            1 => Some(ProtocolState::AwaitingWorldData),
            2 => Some(ProtocolState::Unk2),
            3 => Some(ProtocolState::Unk3),
            4 => Some(ProtocolState::Unk4),
            5 => Some(ProtocolState::Unk5),
            6 => Some(ProtocolState::InWorld),
            7 => Some(ProtocolState::Unk7),
            _ => None,
        }
    }
}

/// The singleton that keeps the state of the online session.
pub struct CSSessionManager {
    pub vftable: usize,
    pub unk0x8: u32,
    /// The stored number of a `WorldState`.
    pub world_state: u32,
    /// The stored number of a `ProtocolState`.
    pub protocol_state: u32,
}

impl DLRFLocatable for CSSessionManager {
    const DLRF_NAME: &'static str = "CSSessionManager";
}

} // verus!
