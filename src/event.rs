//! The decoded protocol events that drive the simulator.

use vstd::prelude::*;

use crate::model::{LeaveReason, Uuid};

verus! {

/// The match type announced with the map.
#[derive(Debug, Clone, Copy, PartialEq, Eq, Structural)]
pub enum MatchType {
    Ranked1v1,
    Coop3vE,
    Other,
}

/// The number of seats a match type's lobby has.
pub open spec fn slot_count(match_type: MatchType) -> nat {
    match match_type {
        MatchType::Coop3vE => 3,
        _ => 2,
    }
}

impl MatchType {
    /// The number of seats this match type's lobby has.
    pub fn slot_count(self) -> (r: usize)
        ensures
            r == slot_count(self),
    {
        match self {
            MatchType::Coop3vE => 3,
            _ => 2,
        }
    }
}

/// A player's display name.
#[derive(Debug, Clone)]
pub struct PlayerName {
    pub nickname: String,
    pub discriminator: String,
}

/// The payload of one recorded protocol record.
#[derive(Debug, Clone)]
pub enum Event {
    MapDetails { map_name: String, match_type: MatchType },
    AssignPlayerSlot { uuid: Option<Uuid>, slot: i32, nickname: String },
    Player { uuid: Option<Uuid>, name: Option<PlayerName> },
    ClientConnected { uuid: Option<Uuid>, client_id: i32 },
    PlayerLeftGame { reason: LeaveReason },
    ClientDisconnected { client_id: i32, player_uuid: Option<Uuid>, reason: LeaveReason },
    /// `choice` is `None` when the client asks for the first open seat.
    ChangeSlot { choice: Option<i32> },
    SetVariable { slot: i32, variable_id: u32, value: u32 },
    StartGame,
}

/// One decoded record: when it was sent, by which client, and its payload,
/// which is absent when the record carries none.
#[derive(Debug, Clone)]
pub struct Chunk {
    pub timestamp: i32,
    pub client_id: i32,
    pub content: Option<Event>,
}

} // verus!
