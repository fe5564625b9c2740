//! The values that make up a game state: enumerations with their protocol
//! codes, player identifiers, slots, clients and pending slot assignments.

use vstd::prelude::*;

verus! {

/// The slot number that stands for "spectator, no seat".
pub const SPECTATOR_SLOT: i32 = 255;

/// What kind of participant a lobby seat is meant for.
#[derive(Debug, Clone, Copy, PartialEq, Eq, Structural)]
pub enum SlotType {
    Closed,
    Human,
    Ai,
}

/// The playable factions.
#[derive(Debug, Clone, Copy, PartialEq, Eq, Structural)]
pub enum Faction {
    Vanguard,
    Infernals,
    Celestial,
    Blockade,
    Amara,
    Maloc,
    Warz,
    Auralanna,
}

/// The computer opponents a seat of type `Ai` can hold.
#[derive(Debug, Clone, Copy, PartialEq, Eq, Structural)]
pub enum AIType {
    PeacefulBot,
    MurderBotJr,
    MurderBotSr,
}

/// Why a client left the match.
#[derive(Debug, Clone, Copy, PartialEq, Eq, Structural)]
pub enum LeaveReason {
    Unknown,
    Surrender,
    Leave,
    Disconnect,
}

/// The slot type a protocol code stands for, if any.
pub open spec fn slot_type_of_code(code: u32) -> Option<SlotType> {
    if code == 0 {
        Some(SlotType::Closed)
    } else if code == 1 {
        Some(SlotType::Human)
    } else if code == 2 {
        Some(SlotType::Ai)
    } else {
        None
    }
}

/// The faction a protocol code stands for, if any.
pub open spec fn faction_of_code(code: u32) -> Option<Faction> {
    if code == 0 {
        Some(Faction::Vanguard)
    } else if code == 1 {
        Some(Faction::Infernals)
    } else if code == 2 {
        Some(Faction::Celestial)
    } else if code == 101 {
        Some(Faction::Blockade)
    } else if code == 102 {
        Some(Faction::Amara)
    } else if code == 201 {
        Some(Faction::Maloc)
    } else if code == 202 {
        Some(Faction::Warz)
    } else if code == 301 {
        Some(Faction::Auralanna)
    } else {
        None
    }
}

/// The computer opponent a protocol code stands for, if any.
pub open spec fn ai_type_of_code(code: u32) -> Option<AIType> {
    if code == 0 {
        Some(AIType::PeacefulBot)
    } else if code == 1 {
        Some(AIType::MurderBotJr)
    } else if code == 2 {
        Some(AIType::MurderBotSr)
    } else {
        None
    }
}

/// The leave reason a protocol code stands for; unknown codes read as `Unknown`.
pub open spec fn leave_reason_of_code(code: u32) -> LeaveReason {
    if code == 1 {
        LeaveReason::Surrender
    } else if code == 2 {
        LeaveReason::Leave
    } else if code == 3 {
        LeaveReason::Disconnect
    } else {
        LeaveReason::Unknown
    }
}

impl SlotType {
    /// The protocol code of this slot type.
    pub fn code(self) -> (r: u32)
        ensures
            slot_type_of_code(r) == Some(self),
    {
        match self {
            SlotType::Closed => 0,
            SlotType::Human => 1,
            SlotType::Ai => 2,
        }
    }

    /// The slot type with the given protocol code, or `None` for an unknown code.
    pub fn from_code(code: u32) -> (r: Option<SlotType>)
        ensures
            r == slot_type_of_code(code),
    {
        match code {
            0 => Some(SlotType::Closed),
            1 => Some(SlotType::Human),
            2 => Some(SlotType::Ai),
            _ => None,
        }
    }
}

impl Faction {
    /// The protocol code of this faction.
    pub fn code(self) -> (r: u32)
        ensures
            faction_of_code(r) == Some(self),
    {
        match self {
            Faction::Vanguard => 0,
            Faction::Infernals => 1,
            Faction::Celestial => 2,
            Faction::Blockade => 101,
            Faction::Amara => 102,
            Faction::Maloc => 201,
            Faction::Warz => 202,
            Faction::Auralanna => 301,
        }
    }

    /// The faction with the given protocol code, or `None` for an unknown code.
    pub fn from_code(code: u32) -> (r: Option<Faction>)
        ensures
            r == faction_of_code(code),
    {
        match code {
            0 => Some(Faction::Vanguard),
            1 => Some(Faction::Infernals),
            2 => Some(Faction::Celestial),
            101 => Some(Faction::Blockade),
            102 => Some(Faction::Amara),
            201 => Some(Faction::Maloc),
            202 => Some(Faction::Warz),
            301 => Some(Faction::Auralanna),
            _ => None,
        }
    }
}

impl AIType {
    /// The protocol code of this computer opponent.
    pub fn code(self) -> (r: u32)
        ensures
            ai_type_of_code(r) == Some(self),
    {
        match self {
            AIType::PeacefulBot => 0,
            AIType::MurderBotJr => 1,
            AIType::MurderBotSr => 2,
        }
    }

    /// The computer opponent with the given protocol code, or `None` for an unknown code.
    pub fn from_code(code: u32) -> (r: Option<AIType>)
        ensures
            r == ai_type_of_code(code),
    {
        match code {
            0 => Some(AIType::PeacefulBot),
            1 => Some(AIType::MurderBotJr),
            2 => Some(AIType::MurderBotSr),
            _ => None,
        }
    }
}

impl LeaveReason {
    /// The protocol code of this leave reason.
    pub fn code(self) -> (r: u32)
        ensures
            leave_reason_of_code(r) == self,
    {
        match self {
            LeaveReason::Unknown => 0,
            LeaveReason::Surrender => 1,
            LeaveReason::Leave => 2,
            LeaveReason::Disconnect => 3,
        }
    }

    /// The leave reason with the given protocol code; an unknown code gives `Unknown`.
    pub fn from_code(code: u32) -> (r: LeaveReason)
        ensures
            r == leave_reason_of_code(code),
    {
        match code {
            1 => LeaveReason::Surrender,
            2 => LeaveReason::Leave,
            3 => LeaveReason::Disconnect,
            _ => LeaveReason::Unknown,
        }
    }
}

/// A 128-bit player identifier, held as its high and low 64-bit halves.
#[derive(Debug, Clone, Copy, PartialEq, Eq, Structural, Hash)]
pub struct Uuid {
    pub part1: u64,
    pub part2: u64,
}

impl Uuid {
    /// The identifier as a pair of halves, the key under which assignments are kept.
    pub open spec fn key_spec(self) -> (u64, u64) {
        (self.part1, self.part2)
    }

    /// The key under which assignments for this identifier are kept.
    pub fn key(&self) -> (r: (u64, u64))
        ensures
            r == self.key_spec(),
    {
        (self.part1, self.part2)
    }
}

/// One seat in the match lobby.
#[derive(Debug, Clone, Copy, PartialEq, Eq, Structural)]
pub struct Slot {
    pub slot_type: SlotType,
    pub faction: Faction,
    pub ai_type: Option<AIType>,
    /// The client currently filling the seat.
    pub client_id: Option<i32>,
}

/// The seat a lobby starts with: an open human seat of the default faction.
pub open spec fn initial_slot() -> Slot {
    Slot { slot_type: SlotType::Human, faction: Faction::Vanguard, ai_type: None, client_id: None }
}

impl Default for Slot {
    fn default() -> (r: Slot)
        ensures
            r == initial_slot(),
    {
        Slot { slot_type: SlotType::Human, faction: Faction::Vanguard, ai_type: None, client_id: None }
    }
}

impl Slot {
    /// Whether the seat takes a human and nobody fills it.
    pub open spec fn is_open_human(self) -> bool {
        self.slot_type == SlotType::Human && self.client_id.is_none()
    }

    /// The seat's AI subtype is set exactly when the seat is an AI seat.
    pub open spec fn ai_consistent(self) -> bool {
        self.ai_type.is_some() == (self.slot_type == SlotType::Ai)
    }
}

/// One connected participant.
#[derive(Debug, Clone)]
pub struct Client {
    pub uuid: Uuid,
    pub client_id: i32,
    pub nickname: Option<String>,
    pub discriminator: Option<String>,
    /// The seat taken; 255 means spectator.
    pub slot_number: Option<i32>,
    pub left_game_time: Option<i32>,
    pub left_game_reason: LeaveReason,
}

/// A freshly seen client: no name, no seat, not departed.
pub open spec fn fresh_client(client_id: i32, uuid: Uuid) -> Client {
    Client {
        uuid,
        client_id,
        nickname: None,
        discriminator: None,
        slot_number: None,
        left_game_time: None,
        left_game_reason: LeaveReason::Unknown,
    }
}

impl Client {
    /// A client seen for the first time, with no name, seat or departure.
    pub fn new(client_id: i32, uuid: Uuid) -> (r: Client)
        ensures
            r == fresh_client(client_id, uuid),
    {
        Client {
            uuid,
            client_id,
            nickname: None,
            discriminator: None,
            slot_number: None,
            left_game_time: None,
            left_game_reason: LeaveReason::Unknown,
        }
    }
}

/// A pending seat and nickname for a player, announced before the client is known.
#[derive(Debug, Clone)]
pub struct SlotAssignment {
    pub slot_number: i32,
    pub nickname: String,
}

} // verus!
