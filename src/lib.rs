//! Reconstruction of a strategy game's lobby and match state from a recorded
//! match: the container header, the length-prefixed record framing, and the
//! event-driven simulator that folds decoded events into a [`GameState`].

pub mod container;
pub mod event;
pub mod framing;
pub mod laws;
pub mod model;
pub mod simulate;
pub mod state;

pub use container::{header_build_number, ContainerError, ReplayFile};
pub use event::{Chunk, Event, MatchType, PlayerName};
pub use framing::{encode_varint, frame_records, read_record, split_stream, FrameError};
pub use model::{AIType, Client, Faction, LeaveReason, Slot, SlotAssignment, SlotType, Uuid, SPECTATOR_SLOT};
pub use simulate::simulate;
pub use state::{
    apply_variable, first_open_human_slot, GameState, SimError, AI_TYPE_VARIABLE, FACTION_VARIABLE,
    SLOT_TYPE_VARIABLE,
};
