//! The game state and the simulator's single step: how one decoded record
//! changes the state, stated over [`GameView`] and carried out on [`GameState`].

use std::collections::BTreeMap;

use vstd::prelude::*;

use crate::event::{slot_count, Chunk, Event, MatchType, PlayerName};
use crate::model::{
    ai_type_of_code, faction_of_code, fresh_client, initial_slot, slot_type_of_code, AIType, Client,
    Faction, LeaveReason, Slot, SlotAssignment, SlotType, Uuid, SPECTATOR_SLOT,
};

verus! {

/// Protocol variable that sets a seat's type.
pub const SLOT_TYPE_VARIABLE: u32 = 374945738;

/// Protocol variable that sets a seat's faction.
pub const FACTION_VARIABLE: u32 = 2952722564;

/// Protocol variable that sets a seat's computer opponent.
pub const AI_TYPE_VARIABLE: u32 = 655515685;

/// A protocol or ordering fault that stops the simulation.
#[derive(Debug, Clone, Copy, PartialEq, Eq, Structural)]
pub enum SimError {
    /// A slot change arrived before any map was loaded.
    SlotChangeBeforeMap,
    /// A slot change came from a client that is not known.
    UnknownClient(i32),
    /// A slot number that names no seat.
    SlotOutOfRange(i32),
    /// A client was put in a seat that is not a free human seat.
    SlotUnavailable(i32),
    /// A disconnect named a player other than the one the client belongs to.
    PlayerMismatch(i32),
}

/// The mathematical value of a game state. Seat `n` is `slots[n - 1]`.
pub ghost struct GameView {
    pub map_name: Option<String>,
    pub slots: Seq<Slot>,
    pub clients: Map<i32, Client>,
    pub game_started: bool,
    pub game_started_time: Option<i32>,
    pub slot_assignments: Map<(u64, u64), SlotAssignment>,
}

/// The lobby and match state reconstructed from a recording.
///
/// Seats are numbered from 1: seat `n` is `slots[n - 1]`.
pub struct GameState {
    pub map_name: Option<String>,
    pub slots: Vec<Slot>,
    pub clients: BTreeMap<i32, Client>,
    pub game_started: bool,
    pub game_started_time: Option<i32>,
    pub slot_assignments: BTreeMap<(u64, u64), SlotAssignment>,
}

impl View for GameState {
    type V = GameView;

    open spec fn view(&self) -> GameView {
        GameView {
            map_name: self.map_name,
            slots: self.slots@,
            clients: self.clients@,
            game_started: self.game_started,
            game_started_time: self.game_started_time,
            slot_assignments: self.slot_assignments@,
        }
    }
}

/// The state before any record: no map, no seats, no clients, not started.
pub open spec fn initial_view() -> GameView {
    GameView {
        map_name: None,
        slots: Seq::empty(),
        clients: Map::empty(),
        game_started: false,
        game_started_time: None,
        slot_assignments: Map::empty(),
    }
}

/// A state is well formed when every seat number stays below the spectator number.
pub open spec fn view_wf(s: GameView) -> bool {
    s.slots.len() < 255
}

/// Whether `n` numbers a seat.
pub open spec fn slot_in_range(slots: Seq<Slot>, n: i32) -> bool {
    1 <= n <= slots.len()
}

/// A seat with its occupant replaced.
pub open spec fn with_occupant(s: Slot, occupant: Option<i32>) -> Slot {
    Slot { slot_type: s.slot_type, faction: s.faction, ai_type: s.ai_type, client_id: occupant }
}

/// The seats with seat `n` filled by `client_id`.
pub open spec fn occupy(slots: Seq<Slot>, n: i32, client_id: i32) -> Seq<Slot> {
    slots.update(n - 1, with_occupant(slots[n - 1], Some(client_id)))
}

/// The seats with seat `n` emptied.
pub open spec fn vacate(slots: Seq<Slot>, n: i32) -> Seq<Slot> {
    slots.update(n - 1, with_occupant(slots[n - 1], None))
}

/// The seats with every seat that `client_id` fills emptied.
pub open spec fn vacate_client(slots: Seq<Slot>, client_id: i32) -> Seq<Slot> {
    Seq::new(
        slots.len(),
        |i: int|
            if slots[i].client_id == Some(client_id) {
                with_occupant(slots[i], None)
            } else {
                slots[i]
            },
    )
}

/// The seats after a map with `n` seats is loaded: seats `1..=n` start afresh,
/// any seat beyond them is kept.
pub open spec fn reset_slots(slots: Seq<Slot>, n: nat) -> Seq<Slot> {
    Seq::new(
        if slots.len() > n {
            slots.len()
        } else {
            n
        },
        |i: int|
            if i < n {
                initial_slot()
            } else {
                slots[i]
            },
    )
}

/// The number of the first open human seat at index `i` or later, or the
/// spectator number when there is none.
pub open spec fn first_open_from(slots: Seq<Slot>, i: int) -> int
    decreases slots.len() - i,
{
    if i < 0 || i >= slots.len() {
        SPECTATOR_SLOT as int
    } else if slots[i].is_open_human() {
        i + 1
    } else {
        first_open_from(slots, i + 1)
    }
}

/// The number of the lowest-numbered open human seat, or the spectator number.
pub open spec fn first_open_seat(slots: Seq<Slot>) -> int {
    first_open_from(slots, 0)
}

/// The state with the seats replaced.
pub open spec fn with_slots(s: GameView, slots: Seq<Slot>) -> GameView {
    GameView { slots, ..s }
}

/// The state with the client table replaced.
pub open spec fn with_clients(s: GameView, clients: Map<i32, Client>) -> GameView {
    GameView { clients, ..s }
}

/// A client record marked as departed.
pub open spec fn departed(c: Client, timestamp: i32, reason: LeaveReason) -> Client {
    Client { left_game_time: Some(timestamp), left_game_reason: reason, ..c }
}

/// A client record with a seat number.
pub open spec fn seated(c: Client, n: i32) -> Client {
    Client { slot_number: Some(n), ..c }
}

/// `MapDetails`: name the map and lay out the match type's seats.
pub open spec fn step_map_details(s: GameView, map_name: String, match_type: MatchType) -> GameView {
    GameView { map_name: Some(map_name), slots: reset_slots(s.slots, slot_count(match_type)), ..s }
}

/// `AssignPlayerSlot`: record the pending seat and nickname of a player.
pub open spec fn step_assign(s: GameView, uuid: Option<Uuid>, slot: i32, nickname: String) -> GameView {
    match uuid {
        None => s,
        Some(u) => GameView {
            slot_assignments: s.slot_assignments.insert(
                u.key_spec(),
                SlotAssignment { slot_number: slot, nickname },
            ),
            ..s
        },
    }
}

/// `Player`: (re)create the acting client, freeing any seat it held, and seat
/// it by its pending assignment if any.
pub open spec fn step_player(s: GameView, client_id: i32, uuid: Option<Uuid>, name: Option<PlayerName>) -> Result<GameView, SimError> {
    match uuid {
        None => Ok(s),
        Some(u) => {
            let named = Client {
                nickname: match name {
                    Some(n) => Some(n.nickname),
                    None => None,
                },
                discriminator: match name {
                    Some(n) => Some(n.discriminator),
                    None => None,
                },
                ..fresh_client(client_id, u)
            };
            let freed = vacate_client(s.slots, client_id);
            if s.slot_assignments.contains_key(u.key_spec()) {
                let n = s.slot_assignments[u.key_spec()].slot_number;
                if !slot_in_range(s.slots, n) {
                    Err(SimError::SlotOutOfRange(n))
                } else {
                    Ok(GameView {
                        slots: occupy(freed, n, client_id),
                        clients: s.clients.insert(client_id, seated(named, n)),
                        ..s
                    })
                }
            } else {
                Ok(GameView { slots: freed, clients: s.clients.insert(client_id, named), ..s })
            }
        },
    }
}

/// `ClientConnected`: (re)create the announced client, freeing any seat it held,
/// and take seat and nickname from its pending assignment if any; an assignment
/// naming no seat seats nobody.
pub open spec fn step_connected(s: GameView, uuid: Option<Uuid>, client_id: i32) -> GameView {
    match uuid {
        None => s,
        Some(u) => {
            let freed = vacate_client(s.slots, client_id);
            if s.slot_assignments.contains_key(u.key_spec()) {
                let a = s.slot_assignments[u.key_spec()];
                let c = Client {
                    nickname: Some(a.nickname),
                    slot_number: Some(a.slot_number),
                    ..fresh_client(client_id, u)
                };
                GameView {
                    slots: if slot_in_range(freed, a.slot_number) {
                        occupy(freed, a.slot_number, client_id)
                    } else {
                        freed
                    },
                    clients: s.clients.insert(client_id, c),
                    ..s
                }
            } else {
                GameView { slots: freed, clients: s.clients.insert(client_id, fresh_client(client_id, u)), ..s }
            }
        },
    }
}

/// `PlayerLeftGame`: after the start, mark the client departed; before it,
/// forget the client and free its seats.
pub open spec fn step_left(s: GameView, timestamp: i32, client_id: i32, reason: LeaveReason) -> GameView {
    if s.game_started {
        if s.clients.contains_key(client_id) {
            with_clients(s, s.clients.insert(client_id, departed(s.clients[client_id], timestamp, reason)))
        } else {
            s
        }
    } else {
        GameView {
            clients: s.clients.remove(client_id),
            slots: vacate_client(s.slots, client_id),
            ..s
        }
    }
}

/// `ClientDisconnected`: after the start, mark a client that has not yet left
/// as departed, provided the named player is the client's own.
pub open spec fn step_disconnected(
    s: GameView,
    timestamp: i32,
    client_id: i32,
    player_uuid: Option<Uuid>,
    reason: LeaveReason,
) -> Result<GameView, SimError> {
    if s.game_started && s.clients.contains_key(client_id)
        && s.clients[client_id].left_game_time is None {
        if player_uuid != Some(s.clients[client_id].uuid) {
            Err(SimError::PlayerMismatch(client_id))
        } else {
            Ok(with_clients(s, s.clients.insert(client_id, departed(s.clients[client_id], timestamp, reason))))
        }
    } else {
        Ok(s)
    }
}

/// `ChangeSlot`: move the acting client out of its seat and into the chosen
/// one, or the first open human seat when none is chosen.
pub open spec fn step_change_slot(s: GameView, client_id: i32, choice: Option<i32>) -> Result<GameView, SimError> {
    if s.slots.len() == 0 {
        Err(SimError::SlotChangeBeforeMap)
    } else if !s.clients.contains_key(client_id) {
        Err(SimError::UnknownClient(client_id))
    } else {
        let c = s.clients[client_id];
        let prev_out = match c.slot_number {
            Some(p) => p != SPECTATOR_SLOT && !slot_in_range(s.slots, p),
            None => false,
        };
        if prev_out {
            Err(SimError::SlotOutOfRange(c.slot_number.unwrap()))
        } else {
            let freed = match c.slot_number {
                Some(p) => if p != SPECTATOR_SLOT {
                    vacate(s.slots, p)
                } else {
                    s.slots
                },
                None => s.slots,
            };
            let n = match choice {
                Some(n) => n,
                None => first_open_seat(freed) as i32,
            };
            let clients = s.clients.insert(client_id, seated(c, n));
            if n == SPECTATOR_SLOT {
                Ok(GameView { slots: freed, clients, ..s })
            } else if !slot_in_range(freed, n) {
                Err(SimError::SlotOutOfRange(n))
            } else if !freed[n - 1].is_open_human() {
                Err(SimError::SlotUnavailable(n))
            } else {
                Ok(GameView { slots: occupy(freed, n, client_id), clients, ..s })
            }
        }
    }
}

/// The seat after a variable of it is set; unknown variables and values change
/// nothing, and an AI subtype is taken only by an AI seat.
pub open spec fn slot_with_variable(slot: Slot, variable_id: u32, value: u32) -> Slot {
    if variable_id == SLOT_TYPE_VARIABLE {
        match slot_type_of_code(value) {
            Some(t) => Slot {
                slot_type: t,
                ai_type: if t == SlotType::Ai {
                    Some(AIType::PeacefulBot)
                } else {
                    None
                },
                ..slot
            },
            None => slot,
        }
    } else if variable_id == FACTION_VARIABLE {
        match faction_of_code(value) {
            Some(f) => Slot { faction: f, ..slot },
            None => slot,
        }
    } else if variable_id == AI_TYPE_VARIABLE {
        match ai_type_of_code(value) {
            Some(a) => if slot.slot_type == SlotType::Ai {
                Slot { ai_type: Some(a), ..slot }
            } else {
                slot
            },
            None => slot,
        }
    } else {
        slot
    }
}

/// `SetVariable`: set a variable of a seat that must exist.
pub open spec fn step_set_variable(s: GameView, slot: i32, variable_id: u32, value: u32) -> Result<GameView, SimError> {
    if !slot_in_range(s.slots, slot) {
        Err(SimError::SlotOutOfRange(slot))
    } else {
        Ok(with_slots(s, s.slots.update(slot - 1, slot_with_variable(s.slots[slot - 1], variable_id, value))))
    }
}

/// The state after one event sent by `client_id` at `timestamp`, or the fault it raises.
pub open spec fn step(s: GameView, timestamp: i32, client_id: i32, e: Event) -> Result<GameView, SimError> {
    match e {
        Event::MapDetails { map_name, match_type } => Ok(step_map_details(s, map_name, match_type)),
        Event::AssignPlayerSlot { uuid, slot, nickname } => Ok(step_assign(s, uuid, slot, nickname)),
        Event::Player { uuid, name } => step_player(s, client_id, uuid, name),
        Event::ClientConnected { uuid, client_id: announced } => Ok(step_connected(s, uuid, announced)),
        Event::PlayerLeftGame { reason } => Ok(step_left(s, timestamp, client_id, reason)),
        Event::ClientDisconnected { client_id: target, player_uuid, reason } =>
            step_disconnected(s, timestamp, target, player_uuid, reason),
        Event::ChangeSlot { choice } => step_change_slot(s, client_id, choice),
        Event::SetVariable { slot, variable_id, value } => step_set_variable(s, slot, variable_id, value),
        Event::StartGame => Ok(GameView { game_started: true, game_started_time: Some(timestamp), ..s }),
    }
}

/// The state after one record; a record without payload changes nothing.
pub open spec fn step_chunk(s: GameView, c: Chunk) -> Result<GameView, SimError> {
    match c.content {
        None => Ok(s),
        Some(e) => step(s, c.timestamp, c.client_id, e),
    }
}

/// The number of the lowest-numbered open human seat, or 255 when every
/// human seat is taken.
pub fn first_open_human_slot(slots: &Vec<Slot>) -> (r: i32)
    requires
        slots@.len() < 255,
    ensures
        r as int == first_open_seat(slots@),
{
    let mut i: usize = 0;
    while i < slots.len()
        invariant
            0 <= i <= slots@.len() < 255,
            first_open_from(slots@, i as int) == first_open_seat(slots@),
        decreases slots@.len() - i,
    {
        if slots[i].client_id.is_none() && slots[i].slot_type == SlotType::Human {
            return (i + 1) as i32;
        }
        i += 1;
    }
    SPECTATOR_SLOT
}

/// The seat after the protocol variable `variable_id` of it is set to `value`.
pub fn apply_variable(slot: Slot, variable_id: u32, value: u32) -> (r: Slot)
    ensures
        r == slot_with_variable(slot, variable_id, value),
{
    let mut s = slot;
    if variable_id == SLOT_TYPE_VARIABLE {
        match SlotType::from_code(value) {
            Some(t) => {
                s.slot_type = t;
                s.ai_type = if t == SlotType::Ai {
                    Some(AIType::PeacefulBot)
                } else {
                    None
                };
            },
            None => {},
        }
    } else if variable_id == FACTION_VARIABLE {
        match Faction::from_code(value) {
            Some(f) => {
                s.faction = f;
            },
            None => {},
        }
    } else if variable_id == AI_TYPE_VARIABLE {
        match AIType::from_code(value) {
            Some(a) => {
                if s.slot_type == SlotType::Ai {
                    s.ai_type = Some(a);
                }
            },
            None => {},
        }
    }
    s
}

impl GameState {
    /// The state before any record: no map, no seats, no clients, not started.
    pub fn new() -> (r: GameState)
        ensures
            r@ == initial_view(),
            r.wf(),
    {
        GameState {
            map_name: None,
            slots: Vec::new(),
            clients: BTreeMap::new(),
            game_started: false,
            game_started_time: None,
            slot_assignments: BTreeMap::new(),
        }
    }

    /// Seat numbers stay below the spectator number.
    pub open spec fn wf(&self) -> bool {
        view_wf(self@)
    }

    /// The seat numbered `number`, if there is one.
    pub fn slot(&self, number: i32) -> (r: Option<&Slot>)
        ensures
            slot_in_range(self.slots@, number) ==> r == Some(&self.slots@[number - 1]),
            !slot_in_range(self.slots@, number) ==> r is None,
    {
        if 1 <= number && (number as usize) <= self.slots.len() {
            Some(&self.slots[(number - 1) as usize])
        } else {
            None
        }
    }

    fn map_details(&mut self, map_name: String, match_type: MatchType)
        requires
            old(self).wf(),
        ensures
            final(self)@ == step_map_details(old(self)@, map_name, match_type),
            final(self).wf(),
    {
        let n = match_type.slot_count();
        let ghost s0 = self.slots@;
        let mut i: usize = 0;
        while i < n
            invariant
                0 <= i <= n <= 3,
                n == slot_count(match_type),
                s0.len() < 255,
                self.slots@.len() == if s0.len() > i { s0.len() } else { i as nat },
                forall|j: int| 0 <= j < i ==> self.slots@[j] == initial_slot(),
                forall|j: int| i <= j < s0.len() ==> self.slots@[j] == s0[j],
                s0 == old(self).slots@,
                self.map_name == old(self).map_name,
                self.clients == old(self).clients,
                self.game_started == old(self).game_started,
                self.game_started_time == old(self).game_started_time,
                self.slot_assignments == old(self).slot_assignments,
            decreases n - i,
        {
            if i < self.slots.len() {
                self.slots[i] = Slot::default();
            } else {
                self.slots.push(Slot::default());
            }
            i += 1;
        }
        self.map_name = Some(map_name);
        assert(self.slots@ =~= reset_slots(s0, n as nat));
    }
}

impl GameState {
    fn vacate_client_seats(&mut self, client_id: i32)
        requires
            old(self).wf(),
        ensures
            final(self).wf(),
            final(self)@ == with_slots(old(self)@, vacate_client(old(self).slots@, client_id)),
    {
        let ghost s0 = self.slots@;
        let mut i: usize = 0;
        while i < self.slots.len()
            invariant
                0 <= i <= self.slots@.len(),
                self.slots@.len() == s0.len(),
                s0 == old(self).slots@,
                forall|j: int| 0 <= j < i ==> self.slots@[j] == vacate_client(s0, client_id)[j],
                forall|j: int| i <= j < s0.len() ==> self.slots@[j] == s0[j],
                self.map_name == old(self).map_name,
                self.clients == old(self).clients,
                self.game_started == old(self).game_started,
                self.game_started_time == old(self).game_started_time,
                self.slot_assignments == old(self).slot_assignments,
            decreases s0.len() - i,
        {
            let held = match self.slots[i].client_id {
                Some(c) => c == client_id,
                None => false,
            };
            if held {
                self.slots[i].client_id = None;
            }
            i += 1;
        }
        assert(self.slots@ =~= vacate_client(s0, client_id));
    }

    fn assign(&mut self, uuid: Option<Uuid>, slot: i32, nickname: String)
        ensures
            final(self)@ == step_assign(old(self)@, uuid, slot, nickname),
    {
        broadcast use vstd::std_specs::btree::group_btree_axioms;

        match uuid {
            Some(u) => {
                self.slot_assignments.insert(u.key(), SlotAssignment { slot_number: slot, nickname });
            },
            None => {},
        }
    }

    fn player(&mut self, client_id: i32, uuid: Option<Uuid>, name: Option<PlayerName>) -> (r: Result<(), SimError>)
        requires
            old(self).wf(),
        ensures
            final(self).wf(),
            match step_player(old(self)@, client_id, uuid, name) {
                Ok(v) => r is Ok && final(self)@ == v,
                Err(e) => r == Err::<(), SimError>(e),
            },
    {
        broadcast use vstd::std_specs::btree::group_btree_axioms;

        let u = match uuid {
            Some(u) => u,
            None => return Ok(()),
        };
        self.vacate_client_seats(client_id);
        let mut client = Client::new(client_id, u);
        match name {
            Some(n) => {
                client.nickname = Some(n.nickname);
                client.discriminator = Some(n.discriminator);
            },
            None => {},
        }
        let assigned = match self.slot_assignments.get(&u.key()) {
            Some(a) => Some(a.slot_number),
            None => None,
        };
        match assigned {
            Some(n) => {
                if !(1 <= n && (n as usize) <= self.slots.len()) {
                    return Err(SimError::SlotOutOfRange(n));
                }
                client.slot_number = Some(n);
                let idx = (n - 1) as usize;
                self.slots[idx].client_id = Some(client_id);
            },
            None => {},
        }
        self.clients.insert(client_id, client);
        Ok(())
    }

    fn connected(&mut self, uuid: Option<Uuid>, client_id: i32)
        requires
            old(self).wf(),
        ensures
            final(self).wf(),
            final(self)@ == step_connected(old(self)@, uuid, client_id),
    {
        broadcast use vstd::std_specs::btree::group_btree_axioms;

        let u = match uuid {
            Some(u) => u,
            None => return,
        };
        self.vacate_client_seats(client_id);
        let mut client = Client::new(client_id, u);
        let assigned = match self.slot_assignments.get(&u.key()) {
            Some(a) => Some((a.slot_number, a.nickname.clone())),
            None => None,
        };
        match assigned {
            Some((n, nickname)) => {
                client.slot_number = Some(n);
                client.nickname = Some(nickname);
                if 1 <= n && (n as usize) <= self.slots.len() {
                    let idx = (n - 1) as usize;
                    self.slots[idx].client_id = Some(client_id);
                }
            },
            None => {},
        }
        self.clients.insert(client_id, client);
    }

    fn left(&mut self, timestamp: i32, client_id: i32, reason: LeaveReason)
        requires
            old(self).wf(),
        ensures
            final(self).wf(),
            final(self)@ == step_left(old(self)@, timestamp, client_id, reason),
    {
        broadcast use vstd::std_specs::btree::group_btree_axioms;

        if self.game_started {
            match self.clients.remove(&client_id) {
                Some(c) => {
                    let mut c = c;
                    c.left_game_time = Some(timestamp);
                    c.left_game_reason = reason;
                    self.clients.insert(client_id, c);
                    assert(self.clients@ =~= old(self).clients@.insert(
                        client_id,
                        departed(old(self).clients@[client_id], timestamp, reason),
                    ));
                },
                None => {
                    assert(self.clients@ =~= old(self).clients@);
                },
            }
        } else {
            self.clients.remove(&client_id);
            self.vacate_client_seats(client_id);
        }
    }

    fn disconnected(&mut self, timestamp: i32, client_id: i32, player_uuid: Option<Uuid>, reason: LeaveReason) -> (r: Result<(), SimError>)
        requires
            old(self).wf(),
        ensures
            final(self).wf(),
            match step_disconnected(old(self)@, timestamp, client_id, player_uuid, reason) {
                Ok(v) => r is Ok && final(self)@ == v,
                Err(e) => r == Err::<(), SimError>(e),
            },
    {
        broadcast use vstd::std_specs::btree::group_btree_axioms;

        if !self.game_started {
            return Ok(());
        }
        match self.clients.get(&client_id) {
            None => return Ok(()),
            Some(c) => {
                if c.left_game_time.is_some() {
                    return Ok(());
                }
                let same = match player_uuid {
                    Some(p) => p == c.uuid,
                    None => false,
                };
                if !same {
                    return Err(SimError::PlayerMismatch(client_id));
                }
            },
        }
        match self.clients.remove(&client_id) {
            Some(c) => {
                let mut c = c;
                c.left_game_time = Some(timestamp);
                c.left_game_reason = reason;
                self.clients.insert(client_id, c);
                assert(self.clients@ =~= old(self).clients@.insert(
                    client_id,
                    departed(old(self).clients@[client_id], timestamp, reason),
                ));
            },
            None => {},
        }
        Ok(())
    }

    fn change_slot(&mut self, client_id: i32, choice: Option<i32>) -> (r: Result<(), SimError>)
        requires
            old(self).wf(),
        ensures
            final(self).wf(),
            match step_change_slot(old(self)@, client_id, choice) {
                Ok(v) => r is Ok && final(self)@ == v,
                Err(e) => r == Err::<(), SimError>(e),
            },
    {
        broadcast use vstd::std_specs::btree::group_btree_axioms;

        if self.slots.len() == 0 {
            return Err(SimError::SlotChangeBeforeMap);
        }
        let prev = match self.clients.get(&client_id) {
            Some(c) => c.slot_number,
            None => return Err(SimError::UnknownClient(client_id)),
        };
        match prev {
            Some(p) => {
                if p != SPECTATOR_SLOT {
                    if 1 <= p && (p as usize) <= self.slots.len() {
                        let idx = (p - 1) as usize;
                        self.slots[idx].client_id = None;
                    } else {
                        return Err(SimError::SlotOutOfRange(p));
                    }
                }
            },
            None => {},
        }
        let n = match choice {
            Some(n) => n,
            None => first_open_human_slot(&self.slots),
        };
        if n != SPECTATOR_SLOT {
            if !(1 <= n && (n as usize) <= self.slots.len()) {
                return Err(SimError::SlotOutOfRange(n));
            }
            let idx = (n - 1) as usize;
            if self.slots[idx].slot_type != SlotType::Human || self.slots[idx].client_id.is_some() {
                return Err(SimError::SlotUnavailable(n));
            }
            self.slots[idx].client_id = Some(client_id);
        }
        match self.clients.remove(&client_id) {
            Some(c) => {
                let mut c = c;
                c.slot_number = Some(n);
                self.clients.insert(client_id, c);
                assert(self.clients@ =~= old(self).clients@.insert(
                    client_id,
                    seated(old(self).clients@[client_id], n),
                ));
            },
            None => {},
        }
        Ok(())
    }

    /// The state after one decoded record, or the fault it raises.
    pub fn apply(self, chunk: Chunk) -> (r: Result<GameState, SimError>)
        requires
            self.wf(),
        ensures
            match step_chunk(self@, chunk) {
                Ok(v) => r matches Ok(g) && g@ == v && g.wf(),
                Err(e) => r matches Err(x) && x == e,
            },
    {
        let mut s = self;
        let Chunk { timestamp, client_id, content } = chunk;
        let e = match content {
            Some(e) => e,
            None => return Ok(s),
        };
        match e {
            Event::MapDetails { map_name, match_type } => {
                s.map_details(map_name, match_type);
            },
            Event::AssignPlayerSlot { uuid, slot, nickname } => {
                s.assign(uuid, slot, nickname);
            },
            Event::Player { uuid, name } => {
                match s.player(client_id, uuid, name) {
                    Ok(()) => {},
                    Err(x) => return Err(x),
                }
            },
            Event::ClientConnected { uuid, client_id: announced } => {
                s.connected(uuid, announced);
            },
            Event::PlayerLeftGame { reason } => {
                s.left(timestamp, client_id, reason);
            },
            Event::ClientDisconnected { client_id: target, player_uuid, reason } => {
                match s.disconnected(timestamp, target, player_uuid, reason) {
                    Ok(()) => {},
                    Err(x) => return Err(x),
                }
            },
            Event::ChangeSlot { choice } => {
                match s.change_slot(client_id, choice) {
                    Ok(()) => {},
                    Err(x) => return Err(x),
                }
            },
            Event::SetVariable { slot, variable_id, value } => {
                if !(1 <= slot && (slot as usize) <= s.slots.len()) {
                    return Err(SimError::SlotOutOfRange(slot));
                }
                let idx = (slot - 1) as usize;
                let updated = apply_variable(s.slots[idx], variable_id, value);
                s.slots[idx] = updated;
            },
            Event::StartGame => {
                s.game_started = true;
                s.game_started_time = Some(timestamp);
            },
        }
        Ok(s)
    }
}

} // verus!
