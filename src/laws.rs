//! Properties of the simulator that hold across events and whole recordings.

use vstd::prelude::*;

use crate::event::{slot_count, Chunk, Event, MatchType, PlayerName};
use crate::model::{LeaveReason, Uuid, SPECTATOR_SLOT};
use crate::simulate::{lemma_run_append, run};
use crate::state::{
    initial_view, slot_in_range, step, step_change_slot, step_chunk,
    step_connected, step_left, step_player, vacate, vacate_client, view_wf, GameView, AI_TYPE_VARIABLE,
};

verus! {

/// Whether a record announces the map.
pub open spec fn announces_map(c: Chunk) -> bool {
    c.content matches Some(Event::MapDetails { .. })
}

/// Whether a record announces the map with the given match type.
pub open spec fn announces_match_type(c: Chunk, match_type: MatchType) -> bool {
    match c.content {
        Some(Event::MapDetails { match_type: m, .. }) => m == match_type,
        _ => false,
    }
}

/// A record that does not announce the map leaves the number of seats alone.
pub proof fn lemma_step_keeps_seat_count(s: GameView, c: Chunk)
    requires
        !announces_map(c),
    ensures
        step_chunk(s, c) matches Ok(t) ==> t.slots.len() == s.slots.len(),
{
}

/// Records that do not announce the map leave the number of seats alone.
pub proof fn lemma_run_keeps_seat_count(s: GameView, chunks: Seq<Chunk>)
    requires
        forall|i: int| 0 <= i < chunks.len() ==> !announces_map(#[trigger] chunks[i]),
    ensures
        run(s, chunks) matches Ok(t) ==> t.slots.len() == s.slots.len(),
    decreases chunks.len(),
{
    if chunks.len() > 0 {
        lemma_step_keeps_seat_count(s, chunks[0]);
        match step_chunk(s, chunks[0]) {
            Ok(t) => {
                assert forall|i: int| 0 <= i < chunks.drop_first().len() implies !announces_map(
                    #[trigger] chunks.drop_first()[i],
                ) by {
                    assert(chunks.drop_first()[i] == chunks[i + 1]);
                }
                lemma_run_keeps_seat_count(t, chunks.drop_first());
            },
            Err(_) => {},
        }
    }
}

/// In a recording with a single map announcement, the seats of the final
/// state are numbered exactly `1..=N`, where `N` is the number of seats of the
/// announced match type.
pub proof fn lemma_seat_numbers_follow_match_type(
    pre: Seq<Chunk>,
    map: Chunk,
    post: Seq<Chunk>,
    match_type: MatchType,
)
    requires
        forall|i: int| 0 <= i < pre.len() ==> !announces_map(#[trigger] pre[i]),
        forall|i: int| 0 <= i < post.len() ==> !announces_map(#[trigger] post[i]),
        announces_match_type(map, match_type),
    ensures
        run(initial_view(), pre + seq![map] + post) matches Ok(v) ==> {
            &&& v.slots.len() == slot_count(match_type)
            &&& forall|n: i32| slot_in_range(v.slots, n) <==> 1 <= n <= slot_count(match_type)
        },
{
    let tail = seq![map] + post;
    assert(pre + seq![map] + post =~= pre + tail);
    lemma_run_append(initial_view(), pre, tail);
    lemma_run_keeps_seat_count(initial_view(), pre);
    match run(initial_view(), pre) {
        Ok(t) => {
            assert(tail[0] == map);
            assert(tail.drop_first() =~= post);
            match step_chunk(t, map) {
                Ok(u) => {
                    lemma_run_keeps_seat_count(u, post);
                },
                Err(_) => {},
            }
        },
        Err(_) => {},
    }
}

/// Every seat has an AI subtype exactly when it is an AI seat.
pub open spec fn ai_types_consistent(s: GameView) -> bool {
    forall|i: int| 0 <= i < s.slots.len() ==> (#[trigger] s.slots[i]).ai_consistent()
}

/// Every record keeps AI subtypes consistent with seat types.
pub proof fn lemma_step_keeps_ai_types_consistent(s: GameView, c: Chunk)
    requires
        ai_types_consistent(s),
    ensures
        step_chunk(s, c) matches Ok(t) ==> ai_types_consistent(t),
{
}

/// The state before any record satisfies both seat invariants.
pub proof fn lemma_initial_state_invariants()
    ensures
        ai_types_consistent(initial_view()),
        seats_match_clients(initial_view()),
        distinct_occupants(initial_view()),
{
}

/// Every filled seat names a known client whose recorded seat is that one.
pub open spec fn seats_match_clients(s: GameView) -> bool {
    forall|i: int|
        0 <= i < s.slots.len() && (#[trigger] s.slots[i]).client_id is Some ==> {
            let c = s.slots[i].client_id->Some_0;
            &&& s.clients.contains_key(c)
            &&& s.clients[c].slot_number == Some((i + 1) as i32)
        }
}

/// No two seats are filled by the same client.
pub open spec fn distinct_occupants(s: GameView) -> bool {
    forall|i: int, j: int|
        0 <= i < j < s.slots.len() && (#[trigger] s.slots[i]).client_id is Some
            ==> s.slots[i].client_id != (#[trigger] s.slots[j]).client_id
}

/// When every filled seat agrees with its client's record, no client fills two seats.
pub proof fn lemma_matching_seats_are_distinct(s: GameView)
    requires
        view_wf(s),
        seats_match_clients(s),
    ensures
        distinct_occupants(s),
{
    assert forall|i: int, j: int|
        0 <= i < j < s.slots.len() && (#[trigger] s.slots[i]).client_id is Some implies s.slots[i].client_id
        != (#[trigger] s.slots[j]).client_id by {
        if s.slots[i].client_id == s.slots[j].client_id {
            let c = s.slots[i].client_id->Some_0;
            assert(s.clients[c].slot_number == Some((i + 1) as i32));
            assert(s.clients[c].slot_number == Some((j + 1) as i32));
        }
    }
}

/// Every record keeps filled seats in agreement with the client records, and
/// so keeps occupants distinct.
pub proof fn lemma_step_keeps_seats_matching(s: GameView, c: Chunk)
    requires
        view_wf(s),
        seats_match_clients(s),
    ensures
        step_chunk(s, c) matches Ok(t) ==> view_wf(t) && seats_match_clients(t) && distinct_occupants(t),
{
    match c.content {
        None => {},
        Some(e) => match e {
            Event::Player { uuid, name } => lemma_player_keeps_seats_matching(s, c.client_id, uuid, name),
            Event::ClientConnected { uuid, client_id } => lemma_connected_keeps_seats_matching(s, uuid, client_id),
            Event::PlayerLeftGame { reason } => lemma_left_keeps_seats_matching(s, c.timestamp, c.client_id, reason),
            Event::ChangeSlot { choice } => lemma_change_slot_keeps_seats_matching(s, c.client_id, choice),
            _ => {},
        },
    }
    match step_chunk(s, c) {
        Ok(t) => lemma_matching_seats_are_distinct(t),
        Err(_) => {},
    }
}

proof fn lemma_player_keeps_seats_matching(s: GameView, client_id: i32, uuid: Option<Uuid>, name: Option<PlayerName>)
    requires
        seats_match_clients(s),
    ensures
        step_player(s, client_id, uuid, name) matches Ok(t) ==> seats_match_clients(t),
{
    match step_player(s, client_id, uuid, name) {
        Ok(t) => {
            assert forall|i: int|
                0 <= i < t.slots.len() && (#[trigger] t.slots[i]).client_id is Some implies {
                let c = t.slots[i].client_id->Some_0;
                &&& t.clients.contains_key(c)
                &&& t.clients[c].slot_number == Some((i + 1) as i32)
            } by {
                let freed = vacate_client(s.slots, client_id);
                if uuid is Some && t.slots[i].client_id != Some(client_id) {
                    assert(t.slots[i].client_id == freed[i].client_id);
                    assert(freed[i].client_id == s.slots[i].client_id);
                }
            }
        },
        Err(_) => {},
    }
}

proof fn lemma_connected_keeps_seats_matching(s: GameView, uuid: Option<Uuid>, client_id: i32)
    requires
        seats_match_clients(s),
    ensures
        seats_match_clients(step_connected(s, uuid, client_id)),
{
    let t = step_connected(s, uuid, client_id);
    assert forall|i: int|
        0 <= i < t.slots.len() && (#[trigger] t.slots[i]).client_id is Some implies {
        let c = t.slots[i].client_id->Some_0;
        &&& t.clients.contains_key(c)
        &&& t.clients[c].slot_number == Some((i + 1) as i32)
    } by {
        let freed = vacate_client(s.slots, client_id);
        if uuid is Some && t.slots[i].client_id != Some(client_id) {
            assert(t.slots[i].client_id == freed[i].client_id);
            assert(freed[i].client_id == s.slots[i].client_id);
        }
    }
}

proof fn lemma_left_keeps_seats_matching(s: GameView, timestamp: i32, client_id: i32, reason: LeaveReason)
    requires
        seats_match_clients(s),
    ensures
        seats_match_clients(step_left(s, timestamp, client_id, reason)),
{
    let t = step_left(s, timestamp, client_id, reason);
    assert forall|i: int|
        0 <= i < t.slots.len() && (#[trigger] t.slots[i]).client_id is Some implies {
        let c = t.slots[i].client_id->Some_0;
        &&& t.clients.contains_key(c)
        &&& t.clients[c].slot_number == Some((i + 1) as i32)
    } by {
        assert(s.slots[i].client_id == t.slots[i].client_id);
    }
}

proof fn lemma_change_slot_keeps_seats_matching(s: GameView, client_id: i32, choice: Option<i32>)
    requires
        view_wf(s),
        seats_match_clients(s),
    ensures
        step_change_slot(s, client_id, choice) matches Ok(t) ==> seats_match_clients(t),
{
    match step_change_slot(s, client_id, choice) {
        Ok(t) => {
            let c = s.clients[client_id];
            let freed = match c.slot_number {
                Some(p) => if p != SPECTATOR_SLOT {
                    vacate(s.slots, p)
                } else {
                    s.slots
                },
                None => s.slots,
            };
            assert forall|i: int| 0 <= i < freed.len() implies (#[trigger] freed[i]).client_id != Some(client_id) by {
                if s.slots[i].client_id == Some(client_id) {
                    assert(s.clients[client_id].slot_number == Some((i + 1) as i32));
                }
            }
            assert forall|i: int|
                0 <= i < t.slots.len() && (#[trigger] t.slots[i]).client_id is Some implies {
                let o = t.slots[i].client_id->Some_0;
                &&& t.clients.contains_key(o)
                &&& t.clients[o].slot_number == Some((i + 1) as i32)
            } by {
                if t.slots[i].client_id != Some(client_id) {
                    assert(t.slots[i] == freed[i]);
                    assert(freed[i].client_id == s.slots[i].client_id);
                }
            }
        },
        Err(_) => {},
    }
}

/// Leaving before the start forgets the client and frees its seats; leaving
/// after the start keeps the client's record and sets only its departure.
pub proof fn lemma_leave_before_and_after_start(
    s: GameView,
    timestamp: i32,
    client_id: i32,
    reason: LeaveReason,
)
    ensures
        step(s, timestamp, client_id, Event::PlayerLeftGame { reason }) matches Ok(t) && {
            &&& !s.game_started ==> {
                &&& !t.clients.contains_key(client_id)
                &&& t.slots.len() == s.slots.len()
                &&& forall|i: int| 0 <= i < t.slots.len() ==> (#[trigger] t.slots[i]).client_id != Some(client_id)
            }
            &&& s.game_started && s.clients.contains_key(client_id) ==> {
                let before = s.clients[client_id];
                let after = t.clients[client_id];
                &&& t.clients.contains_key(client_id)
                &&& after.uuid == before.uuid
                &&& after.client_id == before.client_id
                &&& after.nickname == before.nickname
                &&& after.discriminator == before.discriminator
                &&& after.slot_number == before.slot_number
                &&& after.left_game_time == Some(timestamp)
                &&& after.left_game_reason == reason
                &&& t.slots == s.slots
            }
        },
{
}

/// Moving to the spectator seat succeeds whatever the seats hold, once the
/// map is loaded, the client known and its previous seat valid, and it fills
/// no seat.
pub proof fn lemma_spectator_choice(s: GameView, client_id: i32)
    requires
        s.slots.len() > 0,
        s.clients.contains_key(client_id),
        match s.clients[client_id].slot_number {
            Some(p) => p == SPECTATOR_SLOT || slot_in_range(s.slots, p),
            None => true,
        },
    ensures
        step_change_slot(s, client_id, Some(SPECTATOR_SLOT)) matches Ok(t) && {
            &&& t.clients[client_id].slot_number == Some(SPECTATOR_SLOT)
            &&& t.slots.len() == s.slots.len()
            &&& forall|i: int|
                0 <= i < t.slots.len() && (#[trigger] t.slots[i]).client_id is Some
                    ==> t.slots[i].client_id == s.slots[i].client_id
        },
{
}

/// At every point of a run from the empty state, each seat has an AI subtype
/// exactly when it is an AI seat, and no client fills two seats.
pub proof fn lemma_run_keeps_seat_invariants(chunks: Seq<Chunk>)
    ensures
        run(initial_view(), chunks) matches Ok(v) ==> ai_types_consistent(v) && distinct_occupants(v),
{
    lemma_initial_state_invariants();
    lemma_run_from_keeps_seat_invariants(initial_view(), chunks);
}

proof fn lemma_run_from_keeps_seat_invariants(s: GameView, chunks: Seq<Chunk>)
    requires
        view_wf(s),
        ai_types_consistent(s),
        seats_match_clients(s),
    ensures
        run(s, chunks) matches Ok(v) ==> {
            &&& view_wf(v)
            &&& ai_types_consistent(v)
            &&& seats_match_clients(v)
            &&& distinct_occupants(v)
        },
    decreases chunks.len(),
{
    if chunks.len() == 0 {
        lemma_matching_seats_are_distinct(s);
    } else {
        lemma_step_keeps_ai_types_consistent(s, chunks[0]);
        lemma_step_keeps_seats_matching(s, chunks[0]);
        match step_chunk(s, chunks[0]) {
            Ok(t) => lemma_run_from_keeps_seat_invariants(t, chunks.drop_first()),
            Err(_) => {},
        }
    }
}

} // verus!
