use sgreplay::{
    simulate, Chunk, Event, Faction, GameState, LeaveReason, MatchType, PlayerName, SimError,
    SlotType, AIType, Uuid, FACTION_VARIABLE, SLOT_TYPE_VARIABLE, AI_TYPE_VARIABLE,
};

fn chunk(timestamp: i32, client_id: i32, event: Event) -> Chunk {
    Chunk { timestamp, client_id, content: Some(event) }
}

fn map(match_type: MatchType) -> Chunk {
    chunk(0, 0, Event::MapDetails { map_name: "Broken Crown".to_string(), match_type })
}

fn uuid(n: u64) -> Uuid {
    Uuid { part1: 0, part2: n }
}

fn player(client_id: i32, n: u64) -> Chunk {
    chunk(1, client_id, Event::Player { uuid: Some(uuid(n)), name: None })
}

fn change_slot(client_id: i32, choice: Option<i32>) -> Chunk {
    chunk(2, client_id, Event::ChangeSlot { choice })
}

fn set_variable(slot: i32, variable_id: u32, value: u32) -> Chunk {
    chunk(3, 0, Event::SetVariable { slot, variable_id, value })
}

fn run(chunks: Vec<Chunk>) -> Result<GameState, SimError> {
    simulate(chunks)
}

#[test]
fn unknown_client_changing_slot_is_fatal() {
    let r = run(vec![map(MatchType::Ranked1v1), change_slot(5, None)]);
    assert!(matches!(r, Err(SimError::UnknownClient(5))));
}

#[test]
fn ranked_match_with_departure_after_start() {
    let state = run(vec![
        map(MatchType::Ranked1v1),
        player(1, 11),
        change_slot(1, Some(1)),
        set_variable(1, FACTION_VARIABLE, 1),
        chunk(50, 0, Event::StartGame),
        chunk(900, 1, Event::PlayerLeftGame { reason: LeaveReason::Disconnect }),
    ])
    .unwrap();
    assert!(state.game_started);
    assert_eq!(state.game_started_time, Some(50));
    let slot = state.slot(1).unwrap();
    assert_eq!(slot.client_id, Some(1));
    assert_eq!(slot.faction, Faction::Infernals);
    let client = state.clients.get(&1).unwrap();
    assert_eq!(client.left_game_time, Some(900));
    assert_eq!(client.left_game_reason, LeaveReason::Disconnect);
    assert_eq!(client.slot_number, Some(1));
}

#[test]
fn seat_count_follows_match_type() {
    let ranked = run(vec![map(MatchType::Ranked1v1)]).unwrap();
    assert_eq!(ranked.slots.len(), 2);
    assert!(ranked.slot(2).is_some());
    assert!(ranked.slot(3).is_none());
    assert!(ranked.slot(0).is_none());
    let coop = run(vec![map(MatchType::Coop3vE)]).unwrap();
    assert_eq!(coop.slots.len(), 3);
    let other = run(vec![map(MatchType::Other)]).unwrap();
    assert_eq!(other.slots.len(), 2);
    assert_eq!(other.map_name, Some("Broken Crown".to_string()));
    for slot in &coop.slots {
        assert_eq!(slot.slot_type, SlotType::Human);
        assert_eq!(slot.faction, Faction::Vanguard);
        assert_eq!(slot.ai_type, None);
        assert_eq!(slot.client_id, None);
    }
}

#[test]
fn setting_slot_type_keeps_ai_type_consistent() {
    let state = run(vec![
        map(MatchType::Coop3vE),
        set_variable(2, SLOT_TYPE_VARIABLE, 2),
        set_variable(3, SLOT_TYPE_VARIABLE, 0),
    ])
    .unwrap();
    assert_eq!(state.slot(2).unwrap().slot_type, SlotType::Ai);
    assert_eq!(state.slot(2).unwrap().ai_type, Some(AIType::PeacefulBot));
    assert_eq!(state.slot(3).unwrap().slot_type, SlotType::Closed);
    assert_eq!(state.slot(3).unwrap().ai_type, None);
    let back = run(vec![
        map(MatchType::Coop3vE),
        set_variable(2, SLOT_TYPE_VARIABLE, 2),
        set_variable(2, AI_TYPE_VARIABLE, 2),
        set_variable(2, SLOT_TYPE_VARIABLE, 1),
    ])
    .unwrap();
    assert_eq!(back.slot(2).unwrap().slot_type, SlotType::Human);
    assert_eq!(back.slot(2).unwrap().ai_type, None);
}

#[test]
fn unknown_variable_values_change_nothing() {
    let state = run(vec![
        map(MatchType::Ranked1v1),
        set_variable(1, SLOT_TYPE_VARIABLE, 9),
        set_variable(1, FACTION_VARIABLE, 3),
        set_variable(1, AI_TYPE_VARIABLE, 7),
        set_variable(1, 42, 1),
    ])
    .unwrap();
    let slot = state.slot(1).unwrap();
    assert_eq!(slot.slot_type, SlotType::Human);
    assert_eq!(slot.faction, Faction::Vanguard);
    assert_eq!(slot.ai_type, None);
}

#[test]
fn set_variable_on_missing_slot_is_fatal() {
    let r = run(vec![map(MatchType::Ranked1v1), set_variable(3, FACTION_VARIABLE, 1)]);
    assert!(matches!(r, Err(SimError::SlotOutOfRange(3))));
    let r = run(vec![set_variable(1, FACTION_VARIABLE, 1)]);
    assert!(matches!(r, Err(SimError::SlotOutOfRange(1))));
}

#[test]
fn slot_change_before_map_is_fatal() {
    let r = run(vec![player(1, 11), change_slot(1, None)]);
    assert!(matches!(r, Err(SimError::SlotChangeBeforeMap)));
}

#[test]
fn moving_between_slots_keeps_occupants_distinct() {
    let state = run(vec![
        map(MatchType::Coop3vE),
        player(1, 11),
        player(2, 22),
        change_slot(1, None),
        change_slot(2, None),
        change_slot(1, Some(3)),
    ])
    .unwrap();
    assert_eq!(state.slot(1).unwrap().client_id, None);
    assert_eq!(state.slot(2).unwrap().client_id, Some(2));
    assert_eq!(state.slot(3).unwrap().client_id, Some(1));
    assert_eq!(state.clients.get(&1).unwrap().slot_number, Some(3));
    assert_eq!(state.clients.get(&2).unwrap().slot_number, Some(2));
}

#[test]
fn occupied_or_closed_slot_is_fatal() {
    let r = run(vec![
        map(MatchType::Ranked1v1),
        player(1, 11),
        player(2, 22),
        change_slot(1, Some(2)),
        change_slot(2, Some(2)),
    ]);
    assert!(matches!(r, Err(SimError::SlotUnavailable(2))));
    let r = run(vec![
        map(MatchType::Ranked1v1),
        player(1, 11),
        set_variable(1, SLOT_TYPE_VARIABLE, 0),
        change_slot(1, Some(1)),
    ]);
    assert!(matches!(r, Err(SimError::SlotUnavailable(1))));
    let r = run(vec![map(MatchType::Ranked1v1), player(1, 11), change_slot(1, Some(4))]);
    assert!(matches!(r, Err(SimError::SlotOutOfRange(4))));
}

#[test]
fn spectator_choice_succeeds_when_every_seat_is_taken() {
    let state = run(vec![
        map(MatchType::Ranked1v1),
        player(1, 11),
        player(2, 22),
        player(3, 33),
        change_slot(1, None),
        change_slot(2, None),
        change_slot(3, Some(255)),
    ])
    .unwrap();
    assert_eq!(state.slot(1).unwrap().client_id, Some(1));
    assert_eq!(state.slot(2).unwrap().client_id, Some(2));
    assert_eq!(state.clients.get(&3).unwrap().slot_number, Some(255));
}

#[test]
fn no_open_seat_makes_a_spectator() {
    let state = run(vec![
        map(MatchType::Ranked1v1),
        player(1, 11),
        player(2, 22),
        player(3, 33),
        change_slot(1, None),
        change_slot(2, None),
        change_slot(3, None),
    ])
    .unwrap();
    assert_eq!(state.clients.get(&3).unwrap().slot_number, Some(255));
    let seated: Vec<Option<i32>> = state.slots.iter().map(|s| s.client_id).collect();
    assert_eq!(seated, vec![Some(1), Some(2)]);
}

#[test]
fn leaving_before_start_forgets_the_client() {
    let state = run(vec![
        map(MatchType::Ranked1v1),
        player(1, 11),
        change_slot(1, None),
        chunk(7, 1, Event::PlayerLeftGame { reason: LeaveReason::Leave }),
    ])
    .unwrap();
    assert!(state.clients.get(&1).is_none());
    assert_eq!(state.slot(1).unwrap().client_id, None);
    assert!(!state.game_started);
}

#[test]
fn unknown_client_leaving_is_not_fatal() {
    let state = run(vec![
        map(MatchType::Ranked1v1),
        chunk(7, 9, Event::PlayerLeftGame { reason: LeaveReason::Leave }),
        chunk(8, 0, Event::StartGame),
        chunk(9, 9, Event::PlayerLeftGame { reason: LeaveReason::Surrender }),
    ])
    .unwrap();
    assert!(state.clients.is_empty());
}

#[test]
fn assignment_seats_player_and_connected_client() {
    let assign = chunk(
        0,
        0,
        Event::AssignPlayerSlot { uuid: Some(uuid(11)), slot: 2, nickname: "Ayla".to_string() },
    );
    let state = run(vec![
        map(MatchType::Ranked1v1),
        assign.clone(),
        chunk(
            1,
            4,
            Event::Player {
                uuid: Some(uuid(11)),
                name: Some(PlayerName { nickname: "Ayla".to_string(), discriminator: "123".to_string() }),
            },
        ),
    ])
    .unwrap();
    let c = state.clients.get(&4).unwrap();
    assert_eq!(c.slot_number, Some(2));
    assert_eq!(c.nickname, Some("Ayla".to_string()));
    assert_eq!(c.discriminator, Some("123".to_string()));
    assert_eq!(c.uuid, uuid(11));
    assert_eq!(state.slot(2).unwrap().client_id, Some(4));

    let state = run(vec![
        map(MatchType::Ranked1v1),
        assign,
        chunk(1, 0, Event::ClientConnected { uuid: Some(uuid(11)), client_id: 6 }),
    ])
    .unwrap();
    let c = state.clients.get(&6).unwrap();
    assert_eq!(c.slot_number, Some(2));
    assert_eq!(c.nickname, Some("Ayla".to_string()));
    assert_eq!(c.discriminator, None);
    assert_eq!(state.slot(2).unwrap().client_id, Some(6));
    assert_eq!(state.slot_assignments.len(), 1);
}

#[test]
fn player_assigned_to_missing_slot_is_fatal() {
    let r = run(vec![
        map(MatchType::Ranked1v1),
        chunk(0, 0, Event::AssignPlayerSlot { uuid: Some(uuid(11)), slot: 5, nickname: "X".to_string() }),
        player(1, 11),
    ]);
    assert!(matches!(r, Err(SimError::SlotOutOfRange(5))));
}

#[test]
fn events_without_player_identifier_are_skipped() {
    let state = run(vec![
        map(MatchType::Ranked1v1),
        chunk(0, 0, Event::AssignPlayerSlot { uuid: None, slot: 1, nickname: "X".to_string() }),
        chunk(0, 1, Event::Player { uuid: None, name: None }),
        chunk(0, 0, Event::ClientConnected { uuid: None, client_id: 2 }),
        Chunk { timestamp: 0, client_id: 0, content: None },
    ])
    .unwrap();
    assert!(state.clients.is_empty());
    assert!(state.slot_assignments.is_empty());
}

#[test]
fn disconnect_after_start_checks_player() {
    let base = vec![map(MatchType::Ranked1v1), player(1, 11), chunk(5, 0, Event::StartGame)];
    let mut ok = base.clone();
    ok.push(chunk(
        20,
        0,
        Event::ClientDisconnected { client_id: 1, player_uuid: Some(uuid(11)), reason: LeaveReason::Disconnect },
    ));
    ok.push(chunk(
        30,
        0,
        Event::ClientDisconnected { client_id: 1, player_uuid: Some(uuid(99)), reason: LeaveReason::Leave },
    ));
    let state = run(ok).unwrap();
    let c = state.clients.get(&1).unwrap();
    assert_eq!(c.left_game_time, Some(20));
    assert_eq!(c.left_game_reason, LeaveReason::Disconnect);

    let mut bad = base;
    bad.push(chunk(
        20,
        0,
        Event::ClientDisconnected { client_id: 1, player_uuid: Some(uuid(99)), reason: LeaveReason::Leave },
    ));
    assert!(matches!(run(bad), Err(SimError::PlayerMismatch(1))));
}

#[test]
fn disconnect_before_start_changes_nothing() {
    let state = run(vec![
        map(MatchType::Ranked1v1),
        player(1, 11),
        chunk(20, 0, Event::ClientDisconnected { client_id: 1, player_uuid: None, reason: LeaveReason::Leave }),
    ])
    .unwrap();
    let c = state.clients.get(&1).unwrap();
    assert_eq!(c.left_game_time, None);
    assert_eq!(c.left_game_reason, LeaveReason::Unknown);
}

#[test]
fn step_by_step_matches_whole_run() {
    let chunks = vec![map(MatchType::Ranked1v1), player(1, 11), change_slot(1, None)];
    let mut state = GameState::new();
    for c in chunks.clone() {
        state = state.apply(c).unwrap();
    }
    let whole = run(chunks).unwrap();
    assert_eq!(state.slots, whole.slots);
    assert_eq!(state.slot(1).unwrap().client_id, Some(1));
}

#[test]
fn ai_subtype_on_human_seat_changes_nothing() {
    let state = run(vec![
        map(MatchType::Ranked1v1),
        set_variable(1, AI_TYPE_VARIABLE, 1),
        set_variable(2, SLOT_TYPE_VARIABLE, 2),
        set_variable(2, AI_TYPE_VARIABLE, 1),
    ])
    .unwrap();
    assert_eq!(state.slot(1).unwrap().ai_type, None);
    assert_eq!(state.slot(1).unwrap().slot_type, SlotType::Human);
    assert_eq!(state.slot(2).unwrap().ai_type, Some(AIType::MurderBotJr));
}

#[test]
fn reannounced_client_leaves_its_old_seat() {
    let assign = |n: u64, slot: i32| {
        chunk(0, 0, Event::AssignPlayerSlot { uuid: Some(uuid(n)), slot, nickname: "P".to_string() })
    };
    let state = run(vec![
        map(MatchType::Ranked1v1),
        assign(11, 1),
        assign(22, 2),
        player(1, 11),
        player(1, 22),
    ])
    .unwrap();
    assert_eq!(state.slot(1).unwrap().client_id, None);
    assert_eq!(state.slot(2).unwrap().client_id, Some(1));
    assert_eq!(state.clients.get(&1).unwrap().slot_number, Some(2));

    let state = run(vec![
        map(MatchType::Ranked1v1),
        assign(11, 1),
        chunk(0, 0, Event::ClientConnected { uuid: Some(uuid(11)), client_id: 3 }),
        chunk(0, 0, Event::ClientConnected { uuid: Some(uuid(99)), client_id: 3 }),
        change_slot(3, None),
    ])
    .unwrap();
    assert_eq!(state.slot(1).unwrap().client_id, Some(3));
    assert_eq!(state.slot(2).unwrap().client_id, None);
}
