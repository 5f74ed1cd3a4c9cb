use dungeon_sim::dungeon::DungeonState;
use dungeon_sim::dungeon_state::{
    on_player_ready, ready_message, starting_message, update_dungeon_state, DungeonEvent, DungeonPhase,
    STARTING_TIME,
};
use dungeon_sim::text::decimal;

#[test]
fn decimal_numbers() {
    assert_eq!(decimal(0), "0");
    assert_eq!(decimal(7), "7");
    assert_eq!(decimal(10), "10");
    assert_eq!(decimal(1234567890), "1234567890");
    assert_eq!(decimal(u64::MAX), "18446744073709551615");
}

#[test]
fn countdown_announces_each_second_then_starts() {
    let mut state = DungeonState::Starting { starts_in_ticks: STARTING_TIME };
    let mut announced = Vec::new();
    let mut started_at = None;
    for tick in 1..=STARTING_TIME {
        match state.tick() {
            DungeonEvent::Announce { seconds_remaining } => announced.push((tick, seconds_remaining)),
            DungeonEvent::Start => started_at = Some(tick),
            DungeonEvent::Nothing => {}
        }
    }
    assert_eq!(announced, vec![(20, 4), (40, 3), (60, 2), (80, 1)]);
    assert_eq!(started_at, Some(100));
    assert_eq!(state, DungeonState::Started { ticks: 0 });
    assert_eq!(state.tick(), DungeonEvent::Nothing);
    assert_eq!(state, DungeonState::Started { ticks: 1 });
}

#[test]
fn not_started_stays_put() {
    let mut state = DungeonState::NotStarted;
    assert_eq!(state.tick(), DungeonEvent::Nothing);
    assert_eq!(state, DungeonState::NotStarted);
}

#[test]
fn starting_messages() {
    assert_eq!(starting_message(4), "§aStarting in 4 seconds.");
    assert_eq!(starting_message(1), "§aStarting in 1 second.");
}

#[test]
fn ready_messages() {
    assert_eq!(ready_message("Steve", true), "§7Steve §ais now ready!");
    assert_eq!(ready_message("Alex", false), "§7Alex §cis no longer ready!");
}

#[test]
fn readying_up_starts_the_countdown_when_everyone_is_ready() {
    let entities = vec![1u64, 2];
    let usernames = vec!["Steve".to_string(), "Alex".to_string()];
    let mut ready = vec![false, true];
    let mut messages = Vec::new();
    let state = on_player_ready(&entities, &usernames, &mut ready, 1, &mut messages);
    assert_eq!(state, DungeonState::Starting { starts_in_ticks: 100 });
    assert_eq!(ready, vec![true, true]);
    assert_eq!(messages, vec!["§7Steve §ais now ready!".to_string()]);

    // changing one's mind stops it, and toggling twice restores the flags
    let state = on_player_ready(&entities, &usernames, &mut ready, 1, &mut messages);
    assert_eq!(state, DungeonState::NotStarted);
    assert_eq!(ready, vec![false, true]);
    assert_eq!(messages[1], "§7Steve §cis no longer ready!");
}

#[test]
fn readying_up_alone_with_someone_not_ready() {
    let entities = vec![1u64, 2];
    let usernames = vec!["Steve".to_string(), "Alex".to_string()];
    let mut ready = vec![false, false];
    let mut messages = Vec::new();
    assert_eq!(on_player_ready(&entities, &usernames, &mut ready, 2, &mut messages), DungeonState::NotStarted);
    assert_eq!(ready, vec![false, true]);
}

#[test]
fn timed_countdown_announces_five_seconds_to_one_then_starts() {
    let mut messages = Vec::new();
    for elapsed in 0..100i64 {
        let (phase, reset, message) = update_dungeon_state(DungeonPhase::Starting, elapsed);
        assert_eq!(phase, DungeonPhase::Starting);
        assert!(!reset);
        if let Some(m) = message {
            messages.push((elapsed, m));
        }
    }
    assert_eq!(
        messages,
        vec![
            (0, "§aStarting in 5 seconds.".to_string()),
            (20, "§aStarting in 4 seconds.".to_string()),
            (40, "§aStarting in 3 seconds.".to_string()),
            (60, "§aStarting in 2 seconds.".to_string()),
            (80, "§aStarting in 1 second.".to_string()),
        ]
    );
    assert_eq!(update_dungeon_state(DungeonPhase::Starting, 100), (DungeonPhase::Started, true, None));
    assert_eq!(update_dungeon_state(DungeonPhase::NotStarted, 20), (DungeonPhase::NotStarted, false, None));
    assert_eq!(update_dungeon_state(DungeonPhase::Started, 20), (DungeonPhase::Started, false, None));
    // a countdown that ran past its end counts below zero, as integer division does
    assert_eq!(
        update_dungeon_state(DungeonPhase::Starting, 120).2,
        Some("§aStarting in -1 seconds.".to_string())
    );
}
