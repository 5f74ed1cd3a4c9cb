use dungeon_sim::abilities::{
    ether_warp_target, instant_transmission, is_valid_ether_warp_block, tactical_insertion_tick, AbilitySound,
    Cooldown, TacticalInsertion, TacticalUse,
};
use dungeon_sim::dungeon::DungeonState;
use dungeon_sim::geometry::BlockPos;
use dungeon_sim::sidebar::{format_elapsed, get_sb_date, sidebar_lines};

#[test]
fn skyblock_dates() {
    let start = 1_559_829_300_000u64;
    assert_eq!(get_sb_date(0), ("Early Spring", 1, "st"));
    assert_eq!(get_sb_date(start), ("Early Spring", 1, "st"));
    let day = 1_200_000u64;
    assert_eq!(get_sb_date(start + day), ("Early Spring", 2, "nd"));
    assert_eq!(get_sb_date(start + 2 * day), ("Early Spring", 3, "rd"));
    assert_eq!(get_sb_date(start + 10 * day), ("Early Spring", 11, "th"));
    assert_eq!(get_sb_date(start + 20 * day), ("Early Spring", 21, "st"));
    assert_eq!(get_sb_date(start + 31 * day), ("Spring", 1, "st"));
    assert_eq!(get_sb_date(start + 371 * day), ("Late Winter", 31, "st"));
    // a year later the calendar starts over
    assert_eq!(get_sb_date(start + 372 * day), ("Early Spring", 1, "st"));
}

#[test]
fn elapsed_time() {
    assert_eq!(format_elapsed(0), "00s");
    assert_eq!(format_elapsed(19), "00s");
    assert_eq!(format_elapsed(20 * 9), "09s");
    assert_eq!(format_elapsed(20 * 59), "59s");
    assert_eq!(format_elapsed(20 * 60), "01m00s");
    assert_eq!(format_elapsed(20 * 754), "12m34s");
}

#[test]
fn sidebar_before_the_run() {
    let players = vec![(1u64, "Steve".to_string(), true), (2u64, "Alex".to_string(), false)];
    let lines = sidebar_lines("01/02/25", "3:04pm", "", 1_559_829_300_000, DungeonState::Starting { starts_in_ticks: 45 }, &players, 1, None);
    assert_eq!(
        lines,
        vec![
            "§e§lSKYBLOCK".to_string(),
            "§701/02/25 §8local \n\nEarly Spring 1st\n§73:04pm\n §7⏣ §cThe Catacombs §7(F7)\n\n".to_string(),
            "§a[M] §7Steve".to_string(),
            "§c[M] §7Alex".to_string(),
            "".to_string(),
            "Starting in: §a0§a:03".to_string(),
            "".to_string(),
            "§emc.hypixel.net".to_string(),
        ]
    );
}

#[test]
fn sidebar_during_the_run() {
    let players = vec![(1u64, "Steve".to_string(), true), (2u64, "Alex".to_string(), true)];
    let lines = sidebar_lines("d", "t", "room-1", 0, DungeonState::Started { ticks: 1300 }, &players, 1, Some((2, 5)));
    assert_eq!(lines[2], "Keys: §c■ §a✓ §8■ §a0x\nTime elapsed: §a§a01m05s\nCleared: §c0% §r§8(0)\n\n");
    assert_eq!(lines[3], "§e[M] §7Alex");
    assert_eq!(lines[4], "");
    assert_eq!(lines[5], "secrets: 2/5");
    assert_eq!(lines[6], "§emc.hypixel.net");
    let solo = sidebar_lines("d", "t", "", 0, DungeonState::Started { ticks: 0 }, &vec![(1u64, "Steve".to_string(), true)], 1, None);
    assert_eq!(solo[3], "§3§lSolo\n\n");
    assert_eq!(solo.len(), 5);
}

#[test]
fn cooldowns() {
    assert_eq!(Cooldown::from_ticks(7, true), Cooldown { ticks_remaining: 7, silent: true });
    assert_eq!(Cooldown::from_seconds(20, false), Cooldown { ticks_remaining: 400, silent: false });
}

#[test]
fn tactical_insertion() {
    match TacticalInsertion.on_interact(None) {
        TacticalUse::Activate { cooldown } => assert_eq!(cooldown, Cooldown { ticks_remaining: 400, silent: false }),
        TacticalUse::OnCooldown { .. } => panic!("should activate"),
    }
    match TacticalInsertion.on_interact(Some(Cooldown { ticks_remaining: 259, silent: false })) {
        TacticalUse::OnCooldown { message } => assert_eq!(message, "§cThis ability is on cooldown for 12s."),
        TacticalUse::Activate { .. } => panic!("should be on cooldown"),
    }
    assert_eq!(tactical_insertion_tick(1), (Some((AbilitySound::ZombieRemedy, 100, 75)), false));
    assert_eq!(tactical_insertion_tick(50), (Some((AbilitySound::NoteHat, 100, 170)), false));
    assert_eq!(tactical_insertion_tick(60), (None, true));
    assert_eq!(tactical_insertion_tick(66), (Some((AbilitySound::ZombieRemedy, 50, 155)), false));
    assert_eq!(tactical_insertion_tick(3), (None, false));
}

#[test]
fn passable_blocks() {
    assert!(is_valid_ether_warp_block(0));
    assert!(is_valid_ether_warp_block(175));
    assert!(!is_valid_ether_warp_block(1));
    assert!(!is_valid_ether_warp_block(98));
}

fn pos(x: i32) -> BlockPos {
    BlockPos::new(x, 70, 0)
}

const AIR: u16 = 0;
const STONE: u16 = 1 << 4;

#[test]
fn ether_warp_lands_on_the_first_solid_block_with_room_above() {
    let ray = vec![(pos(0), AIR, AIR, AIR), (pos(1), AIR, AIR, AIR), (pos(2), STONE, AIR, AIR), (pos(3), STONE, AIR, AIR)];
    assert_eq!(ether_warp_target(&ray, pos(10)), Some(pos(2)));
    let blocked = vec![(pos(0), AIR, AIR, AIR), (pos(1), STONE, AIR, STONE)];
    assert_eq!(ether_warp_target(&blocked, pos(10)), None);
    let reaches_end = vec![(pos(0), AIR, AIR, AIR), (pos(1), AIR, AIR, AIR), (pos(2), STONE, AIR, AIR)];
    assert_eq!(ether_warp_target(&reaches_end, pos(1)), None);
    assert_eq!(ether_warp_target(&Vec::new(), pos(1)), None);
}

#[test]
fn instant_transmission_goes_until_blocked() {
    let steps = vec![
        (pos(0), AIR, AIR),
        (pos(0), AIR, AIR),
        (pos(1), AIR, AIR),
        (pos(2), AIR, AIR),
        (pos(3), STONE, AIR),
        (pos(4), AIR, AIR),
    ];
    assert_eq!(instant_transmission(&steps), (Some(pos(2)), true));
    let clear = vec![(pos(0), AIR, AIR), (pos(1), AIR, AIR), (pos(1), AIR, AIR)];
    assert_eq!(instant_transmission(&clear), (Some(pos(1)), false));
    // the first block is looked at even when the player does not fit there
    let start_in_wall = vec![(pos(0), STONE, AIR), (pos(1), AIR, AIR)];
    assert_eq!(instant_transmission(&start_in_wall), (Some(pos(1)), false));
    let stuck = vec![(pos(0), STONE, AIR), (pos(1), STONE, AIR)];
    assert_eq!(instant_transmission(&stuck), (None, true));
}
