use dungeon_sim::geometry::{BlockPos, Rotation};
use dungeon_sim::grid::RoomGridLookup;
use dungeon_sim::presence::{on_player_remove, update_room};
use dungeon_sim::room::{Room, RoomStatus};
use dungeon_sim::three_weirdos::{
    chest_at, chest_blocks, fail_message, fool_message, solved_message, weirdo_block, weirdo_name, ChestOutcome,
    ThreeWeirdosPuzzle,
};
use rand::SeedableRng;

fn room(corner: BlockPos) -> Room {
    Room { rotation: Rotation::Identity, corner, players: Vec::new(), secrets: Vec::new(), found_secrets: 0 }
}

#[test]
fn players_move_between_rooms() {
    let mut lookup = RoomGridLookup::new();
    lookup.set(0, 0, 100);
    lookup.set(1, 0, 200);
    let mut rooms = vec![(100u64, room(BlockPos::new(-200, 68, -200))), (200u64, room(BlockPos::new(-168, 68, -200)))];
    let mut current = None;
    update_room(7, BlockPos::new(-190, 70, -190), &mut current, &lookup, &mut rooms);
    assert_eq!(current, Some(100));
    assert_eq!(rooms[0].1.players, vec![7]);
    update_room(7, BlockPos::new(-185, 70, -185), &mut current, &lookup, &mut rooms);
    assert_eq!(rooms[0].1.players, vec![7]);
    update_room(7, BlockPos::new(-160, 70, -190), &mut current, &lookup, &mut rooms);
    assert_eq!(current, Some(200));
    assert!(rooms[0].1.players.is_empty());
    assert_eq!(rooms[1].1.players, vec![7]);
    update_room(8, BlockPos::new(-160, 70, -190), &mut None, &lookup, &mut rooms);
    assert_eq!(rooms[1].1.players, vec![7, 8]);
    // out of the grid
    update_room(7, BlockPos::new(-500, 70, -190), &mut current, &lookup, &mut rooms);
    assert_eq!(current, None);
    assert_eq!(rooms[1].1.players, vec![8]);
    on_player_remove(8, Some(200), &mut rooms);
    assert!(rooms[1].1.players.is_empty());
}

#[test]
fn moving_one_player_keeps_every_record_true() {
    let mut lookup = RoomGridLookup::new();
    lookup.set(0, 0, 100);
    lookup.set(1, 0, 200);
    let mut rooms = vec![(100u64, room(BlockPos::new(-200, 68, -200))), (200u64, room(BlockPos::new(-168, 68, -200)))];
    let mut records: Vec<(u64, Option<u64>)> = vec![(1, None), (2, None), (3, None)];
    let moves = vec![
        (1u64, BlockPos::new(-190, 70, -190)),
        (2, BlockPos::new(-160, 70, -190)),
        (3, BlockPos::new(-190, 70, -180)),
        (1, BlockPos::new(-160, 70, -170)),
        (3, BlockPos::new(-900, 70, -180)),
    ];
    for (player, position) in moves {
        let record = records.iter_mut().find(|r| r.0 == player).unwrap();
        update_room(player, position, &mut record.1, &lookup, &mut rooms);
        for (p, current) in &records {
            for (entity, r) in &rooms {
                assert_eq!(r.players.contains(p), *current == Some(*entity));
            }
        }
    }
    assert_eq!(records, vec![(1, Some(200)), (2, Some(200)), (3, None)]);
    assert!(rooms[0].1.players.is_empty());
}

fn weirdos() -> ThreeWeirdosPuzzle {
    // names 0, 1 and 2 of the list, sayings 0, speakers in order 2, 0, 1
    ThreeWeirdosPuzzle::arrange(&vec![0, 1, 2], 0, &vec![2, 0, 1])
}

#[test]
fn arranging_the_weirdos() {
    let p = weirdos();
    assert_eq!(p.names, vec!["§cBenson".to_string(), "§cArdis".to_string(), "§cBaxter".to_string()]);
    assert_eq!(p.correct_index, 1);
    assert_eq!(p.dialogues[1], "§e[NPC] §c§cArdis§r: The reward is not in my chest!");
    assert_eq!(
        p.dialogues[0],
        "§e[NPC] §c§cBenson§r: They are both telling the truth. The reward isn't in §c§cArdis's§r chest."
    );
    assert_eq!(weirdo_name(20), "§cWinona");
}

#[test]
fn the_weirdos_must_all_be_heard_before_a_chest() {
    let mut p = weirdos();
    let mut rng = rand::rngs::StdRng::seed_from_u64(4);
    assert_eq!(p.interact_chest(RoomStatus::Discovered, 9, Some(1)), (ChestOutcome::Ignored, RoomStatus::Discovered));
    let said = p.interact_weirdo(9, 0, &mut rng);
    assert_eq!(said, p.dialogues[0]);
    assert_eq!(p.interact_chest(RoomStatus::Discovered, 9, Some(1)), (ChestOutcome::TalkToUs, RoomStatus::Discovered));
    p.interact_weirdo(9, 1, &mut rng);
    p.interact_weirdo(9, 2, &mut rng);
    assert_eq!(p.clicked_weirdos[&9], [true, true, true]);
    assert_eq!(p.interact_chest(RoomStatus::Discovered, 9, None), (ChestOutcome::Ignored, RoomStatus::Discovered));
    assert_eq!(
        p.interact_chest(RoomStatus::Discovered, 9, Some(1)),
        (ChestOutcome::Solved { index: 1 }, RoomStatus::Complete)
    );
    assert!(p.has_clicked_any_chest);
    // once over, every chest is ignored
    assert_eq!(p.interact_chest(RoomStatus::Complete, 9, Some(0)), (ChestOutcome::Ignored, RoomStatus::Complete));
    // and the weirdos say goodbye
    let bye = p.interact_weirdo(9, 0, &mut rng);
    assert!(bye.starts_with("§e[NPC] §c§cBenson§f: "));
}

#[test]
fn the_wrong_chest_fails_the_puzzle() {
    let mut p = weirdos();
    let mut rng = rand::rngs::StdRng::seed_from_u64(4);
    for i in 0..3 {
        p.interact_weirdo(3, i, &mut rng);
    }
    assert_eq!(p.interact_chest(RoomStatus::Discovered, 3, Some(2)), (ChestOutcome::Fooled { index: 2 }, RoomStatus::Failed));
    assert_eq!(p.interact_chest(RoomStatus::Failed, 3, Some(1)), (ChestOutcome::Ignored, RoomStatus::Failed));
}

#[test]
fn random_weirdos_have_different_names_and_one_rewarding_chest() {
    for seed in 0..20 {
        let mut rng = rand::rngs::StdRng::seed_from_u64(seed);
        let p = ThreeWeirdosPuzzle::new(&mut rng);
        assert_eq!(p.names.len(), 3);
        assert_ne!(p.names[0], p.names[1]);
        assert_ne!(p.names[1], p.names[2]);
        assert_ne!(p.names[0], p.names[2]);
        assert!(p.correct_index < 3);
        assert!(p.dialogues[p.correct_index].starts_with(&format!("§e[NPC] §c{}", p.names[p.correct_index])));
    }
}

#[test]
fn chests_and_weirdos_in_the_world() {
    let r = room(BlockPos::new(10, 0, 20));
    assert_eq!(chest_at(&r, BlockPos::new(28, 69, 44)), Some(0));
    assert_eq!(chest_at(&r, BlockPos::new(26, 69, 45)), Some(1));
    assert_eq!(chest_at(&r, BlockPos::new(27, 69, 44)), None);
    assert_eq!(chest_blocks(&r), vec![BlockPos::new(28, 69, 44), BlockPos::new(26, 69, 45), BlockPos::new(24, 69, 44)]);
    assert_eq!(weirdo_block(&r, 0), BlockPos::new(27, 69, 44));
    assert_eq!(
        solved_message("Steve", "§cHugo"),
        "§aPUZZLE SOLVED! §7Steve §ewasn't fooled by §c§cHugo§e! §4G§co§6o§ed §2j§bo§3b§5!"
    );
    assert_eq!(fool_message("§cHugo"), "§e[NPC] §c§cHugo§f: You fool!");
    assert_eq!(
        fail_message("Steve", "§cHugo"),
        "§cPUZZLE FAIL! §7Steve §ewas fooled by §c§cHugo§e! §4Y§ci§6k§ee§as§2!"
    );
}
