use dungeon_sim::abilities::{dungeon_breaker_dig, transmission_allowed_from, transmission_lands_in, BROKEN_BLOCK_TICKS};
use dungeon_sim::room_data::RoomType;
use dungeon_sim::door::{open_entrance_doors, Door, DoorAxis, DoorType, OpeningDoor};
use dungeon_sim::door::{DoorBlock, DoorOpening};
use dungeon_sim::door_templates::{parse_door_templates, template_placements, DoorWrite};
use dungeon_sim::dungeon::{Dungeon, RoomNeighbour};
use dungeon_sim::geometry::{BlockPos, Rotation};
use dungeon_sim::loading::choose_layout;
use dungeon_sim::room::Room;
use dungeon_sim::room_loading::{painting_placement, PaintingPlacement, PaintingVariant};
use dungeon_sim::secrets::{
    secrets_spawned_on_enter, update_room_entered, ItemSecretType, SecretKind, SecretPlacement, SecretSpawn,
};
use rand::SeedableRng;

fn two_room_dungeon() -> Dungeon {
    let mut text = String::from("010707");
    for _ in 3..36 {
        text.push_str("00");
    }
    text.push('3');
    Dungeon::from_string(&text, &vec![(-169, -185)]).unwrap()
}

fn room_at(rotation: Rotation, corner: BlockPos, players: Vec<u64>) -> Room {
    Room { rotation, corner, players, secrets: Vec::new(), found_secrets: 0 }
}

#[test]
fn a_painting_turns_with_its_room() {
    let room = room_at(Rotation::Clockwise90, BlockPos::new(100, 68, 200), Vec::new());
    let placed = painting_placement(&room, BlockPos::new(1, 70, 2), Rotation::Clockwise90, &"Wanderer".to_string());
    assert_eq!(
        placed,
        PaintingPlacement {
            position: BlockPos::new(98, 70, 201),
            rotation: Rotation::Clockwise180,
            variant: PaintingVariant::Wanderer,
        }
    );
    let other = painting_placement(&room, BlockPos::new(0, 70, 0), Rotation::Identity, &"Kebab".to_string());
    assert_eq!(other.variant, PaintingVariant::Graham);
    assert_eq!(other.rotation, Rotation::Clockwise90);
    assert_eq!(other.position, BlockPos::new(100, 70, 200));
}

fn template_text(lines: usize, trailing_newline: bool) -> String {
    let mut text = String::new();
    for k in 0..lines {
        if k > 0 {
            text.push('\n');
        }
        text.push_str(&format!("{:04x}000A\r", k + 1));
    }
    if trailing_newline {
        text.push('\n');
    }
    text
}

#[test]
fn reading_door_templates() {
    let templates = parse_door_templates(&template_text(8, false)).unwrap();
    assert_eq!(templates.blood, vec![vec![1, 10]]);
    assert_eq!(templates.entrance, vec![vec![2, 10]]);
    assert_eq!(templates.normal.len(), 7);
    assert_eq!(templates.normal[0], vec![2, 10]);
    assert_eq!(templates.normal[6], vec![8, 10]);
    assert_eq!(templates.templates_for(DoorType::Wither), &templates.normal);
    assert_eq!(templates.templates_for(DoorType::Blood), &templates.blood);

    // a last line without its carriage return keeps all its groups
    let mut text = template_text(7, false);
    text.push_str("\n00ff");
    let templates = parse_door_templates(&text).unwrap();
    assert_eq!(templates.normal[6], vec![0xff]);

    assert!(parse_door_templates(&template_text(7, false)).is_none());
    assert!(parse_door_templates(&template_text(8, true)).is_none());
    assert!(parse_door_templates("").is_none());
    let mut bad = template_text(8, false);
    bad.push_str("\nzz00\r");
    assert!(parse_door_templates(&bad).is_none());
    let mut short = template_text(8, false);
    short.push_str("\n00123\r");
    assert!(parse_door_templates(&short).is_none());
}

#[test]
fn choosing_and_placing_a_door_template() {
    let templates = parse_door_templates(&template_text(8, false)).unwrap();
    let door = Door::new(100, 200, DoorAxis::X, DoorType::Normal);
    let mut rng = rand::rngs::StdRng::seed_from_u64(3);
    for _ in 0..20 {
        let i = templates.choose_template(&door, &mut rng).unwrap();
        assert!(i < 7);
    }
    let blood = Door::new(100, 200, DoorAxis::X, DoorType::Blood);
    assert_eq!(templates.choose_template(&blood, &mut rng), Some(0));

    let placed = template_placements(&door, &vec![5, 6]);
    assert_eq!(placed, vec![(BlockPos::new(102, 69, 198), 5), (BlockPos::new(102, 69, 199), 6)]);
}

#[test]
fn choosing_a_layout() {
    let mut rng = rand::rngs::StdRng::seed_from_u64(11);
    assert_eq!(choose_layout(0, &mut rng), None);
    assert_eq!(choose_layout(1, &mut rng), Some(0));
    for _ in 0..20 {
        assert!(choose_layout(5, &mut rng).unwrap() < 5);
    }
}

#[test]
fn the_entrance_doors() {
    let doors = vec![
        Door::new(0, 0, DoorAxis::X, DoorType::Normal),
        Door::new(-169, -185, DoorAxis::X, DoorType::Entrance),
        Door::new(0, 0, DoorAxis::X, DoorType::Wither),
        Door::new(-153, -169, DoorAxis::Z, DoorType::Entrance),
    ];
    assert_eq!(
        open_entrance_doors(&doors),
        vec![OpeningDoor::new(-169, -185), OpeningDoor { x: -153, z: -169, ticks_left: 20 }]
    );
    assert!(open_entrance_doors(&Vec::new()).is_empty());
}

#[test]
fn opening_a_door_from_a_room() {
    let mut dungeon = two_room_dungeon();
    assert_eq!(dungeon.neighbours(0), vec![RoomNeighbour { room: 1, door: 0 }]);
    assert_eq!(dungeon.neighbours(1), vec![RoomNeighbour { room: 0, door: 0 }]);
    // a block away from the door opens nothing
    assert_eq!(dungeon.try_open_door(0, BlockPos::new(-160, 70, -185)), (None, 0, None));
    let opened = dungeon.try_open_door(0, BlockPos::new(-169, 70, -185));
    let opening = DoorOpening {
        barrier_from: BlockPos::new(-170, 69, -186),
        barrier_to: BlockPos::new(-168, 72, -184),
        entity_position: BlockPos::new(-170, 69, -186),
        entity_block: DoorBlock::ChiseledStoneBrickSilverfish,
    };
    assert_eq!(opened, (Some(RoomNeighbour { room: 1, door: 0 }), 0, Some(opening)));
    assert!(dungeon.doors[0].is_open);
    assert_eq!(dungeon.try_open_door(1, BlockPos::new(-168, 71, -184)), (None, 0, None));

    let mut locked = two_room_dungeon();
    locked.doors[0].door_type = DoorType::Blood;
    locked.blood_key_count = 0;
    assert_eq!(locked.try_open_door(0, BlockPos::new(-169, 70, -185)), (None, 1, None));
    assert!(!locked.doors[0].is_open);
    locked.blood_key_count = 1;
    let (nb, messages, opening) = locked.try_open_door(0, BlockPos::new(-169, 70, -185));
    assert_eq!((nb, messages), (Some(RoomNeighbour { room: 1, door: 0 }), 0));
    assert_eq!(opening.unwrap().entity_block, DoorBlock::RedStainedClay);
    assert_eq!(locked.blood_key_count, 0);
}

#[test]
fn entering_rooms_spawns_their_secrets() {
    let rooms = vec![
        room_at(Rotation::Identity, BlockPos::new(0, 68, 0), vec![1]),
        room_at(Rotation::Identity, BlockPos::new(0, 68, 0), Vec::new()),
        room_at(Rotation::Identity, BlockPos::new(0, 68, 0), vec![2, 3]),
    ];
    let mut entered = vec![false, false, true];
    assert_eq!(update_room_entered(&rooms, &mut entered), vec![0]);
    assert_eq!(entered, vec![true, false, true]);
    // a second look finds nothing new
    assert!(update_room_entered(&rooms, &mut entered).is_empty());
    let mut fresh = vec![false, false, false];
    assert_eq!(update_room_entered(&rooms, &mut fresh), vec![0, 2]);

    let secret = |spawn| SecretPlacement { position: BlockPos::new(0, 0, 0), kind: SecretKind::Essence, spawn };
    let placements = vec![
        secret(SecretSpawn::RoomEnter),
        secret(SecretSpawn::Area { width: 3, height: 3 }),
        secret(SecretSpawn::RoomEnter),
        secret(SecretSpawn::RoomEnter),
    ];
    assert_eq!(secrets_spawned_on_enter(&placements, &vec![false, false, true, false]), vec![0, 3]);
}

#[test]
fn digging_with_the_dungeon_breaker() {
    assert_eq!(dungeon_breaker_dig(true, true, 3, true, true, true, false), Some(2));
    assert_eq!(dungeon_breaker_dig(false, true, 3, true, true, true, false), None);
    assert_eq!(dungeon_breaker_dig(true, false, 3, true, true, true, false), None);
    assert_eq!(dungeon_breaker_dig(true, true, 0, true, true, true, false), None);
    assert_eq!(dungeon_breaker_dig(true, true, 3, false, true, true, false), None);
    assert_eq!(dungeon_breaker_dig(true, true, 3, true, false, true, false), None);
    assert_eq!(dungeon_breaker_dig(true, true, 3, true, true, false, false), None);
    assert_eq!(dungeon_breaker_dig(true, true, 3, true, true, true, true), None);
    assert_eq!(BROKEN_BLOCK_TICKS, 200);
}

#[test]
fn transmission_is_kept_out_of_puzzles_and_traps() {
    assert!(transmission_allowed_from(None));
    assert!(transmission_allowed_from(Some(RoomType::Normal)));
    assert!(!transmission_allowed_from(Some(RoomType::Trap)));
    assert!(!transmission_allowed_from(Some(RoomType::Puzzle)));
    assert!(transmission_lands_in(Some(RoomType::Trap)));
    assert!(transmission_lands_in(None));
    assert!(!transmission_lands_in(Some(RoomType::Puzzle)));
}

#[test]
fn the_entrance_room_and_the_spirit_leap() {
    let dungeon = two_room_dungeon();
    assert_eq!(dungeon.entrance_room().id, 1);
    assert_eq!(dungeon.entrance_room().room_type, RoomType::Entrance);
    assert_eq!(ItemSecretType::SpiritLeap.get_item(), (368, (1, 1)));
}

#[test]
fn loading_a_door_into_the_world() {
    let templates = parse_door_templates(&template_text(8, false)).unwrap();
    let door = Door::new(10, 20, DoorAxis::Z, DoorType::Blood);
    let mut rng = rand::rngs::StdRng::seed_from_u64(5);
    let (index, writes) = door.load_into_world(&templates, &mut rng);
    assert_eq!(index, 0);
    assert_eq!(writes.len(), 6);
    let fills = door.fill_regions();
    assert_eq!(writes[0], DoorWrite::Fill { from: fills[0].0, to: fills[0].1, block: fills[0].2 });
    assert_eq!(writes[2], DoorWrite::Fill { from: fills[2].0, to: fills[2].1, block: DoorBlock::Air });
    assert_eq!(writes[3], DoorWrite::Place { position: BlockPos::new(8, 69, 18), state: 1 });
    assert_eq!(writes[4], DoorWrite::Place { position: BlockPos::new(9, 69, 18), state: 10 });
    assert_eq!(
        writes[5],
        DoorWrite::Fill { from: BlockPos::new(9, 69, 19), to: BlockPos::new(11, 72, 21), block: DoorBlock::RedStainedClay }
    );
}

#[test]
fn starting_the_run_opens_the_entrance_doors() {
    let mut dungeon = two_room_dungeon();
    assert!(!dungeon.doors[0].is_open);
    let (rooms, openings) = dungeon.start_dungeon();
    assert_eq!(rooms, vec![1]);
    assert_eq!(openings.len(), 1);
    assert_eq!(openings[0].barrier_from, BlockPos::new(-170, 69, -186));
    assert_eq!(openings[0].barrier_to, BlockPos::new(-168, 72, -184));
    assert_eq!(openings[0].entity_position, BlockPos::new(-170, 69, -186));
    assert!(dungeon.doors[0].is_open);
    assert_eq!(dungeon.blood_key_count, 1);

    let mut wither = two_room_dungeon();
    wither.doors[0].door_type = DoorType::Wither;
    wither.wither_key_count = 1;
    let (rooms, openings) = wither.start_dungeon();
    assert_eq!(rooms, vec![1]);
    assert_eq!(openings[0].entity_block, DoorBlock::CoalBlock);
    assert_eq!(wither.wither_key_count, 0);
}
