use dungeon_sim::abilities::Cooldown;
use dungeon_sim::door::{door_inner_blocks, Door, DoorAxis, DoorBlock, DoorType, OpeningDoor, DOOR_OPENING_TICKS};
use dungeon_sim::dungeon::Dungeon;
use dungeon_sim::entities::{
    door_entity_parts, falling_block_data, sound_emitter_tick, DoorBehaviour, Lifetime, MovingBlockBehaviour,
    SuperboomTNT,
};
use dungeon_sim::geometry::{BlockPos, Rotation};
use dungeon_sim::layout::LayoutRoom;
use dungeon_sim::loading::pick_room_data;
use dungeon_sim::room::{Room, RoomSegment};
use dungeon_sim::room_data::{RoomData, RoomShape, RoomType, SecretData, SecretSpawnCondition, SecretType};
use dungeon_sim::secrets::{
    chest_interaction, compose, essence_spin_tick, load_secrets, update_room_secrets, ChestInteraction,
    ChestSecretType, ItemSecretType, Secret, SecretKind, SecretPlacement, SecretSpawn,
};
use rand::SeedableRng;

fn small_dungeon() -> Dungeon {
    let mut text = String::from("010707");
    for _ in 3..36 {
        text.push_str("00");
    }
    text.push('3');
    Dungeon::from_string(&text, &vec![(-169, -185)]).unwrap()
}

#[test]
fn opening_doors_uses_keys() {
    let mut dungeon = small_dungeon();
    let mut entrance = dungeon.doors[0];
    assert_eq!(entrance.door_type, DoorType::Entrance);
    assert!(entrance.can_open(&dungeon));
    entrance.open(&mut dungeon);
    assert!(entrance.is_open);
    assert!(!entrance.can_open(&dungeon));
    assert_eq!(dungeon.blood_key_count, 1);
    assert_eq!(dungeon.wither_key_count, 0);

    let mut wither = Door::new(-153, -185, DoorAxis::X, DoorType::Wither);
    assert!(!wither.is_open);
    assert!(!wither.can_open(&dungeon));
    dungeon.wither_key_count = 2;
    assert!(wither.can_open(&dungeon));
    wither.open(&mut dungeon);
    assert_eq!(dungeon.wither_key_count, 1);
    assert!(!wither.can_open(&dungeon));

    let mut blood = Door::new(-153, -169, DoorAxis::Z, DoorType::Blood);
    assert!(blood.can_open(&dungeon));
    blood.open(&mut dungeon);
    assert_eq!(dungeon.blood_key_count, 0);
    assert_eq!(dungeon.wither_key_count, 1);

    let normal = Door::new(0, 0, DoorAxis::Z, DoorType::Normal);
    assert!(normal.is_open);
    assert!(!normal.can_open(&dungeon));
}

#[test]
fn door_blocks_and_regions() {
    let door = Door::new(-169, -185, DoorAxis::X, DoorType::Entrance);
    assert_eq!(door.get_block(), DoorBlock::ChiseledStoneBrickSilverfish);
    assert_eq!(Door::new(0, 0, DoorAxis::X, DoorType::Wither).get_block(), DoorBlock::CoalBlock);
    assert_eq!(Door::new(0, 0, DoorAxis::X, DoorType::Blood).get_block(), DoorBlock::RedStainedClay);
    assert_eq!(Door::new(0, 0, DoorAxis::X, DoorType::Normal).get_block(), DoorBlock::Air);
    let regions = door.fill_regions();
    assert_eq!(
        regions,
        vec![
            (BlockPos::new(-172, 67, -187), BlockPos::new(-166, 66, -183), DoorBlock::Bedrock),
            (BlockPos::new(-169, 68, -187), BlockPos::new(-169, 68, -183), DoorBlock::Stone),
            (BlockPos::new(-172, 69, -187), BlockPos::new(-166, 73, -183), DoorBlock::Air),
            (BlockPos::new(-170, 69, -186), BlockPos::new(-168, 72, -184), DoorBlock::ChiseledStoneBrickSilverfish),
        ]
    );
    let along_z = Door::new(10, 20, DoorAxis::Z, DoorType::Normal);
    let regions = along_z.fill_regions();
    assert_eq!(regions[0], (BlockPos::new(8, 67, 17), BlockPos::new(12, 66, 23), DoorBlock::Bedrock));
    assert_eq!(regions[1], (BlockPos::new(8, 68, 20), BlockPos::new(12, 68, 20), DoorBlock::Stone));

    assert!(door.contains(BlockPos::new(-170, 69, -186)));
    assert!(door.contains(BlockPos::new(-168, 72, -184)));
    assert!(!door.contains(BlockPos::new(-167, 70, -185)));
    assert!(!door.contains(BlockPos::new(-169, 73, -185)));
}

#[test]
fn door_templates() {
    assert_eq!(Door::new(0, 0, DoorAxis::Z, DoorType::Wither).template_type(), DoorType::Normal);
    assert_eq!(Door::new(0, 0, DoorAxis::Z, DoorType::Blood).template_type(), DoorType::Blood);
    assert_eq!(Door::new(0, 0, DoorAxis::Z, DoorType::Entrance).template_type(), DoorType::Entrance);
    let along_z = Door::new(100, 200, DoorAxis::Z, DoorType::Normal);
    assert_eq!(along_z.template_block_position(0), BlockPos::new(98, 69, 198));
    assert_eq!(along_z.template_block_position(26), BlockPos::new(99, 70, 198));
    let along_x = Door::new(100, 200, DoorAxis::X, DoorType::Normal);
    assert_eq!(along_x.template_block_position(0), BlockPos::new(102, 69, 198));
    assert_eq!(along_x.template_block_position(26), BlockPos::new(102, 70, 199));
}

#[test]
fn an_opening_door() {
    let mut opening = OpeningDoor::new(5, 6);
    assert_eq!(opening.ticks_left, DOOR_OPENING_TICKS);
    for _ in 0..19 {
        assert!(!opening.tick());
    }
    assert!(opening.tick());
    assert_eq!(opening.ticks_left, 0);
    let inner = door_inner_blocks(5, 6);
    assert_eq!(inner.len(), 36);
    assert_eq!(inner[0], BlockPos::new(4, 69, 5));
    assert_eq!(inner[1], BlockPos::new(4, 69, 6));
    assert_eq!(inner[3], BlockPos::new(4, 70, 5));
    assert_eq!(inner[35], BlockPos::new(6, 72, 7));
}

#[test]
fn collecting_a_secret_counts_once() {
    let mut secret = Secret { collected: false };
    let mut found: usize = 2;
    update_room_secrets(&mut secret, &mut found);
    assert!(secret.collected);
    assert_eq!(found, 3);
    update_room_secrets(&mut secret, &mut found);
    assert!(secret.collected);
    assert_eq!(found, 3);
}

#[test]
fn composing_rotations() {
    assert_eq!(compose(Rotation::Clockwise90, Rotation::Clockwise180), Rotation::CounterClockwise90);
    assert_eq!(compose(Rotation::CounterClockwise90, Rotation::Clockwise90), Rotation::Identity);
    assert_eq!(compose(Rotation::Identity, Rotation::Clockwise180), Rotation::Clockwise180);
}

#[test]
fn placing_a_rooms_secrets() {
    let room = Room {
        rotation: Rotation::Clockwise90,
        corner: BlockPos::new(100, 68, 200),
        players: Vec::new(),
        secrets: Vec::new(),
        found_secrets: 0,
    };
    let data = RoomData {
        name: "Secrets".to_string(),
        id: "secrets".to_string(),
        shape: RoomShape::OneByOne,
        room_type: RoomType::Normal,
        bottom: 68,
        width: 31,
        length: 31,
        height: 30,
        secrets: vec![
            SecretData {
                secret: SecretType::Chest { rotation: Rotation::Clockwise90 },
                position: BlockPos::new(1, 70, 2),
                spawn_condition: SecretSpawnCondition::EnterArea { width: 3, height: 4 },
            },
            SecretData {
                secret: SecretType::Item,
                position: BlockPos::new(0, 71, 0),
                spawn_condition: SecretSpawnCondition::EnterRoom,
            },
            SecretData {
                secret: SecretType::Essence { rotation: 0 },
                position: BlockPos::new(5, 72, 5),
                spawn_condition: SecretSpawnCondition::EnterRoom,
            },
        ],
        block_entities: Vec::new(),
        block_data: Vec::new(),
    };
    let placed = load_secrets(&room, &data);
    assert_eq!(
        placed,
        vec![
            SecretPlacement {
                position: BlockPos::new(98, 70, 201),
                kind: SecretKind::Chest {
                    chest_type: ChestSecretType::Blessing { locked: false },
                    rotation: Rotation::Clockwise180,
                },
                spawn: SecretSpawn::Area { width: 3, height: 4 },
            },
            SecretPlacement {
                position: BlockPos::new(100, 71, 200),
                kind: SecretKind::Item { item_type: ItemSecretType::SpiritLeap },
                spawn: SecretSpawn::RoomEnter,
            },
            SecretPlacement {
                position: BlockPos::new(95, 72, 205),
                kind: SecretKind::Essence,
                spawn: SecretSpawn::RoomEnter,
            },
        ]
    );
}

#[test]
fn opening_secret_chests() {
    let locked = chest_interaction(ChestSecretType::Blessing { locked: true }, false);
    assert_eq!(
        locked,
        ChestInteraction {
            locked_message: true,
            searched_message: false,
            spin_blessing: false,
            open_sound: false,
            open_and_collect: false,
        }
    );
    let blessing = chest_interaction(ChestSecretType::Blessing { locked: false }, false);
    assert!(blessing.spin_blessing && blessing.open_sound && blessing.open_and_collect);
    assert!(!blessing.locked_message && !blessing.searched_message);
    let again = chest_interaction(ChestSecretType::Blessing { locked: false }, true);
    assert!(!again.spin_blessing && !again.open_sound && again.open_and_collect);
    let item = chest_interaction(ChestSecretType::Item, false);
    assert!(item.open_sound && !item.searched_message && item.open_and_collect);
    let searched = chest_interaction(ChestSecretType::Item, true);
    assert!(searched.searched_message && !searched.open_sound && searched.open_and_collect);
}

#[test]
fn a_spinning_essence() {
    assert_eq!(essence_spin_tick(0), (Some(80), false));
    assert_eq!(essence_spin_tick(5), (Some(90), false));
    assert_eq!(essence_spin_tick(7), (None, false));
    assert_eq!(essence_spin_tick(20), (Some(120), true));
}

#[test]
fn entity_behaviours() {
    let lifetime = Lifetime { ticks: 5 };
    assert!(!lifetime.tick(5));
    assert!(lifetime.tick(6));
    let block = BlockPos::new(1, 2, 3);
    let moving = MovingBlockBehaviour { block, total_ticks: 10 };
    assert_eq!(moving.tick(9), None);
    assert_eq!(moving.tick(10), Some(block));
    assert_eq!(sound_emitter_tick(3), (false, false));
    assert_eq!(sound_emitter_tick(10), (true, false));
    assert_eq!(sound_emitter_tick(50), (true, true));
    assert_eq!(DoorBehaviour.tick(19, 5, 7), None);
    assert_eq!(DoorBehaviour.tick(20, 5, 7), Some((BlockPos::new(5, 69, 7), BlockPos::new(7, 72, 9))));
}

#[test]
fn falling_blocks_of_a_door() {
    assert_eq!(falling_block_data(16), 1);
    assert_eq!(falling_block_data(0x23), 2 + 3 * 4096);
    let parts = door_entity_parts(100);
    assert_eq!(parts.len(), 36);
    assert_eq!(parts[0], (BlockPos::new(0, 0, 0), 100, 101));
    assert_eq!(parts[13], (BlockPos::new(1, 0, 1), 126, 127));
    assert_eq!(parts[35], (BlockPos::new(2, 3, 2), 170, 171));
}

#[test]
fn superboom_cooldowns() {
    let tnt = SuperboomTNT;
    assert_eq!(tnt.on_interact(None), Some(Cooldown { ticks_remaining: 10, silent: true }));
    assert_eq!(tnt.on_interact(Some(Cooldown { ticks_remaining: 3, silent: true })), None);
    assert_eq!(tnt.on_start_dig(None), Some(Cooldown { ticks_remaining: 7, silent: true }));
    assert_eq!(tnt.on_start_dig(Some(Cooldown { ticks_remaining: 1, silent: false })), None);
}

fn stored(name: &str, shape: RoomShape, room_type: RoomType) -> RoomData {
    RoomData {
        name: name.to_string(),
        id: name.to_lowercase(),
        shape,
        room_type,
        bottom: 68,
        width: 31,
        length: 63,
        height: 30,
        secrets: Vec::new(),
        block_entities: Vec::new(),
        block_data: vec![1, 2, 3],
    }
}

fn layout_room(id: usize, room_type: RoomType, shape: RoomShape) -> LayoutRoom {
    LayoutRoom { id, room_type, shape, segments: vec![(RoomSegment { x: 0, z: 0 }, 0)] }
}

#[test]
fn picking_the_rooms_of_a_layout() {
    let rooms = vec![
        layout_room(1, RoomType::Entrance, RoomShape::OneByOne),
        layout_room(7, RoomType::Normal, RoomShape::OneByTwo),
        layout_room(8, RoomType::Normal, RoomShape::OneByTwo),
        layout_room(9, RoomType::Normal, RoomShape::OneByTwo),
    ];
    let lookup = vec![
        stored("Entrance", RoomShape::OneByOneEnd, RoomType::Entrance),
        stored("A", RoomShape::OneByTwo, RoomType::Normal),
        stored("B", RoomShape::OneByTwo, RoomType::Normal),
        stored("Square", RoomShape::TwoByTwo, RoomType::Normal),
    ];
    let mut rng = rand::rngs::StdRng::seed_from_u64(7);
    let picked = pick_room_data(&rooms, &lookup, &mut rng);
    assert_eq!(picked.len(), 4);
    assert_eq!(picked[0].name, "Entrance");
    assert_eq!(picked[0].room_type, RoomType::Entrance);
    let mut two: Vec<&str> = vec![picked[1].name.as_str(), picked[2].name.as_str()];
    two.sort();
    assert_eq!(two, vec!["A", "B"]);
    // nothing is left for the third long room: it gets the stand-in
    assert_eq!(picked[3].name, "Dummy");
    assert_eq!(picked[3].room_type, RoomType::Normal);
    assert!(picked[3].block_data.is_empty());
}
