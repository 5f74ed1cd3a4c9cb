use dungeon_sim::block_data::{deserialize_blocks, BlockDataError};
use dungeon_sim::geometry::{BlockPos, Rotation};
use dungeon_sim::geometry::Direction;
use dungeon_sim::room::{check_placement, PlacementError, SEGMENT_LIMIT, DIM_LIMIT};
use dungeon_sim::room::{get_rotation_from_segments, rotation_from_segments, single_cell_rotation, MobRoom, Room, RoomSegment, RoomStatus};
use dungeon_sim::room_data::{
    random_room_data, single_cell_shape, BlockEntityData, RoomData, RoomShape, RoomType, SecretData,
    SecretSpawnCondition, SecretType, SkullKind,
};
use dungeon_sim::room_loading::{block_placements, skull_kind, skull_placements, SkullUuids};
use rand::SeedableRng;

fn seg(x: usize, z: usize, mask: u8) -> (RoomSegment, u8) {
    (RoomSegment { x, z }, mask)
}

fn data(name: &str, shape: RoomShape, room_type: RoomType) -> RoomData {
    RoomData {
        name: name.to_string(),
        id: name.to_lowercase(),
        shape,
        room_type,
        bottom: 68,
        width: 31,
        length: 31,
        height: 30,
        secrets: Vec::new(),
        block_entities: Vec::new(),
        block_data: Vec::new(),
    }
}

#[test]
fn single_cell_rotations_and_shapes() {
    assert_eq!(single_cell_rotation(0b1111), Rotation::Identity);
    assert_eq!(single_cell_rotation(0b0101), Rotation::CounterClockwise90);
    assert_eq!(single_cell_rotation(0b0100), Rotation::Clockwise90);
    assert_eq!(single_cell_rotation(0b0010), Rotation::Clockwise180);
    assert_eq!(single_cell_rotation(0b0111), Rotation::CounterClockwise90);
    assert_eq!(single_cell_rotation(0), Rotation::Identity);
    assert_eq!(single_cell_shape(0b1111), RoomShape::OneByOneCross);
    assert_eq!(single_cell_shape(0b0001), RoomShape::OneByOneEnd);
    assert_eq!(single_cell_shape(0b1010), RoomShape::OneByOneStraight);
    assert_eq!(single_cell_shape(0b1100), RoomShape::OneByOneBend);
    assert_eq!(single_cell_shape(0b1101), RoomShape::OneByOneTriple);
    assert_eq!(single_cell_shape(0), RoomShape::OneByOne);
}

#[test]
fn shapes_and_rotations_of_bigger_rooms() {
    let row = vec![seg(1, 1, 0), seg(2, 1, 0)];
    assert_eq!(RoomShape::from_segments(&row), RoomShape::OneByTwo);
    assert_eq!(rotation_from_segments(&row), Rotation::CounterClockwise90);
    let column = vec![seg(1, 1, 0), seg(1, 2, 0), seg(1, 3, 0)];
    assert_eq!(RoomShape::from_segments(&column), RoomShape::OneByThree);
    assert_eq!(rotation_from_segments(&column), Rotation::Identity);
    let square = vec![seg(0, 0, 0), seg(1, 0, 0), seg(0, 1, 0), seg(1, 1, 0)];
    assert_eq!(RoomShape::from_segments(&square), RoomShape::TwoByTwo);
    assert_eq!(rotation_from_segments(&square), Rotation::Identity);
    let long = vec![seg(0, 0, 0), seg(1, 0, 0), seg(2, 0, 0), seg(3, 0, 0)];
    assert_eq!(RoomShape::from_segments(&long), RoomShape::OneByFour);
    // an L: the corner cell decides the rotation
    let l_top_left = vec![seg(0, 0, 0), seg(1, 0, 0), seg(0, 1, 0)];
    assert_eq!(RoomShape::from_segments(&l_top_left), RoomShape::L);
    assert_eq!(rotation_from_segments(&l_top_left), Rotation::Clockwise90);
    let l_top_right = vec![seg(0, 0, 0), seg(1, 0, 0), seg(1, 1, 0)];
    assert_eq!(rotation_from_segments(&l_top_right), Rotation::Clockwise180);
    let l_bottom_right = vec![seg(1, 0, 0), seg(0, 1, 0), seg(1, 1, 0)];
    assert_eq!(rotation_from_segments(&l_bottom_right), Rotation::CounterClockwise90);
    let l_bottom_left = vec![seg(0, 0, 0), seg(0, 1, 0), seg(1, 1, 0)];
    assert_eq!(rotation_from_segments(&l_bottom_left), Rotation::Identity);
    assert_eq!(RoomShape::from_segments(&Vec::new()), RoomShape::Invalid);
}

#[test]
fn placing_a_room() {
    let d = data("Test", RoomShape::OneByOneEnd, RoomType::Normal);
    let room = Room::new(&vec![seg(2, 1, 0b0100)], &d);
    assert_eq!(room.rotation, Rotation::Clockwise90);
    // the corner moves to the far x edge of the cell for a quarter turn
    assert_eq!(room.corner, BlockPos::new(2 * 32 - 200 + 30, 68, 32 - 200));
    assert!(room.players.is_empty());
    assert_eq!(room.found_secrets, 0);
    let straight = Room::new(&vec![seg(0, 0, 0b1111)], &d);
    assert_eq!(straight.corner, BlockPos::new(-200, 68, -200));
    assert_eq!(straight.relative_to_world(BlockPos::new(15, 72, 18)), BlockPos::new(-185, 72, -182));
}

#[test]
fn players_enter_and_leave_a_room() {
    let d = data("Test", RoomShape::OneByOne, RoomType::Normal);
    let mut room = Room::new(&vec![seg(0, 0, 0)], &d);
    room.insert_player(5);
    room.insert_player(6);
    room.remove_player(5);
    assert_eq!(room.players, vec![6]);
    assert_eq!(MobRoom.discover(), RoomStatus::Complete);
}

#[test]
fn reading_block_strings() {
    assert_eq!(deserialize_blocks("").unwrap(), Vec::<u16>::new());
    assert_eq!(deserialize_blocks("00010a0FFFFF").unwrap(), vec![1, 0x0a0f, 0xffff]);
    assert_eq!(deserialize_blocks("+abc").unwrap(), vec![0xabc]);
    assert_eq!(deserialize_blocks("00010").unwrap_err(), BlockDataError::InvalidLength);
    assert_eq!(deserialize_blocks("00g1").unwrap_err(), BlockDataError::InvalidDigit);
    assert_eq!(deserialize_blocks("-001").unwrap_err(), BlockDataError::InvalidDigit);
    // a group ending inside a character is not a group
    assert_eq!(deserialize_blocks("000é").unwrap_err(), BlockDataError::InvalidLength);
}

#[test]
fn a_room_places_its_blocks() {
    let mut d = data("Tiny", RoomShape::OneByOne, RoomType::Normal);
    d.width = 2;
    d.length = 2;
    d.bottom = 70;
    d.block_data = vec![1, 0, 0, 2, 3];
    let room = Room { rotation: Rotation::Identity, corner: BlockPos::new(10, 68, 20), players: Vec::new(), secrets: Vec::new(), found_secrets: 0 };
    let placed = block_placements(&room, &d);
    assert_eq!(
        placed,
        vec![(BlockPos::new(10, 70, 20), 1), (BlockPos::new(11, 70, 21), 2), (BlockPos::new(10, 71, 20), 3)]
    );
    let turned = Room { rotation: Rotation::Clockwise180, ..room };
    let placed = block_placements(&turned, &d);
    assert_eq!(placed[1], (BlockPos::new(9, 70, 19), 2));
}

#[test]
fn skulls_and_their_uuids() {
    assert_eq!(skull_kind(0, false), Some(SkullKind::Skeleton));
    assert_eq!(skull_kind(3, false), None);
    assert_eq!(skull_kind(3, true), Some(SkullKind::PlayerHead));
    assert_eq!(skull_kind(4, false), Some(SkullKind::Creeper));
    let mut d = data("Heads", RoomShape::OneByOne, RoomType::Normal);
    d.block_entities = vec![
        (BlockPos::new(1, 2, 3), BlockEntityData::Skull { skull_type: 3, texture: Some("abc".to_string()), rotation: 4 }),
        (BlockPos::new(1, 2, 4), BlockEntityData::Sign { lines: vec!["hi".to_string()] }),
        (BlockPos::new(1, 2, 5), BlockEntityData::Skull { skull_type: 3, texture: None, rotation: 0 }),
        (BlockPos::new(1, 2, 6), BlockEntityData::Skull { skull_type: 3, texture: Some("abc".to_string()), rotation: 8 }),
        (BlockPos::new(1, 2, 7), BlockEntityData::Skull { skull_type: 1, texture: None, rotation: 2 }),
    ];
    let room = Room { rotation: Rotation::Identity, corner: BlockPos::new(100, 0, 100), players: Vec::new(), secrets: Vec::new(), found_secrets: 0 };
    let mut uuids = SkullUuids::new();
    let skulls = skull_placements(&room, &d, &mut uuids);
    assert_eq!(skulls.len(), 3);
    assert_eq!(skulls[0].position, BlockPos::new(101, 70, 103));
    assert_eq!(skulls[0].kind, SkullKind::PlayerHead);
    assert_eq!(skulls[1].kind, SkullKind::PlayerHead);
    assert_eq!(skulls[2].kind, SkullKind::WitherSkeleton);
    assert_eq!(skulls[2].uuid, None);
    // the same texture shares its uuid, which is a random (version 4) one
    assert_eq!(skulls[0].uuid, skulls[1].uuid);
    let u = skulls[0].uuid.unwrap();
    assert_eq!((u >> 76) & 0xf, 4);
    assert_eq!((u >> 62) & 0x3, 2);
    assert_eq!(uuids.entries.len(), 1);
    assert_eq!(uuids.uuid_for(&"abc".to_string()), u);
    let other = uuids.uuid_for(&"def".to_string());
    assert_eq!(uuids.uuid_for(&"def".to_string()), other);
    assert_eq!(uuids.entries.len(), 2);
}

#[test]
fn picking_stored_rooms() {
    let lookup = vec![
        data("A", RoomShape::OneByTwo, RoomType::Normal),
        data("B", RoomShape::OneByTwo, RoomType::Normal),
        data("C", RoomShape::L, RoomType::Normal),
    ];
    let mut rng = rand::rngs::StdRng::seed_from_u64(9);
    let picked = random_room_data(&lookup, RoomType::Normal, RoomShape::OneByTwo, &vec!["A".to_string()], &mut rng);
    assert_eq!(picked.name, "B");
    assert_eq!(picked.id, "b");
    let picked = random_room_data(&lookup, RoomType::Normal, RoomShape::L, &Vec::new(), &mut rng);
    assert_eq!(picked.name, "C");
    let none = random_room_data(&lookup, RoomType::Puzzle, RoomShape::OneByOneEnd, &Vec::new(), &mut rng);
    assert_eq!(none.name, "Dummy");
    assert_eq!(none.width, 31);
    assert_eq!(none.room_type, RoomType::Normal);
    let copy = lookup[2].duplicate();
    assert_eq!(copy.name, "C");
    let _ = SecretData { secret: SecretType::Item, position: BlockPos::new(0, 0, 0), spawn_condition: SecretSpawnCondition::EnterRoom };
}

#[test]
fn facing_directions_from_segments() {
    assert_eq!(get_rotation_from_segments(&vec![seg(2, 2, 0b1111)]), Direction::North);
    assert_eq!(get_rotation_from_segments(&vec![seg(2, 2, 0b0101)]), Direction::North);
    assert_eq!(get_rotation_from_segments(&vec![seg(2, 2, 0b1010)]), Direction::East);
    assert_eq!(get_rotation_from_segments(&vec![seg(2, 2, 0b1000)]), Direction::North);
    assert_eq!(get_rotation_from_segments(&vec![seg(2, 2, 0b0100)]), Direction::East);
    assert_eq!(get_rotation_from_segments(&vec![seg(2, 2, 0b0010)]), Direction::South);
    assert_eq!(get_rotation_from_segments(&vec![seg(2, 2, 0b0001)]), Direction::West);
    assert_eq!(get_rotation_from_segments(&vec![seg(2, 2, 0b0110)]), Direction::West);
    assert_eq!(get_rotation_from_segments(&vec![seg(2, 2, 0b0000)]), Direction::North);
    // a room one cell long faces north, one cell wide faces east
    assert_eq!(get_rotation_from_segments(&vec![seg(1, 1, 0), seg(2, 1, 0)]), Direction::North);
    assert_eq!(get_rotation_from_segments(&vec![seg(1, 1, 0), seg(1, 2, 0)]), Direction::East);
    assert_eq!(get_rotation_from_segments(&vec![seg(0, 3, 0), seg(1, 3, 0), seg(2, 3, 0)]), Direction::North);
    assert_eq!(get_rotation_from_segments(&vec![seg(4, 0, 0), seg(4, 1, 0), seg(4, 2, 0), seg(4, 3, 0)]), Direction::East);
    // an L faces by its corner segment
    assert_eq!(get_rotation_from_segments(&vec![seg(0, 0, 0), seg(1, 0, 0), seg(0, 1, 0)]), Direction::East);
    assert_eq!(get_rotation_from_segments(&vec![seg(0, 0, 0), seg(1, 0, 0), seg(1, 1, 0)]), Direction::South);
    assert_eq!(get_rotation_from_segments(&vec![seg(1, 0, 0), seg(1, 1, 0), seg(0, 1, 0)]), Direction::West);
    assert_eq!(get_rotation_from_segments(&vec![seg(0, 0, 0), seg(0, 1, 0), seg(1, 1, 0)]), Direction::North);
    // a square faces north
    assert_eq!(
        get_rotation_from_segments(&vec![seg(0, 0, 0), seg(1, 0, 0), seg(0, 1, 0), seg(1, 1, 0)]),
        Direction::North
    );
}

#[test]
fn the_order_of_segments_does_not_change_the_rotation() {
    let l = vec![seg(0, 0, 0), seg(1, 0, 0), seg(1, 1, 0)];
    let orders = vec![
        vec![seg(1, 0, 0), seg(0, 0, 0), seg(1, 1, 0)],
        vec![seg(1, 1, 0), seg(1, 0, 0), seg(0, 0, 0)],
        vec![seg(0, 0, 0), seg(1, 1, 0), seg(1, 0, 0)],
    ];
    for o in &orders {
        assert_eq!(rotation_from_segments(o), rotation_from_segments(&l));
        assert_eq!(get_rotation_from_segments(o), get_rotation_from_segments(&l));
    }
    let line = vec![seg(3, 2, 0), seg(3, 3, 0), seg(3, 4, 0), seg(3, 5, 0)];
    let shuffled = vec![seg(3, 4, 0), seg(3, 2, 0), seg(3, 5, 0), seg(3, 3, 0)];
    assert_eq!(rotation_from_segments(&shuffled), rotation_from_segments(&line));
}

#[test]
fn checking_whether_a_room_can_be_placed() {
    let d = data("Room", RoomShape::OneByOne, RoomType::Normal);
    assert_eq!(check_placement(&vec![seg(0, 0, 0)], &d), Ok(()));
    assert_eq!(check_placement(&vec![seg(0, 0, 0), seg(1, 0, 0), seg(1, 1, 0)], &d), Ok(()));
    assert_eq!(check_placement(&Vec::new(), &d), Err(PlacementError::SegmentCount));
    let five: Vec<(RoomSegment, u8)> = (0..5).map(|x| seg(x, 0, 0)).collect();
    assert_eq!(check_placement(&five, &d), Err(PlacementError::SegmentCount));
    assert_eq!(check_placement(&vec![seg(SEGMENT_LIMIT + 1, 0, 0)], &d), Err(PlacementError::OffGrid));
    // two segments on one cell and one diagonal: an L with no corner
    assert_eq!(
        check_placement(&vec![seg(0, 0, 0), seg(0, 0, 0), seg(1, 1, 0)], &d),
        Err(PlacementError::InvalidLRoom)
    );
    let mut wide = d.clone();
    wide.width = DIM_LIMIT + 1;
    assert_eq!(check_placement(&vec![seg(0, 0, 0)], &wide), Err(PlacementError::DimensionsTooLarge));
}
