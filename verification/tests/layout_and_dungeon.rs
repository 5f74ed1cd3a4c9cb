use dungeon_sim::door::{DoorAxis, DoorType};
use dungeon_sim::dungeon::{Dungeon, DungeonState, RoomNeighbour};
use dungeon_sim::layout::{parse_cell_ids, parse_doors, LayoutError};
use dungeon_sim::room::RoomSegment;
use dungeon_sim::room_data::{RoomShape, RoomType};

fn layout(cells: &[&str], doors: &str) -> String {
    let mut s = String::new();
    for c in cells {
        s.push_str(c);
    }
    for _ in cells.len()..36 {
        s.push_str("00");
    }
    s.push_str(doors);
    s
}

#[test]
fn a_small_dungeon_from_its_layout() {
    // entrance in the first cell, a two-cell room east of it, one entrance door between
    let text = layout(&["01", "07", "07"], "3");
    let door_positions = vec![(-169, -185)];
    let dungeon = Dungeon::from_string(&text, &door_positions).unwrap();

    assert_eq!(dungeon.doors.len(), 1);
    assert_eq!(dungeon.doors[0].x, -169);
    assert_eq!(dungeon.doors[0].z, -185);
    assert_eq!(dungeon.doors[0].axis, DoorAxis::X);
    assert_eq!(dungeon.doors[0].door_type, DoorType::Entrance);
    assert!(!dungeon.doors[0].is_open);

    assert_eq!(dungeon.rooms.len(), 2);
    assert_eq!(dungeon.rooms[0].id, 1);
    assert_eq!(dungeon.rooms[0].room_type, RoomType::Entrance);
    assert_eq!(dungeon.rooms[0].segments.len(), 1);
    assert_eq!(dungeon.rooms[0].segments[0].1, 0b0100);
    assert_eq!(dungeon.rooms[1].id, 7);
    assert_eq!(dungeon.rooms[1].room_type, RoomType::Normal);
    assert_eq!(dungeon.rooms[1].shape, RoomShape::OneByTwo);
    let segs: Vec<(usize, usize, u8)> = dungeon.rooms[1].segments.iter().map(|(s, m)| (s.x, s.z, *m)).collect();
    assert_eq!(segs, vec![(1, 0, 0b0001), (2, 0, 0)]);

    assert_eq!(dungeon.room_index_grid[0], Some(0));
    assert_eq!(dungeon.room_index_grid[1], Some(1));
    assert_eq!(dungeon.room_index_grid[2], Some(1));
    assert!(dungeon.room_index_grid[3..].iter().all(|c| c.is_none()));

    assert_eq!(dungeon.links[0].east, Some(RoomNeighbour { room: 1, door: 0 }));
    assert_eq!(dungeon.links[0].north, None);
    assert_eq!(dungeon.links[1].west, Some(RoomNeighbour { room: 0, door: 0 }));

    assert_eq!(dungeon.entrance_room_index, 0);
    assert_eq!(dungeon.state, DungeonState::NotStarted);
    assert!(!dungeon.has_started());
    assert_eq!(dungeon.wither_key_count, 0);
    assert_eq!(dungeon.blood_key_count, 1);
    assert_eq!(dungeon.map_offset_x, 34);
    assert_eq!(dungeon.map_offset_y, 54);
}

#[test]
fn layout_errors() {
    let door_positions = vec![(-169, -185)];
    // the door character is missing
    assert_eq!(Dungeon::from_string("01", &door_positions).unwrap_err(), LayoutError::DoorType);
    // no doors to read, but too few cells
    assert_eq!(Dungeon::from_string("0107", &vec![]).unwrap_err(), LayoutError::TooSmall);
    // a cell that is not a number
    assert_eq!(Dungeon::from_string(&layout(&["01", "x7"], "3"), &door_positions).unwrap_err(), LayoutError::InvalidNumber);
    // a door that leads to no room
    assert_eq!(
        Dungeon::from_string(&layout(&["01"], "3"), &door_positions).unwrap_err(),
        LayoutError::UnresolvedNeighbour
    );
}

#[test]
fn cell_numbers_and_door_characters() {
    let ids = parse_cell_ids(&layout(&["01", "+7", "12"], "")).unwrap();
    assert_eq!(&ids[..3], &[1, 7, 12]);
    assert!(ids[3..].iter().all(|i| *i == 0));
    let text = layout(&[], "0123x");
    let positions = vec![(-169, -185), (-185, -169), (-137, -185), (-153, -169), (-121, -185)];
    let doors = parse_doors(&text, &positions).unwrap();
    let types: Vec<DoorType> = doors.iter().map(|d| d.door_type).collect();
    assert_eq!(types, vec![DoorType::Normal, DoorType::Wither, DoorType::Blood, DoorType::Entrance]);
    // normal doors start open
    assert!(doors[0].is_open);
    assert!(!doors[1].is_open);
    // a door along z: an even 16-block band east of the origin
    assert_eq!(doors[1].axis, DoorAxis::Z);
    let _ = RoomSegment { x: 0, z: 0 };
}

#[test]
fn a_door_off_the_east_edge_reaches_the_next_row() {
    // east of the last column the index arithmetic gives the next row's first cell
    let text = layout(&["00", "00", "00", "00", "00", "01", "07"], "3");
    let dungeon = Dungeon::from_string(&text, &vec![(-9, -185)]).unwrap();
    assert_eq!(dungeon.links[5].east, Some(RoomNeighbour { room: 1, door: 0 }));
}
