use dungeon_sim::geometry::{BlockPos, Direction, Rotation};
use dungeon_sim::grid::{grid_position, RoomGridLookup};

#[test]
fn rotate_quarter_turns() {
    let p = BlockPos::new(3, 70, 5);
    assert_eq!(p.rotate(Rotation::Identity), BlockPos::new(3, 70, 5));
    assert_eq!(p.rotate(Rotation::Clockwise90), BlockPos::new(5, 70, -3));
    assert_eq!(p.rotate(Rotation::Clockwise180), BlockPos::new(-3, 70, -5));
    assert_eq!(p.rotate(Rotation::CounterClockwise90), BlockPos::new(-5, 70, 3));
}

#[test]
fn rotate_then_inverse_gives_back_the_position() {
    let p = BlockPos::new(-7, 12, 31);
    for r in [Rotation::Identity, Rotation::Clockwise90, Rotation::Clockwise180, Rotation::CounterClockwise90] {
        assert_eq!(p.rotate(r).rotate(r.inverse()), p);
    }
}

#[test]
fn four_quarter_turns_are_the_identity() {
    let p = BlockPos::new(2, 0, -9);
    let mut q = p;
    for _ in 0..4 {
        q = q.rotate(Rotation::Clockwise90);
    }
    assert_eq!(q, p);
}

#[test]
fn direction_offsets_follow_the_block_face_order() {
    assert_eq!(Direction::from_index(0).get_offset(), (0, -1, 0));
    assert_eq!(Direction::from_index(1).get_offset(), (0, 1, 0));
    assert_eq!(Direction::from_index(2).get_offset(), (0, 0, -1));
    assert_eq!(Direction::from_index(3).get_offset(), (0, 0, 1));
    assert_eq!(Direction::from_index(4).get_offset(), (-1, 0, 0));
    assert_eq!(Direction::from_index(5).get_offset(), (1, 0, 0));
}

#[test]
fn grid_position_of_world_columns() {
    assert_eq!(grid_position(-200, -200), Some(0));
    assert_eq!(grid_position(-169, -169), Some(0));
    assert_eq!(grid_position(-168, -200), Some(1));
    assert_eq!(grid_position(-200, -168), Some(6));
    assert_eq!(grid_position(-9, -9), Some(35));
    assert_eq!(grid_position(-201, 0), None);
    assert_eq!(grid_position(0, -201), None);
    // columns past the sixth run into the next row, as the index is not checked
    assert_eq!(grid_position(-8, -200), Some(6));
}

#[test]
fn room_grid_set_then_get() {
    let mut grid = RoomGridLookup::new();
    assert_eq!(grid.get(2, 3), None);
    grid.set(2, 3, 77);
    assert_eq!(grid.get(2, 3), Some(77));
    assert_eq!(grid.get(3, 2), None);
    // out of the grid: ignored and reported empty
    grid.set(0, 6, 5);
    assert_eq!(grid.get(0, 6), None);
    assert_eq!(grid.get_from_world(BlockPos::new(-200 + 2 * 32 + 4, 70, -200 + 3 * 32 + 31)), Some(77));
    assert_eq!(grid.get_from_world(BlockPos::new(-300, 70, -100)), None);
}
