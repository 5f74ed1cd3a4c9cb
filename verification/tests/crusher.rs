use dungeon_sim::crusher::{Crusher, CrusherAction, CrusherBlock};
use dungeon_sim::geometry::{BlockPos, Direction};

fn set(block: CrusherBlock, x: i32, y: i32, z: i32) -> CrusherAction {
    CrusherAction::SetBlock { block, position: BlockPos::new(x, y, z) }
}

#[test]
fn a_crusher_slides_out_and_back() {
    let mut c = Crusher::new(BlockPos::new(0, 70, 0), Direction::East, 1, 2, 2, 1, 0);
    let red = set(CrusherBlock::RedstoneBlock, 0, 69, 0);
    let players = vec![(1u64, BlockPos::new(1, 70, 0))];

    assert_eq!(c.tick(&players), vec![red, set(CrusherBlock::PolishedGranite, 0, 70, 0), set(CrusherBlock::PolishedGranite, 0, 71, 0)]);
    assert_eq!(c.current_length, 1);
    assert_eq!(c.tick(&players), vec![red, set(CrusherBlock::PolishedGranite, 1, 70, 0), set(CrusherBlock::PolishedGranite, 1, 71, 0)]);
    assert_eq!(c.tick(&players), vec![red, set(CrusherBlock::PolishedGranite, 2, 70, 0), set(CrusherBlock::PolishedGranite, 2, 71, 0)]);
    // fully out: turns around at once with no pause
    assert!(c.is_reversed);
    assert_eq!(c.current_length, 0);
    assert_eq!(c.tick(&players), vec![red, set(CrusherBlock::Air, 2, 70, 0), set(CrusherBlock::Air, 2, 71, 0)]);
    assert_eq!(c.tick(&players), vec![red, set(CrusherBlock::Air, 1, 70, 0), set(CrusherBlock::Air, 1, 71, 0)]);
    assert!(!c.is_reversed);
    assert_eq!(c.current_length, 0);
}

#[test]
fn a_slow_crusher_moves_every_few_ticks_and_pauses() {
    let mut c = Crusher::new(BlockPos::new(10, 70, 10), Direction::North, 2, 1, 1, 2, 3);
    let red = set(CrusherBlock::RedstoneBlock, 10, 69, 10);
    let none: Vec<(u64, BlockPos)> = Vec::new();
    assert_eq!(c.tick(&none), vec![red]);
    // along north the slab spreads towards west
    assert_eq!(c.tick(&none), vec![red, set(CrusherBlock::PolishedGranite, 10, 70, 10), set(CrusherBlock::PolishedGranite, 9, 70, 10)]);
    assert_eq!(c.tick(&none), vec![red]);
    assert_eq!(c.tick(&none), vec![red, set(CrusherBlock::PolishedGranite, 10, 70, 9), set(CrusherBlock::PolishedGranite, 9, 70, 9)]);
    assert!(c.is_paused);
    assert_eq!(c.tick(&none), vec![red]);
    assert_eq!(c.tick(&none), vec![red]);
    assert_eq!(c.tick(&none), vec![red]);
    assert!(!c.is_paused);
    assert!(c.is_reversed);
}

#[test]
fn players_are_never_in_the_way() {
    let c = Crusher::new(BlockPos::new(0, 70, 0), Direction::East, 1, 1, 1, 1, 0);
    assert!(!c.is_in_way(BlockPos::new(0, 70, 0), 0, 70, 0));
}

#[test]
fn an_empty_wall_places_only_the_redstone() {
    let mut c = Crusher::new(BlockPos::new(5, 70, 5), Direction::South, -3, 2, 1, 1, 0);
    let red = set(CrusherBlock::RedstoneBlock, 5, 69, 5);
    let none: Vec<(u64, BlockPos)> = Vec::new();
    for _ in 0..6 {
        assert_eq!(c.tick(&none), vec![red]);
    }
    let mut flat = Crusher::new(BlockPos::new(5, 70, 5), Direction::South, 2, 0, 1, 1, 0);
    assert_eq!(flat.tick(&none), vec![red]);
}

#[test]
fn a_crusher_of_length_zero_turns_on_the_spot() {
    let mut c = Crusher::new(BlockPos::new(0, 70, 0), Direction::West, 1, 1, 0, 2, 0);
    let red = set(CrusherBlock::RedstoneBlock, 0, 69, 0);
    let none: Vec<(u64, BlockPos)> = Vec::new();
    assert_eq!(c.tick(&none), vec![red]);
    assert_eq!(c.tick(&none), vec![red, set(CrusherBlock::PolishedGranite, 0, 70, 0)]);
    assert!(c.is_reversed);
    // going back it turns again before it would step
    assert_eq!(c.tick(&none), vec![red]);
    assert!(!c.is_reversed);
    for _ in 0..20 {
        c.tick(&none);
    }
}

#[test]
fn the_tick_counter_may_reach_its_last_value() {
    // 255 ticks per block over 257 steps is exactly 65535 ticks
    let mut c = Crusher::new(BlockPos::new(0, 70, 0), Direction::East, 1, 1, 256, 255, 0);
    let none: Vec<(u64, BlockPos)> = Vec::new();
    for _ in 0..(255u32 * 257) {
        c.tick(&none);
    }
    assert!(c.is_reversed);
    assert_eq!(c.current_length, 0);
    assert_eq!(c.tick, 0);
}

#[test]
fn a_crusher_comes_back_to_rest_after_a_whole_cycle() {
    // 2 ticks per block, 3 blocks out, pauses of 4 ticks: 2 * 7 + 2 * 4 ticks
    let start = Crusher::new(BlockPos::new(0, 70, 0), Direction::South, 1, 1, 3, 2, 4);
    let mut c = start;
    let none: Vec<(u64, BlockPos)> = Vec::new();
    let mut placed = Vec::new();
    let mut cleared = Vec::new();
    for _ in 0..22 {
        for action in c.tick(&none) {
            match action {
                CrusherAction::SetBlock { block: CrusherBlock::PolishedGranite, position } => placed.push(position.z),
                CrusherAction::SetBlock { block: CrusherBlock::Air, position } => cleared.push(position.z),
                _ => {}
            }
        }
    }
    assert_eq!(c, start);
    assert_eq!(placed, vec![0, 1, 2, 3]);
    assert_eq!(cleared, vec![3, 2, 1]);
}

#[test]
fn an_upright_crusher_runs_while_nobody_is_around() {
    let mut c = Crusher::new(BlockPos::new(0, 70, 0), Direction::Up, 1, 1, 1, 1, 0);
    let red = set(CrusherBlock::RedstoneBlock, 0, 69, 0);
    let none: Vec<(u64, BlockPos)> = Vec::new();
    // its slab does not move along the way up
    assert_eq!(c.tick(&none), vec![red, set(CrusherBlock::PolishedGranite, 0, 70, 0)]);
    assert_eq!(c.tick(&none), vec![red, set(CrusherBlock::PolishedGranite, 0, 70, 0)]);
    assert!(c.is_reversed);
    assert_eq!(c.tick(&none), vec![red, set(CrusherBlock::Air, 0, 70, 0)]);
    assert!(!c.is_reversed);
}
