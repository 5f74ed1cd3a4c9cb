use dungeon_sim::geometry::{BlockPos, Rotation};
use dungeon_sim::room::Room;
use dungeon_sim::dungeon::DungeonState;
use dungeon_sim::teleport_maze::{
    pads_checked, pair_across_sections, section_pads, TeleportMaze, TeleportPad, TeleportPadRotation,
};
use rand::SeedableRng;
use std::collections::HashSet;

fn p(x: i32) -> BlockPos {
    BlockPos::new(x, 70, 0)
}

fn l(x: i32) -> BlockPos {
    BlockPos::new(x, 69, 0)
}

fn linked(from: i32, to: i32) -> TeleportPad {
    TeleportPad { position: p(from), teleports_to: l(to), rotate_type: TeleportPadRotation::TowardsEnd }
}

#[test]
fn pairs_swap_in_a_pad_of_another_section() {
    let left = vec![(0, p(1), l(1)), (0, p(2), l(2)), (1, p(3), l(3)), (1, p(4), l(4))];
    let pads = pair_across_sections(left).unwrap();
    assert_eq!(pads, vec![linked(1, 3), linked(3, 1), linked(2, 4), linked(4, 2)]);
}

#[test]
fn pairing_fails_when_the_last_two_share_a_section() {
    let left = vec![(0, p(1), l(1)), (1, p(2), l(2)), (2, p(3), l(3)), (2, p(4), l(4))];
    assert_eq!(pair_across_sections(left), None);
}

#[test]
fn a_lone_pad_left_over_is_not_paired() {
    let left = vec![(0, p(1), l(1)), (1, p(2), l(2)), (2, p(3), l(3))];
    assert_eq!(pair_across_sections(left).unwrap(), vec![linked(1, 2), linked(2, 1)]);
    assert_eq!(pair_across_sections(Vec::new()).unwrap(), Vec::new());
}

#[test]
fn section_pads_are_the_corners_of_each_section() {
    let pads = section_pads(0);
    assert_eq!(pads[0], (BlockPos::new(20, 70, 6), BlockPos::new(21, 69, 7)));
    assert_eq!(pads[1], (BlockPos::new(26, 70, 6), BlockPos::new(25, 69, 7)));
    assert_eq!(pads[2], (BlockPos::new(20, 70, 12), BlockPos::new(21, 69, 11)));
    assert_eq!(pads[3], (BlockPos::new(26, 70, 12), BlockPos::new(25, 69, 11)));
    assert_eq!(section_pads(4)[0].0, BlockPos::new(4, 70, 22));
}

fn section_of(pos: BlockPos) -> Option<usize> {
    (0..7).find(|&i| section_pads(i).iter().any(|(pad, _)| *pad == pos))
}

#[test]
fn generated_mazes_link_every_pad_once() {
    let mut built = 0;
    let mut failed = 0;
    for seed in 0..60u64 {
        let mut rng = rand::rngs::StdRng::seed_from_u64(seed);
        let Some(maze) = TeleportMaze::generate(&mut rng) else {
            failed += 1;
            continue;
        };
        built += 1;
        let pads = &maze.teleport_pads;
        assert_eq!(pads.len(), 30);
        assert_eq!(pads[0].position, BlockPos::new(15, 70, 12));
        assert_eq!(pads[1].teleports_to, BlockPos::new(15, 69, 11));
        assert_eq!(pads[1].rotate_type, TeleportPadRotation::Static { yaw: 180 });
        assert_eq!(pads[2].position, maze.target);
        assert_eq!(pads[2].teleports_to, BlockPos::new(15, 69, 15));
        assert_eq!(pads[3].position, BlockPos::new(15, 70, 14));
        // every pad of the sections is used exactly once
        let positions: HashSet<BlockPos> = pads.iter().map(|pad| pad.position).collect();
        assert_eq!(positions.len(), 30);
        // linked pads lie in different sections
        for k in 2..15 {
            let a = section_of(pads[2 * k].position).unwrap();
            let b = section_of(pads[2 * k + 1].position).unwrap();
            assert_ne!(a, b);
        }
    }
    assert!(built > 0);
    assert_eq!(built + failed, 60);
}

#[test]
fn discovering_moves_the_maze_into_the_world() {
    let mut rng = rand::rngs::StdRng::seed_from_u64(1);
    let mut maze = loop {
        if let Some(m) = TeleportMaze::generate(&mut rng) {
            break m;
        }
    };
    let before = maze.teleport_pads.clone();
    let target = maze.target;
    let room = Room {
        rotation: Rotation::Clockwise90,
        corner: BlockPos::new(-100, 68, -50),
        players: Vec::new(),
        secrets: Vec::new(),
        found_secrets: 0,
    };
    maze.discover(&room);
    for (a, b) in before.iter().zip(maze.teleport_pads.iter()) {
        assert_eq!(b.position, room.relative_to_world(a.position));
        assert_eq!(b.teleports_to, room.relative_to_world(a.teleports_to));
    }
    assert_eq!(maze.target, room.relative_to_world(target));
}

#[test]
fn pads_are_checked_every_tenth_tick_of_a_run() {
    assert!(pads_checked(DungeonState::NotStarted));
    assert!(pads_checked(DungeonState::Starting { starts_in_ticks: 7 }));
    assert!(pads_checked(DungeonState::Started { ticks: 0 }));
    assert!(pads_checked(DungeonState::Started { ticks: 30 }));
    assert!(!pads_checked(DungeonState::Started { ticks: 31 }));
}
