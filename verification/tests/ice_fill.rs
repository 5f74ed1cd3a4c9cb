use dungeon_sim::geometry::{BlockPos, Rotation};
use dungeon_sim::ice_fill::{
    completion_gate, completion_sound_block, layer_blocks, IceFillOutcome, IceFillPuzzle, IceMessage, Layer,
};
use dungeon_sim::room::Room;
use rand::SeedableRng;

fn room() -> Room {
    Room { rotation: Rotation::Identity, corner: BlockPos::new(0, 0, 0), players: Vec::new(), secrets: Vec::new(), found_secrets: 0 }
}

fn b(x: i32, z: i32) -> BlockPos {
    BlockPos::new(x, 69, z)
}

fn puzzle() -> IceFillPuzzle {
    let mut rng = rand::rngs::StdRng::seed_from_u64(3);
    IceFillPuzzle::new(&mut rng)
}

#[test]
fn layers_have_their_sizes() {
    assert_eq!(layer_blocks(0).len(), 10);
    assert_eq!(layer_blocks(1).len(), 26);
    assert_eq!(layer_blocks(2).len(), 50);
    assert!(layer_blocks(0).contains(&b(15, 10)));
    assert!(layer_blocks(2).contains(&BlockPos::new(15, 71, 26)));
}

#[test]
fn a_new_puzzle_has_its_obstacles_and_no_layer() {
    let p = puzzle();
    assert_eq!(p.current_layer, 0);
    assert!(matches!(p.layer, Layer::Inactive));
    assert_eq!(p.obstacles[0], vec![BlockPos::new(14, 70, 7), BlockPos::new(16, 70, 9)]);
    assert_eq!(p.obstacles[1].len(), 6);
    assert_eq!(p.obstacles[2].len(), 8);
}

#[test]
fn spawning_a_layer_leaves_out_the_ice_under_obstacles() {
    let mut p = puzzle();
    p.spawn_active_layer(&room());
    match &p.layer {
        Layer::Active { ice, obstacles, remaining_ice_blocks, tracked_positions } => {
            assert_eq!(ice.len(), 10);
            assert_eq!(obstacles.len(), 2);
            assert_eq!(remaining_ice_blocks.len(), 8);
            assert!(!remaining_ice_blocks.contains(&b(14, 7)));
            assert!(!remaining_ice_blocks.contains(&b(16, 9)));
            assert!(tracked_positions.is_empty());
        },
        _ => panic!("layer not active"),
    }
}

#[test]
fn walking_every_block_once_clears_the_layer() {
    let mut p = puzzle();
    let r = room();
    p.spawn_active_layer(&r);
    let path = [b(15, 7), b(16, 7), b(16, 8), b(15, 8), b(14, 8), b(14, 9), b(15, 9), b(15, 10)];
    for (i, step) in path.iter().enumerate() {
        let t = p.tick(true, &r, &vec![(1, *step)]);
        assert_eq!(t.placed, vec![*step]);
        assert_eq!(t.message, None);
        if i + 1 < path.len() {
            assert!(matches!(t.outcome, IceFillOutcome::Nothing));
        } else {
            assert!(matches!(t.outcome, IceFillOutcome::LayerDone { layer: 0, puzzle_complete: false }));
        }
    }
    assert_eq!(p.current_layer, 1);
    match &p.layer {
        Layer::Active { ice, .. } => assert_eq!(ice.len(), 26),
        _ => panic!("next layer not laid out"),
    }
}

#[test]
fn standing_still_or_off_the_ice_does_nothing() {
    let mut p = puzzle();
    let r = room();
    p.spawn_active_layer(&r);
    let t = p.tick(true, &r, &vec![(1, b(15, 7))]);
    assert_eq!(t.placed, vec![b(15, 7)]);
    let t = p.tick(true, &r, &vec![(1, b(15, 7)), (2, BlockPos::new(0, 0, 0))]);
    assert!(t.placed.is_empty());
    assert!(matches!(t.outcome, IceFillOutcome::Nothing));
}

#[test]
fn a_diagonal_step_fails_the_layer() {
    let mut p = puzzle();
    let r = room();
    p.spawn_active_layer(&r);
    p.tick(true, &r, &vec![(1, b(15, 7))]);
    let t = p.tick(true, &r, &vec![(1, b(14, 8))]);
    assert_eq!(t.message, Some((1, IceMessage::Diagonal)));
    match t.outcome {
        IceFillOutcome::Failed { ice, obstacles } => {
            assert_eq!(ice.len(), 10);
            assert_eq!(obstacles.len(), 2);
        },
        _ => panic!("layer did not fail"),
    }
    assert!(matches!(p.layer, Layer::Respawning { in_ticks: 60 }));
    for _ in 0..59 {
        assert!(matches!(p.tick(true, &r, &Vec::new()).outcome, IceFillOutcome::Nothing));
    }
    assert!(matches!(p.tick(true, &r, &Vec::new()).outcome, IceFillOutcome::Respawned));
    assert!(matches!(p.layer, Layer::Active { .. }));
}

#[test]
fn stepping_back_on_packed_ice_fails_the_layer() {
    let mut p = puzzle();
    let r = room();
    p.spawn_active_layer(&r);
    p.tick(true, &r, &vec![(1, b(15, 7))]);
    p.tick(true, &r, &vec![(1, b(15, 8))]);
    let t = p.tick(true, &r, &vec![(1, b(15, 7))]);
    assert_eq!(t.message, Some((1, IceMessage::WrongBlock)));
    assert!(matches!(t.outcome, IceFillOutcome::Failed { .. }));
}

#[test]
fn an_undiscovered_room_does_not_tick() {
    let mut p = puzzle();
    let r = room();
    p.spawn_active_layer(&r);
    let t = p.tick(false, &r, &vec![(1, b(15, 7))]);
    assert!(t.placed.is_empty());
    assert!(matches!(t.outcome, IceFillOutcome::Nothing));
}

#[test]
fn the_gate_and_its_sound() {
    let r = Room { corner: BlockPos::new(100, 0, 200), ..room() };
    let gate = completion_gate(&r);
    assert_eq!(gate.len(), 30);
    assert_eq!(gate[0], BlockPos::new(113, 74, 227));
    assert_eq!(gate[29], BlockPos::new(117, 79, 227));
    assert_eq!(completion_sound_block(&r), BlockPos::new(114, 74, 227));
}

#[test]
fn a_failed_layer_comes_back_as_it_was_laid_out() {
    let r = room();
    let mut fresh = puzzle();
    fresh.spawn_active_layer(&r);
    let mut p = puzzle();
    p.spawn_active_layer(&r);
    p.tick(true, &r, &vec![(1, b(15, 7))]);
    p.tick(true, &r, &vec![(1, b(14, 8))]);
    for k in 0..59usize {
        p.tick(true, &r, &Vec::new());
        assert!(matches!(p.layer, Layer::Respawning { in_ticks } if in_ticks == 59 - k));
    }
    p.tick(true, &r, &Vec::new());
    assert_eq!(p.current_layer, 0);
    match (&p.layer, &fresh.layer) {
        (
            Layer::Active { ice, obstacles, remaining_ice_blocks, tracked_positions },
            Layer::Active { ice: i2, obstacles: o2, remaining_ice_blocks: r2, .. },
        ) => {
            assert_eq!(ice, i2);
            assert_eq!(obstacles, o2);
            assert_eq!(remaining_ice_blocks, r2);
            assert!(tracked_positions.is_empty());
        }
        _ => panic!("the layer did not come back"),
    }
}
