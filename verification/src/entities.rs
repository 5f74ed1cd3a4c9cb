use vstd::prelude::*;

use crate::abilities::Cooldown;
use crate::geometry::BlockPos;

verus! {

/// An entity that lives for a number of ticks.
#[derive(Clone, Copy, Debug, PartialEq, Eq, Structural)]
pub struct Lifetime {
    pub ticks: u32,
}

impl Lifetime {
    /// Whether an entity that has existed for `ticks_existed` ticks is to be
    /// removed: once it has outlived its lifetime.
    pub fn tick(&self, ticks_existed: u32) -> (r: bool)
        ensures
            r == (ticks_existed > self.ticks),
    {
        ticks_existed > self.ticks
    }
}

/// A block entity that rises or sinks, and removes the world block it stands
/// for on its last tick.
#[derive(Clone, Copy, Debug, PartialEq, Eq, Structural)]
pub struct MovingBlockBehaviour {
    pub block: BlockPos,
    pub total_ticks: u32,
}

impl MovingBlockBehaviour {
    /// The world block to clear now, if this is the last tick (the entity is
    /// removed with it).
    pub fn tick(&self, ticks_existed: u32) -> (r: Option<BlockPos>)
        ensures
            r == (if ticks_existed == self.total_ticks {
                Some(self.block)
            } else {
                None::<BlockPos>
            }),
    {
        if ticks_existed == self.total_ticks {
            Some(self.block)
        } else {
            None
        }
    }
}

/// Ticks that a door's click-sound emitter lives.
pub const SOUND_EMITTER_TICKS: u32 = 50;

/// A sound emitter plays its sound every fifth tick, and is removed after its
/// fiftieth.
pub fn sound_emitter_tick(ticks_existed: u32) -> (r: (bool, bool))
    ensures
        r.0 == (ticks_existed % 5 == 0),
        r.1 == (ticks_existed == SOUND_EMITTER_TICKS),
{
    (ticks_existed % 5 == 0, ticks_existed == SOUND_EMITTER_TICKS)
}

/// Ticks that an opened door's blocks take to fall.
pub const DOOR_FALL_TICKS: u32 = 20;

/// The behaviour of an opened door's falling blocks.
#[derive(Clone, Copy, Debug, PartialEq, Eq, Structural)]
pub struct DoorBehaviour;

impl DoorBehaviour {
    /// A falling door sinks every tick; on its twentieth it clears the three by
    /// four by three blocks from its corner `(x, 69, z)` and is removed. Gives
    /// the blocks to clear, if any, as the two corners of the box.
    pub fn tick(&self, ticks_existed: u32, x: i32, z: i32) -> (r: Option<(BlockPos, BlockPos)>)
        requires
            x <= i32::MAX - 2,
            z <= i32::MAX - 2,
        ensures
            ticks_existed == DOOR_FALL_TICKS ==> r == Some((
                BlockPos { x, y: 69, z },
                BlockPos { x: (x + 2) as i32, y: 72, z: (z + 2) as i32 },
            )),
            ticks_existed != DOOR_FALL_TICKS ==> r is None,
    {
        if ticks_existed == DOOR_FALL_TICKS {
            Some((BlockPos::new(x, 69, z), BlockPos::new(x + 2, 72, z + 2)))
        } else {
            None
        }
    }
}

/// The object data of a falling block of a block state: the block id in the
/// low twelve bits, the metadata above.
pub fn falling_block_data(block_state: u16) -> (r: i32)
    ensures
        r == (block_state as int / 16) + (block_state as int % 16) * 4096,
{
    let state: i32 = block_state as i32;
    let block_id = state >> 4u32;
    let metadata = state & 0b1111;
    assert(block_id == state / 16) by (bit_vector)
        requires
            block_id == state >> 4u32,
            0 <= state < 0x10000,
    ;
    assert(metadata == state % 16) by (bit_vector)
        requires
            metadata == state & 0b1111,
            0 <= state < 0x10000,
    ;
    assert((metadata << 12u32) == metadata * 4096) by (bit_vector)
        requires
            0 <= metadata < 16,
    ;
    assert((block_id | (metadata << 12u32)) == block_id + metadata * 4096) by (bit_vector)
        requires
            0 <= block_id < 4096,
            0 <= metadata < 16,
    ;
    block_id | (metadata << 12u32)
}

/// The falling door's entities: a bat carrying a falling block for each of the
/// three by four by three blocks of the door, `x` then `y` then `z` outermost;
/// gives the offset of each from the door's corner with the entity ids of its
/// bat and block.
pub fn door_entity_parts(first_id: i32) -> (r: Vec<(BlockPos, i32, i32)>)
    requires
        first_id <= i32::MAX - 72,
    ensures
        r@.len() == 36,
        forall|k: int|
            0 <= k < 36 ==> #[trigger] r@[k] == (
                BlockPos { x: (k / 12) as i32, y: ((k / 3) % 4) as i32, z: (k % 3) as i32 },
                (first_id + 2 * k) as i32,
                (first_id + 2 * k + 1) as i32,
            ),
{
    let mut r: Vec<(BlockPos, i32, i32)> = Vec::new();
    let mut iter: i32 = 0;
    let mut x: i32 = 0;
    while x < 3
        invariant
            0 <= x <= 3,
            first_id <= i32::MAX - 72,
            r@.len() == 12 * x,
            iter == 2 * r@.len(),
            forall|k: int|
                0 <= k < r@.len() ==> #[trigger] r@[k] == (
                    BlockPos { x: (k / 12) as i32, y: ((k / 3) % 4) as i32, z: (k % 3) as i32 },
                    (first_id + 2 * k) as i32,
                    (first_id + 2 * k + 1) as i32,
                ),
        decreases 3 - x,
    {
        let mut y: i32 = 0;
        while y < 4
            invariant
                0 <= x < 3,
                0 <= y <= 4,
                first_id <= i32::MAX - 72,
                r@.len() == 12 * x + 3 * y,
                iter == 2 * r@.len(),
                forall|k: int|
                    0 <= k < r@.len() ==> #[trigger] r@[k] == (
                        BlockPos { x: (k / 12) as i32, y: ((k / 3) % 4) as i32, z: (k % 3) as i32 },
                        (first_id + 2 * k) as i32,
                        (first_id + 2 * k + 1) as i32,
                    ),
            decreases 4 - y,
        {
            let mut z: i32 = 0;
            while z < 3
                invariant
                    0 <= x < 3,
                    0 <= y < 4,
                    0 <= z <= 3,
                    first_id <= i32::MAX - 72,
                    r@.len() == 12 * x + 3 * y + z,
                    iter == 2 * r@.len(),
                    forall|k: int|
                        0 <= k < r@.len() ==> #[trigger] r@[k] == (
                            BlockPos { x: (k / 12) as i32, y: ((k / 3) % 4) as i32, z: (k % 3) as i32 },
                            (first_id + 2 * k) as i32,
                            (first_id + 2 * k + 1) as i32,
                        ),
                decreases 3 - z,
            {
                proof {
                    let k = r@.len() as int;
                    assert(k / 12 == x && (k / 3) % 4 == y && k % 3 == z) by (nonlinear_arith)
                        requires
                            k == 12 * x + 3 * y + z,
                            0 <= x < 3,
                            0 <= y < 4,
                            0 <= z < 3,
                    ;
                }
                r.push((BlockPos::new(x, y, z), first_id + iter, first_id + iter + 1));
                iter = iter + 2;
                z = z + 1;
            }
            y = y + 1;
        }
        x = x + 1;
    }
    r
}

/// The superboom TNT.
#[derive(Clone, Copy, Debug, PartialEq, Eq, Structural)]
pub struct SuperboomTNT;

impl SuperboomTNT {
    /// Used on a block: it explodes there unless on cooldown, and goes on a
    /// silent cooldown of ten ticks. Gives the new cooldown, if it went off.
    pub fn on_interact(&self, cooldown: Option<Cooldown>) -> (r: Option<Cooldown>)
        ensures
            cooldown is Some ==> r is None,
            cooldown is None ==> r == Some(Cooldown { ticks_remaining: 10, silent: true }),
    {
        if cooldown.is_some() {
            return None;
        }
        Some(Cooldown::from_ticks(10, true))
    }

    /// Started digging a block with it: it explodes unless on cooldown, and
    /// goes on a silent cooldown of seven ticks.
    pub fn on_start_dig(&self, cooldown: Option<Cooldown>) -> (r: Option<Cooldown>)
        ensures
            cooldown is Some ==> r is None,
            cooldown is None ==> r == Some(Cooldown { ticks_remaining: 7, silent: true }),
    {
        if cooldown.is_some() {
            return None;
        }
        Some(Cooldown::from_ticks(7, true))
    }
}

} // verus!
