use vstd::prelude::*;

use crate::dungeon::Dungeon;
use crate::geometry::{spec_rotate, BlockPos, Rotation, COORD_LIMIT};
use crate::grid::DUNGEON_ORIGIN_X;

verus! {

#[derive(Clone, Copy, Debug, PartialEq, Eq, Structural)]
pub enum DoorType {
    Normal,
    Entrance,
    Wither,
    Blood,
}

/// The axis that a door's passage runs along.
#[derive(Clone, Copy, Debug, PartialEq, Eq, Structural)]
pub enum DoorAxis {
    Z,
    X,
}

/// A door between two grid cells, at its centre column `(x, z)`.
#[derive(Clone, Copy, Debug, PartialEq, Eq, Structural)]
pub struct Door {
    pub x: i32,
    pub z: i32,
    pub axis: DoorAxis,
    pub door_type: DoorType,
    pub is_open: bool,
}

/// A door's centre column is small enough for the block arithmetic around it.
pub open spec fn door_in_range(x: i32, z: i32) -> bool {
    -COORD_LIMIT <= x <= COORD_LIMIT && -COORD_LIMIT <= z <= COORD_LIMIT
}

/// The door's centre column leaves room for the blocks on either side of it.
pub open spec fn door_coords_fit(d: Door) -> bool {
    i32::MIN < d.x < i32::MAX && i32::MIN < d.z < i32::MAX
}

/// What opening a door does to the world: the box from `barrier_from` to
/// `barrier_to` is filled with barriers, and a door entity showing
/// `entity_block` is spawned at `entity_position`.
#[derive(Clone, Copy, Debug, PartialEq, Eq, Structural)]
pub struct DoorOpening {
    pub barrier_from: BlockPos,
    pub barrier_to: BlockPos,
    pub entity_position: BlockPos,
    pub entity_block: DoorBlock,
}

/// The door's inner three by four by three blocks, and its entity at the
/// lowest corner of them.
pub open spec fn spec_door_opening(d: Door) -> DoorOpening {
    DoorOpening {
        barrier_from: bp(d.x - 1, 69, d.z - 1),
        barrier_to: bp(d.x + 1, 72, d.z + 1),
        entity_position: bp(d.x - 1, 69, d.z - 1),
        entity_block: spec_door_block(d.door_type),
    }
}

pub open spec fn spec_new_door(x: i32, z: i32, axis: DoorAxis, door_type: DoorType) -> Door {
    Door { x, z, axis, door_type, is_open: door_type == DoorType::Normal }
}

/// Axis of the door at column `x`: doors in an even 16-block band east of the
/// origin (counted with the quotient truncated towards zero) run along `Z`.
pub open spec fn spec_door_axis(x: i32) -> DoorAxis {
    let d: int = x - DUNGEON_ORIGIN_X;
    let q: int = if d >= 0 { d / 16 } else { (-d) / 16 };
    if q % 2 == 0 { DoorAxis::Z } else { DoorAxis::X }
}

pub fn door_axis(x: i32) -> (r: DoorAxis)
    requires
        door_in_range(x, 0),
    ensures
        r == spec_door_axis(x),
{
    let d: i64 = x as i64 - DUNGEON_ORIGIN_X as i64;
    let q: i64 = if d >= 0 { d / 16 } else { (-d) / 16 };
    if q % 2 == 0 { DoorAxis::Z } else { DoorAxis::X }
}

impl Door {
    /// A closed door of the given type; normal doors start open.
    pub fn new(x: i32, z: i32, axis: DoorAxis, door_type: DoorType) -> (r: Door)
        ensures
            r == spec_new_door(x, z, axis, door_type),
    {
        Door { x, z, axis, door_type, is_open: door_type == DoorType::Normal }
    }

    pub fn get_type(&self) -> (r: DoorType)
        ensures
            r == self.door_type,
    {
        self.door_type
    }

    /// The block that fills a closed door of this type.
    pub fn get_block(&self) -> (r: DoorBlock)
        ensures
            r == spec_door_block(self.door_type),
    {
        match self.door_type {
            DoorType::Normal => DoorBlock::Air,
            DoorType::Entrance => DoorBlock::ChiseledStoneBrickSilverfish,
            DoorType::Wither => DoorBlock::CoalBlock,
            DoorType::Blood => DoorBlock::RedStainedClay,
        }
    }

    /// Whether the door can be opened now: it is closed and, for a wither or
    /// blood door, a key of its kind is held.
    pub fn can_open(&self, dungeon: &Dungeon) -> (r: bool)
        ensures
            r == spec_can_open(*self, dungeon.wither_key_count, dungeon.blood_key_count),
    {
        if self.is_open {
            return false;
        }
        match self.door_type {
            DoorType::Wither => dungeon.wither_key_count != 0,
            DoorType::Blood => dungeon.blood_key_count != 0,
            _ => true,
        }
    }

    /// Opens the door, using up a key for a wither or blood door. Gives what
    /// the world sees of it: its inner blocks turn to barriers, and a falling
    /// door entity showing the door's block appears at its lowest corner.
    pub fn open(&mut self, dungeon: &mut Dungeon) -> (r: DoorOpening)
        requires
            spec_can_open(*old(self), old(dungeon).wither_key_count, old(dungeon).blood_key_count),
            door_coords_fit(*old(self)),
        ensures
            r == spec_door_opening(*old(self)),
            *final(self) == (Door { is_open: true, ..*old(self) }),
            final(dungeon).wither_key_count == old(dungeon).wither_key_count - (if old(self).door_type
                == DoorType::Wither {
                1int
            } else {
                0int
            }),
            final(dungeon).blood_key_count == old(dungeon).blood_key_count - (if old(self).door_type
                == DoorType::Blood {
                1int
            } else {
                0int
            }),
            final(dungeon).rooms@ == old(dungeon).rooms@,
            final(dungeon).doors@ == old(dungeon).doors@,
            final(dungeon).links@ == old(dungeon).links@,
            final(dungeon).room_index_grid@ == old(dungeon).room_index_grid@,
            final(dungeon).entrance_room_index == old(dungeon).entrance_room_index,
            final(dungeon).state == old(dungeon).state,
            final(dungeon).map_offset_x == old(dungeon).map_offset_x,
            final(dungeon).map_offset_y == old(dungeon).map_offset_y,
    {
        match self.door_type {
            DoorType::Wither => {
                dungeon.wither_key_count = dungeon.wither_key_count - 1;
            },
            DoorType::Blood => {
                dungeon.blood_key_count = dungeon.blood_key_count - 1;
            },
            _ => {},
        }
        self.is_open = true;
        DoorOpening {
            barrier_from: BlockPos::new(self.x - 1, 69, self.z - 1),
            barrier_to: BlockPos::new(self.x + 1, 72, self.z + 1),
            entity_position: BlockPos::new(self.x - 1, 69, self.z - 1),
            entity_block: self.get_block(),
        }
    }

    /// Whether `p` lies in the door's inner part, the three by four by three
    /// blocks that block abilities.
    pub fn contains(&self, p: BlockPos) -> (r: bool)
        ensures
            r == (self.x - 1 <= p.x <= self.x + 1 && 69 <= p.y <= 72 && self.z - 1 <= p.z <= self.z
                + 1),
    {
        let x: i64 = p.x as i64;
        let z: i64 = p.z as i64;
        let dx: i64 = self.x as i64;
        let dz: i64 = self.z as i64;
        dx - 1 <= x && x <= dx + 1 && 69 <= p.y && p.y <= 72 && dz - 1 <= z && z <= dz + 1
    }

    /// The boxes that loading the door fills, in order: a bedrock floor, a
    /// stone strip, the air of the passage, and at last the door itself.
    pub fn fill_regions(&self) -> (r: Vec<(BlockPos, BlockPos, DoorBlock)>)
        requires
            door_in_range(self.x, self.z),
        ensures
            r@ == spec_fill_regions(*self),
    {
        let (dx, dz): (i32, i32) = match self.axis {
            DoorAxis::X => (3, 2),
            DoorAxis::Z => (2, 3),
        };
        let x = self.x;
        let z = self.z;
        let floor_from = BlockPos::new(x - dx, 67, z - dz);
        let floor_to = BlockPos::new(x + dx, 66, z + dz);
        let strip_from = BlockPos::new(x - (dz - 2) * 2, 68, z - (dx - 2) * 2);
        let strip_to = BlockPos::new(x + (dz - 2) * 2, 68, z + (dx - 2) * 2);
        let air_from = BlockPos::new(x - dx, 69, z - dz);
        let air_to = BlockPos::new(x + dx, 73, z + dz);
        let door_from = BlockPos::new(x - 1, 69, z - 1);
        let door_to = BlockPos::new(x + 1, 72, z + 1);
        let r = vec![
            (floor_from, floor_to, DoorBlock::Bedrock),
            (strip_from, strip_to, DoorBlock::Stone),
            (air_from, air_to, DoorBlock::Air),
            (door_from, door_to, self.get_block()),
        ];
        assert(r@ =~= spec_fill_regions(*self));
        r
    }

    /// The kind of template the door is built from: a wither door is a normal
    /// door (with its coal blocks added last).
    pub fn template_type(&self) -> (r: DoorType)
        ensures
            r == (if self.door_type == DoorType::Wither {
                DoorType::Normal
            } else {
                self.door_type
            }),
    {
        match self.door_type {
            DoorType::Blood => DoorType::Blood,
            DoorType::Entrance => DoorType::Entrance,
            DoorType::Wither | DoorType::Normal => DoorType::Normal,
        }
    }

    /// Where block `index` of a door template goes: templates are five by five
    /// columns, `x` fastest, then `z`, then `y` up from the floor, centred on
    /// the door and turned a quarter anticlockwise for a door along `X`.
    pub fn template_block_position(&self, index: usize) -> (r: BlockPos)
        requires
            door_in_range(self.x, self.z),
            index < 0x1000_0000,
        ensures
            r == spec_template_block_position(*self, index as int),
    {
        let x: i32 = (index % 5) as i32;
        let y: i32 = (index / 25) as i32;
        let z: i32 = ((index / 5) % 5) as i32;
        let rotation = match self.axis {
            DoorAxis::Z => Rotation::Identity,
            DoorAxis::X => Rotation::CounterClockwise90,
        };
        let bp = BlockPos::new(x - 2, y, z - 2).rotate(rotation);
        BlockPos::new(self.x + bp.x, 69 + bp.y, self.z + bp.z)
    }
}

/// A block that a door is built of.
#[derive(Clone, Copy, Debug, PartialEq, Eq, Structural)]
pub enum DoorBlock {
    Air,
    Bedrock,
    Stone,
    Barrier,
    ChiseledStoneBrickSilverfish,
    CoalBlock,
    RedStainedClay,
}

pub open spec fn spec_door_block(t: DoorType) -> DoorBlock {
    match t {
        DoorType::Normal => DoorBlock::Air,
        DoorType::Entrance => DoorBlock::ChiseledStoneBrickSilverfish,
        DoorType::Wither => DoorBlock::CoalBlock,
        DoorType::Blood => DoorBlock::RedStainedClay,
    }
}

pub open spec fn spec_can_open(door: Door, wither_keys: usize, blood_keys: usize) -> bool {
    !door.is_open && match door.door_type {
        DoorType::Wither => wither_keys != 0,
        DoorType::Blood => blood_keys != 0,
        _ => true,
    }
}

pub open spec fn bp(x: int, y: int, z: int) -> BlockPos {
    BlockPos { x: x as i32, y: y as i32, z: z as i32 }
}

pub open spec fn spec_fill_regions(d: Door) -> Seq<(BlockPos, BlockPos, DoorBlock)> {
    let (dx, dz): (int, int) = if d.axis == DoorAxis::X { (3, 2) } else { (2, 3) };
    seq![
        (bp(d.x - dx, 67, d.z - dz), bp(d.x + dx, 66, d.z + dz), DoorBlock::Bedrock),
        (bp(d.x - (dz - 2) * 2, 68, d.z - (dx - 2) * 2), bp(d.x + (dz - 2) * 2, 68, d.z + (dx - 2) * 2), DoorBlock::Stone),
        (bp(d.x - dx, 69, d.z - dz), bp(d.x + dx, 73, d.z + dz), DoorBlock::Air),
        (bp(d.x - 1, 69, d.z - 1), bp(d.x + 1, 72, d.z + 1), spec_door_block(d.door_type)),
    ]
}

pub open spec fn spec_template_block_position(d: Door, index: int) -> BlockPos {
    let local = bp(index % 5 - 2, index / 25, (index / 5) % 5 - 2);
    let rotation = if d.axis == DoorAxis::Z { Rotation::Identity } else { Rotation::CounterClockwise90 };
    let t = spec_rotate(local, rotation);
    bp(d.x + t.x, 69 + t.y, d.z + t.z)
}

/// A door that can be opened can be opened once: after opening it, it cannot
/// be opened again, and the keys it used are gone.
pub proof fn lemma_open_once(door: Door, wither_keys: usize, blood_keys: usize)
    requires
        spec_can_open(door, wither_keys, blood_keys),
    ensures
        !spec_can_open(
            Door { is_open: true, ..door },
            (wither_keys - if door.door_type == DoorType::Wither { 1int } else { 0int }) as usize,
            (blood_keys - if door.door_type == DoorType::Blood { 1int } else { 0int }) as usize,
        ),
{
}

/// A door being opened: its blocks fall for a number of ticks, then its
/// passage is cleared.
#[derive(Clone, Copy, Debug, PartialEq, Eq, Structural)]
pub struct OpeningDoor {
    pub x: i32,
    pub z: i32,
    pub ticks_left: usize,
}

/// Ticks that an opening door's blocks take to fall.
pub const DOOR_OPENING_TICKS: usize = 20;

impl OpeningDoor {
    /// Starts opening the door at `(x, z)`.
    pub fn new(x: i32, z: i32) -> (r: OpeningDoor)
        ensures
            r == (OpeningDoor { x, z, ticks_left: DOOR_OPENING_TICKS }),
    {
        OpeningDoor { x, z, ticks_left: DOOR_OPENING_TICKS }
    }

    /// One tick of the opening; `true` when the passage is to be cleared now
    /// (and the opening is over).
    pub fn tick(&mut self) -> (r: bool)
        requires
            old(self).ticks_left >= 1,
        ensures
            final(self).ticks_left == old(self).ticks_left - 1,
            final(self).x == old(self).x && final(self).z == old(self).z,
            r == (final(self).ticks_left == 0),
    {
        self.ticks_left = self.ticks_left - 1;
        self.ticks_left == 0
    }
}

/// The inner blocks of the door at `(x, z)`, the ones that turn to barriers
/// while it opens and to air once it is open: `x` then `y` then `z` outermost.
pub fn door_inner_blocks(x: i32, z: i32) -> (r: Vec<BlockPos>)
    requires
        door_in_range(x, z),
    ensures
        r@.len() == 36,
        forall|i: int|
            0 <= i < 36 ==> #[trigger] r@[i] == bp(x - 1 + (i / 12), 69 + (i / 3) % 4, z - 1 + i % 3),
{
    let mut r: Vec<BlockPos> = Vec::new();
    let mut a: i32 = 0;
    while a < 3
        invariant
            0 <= a <= 3,
            door_in_range(x, z),
            r@.len() == 12 * a,
            forall|i: int|
                0 <= i < r@.len() ==> #[trigger] r@[i] == bp(x - 1 + (i / 12), 69 + (i / 3) % 4, z - 1 + i % 3),
        decreases 3 - a,
    {
        let mut b: i32 = 0;
        while b < 4
            invariant
                0 <= a < 3,
                0 <= b <= 4,
                door_in_range(x, z),
                r@.len() == 12 * a + 3 * b,
                forall|i: int|
                    0 <= i < r@.len() ==> #[trigger] r@[i] == bp(x - 1 + (i / 12), 69 + (i / 3) % 4, z - 1 + i % 3),
            decreases 4 - b,
        {
            let mut c: i32 = 0;
            while c < 3
                invariant
                    0 <= a < 3,
                    0 <= b < 4,
                    0 <= c <= 3,
                    door_in_range(x, z),
                    r@.len() == 12 * a + 3 * b + c,
                    forall|i: int|
                        0 <= i < r@.len() ==> #[trigger] r@[i] == bp(x - 1 + (i / 12), 69 + (i / 3) % 4, z - 1 + i % 3),
                decreases 3 - c,
            {
                proof {
                    let i = r@.len() as int;
                    assert(i / 12 == a && (i / 3) % 4 == b && i % 3 == c) by (nonlinear_arith)
                        requires
                            i == 12 * a + 3 * b + c,
                            0 <= a < 3,
                            0 <= b < 4,
                            0 <= c < 3,
                    ;
                }
                r.push(BlockPos::new(x - 1 + a, 69 + b, z - 1 + c));
                c = c + 1;
            }
            b = b + 1;
        }
        a = a + 1;
    }
    r
}

/// The doors that start opening when the run starts, among the first `n`:
/// every entrance door, in order.
pub open spec fn spec_open_entrance_doors(doors: Seq<Door>, n: nat) -> Seq<OpeningDoor>
    decreases n,
{
    if n == 0 {
        seq![]
    } else {
        let k = (n - 1) as nat;
        spec_open_entrance_doors(doors, k) + if doors[k as int].door_type == DoorType::Entrance {
            seq![OpeningDoor { x: doors[k as int].x, z: doors[k as int].z, ticks_left: DOOR_OPENING_TICKS }]
        } else {
            seq![]
        }
    }
}

/// When the run starts every entrance door starts opening.
pub fn open_entrance_doors(doors: &Vec<Door>) -> (r: Vec<OpeningDoor>)
    ensures
        r@ == spec_open_entrance_doors(doors@, doors@.len()),
{
    let mut r: Vec<OpeningDoor> = Vec::new();
    let mut i: usize = 0;
    while i < doors.len()
        invariant
            i <= doors@.len(),
            r@ == spec_open_entrance_doors(doors@, i as nat),
        decreases doors@.len() - i,
    {
        if doors[i].door_type == DoorType::Entrance {
            r.push(OpeningDoor::new(doors[i].x, doors[i].z));
        }
        i = i + 1;
        assert(r@ =~= spec_open_entrance_doors(doors@, i as nat));
    }
    r
}

} // verus!
