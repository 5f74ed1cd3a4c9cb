use vstd::prelude::*;

verus! {

/// Largest coordinate magnitude that the dungeon works with; every
/// position that the library builds stays well inside `i32`.
pub const COORD_LIMIT: i32 = 0x1000_0000;

/// An integer block position in the world or relative to a room corner.
#[derive(Clone, Copy, Debug, PartialEq, Eq, Hash, Structural)]
pub struct BlockPos {
    pub x: i32,
    pub y: i32,
    pub z: i32,
}

/// A quarter-turn rotation about the vertical axis.
#[derive(Clone, Copy, Debug, PartialEq, Eq, Structural)]
pub enum Rotation {
    Identity,
    Clockwise90,
    Clockwise180,
    CounterClockwise90,
}

/// A position whose coordinates are small enough that sums of two of them fit.
pub open spec fn pos_in_range(p: BlockPos) -> bool {
    -COORD_LIMIT <= p.x <= COORD_LIMIT && -COORD_LIMIT <= p.y <= COORD_LIMIT
        && -COORD_LIMIT <= p.z <= COORD_LIMIT
}

/// The rotation that undoes `r`.
pub open spec fn spec_inverse(r: Rotation) -> Rotation {
    match r {
        Rotation::Identity => Rotation::Identity,
        Rotation::Clockwise90 => Rotation::CounterClockwise90,
        Rotation::Clockwise180 => Rotation::Clockwise180,
        Rotation::CounterClockwise90 => Rotation::Clockwise90,
    }
}

/// Turning a horizontal offset `(x, z)` by `r`; `y` is left alone.
/// The room grid has `z` growing southwards, so a clockwise quarter turn
/// sends `(x, z)` to `(z, -x)`.
pub open spec fn spec_rotate(p: BlockPos, r: Rotation) -> BlockPos {
    match r {
        Rotation::Identity => p,
        Rotation::Clockwise90 => BlockPos { x: p.z, y: p.y, z: (-p.x) as i32 },
        Rotation::Clockwise180 => BlockPos { x: (-p.x) as i32, y: p.y, z: (-p.z) as i32 },
        Rotation::CounterClockwise90 => BlockPos { x: (-p.z) as i32, y: p.y, z: p.x },
    }
}

/// Composition of two rotations.
pub open spec fn spec_compose(a: Rotation, b: Rotation) -> Rotation {
    let qa: int = spec_quarter_turns(a);
    let qb: int = spec_quarter_turns(b);
    spec_from_quarter_turns((qa + qb) % 4)
}

/// Number of clockwise quarter turns of a rotation.
pub open spec fn spec_quarter_turns(r: Rotation) -> int {
    match r {
        Rotation::Identity => 0,
        Rotation::Clockwise90 => 1,
        Rotation::Clockwise180 => 2,
        Rotation::CounterClockwise90 => 3,
    }
}

pub open spec fn spec_from_quarter_turns(q: int) -> Rotation {
    if q == 0 {
        Rotation::Identity
    } else if q == 1 {
        Rotation::Clockwise90
    } else if q == 2 {
        Rotation::Clockwise180
    } else {
        Rotation::CounterClockwise90
    }
}

impl BlockPos {
    pub fn new(x: i32, y: i32, z: i32) -> (r: BlockPos)
        ensures
            r == (BlockPos { x, y, z }),
    {
        BlockPos { x, y, z }
    }

    /// Component-wise sum.
    pub fn offset(self, dx: i32, dy: i32, dz: i32) -> (r: BlockPos)
        requires
            i32::MIN <= self.x + dx <= i32::MAX,
            i32::MIN <= self.y + dy <= i32::MAX,
            i32::MIN <= self.z + dz <= i32::MAX,
        ensures
            r.x == self.x + dx,
            r.y == self.y + dy,
            r.z == self.z + dz,
    {
        BlockPos { x: self.x + dx, y: self.y + dy, z: self.z + dz }
    }

    /// Turns this horizontal offset by `rotation`.
    pub fn rotate(self, rotation: Rotation) -> (r: BlockPos)
        requires
            pos_in_range(self),
        ensures
            r == spec_rotate(self, rotation),
            pos_in_range(r),
    {
        match rotation {
            Rotation::Identity => self,
            Rotation::Clockwise90 => BlockPos { x: self.z, y: self.y, z: -self.x },
            Rotation::Clockwise180 => BlockPos { x: -self.x, y: self.y, z: -self.z },
            Rotation::CounterClockwise90 => BlockPos { x: -self.z, y: self.y, z: self.x },
        }
    }
}

impl Rotation {
    pub fn inverse(self) -> (r: Rotation)
        ensures
            r == spec_inverse(self),
    {
        match self {
            Rotation::Identity => Rotation::Identity,
            Rotation::Clockwise90 => Rotation::CounterClockwise90,
            Rotation::Clockwise180 => Rotation::Clockwise180,
            Rotation::CounterClockwise90 => Rotation::Clockwise90,
        }
    }
}

/// Turning by a rotation and then by its inverse gives back the position.
pub proof fn lemma_rotate_inverse(p: BlockPos, r: Rotation)
    requires
        pos_in_range(p),
    ensures
        spec_rotate(spec_rotate(p, r), spec_inverse(r)) == p,
        spec_rotate(spec_rotate(p, spec_inverse(r)), r) == p,
{
}

/// Turning twice is turning once by the composed rotation.
pub proof fn lemma_rotate_compose(p: BlockPos, a: Rotation, b: Rotation)
    requires
        pos_in_range(p),
    ensures
        spec_rotate(spec_rotate(p, a), b) == spec_rotate(p, spec_compose(a, b)),
{
}


/// One of the six block faces, in the game's index order.
#[derive(Clone, Copy, Debug, PartialEq, Eq, Structural)]
pub enum Direction {
    Down,
    Up,
    North,
    South,
    West,
    East,
}

pub open spec fn spec_direction_from_index(i: usize) -> Direction {
    if i == 0 {
        Direction::Down
    } else if i == 1 {
        Direction::Up
    } else if i == 2 {
        Direction::North
    } else if i == 3 {
        Direction::South
    } else if i == 4 {
        Direction::West
    } else {
        Direction::East
    }
}

/// Unit step `(dx, dy, dz)` of a direction; north is towards negative `z`.
pub open spec fn spec_direction_offset(d: Direction) -> (i32, i32, i32) {
    match d {
        Direction::Down => (0i32, -1i32, 0i32),
        Direction::Up => (0, 1, 0),
        Direction::North => (0i32, 0i32, -1i32),
        Direction::South => (0, 0, 1),
        Direction::West => (-1i32, 0i32, 0i32),
        Direction::East => (1, 0, 0),
    }
}

impl Direction {
    /// The direction with the given face index (0 down, 1 up, 2 north, 3 south, 4 west, 5 east).
    pub fn from_index(index: usize) -> (r: Direction)
        requires
            index < 6,
        ensures
            r == spec_direction_from_index(index),
    {
        match index {
            0 => Direction::Down,
            1 => Direction::Up,
            2 => Direction::North,
            3 => Direction::South,
            4 => Direction::West,
            _ => Direction::East,
        }
    }

    pub fn get_offset(&self) -> (r: (i32, i32, i32))
        ensures
            r == spec_direction_offset(*self),
    {
        match self {
            Direction::Down => (0, -1, 0),
            Direction::Up => (0, 1, 0),
            Direction::North => (0, 0, -1),
            Direction::South => (0, 0, 1),
            Direction::West => (-1, 0, 0),
            Direction::East => (1, 0, 0),
        }
    }

    pub open spec fn is_horizontal(self) -> bool {
        self != Direction::Down && self != Direction::Up
    }
}

} // verus!
