use vstd::prelude::*;

use crate::geometry::{
    pos_in_range, spec_inverse, spec_quarter_turns, spec_rotate, BlockPos, Direction, Rotation,
    COORD_LIMIT,
};
use crate::grid::{DUNGEON_ORIGIN_X, DUNGEON_ORIGIN_Z};
use crate::room_data::RoomData;

verus! {

/// Largest grid coordinate that a segment may have; it keeps every world
/// coordinate computed from a segment inside `i32`.
pub const SEGMENT_LIMIT: usize = 0x10_0000;

/// One 32x32 cell of the 6x6 dungeon grid that a room covers.
#[derive(Clone, Copy, Debug, PartialEq, Eq, Structural)]
pub struct RoomSegment {
    pub x: usize,
    pub z: usize,
}

pub open spec fn segments_bounded(s: Seq<(RoomSegment, u8)>) -> bool {
    forall|i: int| 0 <= i < s.len() ==> s[i].0.x <= SEGMENT_LIMIT && s[i].0.z <= SEGMENT_LIMIT
}

pub open spec fn min_usize(a: usize, b: usize) -> usize {
    if a < b { a } else { b }
}

pub open spec fn max_usize(a: usize, b: usize) -> usize {
    if a > b { a } else { b }
}

/// Smallest column of the segments (`usize::MAX` for none).
pub open spec fn seg_min_x(s: Seq<(RoomSegment, u8)>) -> usize
    decreases s.len(),
{
    if s.len() == 0 { usize::MAX } else { min_usize(seg_min_x(s.drop_last()), s.last().0.x) }
}

pub open spec fn seg_min_z(s: Seq<(RoomSegment, u8)>) -> usize
    decreases s.len(),
{
    if s.len() == 0 { usize::MAX } else { min_usize(seg_min_z(s.drop_last()), s.last().0.z) }
}

pub open spec fn seg_max_x(s: Seq<(RoomSegment, u8)>) -> usize
    decreases s.len(),
{
    if s.len() == 0 { 0 } else { max_usize(seg_max_x(s.drop_last()), s.last().0.x) }
}

pub open spec fn seg_max_z(s: Seq<(RoomSegment, u8)>) -> usize
    decreases s.len(),
{
    if s.len() == 0 { 0 } else { max_usize(seg_max_z(s.drop_last()), s.last().0.z) }
}

pub open spec fn abs_diff(a: usize, b: usize) -> int {
    if a > b { a - b } else { b - a }
}

/// Segment `i` touches (or is) every segment of the room.
pub open spec fn adjacent_to_all(s: Seq<(RoomSegment, u8)>, i: int) -> bool {
    forall|j: int|
        0 <= j < s.len() ==> abs_diff(s[i].0.x, s[j].0.x) + abs_diff(s[i].0.z, s[j].0.z) <= 1
}

/// Index of the first segment, from `i` on, that touches all the others; -1 if none.
pub open spec fn first_corner_from(s: Seq<(RoomSegment, u8)>, i: int) -> int
    decreases s.len() - i,
{
    if i < 0 || i >= s.len() {
        -1
    } else if adjacent_to_all(s, i) {
        i
    } else {
        first_corner_from(s, i + 1)
    }
}

/// The rotation of a single cell from its door bitmask (north is the high bit).
pub open spec fn spec_single_cell_rotation(bitmask: u8) -> Rotation {
    if bitmask == 0b1111 || bitmask == 0b1010 || bitmask == 0b1000 || bitmask == 0b0011
        || bitmask == 0b1011 {
        Rotation::Identity
    } else if bitmask == 0b0101 || bitmask == 0b0001 || bitmask == 0b0110 || bitmask == 0b0111 {
        Rotation::CounterClockwise90
    } else if bitmask == 0b0100 || bitmask == 0b1001 || bitmask == 0b1101 {
        Rotation::Clockwise90
    } else if bitmask == 0b0010 || bitmask == 0b1100 || bitmask == 0b1110 {
        Rotation::Clockwise180
    } else {
        Rotation::Identity
    }
}

/// A room of three segments inside a 2x2 box (an L) needs a corner segment.
pub open spec fn needs_corner(s: Seq<(RoomSegment, u8)>) -> bool {
    s.len() == 3 && seg_max_x(s) - seg_min_x(s) + 1 == 2 && seg_max_z(s) - seg_min_z(s) + 1 == 2
}

/// The rotation that a room built from these segments is placed with.
pub open spec fn spec_rotation_from_segments(s: Seq<(RoomSegment, u8)>) -> Rotation {
    let width = seg_max_x(s) - seg_min_x(s) + 1;
    let length = seg_max_z(s) - seg_min_z(s) + 1;
    let straight = if width == 1 { Rotation::Identity } else { Rotation::CounterClockwise90 };
    if s.len() == 1 {
        spec_single_cell_rotation(s[0].1)
    } else if s.len() == 2 {
        straight
    } else if s.len() == 3 {
        if width == 2 && length == 2 {
            let c = s[first_corner_from(s, 0)].0;
            if c.x == seg_min_x(s) && c.z == seg_min_z(s) {
                Rotation::Clockwise90
            } else if c.x == seg_max_x(s) && c.z == seg_min_z(s) {
                Rotation::Clockwise180
            } else if c.x == seg_max_x(s) && c.z == seg_max_z(s) {
                Rotation::CounterClockwise90
            } else {
                Rotation::Identity
            }
        } else {
            straight
        }
    } else {
        if width == 2 && length == 2 {
            Rotation::Identity
        } else {
            straight
        }
    }
}

proof fn lemma_min_max_bounds(s: Seq<(RoomSegment, u8)>)
    requires
        s.len() > 0,
    ensures
        forall|i: int| 0 <= i < s.len() ==> seg_min_x(s) <= #[trigger] s[i].0.x <= seg_max_x(s),
        forall|i: int| 0 <= i < s.len() ==> seg_min_z(s) <= #[trigger] s[i].0.z <= seg_max_z(s),
        exists|i: int| 0 <= i < s.len() && s[i].0.x == seg_min_x(s),
        exists|i: int| 0 <= i < s.len() && s[i].0.x == seg_max_x(s),
        exists|i: int| 0 <= i < s.len() && s[i].0.z == seg_min_z(s),
        exists|i: int| 0 <= i < s.len() && s[i].0.z == seg_max_z(s),
    decreases s.len(),
{
    let t = s.drop_last();
    if s.len() == 1 {
        assert(t.len() == 0);
        assert(s[0].0.x == seg_min_x(s));
        assert(s[0].0.x == seg_max_x(s));
        assert(s[0].0.z == seg_min_z(s));
        assert(s[0].0.z == seg_max_z(s));
    } else {
        lemma_min_max_bounds(t);
        assert forall|i: int| 0 <= i < s.len() implies seg_min_x(s) <= #[trigger] s[i].0.x
            <= seg_max_x(s) by {
            if i < s.len() - 1 {
                assert(s[i] == t[i]);
            }
        }
        assert forall|i: int| 0 <= i < s.len() implies seg_min_z(s) <= #[trigger] s[i].0.z
            <= seg_max_z(s) by {
            if i < s.len() - 1 {
                assert(s[i] == t[i]);
            }
        }
        let last: int = s.len() - 1;
        if s.last().0.x < seg_min_x(t) {
            assert(s[last].0.x == seg_min_x(s));
        } else {
            let k = choose|k: int| 0 <= k < t.len() && t[k].0.x == seg_min_x(t);
            assert(s[k] == t[k]);
        }
        if s.last().0.x > seg_max_x(t) {
            assert(s[last].0.x == seg_max_x(s));
        } else {
            let k = choose|k: int| 0 <= k < t.len() && t[k].0.x == seg_max_x(t);
            assert(s[k] == t[k]);
        }
        if s.last().0.z < seg_min_z(t) {
            assert(s[last].0.z == seg_min_z(s));
        } else {
            let k = choose|k: int| 0 <= k < t.len() && t[k].0.z == seg_min_z(t);
            assert(s[k] == t[k]);
        }
        if s.last().0.z > seg_max_z(t) {
            assert(s[last].0.z == seg_max_z(s));
        } else {
            let k = choose|k: int| 0 <= k < t.len() && t[k].0.z == seg_max_z(t);
            assert(s[k] == t[k]);
        }
    }
}

pub fn single_cell_rotation(bitmask: u8) -> (r: Rotation)
    ensures
        r == spec_single_cell_rotation(bitmask),
{
    match bitmask {
        0b1111 | 0b1010 => Rotation::Identity,
        0b0101 => Rotation::CounterClockwise90,
        0b1000 | 0b0011 | 0b1011 => Rotation::Identity,
        0b0100 | 0b1001 | 0b1101 => Rotation::Clockwise90,
        0b0010 | 0b1100 | 0b1110 => Rotation::Clockwise180,
        0b0001 | 0b0110 | 0b0111 => Rotation::CounterClockwise90,
        _ => Rotation::Identity,
    }
}

fn usize_abs_diff(a: usize, b: usize) -> (r: usize)
    ensures
        r == abs_diff(a, b),
{
    if a > b { a - b } else { b - a }
}

/// Smallest and largest column and row of the segments.
pub fn segment_bounds(segments: &Vec<(RoomSegment, u8)>) -> (r: (usize, usize, usize, usize))
    ensures
        r == (seg_min_x(segments@), seg_min_z(segments@), seg_max_x(segments@), seg_max_z(
            segments@,
        )),
{
    let mut min_x: usize = usize::MAX;
    let mut min_z: usize = usize::MAX;
    let mut max_x: usize = 0;
    let mut max_z: usize = 0;
    let mut i: usize = 0;
    while i < segments.len()
        invariant
            i <= segments.len(),
            min_x == seg_min_x(segments@.take(i as int)),
            min_z == seg_min_z(segments@.take(i as int)),
            max_x == seg_max_x(segments@.take(i as int)),
            max_z == seg_max_z(segments@.take(i as int)),
        decreases segments.len() - i,
    {
        let seg = segments[i].0;
        assert(segments@.take(i + 1).drop_last() == segments@.take(i as int));
        if seg.x < min_x {
            min_x = seg.x;
        }
        if seg.z < min_z {
            min_z = seg.z;
        }
        if seg.x > max_x {
            max_x = seg.x;
        }
        if seg.z > max_z {
            max_z = seg.z;
        }
        i = i + 1;
    }
    assert(segments@.take(segments.len() as int) == segments@);
    (min_x, min_z, max_x, max_z)
}

fn is_adjacent_to_all(segments: &Vec<(RoomSegment, u8)>, i: usize) -> (r: bool)
    requires
        i < segments.len(),
        segments_bounded(segments@),
    ensures
        r == adjacent_to_all(segments@, i as int),
{
    let a = segments[i].0;
    let mut j: usize = 0;
    while j < segments.len()
        invariant
            j <= segments.len(),
            i < segments.len(),
            a == segments@[i as int].0,
            segments_bounded(segments@),
            forall|k: int|
                0 <= k < j ==> abs_diff(a.x, segments@[k].0.x) + abs_diff(a.z, segments@[k].0.z)
                    <= 1,
        decreases segments.len() - j,
    {
        let b = segments[j].0;
        if usize_abs_diff(a.x, b.x) + usize_abs_diff(a.z, b.z) > 1 {
            return false;
        }
        j = j + 1;
    }
    true
}

/// Index of the first segment that touches every other segment, if any.
fn find_corner(segments: &Vec<(RoomSegment, u8)>) -> (r: Option<usize>)
    requires
        segments_bounded(segments@),
    ensures
        match r {
            Some(i) => i == first_corner_from(segments@, 0) && i < segments.len(),
            None => first_corner_from(segments@, 0) == -1,
        },
{
    let mut i: usize = 0;
    while i < segments.len()
        invariant
            i <= segments.len(),
            segments_bounded(segments@),
            first_corner_from(segments@, 0) == first_corner_from(segments@, i as int),
        decreases segments.len() - i,
    {
        if is_adjacent_to_all(segments, i) {
            return Some(i);
        }
        i = i + 1;
    }
    None
}

/// The rotation a room is placed with, read from its segments; a single
/// cell turns so that its doors match the stored room, longer rooms lie
/// along one axis, and an L turns towards its corner segment.
pub fn rotation_from_segments(segments: &Vec<(RoomSegment, u8)>) -> (r: Rotation)
    requires
        1 <= segments.len() <= 4,
        segments_bounded(segments@),
        needs_corner(segments@) ==> first_corner_from(segments@, 0) >= 0,
    ensures
        r == spec_rotation_from_segments(segments@),
{
    proof {
        lemma_min_max_bounds(segments@);
    }
    let (min_x, min_z, max_x, max_z) = segment_bounds(segments);
    let width = (max_x - min_x) + 1;
    let length = (max_z - min_z) + 1;
    let n = segments.len();
    if n == 1 {
        single_cell_rotation(segments[0].1)
    } else if n == 2 {
        if width == 1 { Rotation::Identity } else { Rotation::CounterClockwise90 }
    } else if n == 3 {
        if width == 2 && length == 2 {
            let found = find_corner(segments);
            let index = match found {
                Some(index) => index,
                None => { return Rotation::Identity; }
            };
            let corner = segments[index].0;
            if corner.x == min_x && corner.z == min_z {
                Rotation::Clockwise90
            } else if corner.x == max_x && corner.z == min_z {
                Rotation::Clockwise180
            } else if corner.x == max_x && corner.z == max_z {
                Rotation::CounterClockwise90
            } else {
                Rotation::Identity
            }
        } else {
            if width == 1 { Rotation::Identity } else { Rotation::CounterClockwise90 }
        }
    } else {
        if width == 2 && length == 2 {
            Rotation::Identity
        } else {
            if width == 1 { Rotation::Identity } else { Rotation::CounterClockwise90 }
        }
    }
}



// ------------------------------------------------------- single-cell doors

/// The four sides of a cell, clockwise from north: north 0, east 1, south 2,
/// west 3; the bit of each in a door bitmask.
pub open spec fn side_bit(side: int) -> int {
    if side == 0 {
        8
    } else if side == 1 {
        4
    } else if side == 2 {
        2
    } else {
        1
    }
}

/// The unit step out of a cell through each side, in world coordinates
/// (north is towards negative `z`).
pub open spec fn side_step(side: int) -> BlockPos {
    if side == 0 {
        BlockPos { x: 0, y: 0, z: -1i32 }
    } else if side == 1 {
        BlockPos { x: 1, y: 0, z: 0 }
    } else if side == 2 {
        BlockPos { x: 0, y: 0, z: 1 }
    } else {
        BlockPos { x: -1i32, y: 0, z: 0 }
    }
}

/// Whether a door bitmask has a door on `side`.
pub open spec fn has_door(mask: u8, side: int) -> bool {
    (mask as int / side_bit(side)) % 2 == 1
}

pub open spec fn door_count(mask: u8) -> int {
    (if has_door(mask, 0) { 1int } else { 0 }) + (if has_door(mask, 1) { 1int } else { 0 }) + (if has_door(
        mask,
        2,
    ) { 1int } else { 0 }) + (if has_door(mask, 3) { 1int } else { 0 })
}

/// The doors of the stored one-cell room that a cell with these doors is
/// built from, in the stored room's own frame: a dead end opens north, a
/// bend opens south and west, a straight runs north to south, a three-way
/// opens north, south and west, and a crossing opens everywhere.
pub open spec fn stored_cell_doors(mask: u8) -> u8 {
    let n = door_count(mask);
    if n == 1 {
        0b1000
    } else if n == 2 && has_door(mask, 0) == has_door(mask, 2) {
        0b1010
    } else if n == 2 {
        0b0011
    } else if n == 3 {
        0b1011
    } else if n == 4 {
        0b1111
    } else {
        0
    }
}

/// The side of the world that side `side` of a room placed with rotation `r`
/// faces.
pub open spec fn turned_side(side: int, r: Rotation) -> int {
    (side + spec_quarter_turns(r)) % 4
}

/// Turning the doors `stored` by `q` clockwise quarter turns gives `cell`.
pub open spec fn doors_turned_by(stored: u8, cell: u8, q: int) -> bool {
    &&& has_door(stored, 0) == has_door(cell, (0 + q) % 4)
    &&& has_door(stored, 1) == has_door(cell, (1 + q) % 4)
    &&& has_door(stored, 2) == has_door(cell, (2 + q) % 4)
    &&& has_door(stored, 3) == has_door(cell, (3 + q) % 4)
}

/// Placing a room with rotation `r` puts the doors `stored` onto `cell`.
pub open spec fn doors_turned_onto(stored: u8, cell: u8, r: Rotation) -> bool {
    doors_turned_by(stored, cell, spec_quarter_turns(r))
}

/// The order in which rotations are preferred when several fit a symmetric
/// cell.
pub open spec fn rotation_preference(r: Rotation) -> int {
    match r {
        Rotation::Identity => 0,
        Rotation::CounterClockwise90 => 1,
        Rotation::Clockwise90 => 2,
        Rotation::Clockwise180 => 3,
    }
}

/// A room placed with rotation `r` has the side `side` of its own frame
/// facing the world's side `turned_side(side, r)`: placement maps the step
/// out through a side of the stored room onto the step out through that
/// side of the world.
pub proof fn lemma_turned_side_is_placement(side: int, r: Rotation)
    requires
        0 <= side < 4,
    ensures
        spec_rotate(side_step(side), spec_inverse(r)) == side_step(turned_side(side, r)),
{
}

/// The rotation of a one-cell room turns the stored room's doors onto the
/// cell's doors, for every door bitmask: a dead end, a bend, a straight, a
/// three-way or a crossing is placed so that its doors open where the cell's
/// doors are. Where more than one rotation would do (a straight, a crossing,
/// no doors), it is the first of identity, a quarter turn anticlockwise, a
/// quarter turn clockwise and a half turn that does.
pub proof fn lemma_single_cell_rotation_matches_doors(mask: u8)
    requires
        mask < 16,
    ensures
        doors_turned_onto(stored_cell_doors(mask), mask, spec_single_cell_rotation(mask)),
        forall|r: Rotation|
            rotation_preference(r) < rotation_preference(spec_single_cell_rotation(mask)) ==> !doors_turned_onto(
                stored_cell_doors(mask),
                mask,
                r,
            ),
{
    assert forall|r: Rotation|
        rotation_preference(r) < rotation_preference(spec_single_cell_rotation(mask)) implies !doors_turned_onto(
        stored_cell_doors(mask),
        mask,
        r,
    ) by {
        if mask == 0 {
        } else if mask == 1 {
        } else if mask == 2 {
        } else if mask == 3 {
        } else if mask == 4 {
        } else if mask == 5 {
        } else if mask == 6 {
        } else if mask == 7 {
        } else if mask == 8 {
        } else if mask == 9 {
        } else if mask == 10 {
        } else if mask == 11 {
        } else if mask == 12 {
        } else if mask == 13 {
        } else if mask == 14 {
        } else {
            assert(mask == 15);
        }
    }
    if mask == 0 {
    } else if mask == 1 {
    } else if mask == 2 {
    } else if mask == 3 {
    } else if mask == 4 {
    } else if mask == 5 {
    } else if mask == 6 {
    } else if mask == 7 {
    } else if mask == 8 {
    } else if mask == 9 {
    } else if mask == 10 {
    } else if mask == 11 {
    } else if mask == 12 {
    } else if mask == 13 {
    } else if mask == 14 {
    } else {
        assert(mask == 15);
    }
}

/// The direction a single cell faces from its door bitmask (north is the
/// high bit), in the direction-based form of the rotation rules.
pub open spec fn spec_single_cell_direction(bitmask: u8) -> Direction {
    if bitmask == 0b1111 || bitmask == 0b0101 || bitmask == 0b1000 || bitmask == 0b0011
        || bitmask == 0b1011 {
        Direction::North
    } else if bitmask == 0b1010 || bitmask == 0b0100 || bitmask == 0b1001 || bitmask == 0b1101 {
        Direction::East
    } else if bitmask == 0b0010 || bitmask == 0b1100 || bitmask == 0b1110 {
        Direction::South
    } else if bitmask == 0b0001 || bitmask == 0b0110 || bitmask == 0b0111 {
        Direction::West
    } else {
        Direction::North
    }
}

/// One cell's doors in the facing-direction form: a straight is stored
/// running east to west; the other shapes are stored as for rotations.
pub open spec fn stored_facing_doors(mask: u8) -> u8 {
    if door_count(mask) == 2 && has_door(mask, 0) == has_door(mask, 2) {
        0b0101
    } else {
        stored_cell_doors(mask)
    }
}

/// Quarter turns clockwise from north of a horizontal direction.
pub open spec fn facing_turns(d: Direction) -> int {
    match d {
        Direction::East => 1,
        Direction::South => 2,
        Direction::West => 3,
        _ => 0,
    }
}

/// The direction a one-cell room faces turns the stored room's doors onto
/// the cell's doors, for every door bitmask; it is always north, east,
/// south or west, and where more than one would do, the first of them in
/// that order.
pub proof fn lemma_single_cell_direction_matches_doors(mask: u8)
    requires
        mask < 16,
    ensures
        ({
            let d = spec_single_cell_direction(mask);
            &&& d == Direction::North || d == Direction::East || d == Direction::South || d == Direction::West
            &&& doors_turned_by(stored_facing_doors(mask), mask, facing_turns(d))
            &&& forall|q: int| 0 <= q < facing_turns(d) ==> !doors_turned_by(stored_facing_doors(mask), mask, q)
        }),
{
    let d = spec_single_cell_direction(mask);
    assert forall|q: int| 0 <= q < facing_turns(d) implies !doors_turned_by(stored_facing_doors(mask), mask, q) by {
        assert(q == 0 || q == 1 || q == 2);
        if mask == 0 {
        } else if mask == 1 {
        } else if mask == 2 {
        } else if mask == 3 {
        } else if mask == 4 {
        } else if mask == 5 {
        } else if mask == 6 {
        } else if mask == 7 {
        } else if mask == 8 {
        } else if mask == 9 {
        } else if mask == 10 {
        } else if mask == 11 {
        } else if mask == 12 {
        } else if mask == 13 {
        } else if mask == 14 {
        } else {
            assert(mask == 15);
        }
    }
    if mask == 0 {
    } else if mask == 1 {
    } else if mask == 2 {
    } else if mask == 3 {
    } else if mask == 4 {
    } else if mask == 5 {
    } else if mask == 6 {
    } else if mask == 7 {
    } else if mask == 8 {
    } else if mask == 9 {
    } else if mask == 10 {
    } else if mask == 11 {
    } else if mask == 12 {
    } else if mask == 13 {
    } else if mask == 14 {
    } else {
        assert(mask == 15);
    }
}

/// A room of one segment is placed and faces as its cell's doors say (see
/// `lemma_single_cell_rotation_matches_doors` and
/// `lemma_single_cell_direction_matches_doors`).
pub proof fn lemma_one_cell_room_matches_doors(s: Seq<(RoomSegment, u8)>)
    requires
        s.len() == 1,
        s[0].1 < 16,
    ensures
        doors_turned_onto(stored_cell_doors(s[0].1), s[0].1, spec_rotation_from_segments(s)),
        forall|r: Rotation|
            rotation_preference(r) < rotation_preference(spec_rotation_from_segments(s)) ==> !doors_turned_onto(
                stored_cell_doors(s[0].1),
                s[0].1,
                r,
            ),
        doors_turned_by(stored_facing_doors(s[0].1), s[0].1, facing_turns(spec_direction_from_segments(s))),
        forall|q: int|
            0 <= q < facing_turns(spec_direction_from_segments(s)) ==> !doors_turned_by(
                stored_facing_doors(s[0].1),
                s[0].1,
                q,
            ),
{
    lemma_single_cell_rotation_matches_doors(s[0].1);
    lemma_single_cell_direction_matches_doors(s[0].1);
}

/// Which corner of its 2x2 box the corner segment of an L lies in, counted
/// clockwise from the south-west: south-west 0, north-west 1, north-east 2,
/// south-east 3 (north is towards smaller `z`).
pub open spec fn l_corner_quadrant(s: Seq<(RoomSegment, u8)>) -> int {
    let c = s[first_corner_from(s, 0)].0;
    if c.x == seg_min_x(s) && c.z == seg_max_z(s) {
        0
    } else if c.x == seg_min_x(s) && c.z == seg_min_z(s) {
        1
    } else if c.x == seg_max_x(s) && c.z == seg_min_z(s) {
        2
    } else {
        3
    }
}

/// An L room is turned towards its corner: the stored L has its corner
/// segment in the south-west, and the room is turned (and faces) by as many
/// clockwise quarter turns as its corner lies round from the south-west.
pub proof fn lemma_l_room_turns_towards_its_corner(s: Seq<(RoomSegment, u8)>)
    requires
        needs_corner(s),
        first_corner_from(s, 0) >= 0,
    ensures
        spec_quarter_turns(spec_rotation_from_segments(s)) == l_corner_quadrant(s),
        facing_turns(spec_direction_from_segments(s)) == l_corner_quadrant(s),
{
    lemma_min_max_bounds(s);
    lemma_first_corner_range(s, 0);
    let i = first_corner_from(s, 0);
    assert(seg_min_x(s) <= s[i].0.x <= seg_max_x(s));
    assert(seg_min_z(s) <= s[i].0.z <= seg_max_z(s));
}

/// An odd number of quarter turns.
pub open spec fn odd(q: int) -> bool {
    q % 2 == 1
}

/// A room in a line (two to four segments, not a square or an L) lies along
/// the stored room when it runs north to south and across it when it runs
/// east to west: its rotation is an odd number of quarter turns exactly when
/// it is more than one cell wide, the first such rotation of identity, a
/// quarter turn anticlockwise, a quarter turn clockwise and a half turn; it
/// faces east or west exactly when it is more than one cell long, north
/// before south and east before west.
pub proof fn lemma_line_room_lies_along_its_cells(s: Seq<(RoomSegment, u8)>)
    requires
        2 <= s.len() <= 4,
        !(s.len() >= 3 && seg_max_x(s) - seg_min_x(s) + 1 == 2 && seg_max_z(s) - seg_min_z(s) + 1 == 2),
    ensures
        ({
            let r = spec_rotation_from_segments(s);
            let across = seg_max_x(s) - seg_min_x(s) + 1 != 1;
            &&& odd(spec_quarter_turns(r)) == across
            &&& forall|r2: Rotation|
                rotation_preference(r2) < rotation_preference(r) ==> odd(spec_quarter_turns(r2)) != across
        }),
        ({
            let d = spec_direction_from_segments(s);
            let long = seg_max_z(s) - seg_min_z(s) + 1 != 1;
            &&& d == Direction::North || d == Direction::East || d == Direction::South || d == Direction::West
            &&& odd(facing_turns(d)) == long
            &&& forall|q: int| 0 <= q < facing_turns(d) ==> #[trigger] odd(q) != long
        }),
{
}

/// The direction a room built from these segments faces: a single cell by
/// its doors, a room one cell long facing north and others east, an L towards
/// its corner segment, and a square north.
pub open spec fn spec_direction_from_segments(s: Seq<(RoomSegment, u8)>) -> Direction {
    let width = seg_max_x(s) - seg_min_x(s) + 1;
    let length = seg_max_z(s) - seg_min_z(s) + 1;
    let straight = if length == 1 { Direction::North } else { Direction::East };
    if s.len() == 1 {
        spec_single_cell_direction(s[0].1)
    } else if s.len() == 2 {
        straight
    } else if s.len() == 3 {
        if width == 2 && length == 2 {
            let c = s[first_corner_from(s, 0)].0;
            if c.x == seg_min_x(s) && c.z == seg_min_z(s) {
                Direction::East
            } else if c.x == seg_max_x(s) && c.z == seg_min_z(s) {
                Direction::South
            } else if c.x == seg_max_x(s) && c.z == seg_max_z(s) {
                Direction::West
            } else {
                Direction::North
            }
        } else {
            straight
        }
    } else {
        if width == 2 && length == 2 {
            Direction::North
        } else {
            straight
        }
    }
}

/// Two lists holding the same segments have the same bounds.
proof fn lemma_same_bounds(s: Seq<(RoomSegment, u8)>, t: Seq<(RoomSegment, u8)>)
    requires
        s.len() > 0,
        t.len() > 0,
        forall|a: (RoomSegment, u8)| s.contains(a) <==> t.contains(a),
    ensures
        seg_min_x(s) == seg_min_x(t),
        seg_max_x(s) == seg_max_x(t),
        seg_min_z(s) == seg_min_z(t),
        seg_max_z(s) == seg_max_z(t),
{
    lemma_min_max_bounds(s);
    lemma_min_max_bounds(t);
    lemma_bounds_within(s, t);
    lemma_bounds_within(t, s);
}

/// Every segment of `s` is one of `t`, so `t`'s bounds reach at least as far.
proof fn lemma_bounds_within(s: Seq<(RoomSegment, u8)>, t: Seq<(RoomSegment, u8)>)
    requires
        s.len() > 0,
        t.len() > 0,
        forall|a: (RoomSegment, u8)| s.contains(a) ==> t.contains(a),
    ensures
        seg_min_x(t) <= seg_min_x(s),
        seg_max_x(s) <= seg_max_x(t),
        seg_min_z(t) <= seg_min_z(s),
        seg_max_z(s) <= seg_max_z(t),
{
    lemma_min_max_bounds(s);
    lemma_min_max_bounds(t);
    let a = choose|i: int| 0 <= i < s.len() && s[i].0.x == seg_min_x(s);
    let b = choose|i: int| 0 <= i < s.len() && s[i].0.x == seg_max_x(s);
    let c = choose|i: int| 0 <= i < s.len() && s[i].0.z == seg_min_z(s);
    let d = choose|i: int| 0 <= i < s.len() && s[i].0.z == seg_max_z(s);
    assert(s.contains(s[a]) && s.contains(s[b]) && s.contains(s[c]) && s.contains(s[d]));
    let ja = choose|j: int| 0 <= j < t.len() && t[j] == s[a];
    let jb = choose|j: int| 0 <= j < t.len() && t[j] == s[b];
    let jc = choose|j: int| 0 <= j < t.len() && t[j] == s[c];
    let jd = choose|j: int| 0 <= j < t.len() && t[j] == s[d];
    assert(seg_min_x(t) <= t[ja].0.x);
    assert(t[jb].0.x <= seg_max_x(t));
    assert(seg_min_z(t) <= t[jc].0.z);
    assert(t[jd].0.z <= seg_max_z(t));
}

/// A segment that touches every segment of `s` touches every segment of a
/// list holding the same segments.
proof fn lemma_adjacent_transfers(s: Seq<(RoomSegment, u8)>, i: int, t: Seq<(RoomSegment, u8)>, j: int)
    requires
        0 <= i < s.len(),
        0 <= j < t.len(),
        t[j] == s[i],
        adjacent_to_all(s, i),
        forall|a: (RoomSegment, u8)| t.contains(a) ==> s.contains(a),
    ensures
        adjacent_to_all(t, j),
{
    assert forall|k: int| 0 <= k < t.len() implies abs_diff(t[j].0.x, t[k].0.x) + abs_diff(
        t[j].0.z,
        t[k].0.z,
    ) <= 1 by {
        assert(t.contains(t[k]));
        let m = choose|m: int| 0 <= m < s.len() && s[m] == t[k];
        assert(abs_diff(s[i].0.x, s[m].0.x) + abs_diff(s[i].0.z, s[m].0.z) <= 1);
    }
}

/// The search for a corner from `i` on finds one no later than `j`, if `j`
/// is a corner.
proof fn lemma_first_corner_found(s: Seq<(RoomSegment, u8)>, i: int, j: int)
    requires
        0 <= i <= j < s.len(),
        adjacent_to_all(s, j),
    ensures
        i <= first_corner_from(s, i) <= j,
        adjacent_to_all(s, first_corner_from(s, i)),
    decreases j - i,
{
    if !adjacent_to_all(s, i) {
        lemma_first_corner_found(s, i + 1, j);
    }
}

/// The search for a corner from `i` on gives -1 or a corner at `i` or later.
proof fn lemma_first_corner_range(s: Seq<(RoomSegment, u8)>, i: int)
    requires
        0 <= i,
    ensures
        first_corner_from(s, i) == -1 || (i <= first_corner_from(s, i) < s.len() && adjacent_to_all(
            s,
            first_corner_from(s, i),
        )),
    decreases s.len() - i,
{
    if i < s.len() && !adjacent_to_all(s, i) {
        lemma_first_corner_range(s, i + 1);
    }
}

/// Of the three segments of an L, only one touches the other two.
proof fn lemma_l_corner_unique(s: Seq<(RoomSegment, u8)>, i: int, k: int)
    requires
        needs_corner(s),
        0 <= i < 3,
        0 <= k < 3,
        adjacent_to_all(s, i),
        adjacent_to_all(s, k),
    ensures
        s[i].0 == s[k].0,
{
    lemma_min_max_bounds(s);
    assert(abs_diff(s[i].0.x, s[0].0.x) + abs_diff(s[i].0.z, s[0].0.z) <= 1);
    assert(abs_diff(s[i].0.x, s[1].0.x) + abs_diff(s[i].0.z, s[1].0.z) <= 1);
    assert(abs_diff(s[i].0.x, s[2].0.x) + abs_diff(s[i].0.z, s[2].0.z) <= 1);
    assert(abs_diff(s[k].0.x, s[0].0.x) + abs_diff(s[k].0.z, s[0].0.z) <= 1);
    assert(abs_diff(s[k].0.x, s[1].0.x) + abs_diff(s[k].0.z, s[1].0.z) <= 1);
    assert(abs_diff(s[k].0.x, s[2].0.x) + abs_diff(s[k].0.z, s[2].0.z) <= 1);
    assert(seg_min_x(s) <= s[0].0.x <= seg_max_x(s));
    assert(seg_min_x(s) <= s[1].0.x <= seg_max_x(s));
    assert(seg_min_x(s) <= s[2].0.x <= seg_max_x(s));
    assert(seg_min_z(s) <= s[0].0.z <= seg_max_z(s));
    assert(seg_min_z(s) <= s[1].0.z <= seg_max_z(s));
    assert(seg_min_z(s) <= s[2].0.z <= seg_max_z(s));
}

/// The way a room is placed does not depend on the order in which its
/// segments are listed: any reordering of the segments gives the same
/// rotation and the same facing direction (and still has a corner where an L
/// needs one), so sorting the segments cannot change how a room is placed.
pub proof fn lemma_rotation_ignores_segment_order(s: Seq<(RoomSegment, u8)>, t: Seq<(RoomSegment, u8)>)
    requires
        1 <= s.len() <= 4,
        t.to_multiset() == s.to_multiset(),
        needs_corner(s) ==> first_corner_from(s, 0) >= 0,
    ensures
        needs_corner(t) ==> first_corner_from(t, 0) >= 0,
        spec_rotation_from_segments(t) == spec_rotation_from_segments(s),
        spec_direction_from_segments(t) == spec_direction_from_segments(s),
{
    s.to_multiset_ensures();
    t.to_multiset_ensures();
    assert forall|a: (RoomSegment, u8)| s.contains(a) <==> t.contains(a) by {
        assert(s.contains(a) <==> s.to_multiset().count(a) > 0);
        assert(t.contains(a) <==> t.to_multiset().count(a) > 0);
    }
    lemma_same_bounds(s, t);
    if s.len() == 1 {
        assert(t.contains(t[0]));
        assert(s.contains(t[0]));
        let m = choose|m: int| 0 <= m < s.len() && s[m] == t[0];
        assert(m == 0);
    }
    if needs_corner(s) {
        let i = first_corner_from(s, 0);
        lemma_first_corner_range(s, 0);
        assert(s.contains(s[i]));
        let j = choose|j: int| 0 <= j < t.len() && t[j] == s[i];
        lemma_adjacent_transfers(s, i, t, j);
        lemma_first_corner_found(t, 0, j);
        let jt = first_corner_from(t, 0);
        assert(t.contains(t[jt]));
        let k = choose|k: int| 0 <= k < s.len() && s[k] == t[jt];
        lemma_adjacent_transfers(t, jt, s, k);
        lemma_l_corner_unique(s, i, k);
    }
}

/// The direction a room faces, read from its segments (the direction-based
/// form of `rotation_from_segments`).
pub fn get_rotation_from_segments(segments: &Vec<(RoomSegment, u8)>) -> (r: Direction)
    requires
        1 <= segments.len() <= 4,
        segments_bounded(segments@),
        needs_corner(segments@) ==> first_corner_from(segments@, 0) >= 0,
    ensures
        r == spec_direction_from_segments(segments@),
{
    proof {
        lemma_min_max_bounds(segments@);
    }
    let (min_x, min_z, max_x, max_z) = segment_bounds(segments);
    let width = (max_x - min_x) + 1;
    let length = (max_z - min_z) + 1;
    let n = segments.len();
    if n == 1 {
        let bitmask = segments[0].1;
        if bitmask == 0b1111 || bitmask == 0b0101 || bitmask == 0b1000 || bitmask == 0b0011
            || bitmask == 0b1011 {
            Direction::North
        } else if bitmask == 0b1010 || bitmask == 0b0100 || bitmask == 0b1001 || bitmask == 0b1101 {
            Direction::East
        } else if bitmask == 0b0010 || bitmask == 0b1100 || bitmask == 0b1110 {
            Direction::South
        } else if bitmask == 0b0001 || bitmask == 0b0110 || bitmask == 0b0111 {
            Direction::West
        } else {
            Direction::North
        }
    } else if n == 2 {
        if length == 1 { Direction::North } else { Direction::East }
    } else if n == 3 {
        if width == 2 && length == 2 {
            let index = match find_corner(segments) {
                Some(index) => index,
                None => { return Direction::North; }
            };
            let corner = segments[index].0;
            if corner.x == min_x && corner.z == min_z {
                Direction::East
            } else if corner.x == max_x && corner.z == min_z {
                Direction::South
            } else if corner.x == max_x && corner.z == max_z {
                Direction::West
            } else {
                Direction::North
            }
        } else {
            if length == 1 { Direction::North } else { Direction::East }
        }
    } else {
        if width == 2 && length == 2 {
            Direction::North
        } else {
            if length == 1 { Direction::North } else { Direction::East }
        }
    }
}

/// The stored dimensions of a room are small enough to add to grid positions.
pub open spec fn room_dims_bounded(data: RoomData) -> bool {
    0 <= data.width <= DIM_LIMIT && 0 <= data.length <= DIM_LIMIT && -DIM_LIMIT <= data.bottom
        <= DIM_LIMIT && 0 <= data.height <= DIM_LIMIT
}

/// Largest stored room dimension that the placement arithmetic accepts.
pub const DIM_LIMIT: i32 = 0x0400_0000;

/// Why a room cannot be placed from its segments and stored data.
#[derive(Clone, Copy, Debug, PartialEq, Eq, Structural)]
pub enum PlacementError {
    /// No segments, or more than four.
    SegmentCount,
    /// A segment lies beyond `SEGMENT_LIMIT`.
    OffGrid,
    /// Three segments in a 2x2 box, none of which touches the other two.
    InvalidLRoom,
    /// A stored dimension is beyond `DIM_LIMIT`.
    DimensionsTooLarge,
}

/// Whether `Room::new` can place a room from these segments and data, and
/// the first reason why not.
pub open spec fn spec_check_placement(s: Seq<(RoomSegment, u8)>, data: RoomData) -> Result<(), PlacementError> {
    if !(1 <= s.len() <= 4) {
        Err(PlacementError::SegmentCount)
    } else if !segments_bounded(s) {
        Err(PlacementError::OffGrid)
    } else if needs_corner(s) && first_corner_from(s, 0) < 0 {
        Err(PlacementError::InvalidLRoom)
    } else if !room_dims_bounded(data) {
        Err(PlacementError::DimensionsTooLarge)
    } else {
        Ok(())
    }
}

/// Checks what `Room::new` needs of its arguments: `Ok` exactly when it may
/// be called.
pub fn check_placement(segments: &Vec<(RoomSegment, u8)>, data: &RoomData) -> (r: Result<(), PlacementError>)
    ensures
        r == spec_check_placement(segments@, *data),
        r is Ok <==> (1 <= segments@.len() <= 4 && segments_bounded(segments@) && (needs_corner(segments@)
            ==> first_corner_from(segments@, 0) >= 0) && room_dims_bounded(*data)),
{
    let n = segments.len();
    if n < 1 || n > 4 {
        return Err(PlacementError::SegmentCount);
    }
    let mut i: usize = 0;
    while i < n
        invariant
            n == segments@.len(),
            1 <= n <= 4,
            i <= n,
            forall|k: int| 0 <= k < i ==> segments@[k].0.x <= SEGMENT_LIMIT && segments@[k].0.z <= SEGMENT_LIMIT,
        decreases n - i,
    {
        if segments[i].0.x > SEGMENT_LIMIT || segments[i].0.z > SEGMENT_LIMIT {
            assert(!(segments@[i as int].0.x <= SEGMENT_LIMIT && segments@[i as int].0.z <= SEGMENT_LIMIT));
            return Err(PlacementError::OffGrid);
        }
        i = i + 1;
    }
    proof {
        lemma_min_max_bounds(segments@);
    }
    let (min_x, min_z, max_x, max_z) = segment_bounds(segments);
    if n == 3 && max_x - min_x == 1 && max_z - min_z == 1 {
        if find_corner(segments).is_none() {
            return Err(PlacementError::InvalidLRoom);
        }
    }
    if 0 <= data.width && data.width <= DIM_LIMIT && 0 <= data.length && data.length <= DIM_LIMIT
        && -DIM_LIMIT <= data.bottom && data.bottom <= DIM_LIMIT && 0 <= data.height && data.height
        <= DIM_LIMIT {
        Ok(())
    } else {
        Err(PlacementError::DimensionsTooLarge)
    }
}

/// World position of the room's corner block: the north-west corner of its
/// first grid cell, moved to the opposite edge along each axis that the
/// rotation flips.
pub open spec fn spec_corner_position(
    s: Seq<(RoomSegment, u8)>,
    width: i32,
    length: i32,
    rotation: Rotation,
) -> BlockPos {
    let x: int = seg_min_x(s) * 32 + DUNGEON_ORIGIN_X;
    let z: int = seg_min_z(s) * 32 + DUNGEON_ORIGIN_Z;
    let y: int = 68;
    match rotation {
        Rotation::Identity => BlockPos { x: x as i32, y: y as i32, z: z as i32 },
        Rotation::Clockwise90 => BlockPos { x: (x + length - 1) as i32, y: y as i32, z: z as i32 },
        Rotation::Clockwise180 => BlockPos {
            x: (x + length - 1) as i32,
            y: y as i32,
            z: (z + width - 1) as i32,
        },
        Rotation::CounterClockwise90 => BlockPos {
            x: x as i32,
            y: y as i32,
            z: (z + width - 1) as i32,
        },
    }
}

/// World position of the corner block of a room made of `segments`.
pub fn corner_position(segments: &Vec<(RoomSegment, u8)>, data: &RoomData, rotation: Rotation) -> (r:
    BlockPos)
    requires
        segments.len() > 0,
        segments_bounded(segments@),
        room_dims_bounded(*data),
    ensures
        r == spec_corner_position(segments@, data.width, data.length, rotation),
        pos_in_range(r),
{
    proof {
        lemma_min_max_bounds(segments@);
        let k = choose|k: int| 0 <= k < segments@.len() && segments@[k].0.x == seg_min_x(segments@);
        let j = choose|j: int| 0 <= j < segments@.len() && segments@[j].0.z == seg_min_z(segments@);
        assert(seg_min_x(segments@) <= SEGMENT_LIMIT);
        assert(seg_min_z(segments@) <= SEGMENT_LIMIT);
    }
    let (min_x, min_z, _max_x, _max_z) = segment_bounds(segments);
    let x: i32 = (min_x * 32) as i32 + DUNGEON_ORIGIN_X;
    let y: i32 = 68;
    let z: i32 = (min_z * 32) as i32 + DUNGEON_ORIGIN_Z;
    match rotation {
        Rotation::Identity => BlockPos { x, y, z },
        Rotation::Clockwise90 => BlockPos { x: x + data.length - 1, y, z },
        Rotation::Clockwise180 => BlockPos { x: x + data.length - 1, y, z: z + data.width - 1 },
        Rotation::CounterClockwise90 => BlockPos { x, y, z: z + data.width - 1 },
    }
}

/// Whether a room has been discovered and whether its puzzle or challenge is done.
#[derive(Clone, Copy, Debug, PartialEq, Eq, Structural)]
pub enum RoomStatus {
    Undiscovered,
    Discovered,
    Complete,
    Failed,
}

/// A placed room: its rotation, the world position of its corner block, the
/// players inside it and its secrets (by entity id).
#[derive(Clone, Debug)]
pub struct Room {
    pub rotation: Rotation,
    pub corner: BlockPos,
    pub players: Vec<u64>,
    pub secrets: Vec<u64>,
    pub found_secrets: usize,
}

/// World position of a position given relative to a room's corner.
pub open spec fn spec_relative_to_world(rotation: Rotation, corner: BlockPos, p: BlockPos) -> BlockPos {
    let t = spec_rotate(p, spec_inverse(rotation));
    BlockPos { x: (t.x + corner.x) as i32, y: t.y, z: (t.z + corner.z) as i32 }
}

impl Room {
    /// A room placed from its segments (with door bitmasks) and its stored data.
    pub fn new(segments: &Vec<(RoomSegment, u8)>, data: &RoomData) -> (r: Room)
        requires
            1 <= segments.len() <= 4,
            segments_bounded(segments@),
            needs_corner(segments@) ==> first_corner_from(segments@, 0) >= 0,
            room_dims_bounded(*data),
        ensures
            r.rotation == spec_rotation_from_segments(segments@),
            r.corner == spec_corner_position(segments@, data.width, data.length, r.rotation),
            pos_in_range(r.corner),
            r.players@.len() == 0,
            r.secrets@.len() == 0,
            r.found_secrets == 0,
    {
        let rotation = rotation_from_segments(segments);
        let corner = corner_position(segments, data, rotation);
        Room { rotation, corner, players: Vec::new(), secrets: Vec::new(), found_secrets: 0 }
    }

    /// The world position of `position`, given relative to this room's corner.
    pub fn relative_to_world(&self, position: BlockPos) -> (r: BlockPos)
        requires
            pos_in_range(position),
            pos_in_range(self.corner),
        ensures
            r == spec_relative_to_world(self.rotation, self.corner, position),
    {
        let p = position.rotate(self.rotation.inverse());
        BlockPos { x: p.x + self.corner.x, y: p.y, z: p.z + self.corner.z }
    }

    /// Records that the player `entity` is now inside this room.
    pub fn insert_player(&mut self, entity: u64)
        requires
            !old(self).players@.contains(entity),
        ensures
            final(self).players@ == old(self).players@.push(entity),
            final(self).rotation == old(self).rotation,
            final(self).corner == old(self).corner,
            final(self).secrets@ == old(self).secrets@,
            final(self).found_secrets == old(self).found_secrets,
    {
        self.players.push(entity);
    }

    /// Records that the player `entity` has left this room.
    pub fn remove_player(&mut self, entity: u64)
        requires
            old(self).players@.contains(entity),
        ensures
            final(self).players@ == old(self).players@.remove_value(entity),
            final(self).rotation == old(self).rotation,
            final(self).corner == old(self).corner,
            final(self).secrets@ == old(self).secrets@,
            final(self).found_secrets == old(self).found_secrets,
    {
        let mut i: usize = 0;
        while i < self.players.len()
            invariant
                i <= self.players.len(),
                self.players@ == old(self).players@,
                self.rotation == old(self).rotation,
                self.corner == old(self).corner,
                self.secrets@ == old(self).secrets@,
                self.found_secrets == old(self).found_secrets,
                self.players@.contains(entity),
                forall|k: int| 0 <= k < i ==> self.players@[k] != entity,
            decreases self.players.len() - i,
        {
            if self.players[i] == entity {
                proof {
                    self.players@.index_of_first_ensures(entity);
                    assert(self.players@.index_of_first(entity) == Some(i as int));
                }
                self.players.remove(i);
                return;
            }
            i = i + 1;
        }
        assert(false);
    }
}

/// A room whose stored footprint is an `n` by `n` square is placed inside the
/// square of `n` by `n` blocks that starts at its first grid cell's north-west
/// corner, whatever its rotation.
pub proof fn lemma_square_room_stays_in_its_cells(
    segments: Seq<(RoomSegment, u8)>,
    n: i32,
    rotation: Rotation,
    p: BlockPos,
)
    requires
        segments.len() > 0,
        segments_bounded(segments),
        0 < n <= DIM_LIMIT,
        0 <= p.x < n,
        0 <= p.z < n,
        pos_in_range(p),
    ensures
        ({
            let corner = spec_corner_position(segments, n, n, rotation);
            let w = spec_relative_to_world(rotation, corner, p);
            let x0: int = seg_min_x(segments) * 32 + DUNGEON_ORIGIN_X;
            let z0: int = seg_min_z(segments) * 32 + DUNGEON_ORIGIN_Z;
            &&& x0 <= w.x < x0 + n
            &&& z0 <= w.z < z0 + n
            &&& w.y == p.y
        }),
{
    lemma_min_max_bounds(segments);
}

/// A room of mobs, which has no puzzle: finding it completes it.
#[derive(Clone, Copy, Debug, PartialEq, Eq, Structural)]
pub struct MobRoom;

impl MobRoom {
    /// The room's status once it is discovered.
    pub fn discover(&self) -> (r: RoomStatus)
        ensures
            r == RoomStatus::Complete,
    {
        RoomStatus::Complete
    }
}

} // verus!
