use vstd::prelude::*;
use vstd::string::StringSliceAdditionalSpecFns;
use vstd::utf8::is_char_boundary;

use crate::door::{door_axis, door_in_range, spec_door_axis, spec_new_door, Door, DoorType};
use crate::grid::{DUNGEON_ORIGIN_X, DUNGEON_ORIGIN_Z, GRID_CELLS};
use crate::room::{has_door, side_step, RoomSegment};
use crate::room_data::{spec_shape_from_segments, RoomShape, RoomType};

verus! {

/// Why a layout string was refused.
#[derive(Clone, Copy, Debug, PartialEq, Eq, Structural)]
pub enum LayoutError {
    /// A door character lies past the end of the layout.
    DoorType,
    /// A cell's two characters lie past the end of the layout.
    TooSmall,
    /// A cell's two characters are not a number.
    InvalidNumber,
    /// A room segment lies outside the 6x6 grid.
    SegmentOutOfBounds,
    /// Two room segments claim the same grid cell.
    SegmentOccupied,
    /// A door of a room leads to no room.
    UnresolvedNeighbour,
}

/// A room as read from the layout: the layout's number for it (a special
/// room type for 1 to 6), its type, shape and segments with door bitmasks.
#[derive(Clone, Debug)]
pub struct LayoutRoom {
    pub id: usize,
    pub room_type: RoomType,
    pub shape: RoomShape,
    pub segments: Vec<(RoomSegment, u8)>,
}

pub struct LayoutRoomView {
    pub id: usize,
    pub room_type: RoomType,
    pub shape: RoomShape,
    pub segments: Seq<(RoomSegment, u8)>,
}

impl View for LayoutRoom {
    type V = LayoutRoomView;

    open spec fn view(&self) -> LayoutRoomView {
        LayoutRoomView {
            id: self.id,
            room_type: self.room_type,
            shape: self.shape,
            segments: self.segments@,
        }
    }
}

pub open spec fn room_views(v: Seq<LayoutRoom>) -> Seq<LayoutRoomView> {
    v.map_values(|r: LayoutRoom| r@)
}

/// The doors and rooms that a layout string describes.
#[derive(Clone, Debug)]
pub struct DungeonLayout {
    pub doors: Vec<Door>,
    pub rooms: Vec<LayoutRoom>,
}

// ---------------------------------------------------------------- doors

/// The character for door `i` (at byte `72 + i`) can be read.
pub open spec fn door_slot_present(b: Seq<u8>, i: int) -> bool {
    i + 73 <= b.len() && is_char_boundary(b, i + 72) && is_char_boundary(b, i + 73)
}

/// Door type of a layout character: `0` normal, `1` wither, `2` blood,
/// `3` entrance; any other character means there is no door.
pub open spec fn spec_door_type_char(c: u8) -> Option<DoorType> {
    if c == 48 {
        Some(DoorType::Normal)
    } else if c == 49 {
        Some(DoorType::Wither)
    } else if c == 50 {
        Some(DoorType::Blood)
    } else if c == 51 {
        Some(DoorType::Entrance)
    } else {
        None
    }
}

pub open spec fn door_positions_in_range(dp: Seq<(i32, i32)>) -> bool {
    forall|i: int| 0 <= i < dp.len() ==> door_in_range(#[trigger] dp[i].0, dp[i].1)
}

/// The doors that the layout places at the given candidate positions, in order.
pub open spec fn spec_layout_doors(b: Seq<u8>, dp: Seq<(i32, i32)>) -> Seq<Door>
    decreases dp.len(),
{
    if dp.len() == 0 {
        seq![]
    } else {
        let prev = spec_layout_doors(b, dp.drop_last());
        let i: int = dp.len() - 1;
        match spec_door_type_char(b[i + 72]) {
            Some(t) => prev.push(spec_new_door(dp[i].0, dp[i].1, spec_door_axis(dp[i].0), t)),
            None => prev,
        }
    }
}

pub open spec fn all_door_slots_present(b: Seq<u8>, n: int) -> bool {
    forall|i: int| 0 <= i < n ==> door_slot_present(b, i)
}

fn door_type_char(c: u8) -> (r: Option<DoorType>)
    ensures
        r == spec_door_type_char(c),
{
    if c == 48 {
        Some(DoorType::Normal)
    } else if c == 49 {
        Some(DoorType::Wither)
    } else if c == 50 {
        Some(DoorType::Blood)
    } else if c == 51 {
        Some(DoorType::Entrance)
    } else {
        None
    }
}

/// Reads the doors of a layout: the character at byte `72 + i` gives the type
/// of the door at `door_positions[i]`.
pub fn parse_doors(layout: &str, door_positions: &Vec<(i32, i32)>) -> (r: Result<Vec<Door>, LayoutError>)
    requires
        door_positions.len() + 73 <= usize::MAX,
        door_positions_in_range(door_positions@),
    ensures
        match r {
            Ok(doors) => all_door_slots_present(layout.spec_bytes(), door_positions.len() as int)
                && doors@ == spec_layout_doors(layout.spec_bytes(), door_positions@),
            Err(e) => e == LayoutError::DoorType && !all_door_slots_present(
                layout.spec_bytes(),
                door_positions.len() as int,
            ),
        },
{
    let bytes = layout.as_bytes();
    let ghost b = layout.spec_bytes();
    let mut doors: Vec<Door> = Vec::new();
    let mut i: usize = 0;
    while i < door_positions.len()
        invariant
            i <= door_positions.len(),
            door_positions.len() + 73 <= usize::MAX,
            door_positions_in_range(door_positions@),
            bytes@ == b,
            b == layout.spec_bytes(),
            all_door_slots_present(b, i as int),
            doors@ == spec_layout_doors(b, door_positions@.take(i as int)),
        decreases door_positions.len() - i,
    {
        if !(i + 73 <= bytes.len() && layout.is_char_boundary(i + 72) && layout.is_char_boundary(
            i + 73,
        )) {
            assert(!door_slot_present(b, i as int));
            return Err(LayoutError::DoorType);
        }
        let (x, z) = door_positions[i];
        assert(door_in_range(door_positions@[i as int].0, door_positions@[i as int].1));
        let c = bytes[i + 72];
        assert(door_positions@.take(i + 1).drop_last() == door_positions@.take(i as int));
        match door_type_char(c) {
            Some(t) => {
                let axis = door_axis(x);
                doors.push(Door::new(x, z, axis, t));
            },
            None => {},
        }
        i = i + 1;
    }
    assert(door_positions@.take(door_positions.len() as int) == door_positions@);
    Ok(doors)
}

// ---------------------------------------------------------------- cell numbers

/// The two characters of cell `c` (bytes `2c` and `2c + 1`) can be read.
pub open spec fn id_slot_present(b: Seq<u8>, c: int) -> bool {
    2 * c + 2 <= b.len() && is_char_boundary(b, 2 * c) && is_char_boundary(b, 2 * c + 2)
}

pub open spec fn is_digit(c: u8) -> bool {
    48 <= c <= 57
}

/// The number written by two characters: two digits, or a plus sign and a digit.
pub open spec fn spec_parse_id(c0: u8, c1: u8) -> Option<usize> {
    if is_digit(c0) && is_digit(c1) {
        Some(((c0 - 48) * 10 + (c1 - 48)) as usize)
    } else if c0 == 43 && is_digit(c1) {
        Some((c1 - 48) as usize)
    } else {
        None
    }
}

/// The first problem with the cell numbers from cell `c` on, if any.
pub open spec fn spec_first_id_error(b: Seq<u8>, c: int) -> Option<LayoutError>
    decreases 36 - c,
{
    if c < 0 || c >= 36 {
        None
    } else if !id_slot_present(b, c) {
        Some(LayoutError::TooSmall)
    } else if spec_parse_id(b[2 * c], b[2 * c + 1]) is None {
        Some(LayoutError::InvalidNumber)
    } else {
        spec_first_id_error(b, c + 1)
    }
}

/// The numbers of the 36 cells.
pub open spec fn spec_cell_ids(b: Seq<u8>) -> Seq<usize> {
    Seq::new(36, |c: int| spec_parse_id(b[2 * c], b[2 * c + 1]).unwrap())
}

fn parse_id(c0: u8, c1: u8) -> (r: Option<usize>)
    ensures
        r == spec_parse_id(c0, c1),
{
    if 48 <= c0 && c0 <= 57 && 48 <= c1 && c1 <= 57 {
        Some(((c0 - 48) as usize) * 10 + ((c1 - 48) as usize))
    } else if c0 == 43 && 48 <= c1 && c1 <= 57 {
        Some((c1 - 48) as usize)
    } else {
        None
    }
}

/// Reads the room number of each of the 36 cells, two characters per cell.
pub fn parse_cell_ids(layout: &str) -> (r: Result<Vec<usize>, LayoutError>)
    ensures
        match r {
            Ok(ids) => spec_first_id_error(layout.spec_bytes(), 0) is None && ids@ == spec_cell_ids(
                layout.spec_bytes(),
            ),
            Err(e) => spec_first_id_error(layout.spec_bytes(), 0) == Some(e),
        },
{
    let bytes = layout.as_bytes();
    let ghost b = layout.spec_bytes();
    let mut ids: Vec<usize> = Vec::new();
    let mut c: usize = 0;
    while c < 36
        invariant
            c <= 36,
            bytes@ == b,
            b == layout.spec_bytes(),
            spec_first_id_error(b, 0) == spec_first_id_error(b, c as int),
            ids@ == spec_cell_ids(b).take(c as int),
        decreases 36 - c,
    {
        if !(2 * c + 2 <= bytes.len() && layout.is_char_boundary(2 * c) && layout.is_char_boundary(
            2 * c + 2,
        )) {
            return Err(LayoutError::TooSmall);
        }
        match parse_id(bytes[2 * c], bytes[2 * c + 1]) {
            Some(id) => {
                ids.push(id);
                assert(ids@ == spec_cell_ids(b).take(c + 1));
            },
            None => {
                return Err(LayoutError::InvalidNumber);
            },
        }
        c = c + 1;
    }
    assert(ids@ == spec_cell_ids(b));
    Ok(ids)
}


// ---------------------------------------------------------------- rooms

/// Room type of the special numbers 1 to 6.
pub open spec fn spec_special_type(id: usize) -> RoomType {
    if id == 1 {
        RoomType::Entrance
    } else if id == 2 {
        RoomType::Fairy
    } else if id == 3 {
        RoomType::Blood
    } else if id == 4 {
        RoomType::Puzzle
    } else if id == 5 {
        RoomType::Trap
    } else {
        RoomType::Yellow
    }
}

/// The special rooms by their layout number, from 1: the entrance, the fairy
/// room, the blood room, a puzzle, a trap and the yellow (watcher) room.
pub open spec fn special_room_table() -> Seq<RoomType> {
    seq![
        RoomType::Entrance,
        RoomType::Fairy,
        RoomType::Blood,
        RoomType::Puzzle,
        RoomType::Trap,
        RoomType::Yellow,
    ]
}

/// A layout cell numbered 1 to 6 holds the special room of that number in
/// the table: 1 the entrance, 2 the fairy room, 3 the blood room, 4 a
/// puzzle, 5 a trap, 6 the yellow room; each number its own type, and none
/// of them a normal room.
pub proof fn lemma_special_numbers(id: usize)
    requires
        1 <= id <= 6,
    ensures
        spec_special_type(id) == special_room_table()[id - 1],
        spec_special_type(id) != RoomType::Normal,
        forall|other: usize| 1 <= other <= 6 && other != id ==> spec_special_type(other) != spec_special_type(id),
{
}

/// The door types by their layout digit, from `0`.
pub open spec fn door_digit_table() -> Seq<DoorType> {
    seq![DoorType::Normal, DoorType::Wither, DoorType::Blood, DoorType::Entrance]
}

/// A layout's door character is a digit `0` to `3` naming the door type of
/// that number (normal, wither, blood, entrance); every other character
/// means there is no door.
pub proof fn lemma_door_digits(c: u8)
    ensures
        spec_door_type_char(c) is Some <==> 48 <= c <= 51,
        48 <= c <= 51 ==> spec_door_type_char(c) == Some(door_digit_table()[c - 48]),
{
}

/// Each side of a cell has a door in the cell's bitmask exactly when a door
/// of the layout stands half a cell (16 blocks) from the cell's centre
/// through that side: north towards smaller `z`, east towards larger `x`.
pub proof fn lemma_cell_bitmask_sides(doors: Seq<Door>, c: int, side: int)
    requires
        0 <= c < 36,
        0 <= side < 4,
    ensures
        ({
            let cx: int = (c % 6) * 32 + 15 + DUNGEON_ORIGIN_X;
            let cz: int = (c / 6) * 32 + 15 + DUNGEON_ORIGIN_Z;
            has_door(spec_cell_bitmask(doors, c), side) == spec_has_door_at(
                doors,
                cx + 16 * side_step(side).x,
                cz + 16 * side_step(side).z,
            )
        }),
{
    let cx: int = (c % 6) * 32 + 15 + DUNGEON_ORIGIN_X;
    let cz: int = (c / 6) * 32 + 15 + DUNGEON_ORIGIN_Z;
    let n = spec_has_door_at(doors, cx, cz - 16);
    let e = spec_has_door_at(doors, cx + 16, cz);
    let s = spec_has_door_at(doors, cx, cz + 16);
    let w = spec_has_door_at(doors, cx - 16, cz);
    let v: int = (if n { 8int } else { 0 }) + (if e { 4int } else { 0 }) + (if s { 2int } else { 0 }) + (if w {
        1int
    } else {
        0
    });
    assert(spec_cell_bitmask(doors, c) as int == v);
    assert((v / 8) % 2 == 1 <==> n);
    assert((v / 4) % 2 == 1 <==> e);
    assert((v / 2) % 2 == 1 <==> s);
    assert(v % 2 == 1 <==> w);
}

/// Fairy rooms may have any number of doors; the other special rooms are dead ends.
pub open spec fn spec_special_shape(t: RoomType) -> RoomShape {
    if t == RoomType::Fairy { RoomShape::OneByOne } else { RoomShape::OneByOneEnd }
}

pub open spec fn spec_has_door_at(doors: Seq<Door>, x: int, z: int) -> bool {
    exists|k: int| 0 <= k < doors.len() && doors[k].x == x && doors[k].z == z
}

/// Door bitmask of cell `c`: north, east, south and west of its centre, high bit first.
pub open spec fn spec_cell_bitmask(doors: Seq<Door>, c: int) -> u8 {
    let cx: int = (c % 6) * 32 + 15 + DUNGEON_ORIGIN_X;
    let cz: int = (c / 6) * 32 + 15 + DUNGEON_ORIGIN_Z;
    let n: int = if spec_has_door_at(doors, cx, cz - 16) { 8 } else { 0 };
    let e: int = if spec_has_door_at(doors, cx + 16, cz) { 4 } else { 0 };
    let so: int = if spec_has_door_at(doors, cx, cz + 16) { 2 } else { 0 };
    let w: int = if spec_has_door_at(doors, cx - 16, cz) { 1 } else { 0 };
    (n + e + so + w) as u8
}

pub open spec fn spec_cell_segment(doors: Seq<Door>, c: int) -> (RoomSegment, u8) {
    (RoomSegment { x: (c % 6) as usize, z: (c / 6) as usize }, spec_cell_bitmask(doors, c))
}

/// Index of the first grouped room numbered `id`, or -1.
pub open spec fn group_index(g: Seq<LayoutRoomView>, id: usize) -> int
    decreases g.len(),
{
    if g.len() == 0 {
        -1
    } else if group_index(g.drop_last(), id) >= 0 {
        group_index(g.drop_last(), id)
    } else if g.last().id == id {
        g.len() - 1
    } else {
        -1
    }
}

/// Rooms read from the first `n` cells: the special rooms, one per cell in
/// cell order, and the other rooms, one per number in order of first
/// appearance, each with its cells in cell order (shapes not yet set).
pub open spec fn spec_groups_upto(ids: Seq<usize>, doors: Seq<Door>, n: int) -> (
    Seq<LayoutRoomView>,
    Seq<LayoutRoomView>,
)
    decreases n,
{
    if n <= 0 {
        (seq![], seq![])
    } else {
        let prev = spec_groups_upto(ids, doors, n - 1);
        let sp = prev.0;
        let nm = prev.1;
        let c: int = n - 1;
        let id = ids[c];
        let seg = spec_cell_segment(doors, c);
        if id == 0 {
            (sp, nm)
        } else if id <= 6 {
            let t = spec_special_type(id);
            (
                sp.push(
                    LayoutRoomView {
                        id,
                        room_type: t,
                        shape: spec_special_shape(t),
                        segments: seq![seg],
                    },
                ),
                nm,
            )
        } else {
            let k = group_index(nm, id);
            if k >= 0 {
                (
                    sp,
                    nm.update(
                        k,
                        LayoutRoomView {
                            id,
                            room_type: RoomType::Normal,
                            shape: RoomShape::Invalid,
                            segments: nm[k].segments.push(seg),
                        },
                    ),
                )
            } else {
                (
                    sp,
                    nm.push(
                        LayoutRoomView {
                            id,
                            room_type: RoomType::Normal,
                            shape: RoomShape::Invalid,
                            segments: seq![seg],
                        },
                    ),
                )
            }
        }
    }
}

pub open spec fn with_shape(v: LayoutRoomView) -> LayoutRoomView {
    LayoutRoomView { shape: spec_shape_from_segments(v.segments), ..v }
}

/// All rooms of a layout: the special rooms, then the other rooms with their shapes.
pub open spec fn spec_layout_rooms(ids: Seq<usize>, doors: Seq<Door>) -> Seq<LayoutRoomView> {
    let g = spec_groups_upto(ids, doors, 36);
    g.0 + g.1.map_values(|v: LayoutRoomView| with_shape(v))
}

pub(crate) proof fn lemma_group_index(g: Seq<LayoutRoomView>, id: usize)
    ensures
        group_index(g, id) >= 0 ==> group_index(g, id) < g.len() && g[group_index(g, id)].id == id
            && forall|j: int| 0 <= j < group_index(g, id) ==> g[j].id != id,
        group_index(g, id) < 0 ==> group_index(g, id) == -1 && forall|j: int|
            0 <= j < g.len() ==> g[j].id != id,
    decreases g.len(),
{
    if g.len() > 0 {
        let t = g.drop_last();
        lemma_group_index(t, id);
        assert forall|j: int| 0 <= j < t.len() implies t[j] == g[j] by {}
    }
}

proof fn lemma_group_index_first(g: Seq<LayoutRoomView>, id: usize, k: int)
    requires
        0 <= k < g.len(),
        g[k].id == id,
        forall|j: int| 0 <= j < k ==> g[j].id != id,
    ensures
        group_index(g, id) == k,
    decreases g.len(),
{
    lemma_group_index(g, id);
    let t = g.drop_last();
    if k < g.len() - 1 {
        assert(t[k] == g[k]);
        lemma_group_index_first(t, id, k);
    } else {
        lemma_group_index(t, id);
        if group_index(t, id) >= 0 {
            assert(t[group_index(t, id)] == g[group_index(t, id)]);
        }
    }
}

fn find_group(normals: &Vec<LayoutRoom>, id: usize) -> (r: Option<usize>)
    ensures
        match r {
            Some(k) => k < normals.len() && k == group_index(room_views(normals@), id),
            None => group_index(room_views(normals@), id) == -1,
        },
{
    let ghost g = room_views(normals@);
    let mut i: usize = 0;
    while i < normals.len()
        invariant
            i <= normals.len(),
            g == room_views(normals@),
            forall|j: int| 0 <= j < i ==> g[j].id != id,
        decreases normals.len() - i,
    {
        if normals[i].id == id {
            proof {
                lemma_group_index_first(g, id, i as int);
            }
            return Some(i);
        }
        i = i + 1;
    }
    proof {
        lemma_group_index(g, id);
        if group_index(g, id) >= 0 {
            assert(g[group_index(g, id)].id != id);
        }
    }
    None
}

fn has_door_at(doors: &Vec<Door>, x: i32, z: i32) -> (r: bool)
    ensures
        r == spec_has_door_at(doors@, x as int, z as int),
{
    let mut k: usize = 0;
    while k < doors.len()
        invariant
            k <= doors.len(),
            forall|j: int| 0 <= j < k ==> !(doors@[j].x == x && doors@[j].z == z),
        decreases doors.len() - k,
    {
        if doors[k].x == x && doors[k].z == z {
            return true;
        }
        k = k + 1;
    }
    false
}

/// The door bitmask of grid cell `c`.
fn cell_bitmask(doors: &Vec<Door>, c: usize) -> (r: u8)
    requires
        c < 36,
    ensures
        r == spec_cell_bitmask(doors@, c as int),
{
    let cx: i32 = ((c % 6) * 32) as i32 + 15 + DUNGEON_ORIGIN_X;
    let cz: i32 = ((c / 6) * 32) as i32 + 15 + DUNGEON_ORIGIN_Z;
    let mut mask: u8 = 0;
    if has_door_at(doors, cx, cz - 16) {
        mask = mask + 8;
    }
    if has_door_at(doors, cx + 16, cz) {
        mask = mask + 4;
    }
    if has_door_at(doors, cx, cz + 16) {
        mask = mask + 2;
    }
    if has_door_at(doors, cx - 16, cz) {
        mask = mask + 1;
    }
    mask
}

fn special_type(id: usize) -> (r: RoomType)
    ensures
        r == spec_special_type(id),
{
    if id == 1 {
        RoomType::Entrance
    } else if id == 2 {
        RoomType::Fairy
    } else if id == 3 {
        RoomType::Blood
    } else if id == 4 {
        RoomType::Puzzle
    } else if id == 5 {
        RoomType::Trap
    } else {
        RoomType::Yellow
    }
}

/// Groups the cells of a layout into rooms.
pub fn group_rooms(ids: &Vec<usize>, doors: &Vec<Door>) -> (r: Vec<LayoutRoom>)
    requires
        ids.len() == 36,
    ensures
        room_views(r@) == spec_layout_rooms(ids@, doors@),
{
    let mut specials: Vec<LayoutRoom> = Vec::new();
    let mut normals: Vec<LayoutRoom> = Vec::new();
    let mut c: usize = 0;
    while c < 36
        invariant
            c <= 36,
            ids.len() == 36,
            (room_views(specials@), room_views(normals@)) == spec_groups_upto(
                ids@,
                doors@,
                c as int,
            ),
        decreases 36 - c,
    {
        let id = ids[c];
        let seg = (RoomSegment { x: c % 6, z: c / 6 }, cell_bitmask(doors, c));
        assert(seg == spec_cell_segment(doors@, c as int));
        let ghost g = spec_groups_upto(ids@, doors@, c as int);
        if id == 0 {
        } else if id <= 6 {
            let t = special_type(id);
            let shape = if t == RoomType::Fairy {
                RoomShape::OneByOne
            } else {
                RoomShape::OneByOneEnd
            };
            let mut segments: Vec<(RoomSegment, u8)> = Vec::new();
            segments.push(seg);
            let ghost before = specials@;
            specials.push(LayoutRoom { id, room_type: t, shape, segments });
            assert(room_views(specials@) == room_views(before).push(specials@.last()@));
            assert(segments@ == seq![seg]);
        } else {
            match find_group(&normals, id) {
                Some(k) => {
                    let mut room = normals.remove(k);
                    let ghost before = normals@;
                    room.segments.push(seg);
                    room.shape = RoomShape::Invalid;
                    room.room_type = RoomType::Normal;
                    normals.insert(k, room);
                    proof {
                        lemma_group_index(g.1, id);
                    }
                    assert(room_views(normals@) == g.1.update(
                        k as int,
                        LayoutRoomView {
                            id,
                            room_type: RoomType::Normal,
                            shape: RoomShape::Invalid,
                            segments: g.1[k as int].segments.push(seg),
                        },
                    ));
                },
                None => {
                    let mut segments: Vec<(RoomSegment, u8)> = Vec::new();
                    segments.push(seg);
                    let ghost before = normals@;
                    normals.push(
                        LayoutRoom {
                            id,
                            room_type: RoomType::Normal,
                            shape: RoomShape::Invalid,
                            segments,
                        },
                    );
                    assert(room_views(normals@) == room_views(before).push(normals@.last()@));
                    assert(segments@ == seq![seg]);
                },
            }
        }
        c = c + 1;
    }
    let ghost g = spec_groups_upto(ids@, doors@, 36);
    let mut i: usize = 0;
    while i < normals.len()
        invariant
            i <= normals.len(),
            normals.len() == g.1.len(),
            room_views(specials@) == g.0,
            forall|j: int| 0 <= j < i ==> #[trigger] room_views(normals@)[j] == with_shape(g.1[j]),
            forall|j: int| i <= j < normals.len() ==> #[trigger] room_views(normals@)[j] == g.1[j],
        decreases normals.len() - i,
    {
        let ghost old_n = normals@;
        let mut room = normals.remove(i);
        assert(room == old_n[i as int]);
        assert(room@ == room_views(old_n)[i as int]);
        room.shape = RoomShape::from_segments(&room.segments);
        normals.insert(i, room);
        assert(normals@ == old_n.update(i as int, room));
        assert forall|j: int| 0 <= j < normals.len() implies #[trigger] room_views(normals@)[j] == (
        if j == i {
            room@
        } else {
            room_views(old_n)[j]
        }) by {}
        i = i + 1;
    }
    let ghost nm = normals@;
    let mut result = specials;
    let ghost sp = result@;
    result.append(&mut normals);
    assert(result@ == sp + nm);
    let ghost want = spec_layout_rooms(ids@, doors@);
    assert(room_views(result@).len() == want.len());
    assert forall|j: int| 0 <= j < want.len() implies room_views(result@)[j] == want[j] by {
        if j < sp.len() {
            assert(room_views(result@)[j] == result@[j]@);
            assert(result@[j] == sp[j]);
            assert(room_views(sp)[j] == sp[j]@);
        } else {
            let k = j - sp.len();
            assert(result@[j] == nm[k]);
            assert(room_views(nm)[k] == nm[k]@);
        }
    }
    assert(room_views(result@) =~= want);
    result
}

} // verus!
