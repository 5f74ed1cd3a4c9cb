use vstd::prelude::*;

use vstd::string::StringSliceAdditionalSpecFns;

use crate::door::{Door, DoorType};
use crate::grid::{DUNGEON_ORIGIN_X, DUNGEON_ORIGIN_Z};
use crate::layout::{
    all_door_slots_present, door_positions_in_range, group_rooms, parse_cell_ids, parse_doors,
    room_views, spec_cell_ids, spec_first_id_error, spec_groups_upto, spec_layout_doors,
    spec_layout_rooms, with_shape, DungeonLayout, LayoutError, LayoutRoom, LayoutRoomView,
};
use crate::room::{RoomSegment, SEGMENT_LIMIT};
use crate::room_data::RoomType;

verus! {

/// Grid cell index of a segment.
pub open spec fn seg_cell(s: (RoomSegment, u8)) -> int {
    s.0.x + s.0.z * 6
}

/// Every segment of the rooms, as (room index, cell index), in room order and
/// then segment order.
pub open spec fn flat_cells(rooms: Seq<LayoutRoomView>) -> Seq<(int, int)>
    decreases rooms.len(),
{
    if rooms.len() == 0 {
        seq![]
    } else {
        let r: int = rooms.len() - 1;
        flat_cells(rooms.drop_last()) + rooms.last().segments.map_values(
            |s: (RoomSegment, u8)| (r, seg_cell(s)),
        )
    }
}

pub open spec fn rooms_bounded(rooms: Seq<LayoutRoomView>) -> bool {
    forall|r: int, s: int|
        0 <= r < rooms.len() && 0 <= s < rooms[r].segments.len() ==> #[trigger] rooms[r].segments[s].0.x
            <= SEGMENT_LIMIT && rooms[r].segments[s].0.z <= SEGMENT_LIMIT
}

/// The first segment, from position `k` of `f` on, that falls outside the
/// grid or on a cell already taken by an earlier segment.
pub open spec fn spec_first_grid_error(f: Seq<(int, int)>, k: int) -> Option<LayoutError>
    decreases f.len() - k,
{
    if k < 0 || k >= f.len() {
        None
    } else if f[k].1 >= 36 {
        Some(LayoutError::SegmentOutOfBounds)
    } else if exists|j: int| 0 <= j < k && f[j].1 == f[k].1 {
        Some(LayoutError::SegmentOccupied)
    } else {
        spec_first_grid_error(f, k + 1)
    }
}

/// The grid that the segments fill: each cell holds the room of the segment on it.
pub open spec fn spec_grid_cell(f: Seq<(int, int)>, c: int) -> Option<usize> {
    if exists|k: int| 0 <= k < f.len() && f[k].1 == c {
        Some(f[choose|k: int| 0 <= k < f.len() && f[k].1 == c].0 as usize)
    } else {
        None
    }
}

/// Lists every segment of the rooms with its room and grid cell.
pub fn flatten_cells(rooms: &Vec<LayoutRoom>) -> (r: Vec<(usize, usize)>)
    requires
        rooms_bounded(room_views(rooms@)),
    ensures
        r@.len() == flat_cells(room_views(rooms@)).len(),
        forall|k: int|
            0 <= k < r@.len() ==> (#[trigger] r@[k].0 as int, r@[k].1 as int) == flat_cells(
                room_views(rooms@),
            )[k],
{
    let ghost v = room_views(rooms@);
    let mut out: Vec<(usize, usize)> = Vec::new();
    let mut r: usize = 0;
    while r < rooms.len()
        invariant
            r <= rooms.len(),
            v == room_views(rooms@),
            rooms_bounded(v),
            out@.len() == flat_cells(v.take(r as int)).len(),
            forall|k: int|
                0 <= k < out@.len() ==> (#[trigger] out@[k].0 as int, out@[k].1 as int)
                    == flat_cells(v.take(r as int))[k],
        decreases rooms.len() - r,
    {
        let segments = &rooms[r].segments;
        assert(segments@ == v[r as int].segments);
        let ghost before = out@;
        let mut s: usize = 0;
        while s < segments.len()
            invariant
                s <= segments.len(),
                r < rooms.len(),
                segments@ == v[r as int].segments,
                v == room_views(rooms@),
                rooms_bounded(v),
                out@.len() == before.len() + s,
                forall|k: int| 0 <= k < before.len() ==> #[trigger] out@[k] == before[k],
                forall|k: int|
                    0 <= k < s ==> (#[trigger] out@[before.len() + k].0 as int, out@[before.len()
                        + k].1 as int) == (r as int, seg_cell(segments@[k])),
            decreases segments.len() - s,
        {
            let seg = segments[s].0;
            assert(seg.x <= SEGMENT_LIMIT && seg.z <= SEGMENT_LIMIT) by {
                assert(v[r as int].segments[s as int].0 == seg);
                assert(v[r as int].segments[s as int].0.x <= SEGMENT_LIMIT);
            }
            out.push((r, seg.x + seg.z * 6));
            s = s + 1;
        }
        proof {
            let vt = v.take(r + 1);
            assert(vt.drop_last() == v.take(r as int));
            assert(vt.last() == v[r as int]);
            let f = flat_cells(vt);
            assert forall|k: int| 0 <= k < out@.len() implies (#[trigger] out@[k].0 as int, out@[
                k].1 as int) == f[k] by {
                if k < before.len() {
                    assert(out@[k] == before[k]);
                } else {
                    let j = k - before.len();
                    assert(out@[before.len() + j] == out@[k]);
                }
            }
        }
        r = r + 1;
    }
    assert(v.take(rooms.len() as int) == v);
    out
}

/// Fills the 6x6 grid with the index of the room on each cell.
pub fn build_room_grid(rooms: &Vec<LayoutRoom>) -> (r: Result<Vec<Option<usize>>, LayoutError>)
    requires
        rooms_bounded(room_views(rooms@)),
    ensures
        match r {
            Ok(grid) => spec_first_grid_error(flat_cells(room_views(rooms@)), 0) is None
                && grid@.len() == 36 && forall|c: int|
                0 <= c < 36 ==> #[trigger] grid@[c] == spec_grid_cell(
                    flat_cells(room_views(rooms@)),
                    c,
                ),
            Err(e) => spec_first_grid_error(flat_cells(room_views(rooms@)), 0) == Some(e),
        },
{
    let cells = flatten_cells(rooms);
    let ghost f = flat_cells(room_views(rooms@));
    let mut grid: Vec<Option<usize>> = Vec::new();
    let mut c: usize = 0;
    while c < 36
        invariant
            c <= 36,
            grid@.len() == c,
            forall|i: int| 0 <= i < c ==> grid@[i] is None,
        decreases 36 - c,
    {
        grid.push(None);
        c = c + 1;
    }
    let mut k: usize = 0;
    while k < cells.len()
        invariant
            k <= cells.len(),
            cells@.len() == f.len(),
            f == flat_cells(room_views(rooms@)),
            forall|i: int|
                0 <= i < cells@.len() ==> (#[trigger] cells@[i].0 as int, cells@[i].1 as int)
                    == f[i],
            grid@.len() == 36,
            spec_first_grid_error(f, 0) == spec_first_grid_error(f, k as int),
            forall|i: int| 0 <= i < k ==> 0 <= #[trigger] f[i].1 < 36,
            forall|i: int, j: int| 0 <= i < j < k ==> #[trigger] f[i].1 != #[trigger] f[j].1,
            forall|c: int|
                0 <= c < 36 ==> #[trigger] grid@[c] == (if exists|i: int|
                    0 <= i < k && f[i].1 == c {
                    Some(f[choose|i: int| 0 <= i < k && f[i].1 == c].0 as usize)
                } else {
                    None
                }),
        decreases cells.len() - k,
    {
        let (room, cell) = cells[k];
        assert((room as int, cell as int) == f[k as int]);
        if cell >= 36 {
            assert(spec_first_grid_error(f, k as int) == Some(LayoutError::SegmentOutOfBounds));
            return Err(LayoutError::SegmentOutOfBounds);
        }
        if grid[cell].is_some() {
            proof {
                let i = choose|i: int| 0 <= i < k && f[i].1 == cell;
                assert(f[i].1 == f[k as int].1);
                assert(spec_first_grid_error(f, k as int) == Some(LayoutError::SegmentOccupied));
            }
            return Err(LayoutError::SegmentOccupied);
        }
        proof {
            assert(!(exists|j: int| 0 <= j < k && f[j].1 == f[k as int].1)) by {
                if exists|j: int| 0 <= j < k && f[j].1 == f[k as int].1 {
                    let j = choose|j: int| 0 <= j < k && f[j].1 == f[k as int].1;
                    assert(grid@[cell as int] is Some);
                }
            }
        }
        let ghost old_grid = grid@;
        grid.set(cell, Some(room));
        proof {
            assert forall|c: int| 0 <= c < 36 implies #[trigger] grid@[c] == (if exists|i: int|
                0 <= i < k + 1 && f[i].1 == c {
                Some(f[choose|i: int| 0 <= i < k + 1 && f[i].1 == c].0 as usize)
            } else {
                None
            }) by {
                if c == cell {
                    assert(f[k as int].1 == c);
                    let i = choose|i: int| 0 <= i < k + 1 && f[i].1 == c;
                    if i != k {
                        assert(f[i].1 != f[k as int].1);
                    }
                } else {
                    if exists|i: int| 0 <= i < k + 1 && f[i].1 == c {
                        let i = choose|i: int| 0 <= i < k + 1 && f[i].1 == c;
                        assert(i != k);
                        let i2 = choose|i: int| 0 <= i < k && f[i].1 == c;
                        assert(i == i2) by {
                            if i != i2 {
                                if i < i2 {
                                    assert(f[i].1 != f[i2].1);
                                } else {
                                    assert(f[i2].1 != f[i].1);
                                }
                            }
                        }
                    } else {
                        assert(!(exists|i: int| 0 <= i < k && f[i].1 == c));
                    }
                }
            }
        }
        k = k + 1;
    }
    proof {
        assert forall|c: int| 0 <= c < 36 implies #[trigger] grid@[c] == spec_grid_cell(f, c) by {}
    }
    Ok(grid)
}


// ---------------------------------------------------------------- whole layout

/// What parsing a layout string gives: its doors and rooms, or the first
/// problem found (doors are read before cells).
pub open spec fn spec_parse_layout(b: Seq<u8>, dp: Seq<(i32, i32)>) -> Result<
    (Seq<Door>, Seq<LayoutRoomView>),
    LayoutError,
> {
    if !all_door_slots_present(b, dp.len() as int) {
        Err(LayoutError::DoorType)
    } else if spec_first_id_error(b, 0) is Some {
        Err(spec_first_id_error(b, 0)->0)
    } else {
        let doors = spec_layout_doors(b, dp);
        Ok((doors, spec_layout_rooms(spec_cell_ids(b), doors)))
    }
}

/// Reads a layout string: 36 two-character cell numbers (0 for no room, 1 to 6
/// for the special rooms, larger numbers shared by the cells of one room),
/// then from byte 72 one character per candidate door position.
pub fn parse_layout(layout: &str, door_positions: &Vec<(i32, i32)>) -> (r: Result<
    DungeonLayout,
    LayoutError,
>)
    requires
        door_positions.len() + 73 <= usize::MAX,
        door_positions_in_range(door_positions@),
    ensures
        match r {
            Ok(l) => spec_parse_layout(layout.spec_bytes(), door_positions@) == Ok::<
                (Seq<Door>, Seq<LayoutRoomView>),
                LayoutError,
            >((l.doors@, room_views(l.rooms@))),
            Err(e) => spec_parse_layout(layout.spec_bytes(), door_positions@) == Err::<
                (Seq<Door>, Seq<LayoutRoomView>),
                LayoutError,
            >(e),
        },
{
    let doors = match parse_doors(layout, door_positions) {
        Ok(d) => d,
        Err(e) => {
            return Err(e);
        },
    };
    let ids = match parse_cell_ids(layout) {
        Ok(ids) => ids,
        Err(e) => {
            return Err(e);
        },
    };
    let rooms = group_rooms(&ids, &doors);
    Ok(DungeonLayout { doors, rooms })
}

pub open spec fn small_segments(rooms: Seq<LayoutRoomView>) -> bool {
    forall|r: int, s: int|
        0 <= r < rooms.len() && 0 <= s < rooms[r].segments.len() ==> #[trigger] rooms[r].segments[s].0.x
            < 6 && rooms[r].segments[s].0.z < 6
}

proof fn lemma_groups_small(ids: Seq<usize>, doors: Seq<Door>, n: int)
    requires
        n <= 36,
    ensures
        small_segments(spec_groups_upto(ids, doors, n).0),
        small_segments(spec_groups_upto(ids, doors, n).1),
    decreases n,
{
    if n > 0 {
        lemma_groups_small(ids, doors, n - 1);
        let prev = spec_groups_upto(ids, doors, n - 1);
        let g = spec_groups_upto(ids, doors, n);
        let c: int = n - 1;
        assert(c % 6 < 6 && c / 6 < 6);
        assert forall|r: int, s: int|
            0 <= r < g.1.len() && 0 <= s < g.1[r].segments.len() implies #[trigger] g.1[r].segments[s].0.x
            < 6 && g.1[r].segments[s].0.z < 6 by {
            let id = ids[c];
            if id != 0 && id > 6 {
                let k = crate::layout::group_index(prev.1, id);
                crate::layout::lemma_group_index(prev.1, id);
                if k >= 0 && r == k {
                    if s < prev.1[r].segments.len() {
                        assert(g.1[r].segments[s] == prev.1[r].segments[s]);
                        assert(prev.1[r].segments[s].0.x < 6);
                    }
                } else if r < prev.1.len() {
                    assert(g.1[r] == prev.1[r]);
                    assert(prev.1[r].segments[s].0.x < 6);
                }
            } else {
                assert(g.1 == prev.1);
                assert(prev.1[r].segments[s].0.x < 6);
            }
        }
        assert forall|r: int, s: int|
            0 <= r < g.0.len() && 0 <= s < g.0[r].segments.len() implies #[trigger] g.0[r].segments[s].0.x
            < 6 && g.0[r].segments[s].0.z < 6 by {
            if r < prev.0.len() {
                assert(prev.0[r].segments[s].0.x < 6);
            }
        }
    }
}

proof fn lemma_layout_rooms_small(ids: Seq<usize>, doors: Seq<Door>)
    ensures
        small_segments(spec_layout_rooms(ids, doors)),
{
    lemma_groups_small(ids, doors, 36);
    let g = spec_groups_upto(ids, doors, 36);
    let all = spec_layout_rooms(ids, doors);
    assert forall|r: int, s: int|
        0 <= r < all.len() && 0 <= s < all[r].segments.len() implies #[trigger] all[r].segments[s].0.x
        < 6 && all[r].segments[s].0.z < 6 by {
        if r < g.0.len() {
            assert(all[r] == g.0[r]);
            assert(g.0[r].segments[s].0.x < 6);
        } else {
            assert(all[r] == with_shape(g.1[r - g.0.len()]));
            assert(g.1[r - g.0.len()].segments[s].0.x < 6);
        }
    }
}

// ---------------------------------------------------------------- neighbours

/// The room behind one door of a room's cell, and that door's index.
#[derive(Clone, Copy, Debug, PartialEq, Eq, Structural)]
pub struct RoomNeighbour {
    pub room: usize,
    pub door: usize,
}

/// The neighbours of one grid cell, through its north, east, south and west doors.
#[derive(Clone, Copy, Debug, PartialEq, Eq, Structural)]
pub struct CellLinks {
    pub north: Option<RoomNeighbour>,
    pub east: Option<RoomNeighbour>,
    pub south: Option<RoomNeighbour>,
    pub west: Option<RoomNeighbour>,
}

/// Index of the first door at column `(x, z)`, or -1.
pub open spec fn spec_door_index(doors: Seq<Door>, x: int, z: int) -> int
    decreases doors.len(),
{
    if doors.len() == 0 {
        -1
    } else if spec_door_index(doors.drop_last(), x, z) >= 0 {
        spec_door_index(doors.drop_last(), x, z)
    } else if doors.last().x == x && doors.last().z == z {
        doors.len() - 1
    } else {
        -1
    }
}

/// Column of the door on side `d` (0 north, 1 east, 2 south, 3 west) of cell `c`.
pub open spec fn spec_side_door(c: int, d: int) -> (int, int) {
    let cx: int = (c % 6) * 32 + 15 + DUNGEON_ORIGIN_X;
    let cz: int = (c / 6) * 32 + 15 + DUNGEON_ORIGIN_Z;
    if d == 0 {
        (cx, cz - 16)
    } else if d == 1 {
        (cx + 16, cz)
    } else if d == 2 {
        (cx, cz + 16)
    } else {
        (cx - 16, cz)
    }
}

/// Cell on side `d` of cell `c`, computed as the grid does it from the row
/// and column: one row up or down, one column west or east. East of the
/// last column this is `(x + 1) + z * 6`, the first cell of the next row, as
/// the dungeon's own index arithmetic gives it; -1 where the computation
/// would leave the natural numbers (north of the first row, west of the
/// first column).
pub open spec fn spec_side_cell(c: int, d: int) -> int {
    let x: int = c % 6;
    let z: int = c / 6;
    if d == 0 {
        if z == 0 { -1 } else { x + (z - 1) * 6 }
    } else if d == 1 {
        (x + 1) + z * 6
    } else if d == 2 {
        x + (z + 1) * 6
    } else {
        if x == 0 { -1 } else { (x - 1) + z * 6 }
    }
}

/// The neighbour through side `d` of cell `c`: `Some(None)` if there is no door
/// there, `Some(Some(n))` if the door leads to a room, `None` if it leads to no room.
pub open spec fn spec_side_link(grid: Seq<Option<usize>>, doors: Seq<Door>, c: int, d: int) -> Option<
    Option<RoomNeighbour>,
> {
    let p = spec_side_door(c, d);
    let k = spec_door_index(doors, p.0, p.1);
    if k < 0 {
        Some(None)
    } else {
        let n = spec_side_cell(c, d);
        if 0 <= n < 36 && grid[n] is Some {
            Some(Some(RoomNeighbour { room: grid[n]->0, door: k as usize }))
        } else {
            None
        }
    }
}

pub open spec fn links_resolvable(grid: Seq<Option<usize>>, doors: Seq<Door>) -> bool {
    forall|c: int, d: int|
        0 <= c < 36 && 0 <= d < 4 && grid[c] is Some ==> #[trigger] spec_side_link(grid, doors, c, d)
            is Some
}

pub open spec fn spec_cell_links(grid: Seq<Option<usize>>, doors: Seq<Door>, c: int) -> CellLinks {
    if grid[c] is Some {
        CellLinks {
            north: spec_side_link(grid, doors, c, 0)->0,
            east: spec_side_link(grid, doors, c, 1)->0,
            south: spec_side_link(grid, doors, c, 2)->0,
            west: spec_side_link(grid, doors, c, 3)->0,
        }
    } else {
        CellLinks { north: None, east: None, south: None, west: None }
    }
}

proof fn lemma_door_index(doors: Seq<Door>, x: int, z: int)
    ensures
        spec_door_index(doors, x, z) >= 0 ==> spec_door_index(doors, x, z) < doors.len()
            && doors[spec_door_index(doors, x, z)].x == x && doors[spec_door_index(
            doors,
            x,
            z,
        )].z == z && forall|j: int|
            0 <= j < spec_door_index(doors, x, z) ==> !(doors[j].x == x && doors[j].z == z),
        spec_door_index(doors, x, z) < 0 ==> spec_door_index(doors, x, z) == -1 && forall|j: int|
            0 <= j < doors.len() ==> !(doors[j].x == x && doors[j].z == z),
    decreases doors.len(),
{
    if doors.len() > 0 {
        let t = doors.drop_last();
        lemma_door_index(t, x, z);
        assert forall|j: int| 0 <= j < t.len() implies t[j] == doors[j] by {}
    }
}

proof fn lemma_door_index_first(doors: Seq<Door>, x: int, z: int, k: int)
    requires
        0 <= k < doors.len(),
        doors[k].x == x && doors[k].z == z,
        forall|j: int| 0 <= j < k ==> !(doors[j].x == x && doors[j].z == z),
    ensures
        spec_door_index(doors, x, z) == k,
    decreases doors.len(),
{
    lemma_door_index(doors, x, z);
    let t = doors.drop_last();
    if k < doors.len() - 1 {
        assert(t[k] == doors[k]);
        lemma_door_index_first(t, x, z, k);
    } else {
        lemma_door_index(t, x, z);
        if spec_door_index(t, x, z) >= 0 {
            assert(t[spec_door_index(t, x, z)] == doors[spec_door_index(t, x, z)]);
        }
    }
}

fn door_index(doors: &Vec<Door>, x: i32, z: i32) -> (r: Option<usize>)
    ensures
        match r {
            Some(k) => k as int == spec_door_index(doors@, x as int, z as int),
            None => spec_door_index(doors@, x as int, z as int) == -1,
        },
{
    let mut k: usize = 0;
    while k < doors.len()
        invariant
            k <= doors.len(),
            forall|j: int| 0 <= j < k ==> !(doors@[j].x == x && doors@[j].z == z),
        decreases doors.len() - k,
    {
        if doors[k].x == x && doors[k].z == z {
            proof {
                lemma_door_index_first(doors@, x as int, z as int, k as int);
            }
            return Some(k);
        }
        k = k + 1;
    }
    proof {
        lemma_door_index(doors@, x as int, z as int);
        if spec_door_index(doors@, x as int, z as int) >= 0 {
            let i = spec_door_index(doors@, x as int, z as int);
            assert(!(doors@[i].x == x && doors@[i].z == z));
        }
    }
    None
}

fn side_link(grid: &Vec<Option<usize>>, doors: &Vec<Door>, c: usize, d: usize) -> (r: Option<
    Option<RoomNeighbour>,
>)
    requires
        grid.len() == 36,
        c < 36,
        d < 4,
    ensures
        r == spec_side_link(grid@, doors@, c as int, d as int),
{
    let x: usize = c % 6;
    let z: usize = c / 6;
    let cx: i32 = (x * 32) as i32 + 15 + DUNGEON_ORIGIN_X;
    let cz: i32 = (z * 32) as i32 + 15 + DUNGEON_ORIGIN_Z;
    let (px, pz): (i32, i32) = if d == 0 {
        (cx, cz - 16)
    } else if d == 1 {
        (cx + 16, cz)
    } else if d == 2 {
        (cx, cz + 16)
    } else {
        (cx - 16, cz)
    };
    let k = match door_index(doors, px, pz) {
        None => {
            return Some(None);
        },
        Some(k) => k,
    };
    let n: Option<usize> = if d == 0 {
        if z == 0 { None } else { Some(x + (z - 1) * 6) }
    } else if d == 1 {
        Some((x + 1) + z * 6)
    } else if d == 2 {
        Some(x + (z + 1) * 6)
    } else {
        if x == 0 { None } else { Some((x - 1) + z * 6) }
    };
    match n {
        Some(n) => {
            if n < 36 {
                match grid[n] {
                    Some(room) => Some(Some(RoomNeighbour { room, door: k })),
                    None => None,
                }
            } else {
                None
            }
        },
        None => None,
    }
}

/// Links every occupied cell to the rooms behind its doors; fails if a door
/// of an occupied cell leads to no room.
pub fn resolve_links(grid: &Vec<Option<usize>>, doors: &Vec<Door>) -> (r: Result<
    Vec<CellLinks>,
    LayoutError,
>)
    requires
        grid.len() == 36,
    ensures
        match r {
            Ok(links) => links_resolvable(grid@, doors@) && links@.len() == 36 && forall|c: int|
                0 <= c < 36 ==> #[trigger] links@[c] == spec_cell_links(grid@, doors@, c),
            Err(e) => e == LayoutError::UnresolvedNeighbour && !links_resolvable(grid@, doors@),
        },
{
    let mut links: Vec<CellLinks> = Vec::new();
    let mut c: usize = 0;
    while c < 36
        invariant
            c <= 36,
            grid.len() == 36,
            links@.len() == c,
            forall|i: int| 0 <= i < c ==> #[trigger] links@[i] == spec_cell_links(grid@, doors@, i),
            forall|i: int, d: int|
                0 <= i < c && 0 <= d < 4 && grid@[i] is Some ==> #[trigger] spec_side_link(
                    grid@,
                    doors@,
                    i,
                    d,
                ) is Some,
        decreases 36 - c,
    {
        if grid[c].is_none() {
            links.push(CellLinks { north: None, east: None, south: None, west: None });
        } else {
            let north = side_link(grid, doors, c, 0);
            let east = side_link(grid, doors, c, 1);
            let south = side_link(grid, doors, c, 2);
            let west = side_link(grid, doors, c, 3);
            if north.is_none() || east.is_none() || south.is_none() || west.is_none() {
                return Err(LayoutError::UnresolvedNeighbour);
            }
            links.push(
                CellLinks {
                    north: north.unwrap(),
                    east: east.unwrap(),
                    south: south.unwrap(),
                    west: west.unwrap(),
                },
            );
            proof {
                assert forall|d: int| 0 <= d < 4 implies #[trigger] spec_side_link(
                    grid@,
                    doors@,
                    c as int,
                    d,
                ) is Some by {
                    if d == 0 {
                    } else if d == 1 {
                    } else if d == 2 {
                    } else {
                    }
                }
            }
        }
        c = c + 1;
    }
    Ok(links)
}

// ---------------------------------------------------------------- dungeon

/// Progress of a run: waiting for players, counting down, or running.
#[derive(Clone, Copy, Debug, PartialEq, Eq, Structural)]
pub enum DungeonState {
    NotStarted,
    Starting { starts_in_ticks: usize },
    Started { ticks: usize },
}

/// A dungeon built from a layout string.
#[derive(Clone, Debug)]
pub struct Dungeon {
    pub rooms: Vec<LayoutRoom>,
    pub doors: Vec<Door>,
    /// The rooms behind the doors of each grid cell.
    pub links: Vec<CellLinks>,
    /// The room on each grid cell.
    pub room_index_grid: Vec<Option<usize>>,
    pub entrance_room_index: usize,
    pub state: DungeonState,
    pub map_offset_x: usize,
    pub map_offset_y: usize,
    pub blood_key_count: usize,
    pub wither_key_count: usize,
}

/// Index of the last entrance room, 0 if there is none.
pub open spec fn spec_entrance_index(rooms: Seq<LayoutRoomView>) -> int
    decreases rooms.len(),
{
    if rooms.len() == 0 {
        0
    } else if rooms.last().room_type == RoomType::Entrance {
        rooms.len() - 1
    } else {
        spec_entrance_index(rooms.drop_last())
    }
}

/// Number of wither doors.
pub open spec fn spec_wither_doors(doors: Seq<Door>) -> nat
    decreases doors.len(),
{
    if doors.len() == 0 {
        0
    } else {
        spec_wither_doors(doors.drop_last()) + if doors.last().door_type == DoorType::Wither {
            1nat
        } else {
            0nat
        }
    }
}

/// Largest column (`axis` 0) or row (`axis` 1) of an occupied cell, 0 if none.
pub open spec fn spec_grid_max(grid: Seq<Option<usize>>, axis: int, n: int) -> int
    decreases n,
{
    if n <= 0 {
        0
    } else {
        let prev = spec_grid_max(grid, axis, n - 1);
        let c: int = n - 1;
        let v: int = if axis == 0 { c % 6 } else { c / 6 };
        if grid[c] is Some && v > prev { v } else { prev }
    }
}

/// Offset that centres a grid spanning `max + 1` cells of 20 pixels on a 128-pixel map.
pub open spec fn spec_map_offset(max: int) -> int {
    (128 - (max + 1) * 20) / 2
}

impl Dungeon {
    /// Builds a dungeon from a layout string: reads its doors and rooms, places
    /// the rooms on the grid and links each room's doors to its neighbours.
    pub fn from_string(layout: &str, door_positions: &Vec<(i32, i32)>) -> (r: Result<
        Dungeon,
        LayoutError,
    >)
        requires
            door_positions.len() + 73 <= usize::MAX,
            door_positions_in_range(door_positions@),
        ensures
            match spec_parse_layout(layout.spec_bytes(), door_positions@) {
                Err(e) => r == Err::<Dungeon, LayoutError>(e),
                Ok(parsed) => {
                    let f = flat_cells(parsed.1);
                    let grid = Seq::new(36, |c: int| spec_grid_cell(f, c));
                    if spec_first_grid_error(f, 0) is Some {
                        r == Err::<Dungeon, LayoutError>(spec_first_grid_error(f, 0)->0)
                    } else if !links_resolvable(grid, parsed.0) {
                        r == Err::<Dungeon, LayoutError>(LayoutError::UnresolvedNeighbour)
                    } else {
                        &&& r is Ok
                        &&& room_views(r->Ok_0.rooms@) == parsed.1
                        &&& r->Ok_0.doors@ == parsed.0
                        &&& r->Ok_0.room_index_grid@ == grid
                        &&& r->Ok_0.links@ == Seq::new(
                            36,
                            |c: int| spec_cell_links(grid, parsed.0, c),
                        )
                        &&& r->Ok_0.entrance_room_index == spec_entrance_index(parsed.1)
                        &&& r->Ok_0.state == DungeonState::NotStarted
                        &&& r->Ok_0.wither_key_count == spec_wither_doors(parsed.0)
                        &&& r->Ok_0.blood_key_count == 1
                        &&& r->Ok_0.map_offset_x == spec_map_offset(spec_grid_max(grid, 0, 36))
                        &&& r->Ok_0.map_offset_y == spec_map_offset(spec_grid_max(grid, 1, 36))
                    }
                },
            },
    {
        let parsed = match parse_layout(layout, door_positions) {
            Ok(p) => p,
            Err(e) => {
                return Err(e);
            },
        };
        let DungeonLayout { doors, rooms } = parsed;
        proof {
            lemma_layout_rooms_small(
                spec_cell_ids(layout.spec_bytes()),
                spec_layout_doors(layout.spec_bytes(), door_positions@),
            );
        }
        let grid = match build_room_grid(&rooms) {
            Ok(g) => g,
            Err(e) => {
                return Err(e);
            },
        };
        let ghost f = flat_cells(room_views(rooms@));
        assert(grid@ == Seq::new(36, |c: int| spec_grid_cell(f, c)));
        let links = match resolve_links(&grid, &doors) {
            Ok(l) => l,
            Err(e) => {
                return Err(e);
            },
        };
        assert(links@ == Seq::new(36, |c: int| spec_cell_links(grid@, doors@, c)));
        let entrance_room_index = entrance_index(&rooms);
        let wither_key_count = count_wither_doors(&doors);
        let max_x = grid_max(&grid, 0);
        let max_z = grid_max(&grid, 1);
        Ok(
            Dungeon {
                rooms,
                doors,
                links,
                room_index_grid: grid,
                entrance_room_index,
                state: DungeonState::NotStarted,
                map_offset_x: (128 - (max_x + 1) * 20) / 2,
                map_offset_y: (128 - (max_z + 1) * 20) / 2,
                blood_key_count: 1,
                wither_key_count,
            },
        )
    }

    /// The entrance room.
    pub fn entrance_room(&self) -> (r: &LayoutRoom)
        requires
            self.entrance_room_index < self.rooms@.len(),
        ensures
            *r == self.rooms@[self.entrance_room_index as int],
    {
        &self.rooms[self.entrance_room_index]
    }

    pub fn has_started(&self) -> (r: bool)
        ensures
            r == self.state is Started,
    {
        match self.state {
            DungeonState::Started { .. } => true,
            _ => false,
        }
    }
}

fn entrance_index(rooms: &Vec<LayoutRoom>) -> (r: usize)
    ensures
        r as int == spec_entrance_index(room_views(rooms@)),
{
    let ghost v = room_views(rooms@);
    let mut index: usize = 0;
    let mut i: usize = 0;
    while i < rooms.len()
        invariant
            i <= rooms.len(),
            v == room_views(rooms@),
            index as int == spec_entrance_index(v.take(i as int)),
        decreases rooms.len() - i,
    {
        assert(v.take(i + 1).drop_last() == v.take(i as int));
        assert(v.take(i + 1).last() == rooms@[i as int]@);
        if rooms[i].room_type == RoomType::Entrance {
            index = i;
        }
        i = i + 1;
    }
    assert(v.take(rooms.len() as int) == v);
    index
}

fn count_wither_doors(doors: &Vec<Door>) -> (r: usize)
    ensures
        r as nat == spec_wither_doors(doors@),
{
    let mut count: usize = 0;
    let mut i: usize = 0;
    while i < doors.len()
        invariant
            i <= doors.len(),
            count as nat == spec_wither_doors(doors@.take(i as int)),
            count <= i,
        decreases doors.len() - i,
    {
        assert(doors@.take(i + 1).drop_last() == doors@.take(i as int));
        if doors[i].door_type == DoorType::Wither {
            count = count + 1;
        }
        i = i + 1;
    }
    assert(doors@.take(doors.len() as int) == doors@);
    count
}

fn grid_max(grid: &Vec<Option<usize>>, axis: usize) -> (r: usize)
    requires
        grid.len() == 36,
    ensures
        r as int == spec_grid_max(grid@, axis as int, 36),
        r < 6,
{
    let mut best: usize = 0;
    let mut c: usize = 0;
    while c < 36
        invariant
            c <= 36,
            grid.len() == 36,
            best as int == spec_grid_max(grid@, axis as int, c as int),
            best < 6,
        decreases 36 - c,
    {
        let v: usize = if axis == 0 { c % 6 } else { c / 6 };
        if grid[c].is_some() && v > best {
            best = v;
        }
        c = c + 1;
    }
    best
}

} // verus!
