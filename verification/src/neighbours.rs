use vstd::prelude::*;

use crate::door::{door_coords_fit, spec_can_open, spec_door_opening, Door, DoorOpening, DoorType};
use crate::dungeon::{CellLinks, Dungeon, RoomNeighbour};
use crate::geometry::BlockPos;
use crate::room::RoomSegment;

verus! {

pub open spec fn opt_seq(o: Option<RoomNeighbour>) -> Seq<RoomNeighbour> {
    match o {
        Some(n) => seq![n],
        None => seq![],
    }
}

/// The neighbours of a cell, north, east, south then west.
pub open spec fn cell_neighbours(l: CellLinks) -> Seq<RoomNeighbour> {
    opt_seq(l.north) + opt_seq(l.east) + opt_seq(l.south) + opt_seq(l.west)
}

pub open spec fn cell_of(s: (RoomSegment, u8)) -> int {
    s.0.x + s.0.z * 6
}

/// The neighbours of the first `n` segments of a room, segment by segment.
pub open spec fn spec_room_neighbours(links: Seq<CellLinks>, segments: Seq<(RoomSegment, u8)>, n: nat) -> Seq<
    RoomNeighbour,
>
    decreases n,
{
    if n == 0 {
        seq![]
    } else {
        spec_room_neighbours(links, segments, (n - 1) as nat) + cell_neighbours(
            links[cell_of(segments[n - 1])],
        )
    }
}

/// The segments of room `room` lie on the grid.
pub open spec fn room_on_grid(d: Dungeon, room: int) -> bool {
    &&& 0 <= room < d.rooms@.len()
    &&& d.links@.len() == 36
    &&& forall|k: int|
        0 <= k < d.rooms@[room].segments@.len() ==> (#[trigger] d.rooms@[room].segments@[k]).0.x < 6
            && d.rooms@[room].segments@[k].0.z < 6
}

pub open spec fn neighbours_of(d: Dungeon, room: int) -> Seq<RoomNeighbour> {
    spec_room_neighbours(d.links@, d.rooms@[room].segments@, d.rooms@[room].segments@.len())
}

/// Every door that the room's neighbours name exists, and lies far enough
/// inside the coordinates for the blocks around it.
pub open spec fn neighbour_doors_exist(d: Dungeon, room: int) -> bool {
    forall|k: int|
        0 <= k < neighbours_of(d, room).len() ==> #[trigger] neighbours_of(d, room)[k].door < d.doors@.len()
            && door_coords_fit(d.doors@[neighbours_of(d, room)[k].door as int])
}

/// What the world sees of the doors of these neighbours opening, in turn.
pub open spec fn neighbour_openings(doors: Seq<Door>, nbs: Seq<RoomNeighbour>) -> Seq<DoorOpening> {
    nbs.map_values(|n: RoomNeighbour| spec_door_opening(doors[n.door as int]))
}

pub open spec fn door_contains(door: Door, p: BlockPos) -> bool {
    door.x - 1 <= p.x <= door.x + 1 && 69 <= p.y <= 72 && door.z - 1 <= p.z <= door.z + 1
}

/// Trying the room's doors from neighbour `i` on for one at `p` to open:
/// doors elsewhere and open doors are passed over, a closed door without its
/// key is passed over with a "no key" message, and the first that can be
/// opened is. Gives the neighbour whose door opens, if any, and the number of
/// messages.
pub open spec fn spec_try_open(
    doors: Seq<Door>,
    wither_keys: usize,
    blood_keys: usize,
    nbs: Seq<RoomNeighbour>,
    p: BlockPos,
    i: int,
) -> (Option<RoomNeighbour>, nat)
    decreases nbs.len() - i,
{
    if i < 0 || i >= nbs.len() {
        (None, 0)
    } else {
        let door = doors[nbs[i].door as int];
        if !door_contains(door, p) || door.is_open {
            spec_try_open(doors, wither_keys, blood_keys, nbs, p, i + 1)
        } else if !spec_can_open(door, wither_keys, blood_keys) {
            let rest = spec_try_open(doors, wither_keys, blood_keys, nbs, p, i + 1);
            (rest.0, rest.1 + 1)
        } else {
            (Some(nbs[i]), 0)
        }
    }
}

pub open spec fn key_use(t: DoorType, kind: DoorType) -> int {
    if t == kind {
        1
    } else {
        0
    }
}

/// Opening the doors of neighbours `i` on, one after the other, each using
/// its key: the doors and keys after, or `None` if some door cannot be opened
/// when its turn comes.
pub open spec fn spec_open_all(
    doors: Seq<Door>,
    wither_keys: usize,
    blood_keys: usize,
    nbs: Seq<RoomNeighbour>,
    i: int,
) -> Option<(Seq<Door>, usize, usize)>
    decreases nbs.len() - i,
{
    if i < 0 || i >= nbs.len() {
        Some((doors, wither_keys, blood_keys))
    } else {
        let d = doors[nbs[i].door as int];
        if !spec_can_open(d, wither_keys, blood_keys) {
            None
        } else {
            spec_open_all(
                doors.update(nbs[i].door as int, Door { is_open: true, ..d }),
                (wither_keys - key_use(d.door_type, DoorType::Wither)) as usize,
                (blood_keys - key_use(d.door_type, DoorType::Blood)) as usize,
                nbs,
                i + 1,
            )
        }
    }
}

pub open spec fn neighbour_rooms(nbs: Seq<RoomNeighbour>) -> Seq<usize> {
    nbs.map_values(|n: RoomNeighbour| n.room)
}

/// Opening the doors of a room's neighbours in turn leaves every one of them
/// open, and leaves open every door that already was: once the run has
/// started, all the doors of the entrance room are open.
pub proof fn lemma_open_all_opens_every_door(
    doors: Seq<Door>,
    wither_keys: usize,
    blood_keys: usize,
    nbs: Seq<RoomNeighbour>,
    i: int,
)
    requires
        0 <= i <= nbs.len(),
        forall|k: int| 0 <= k < nbs.len() ==> #[trigger] nbs[k].door < doors.len(),
        spec_open_all(doors, wither_keys, blood_keys, nbs, i) is Some,
    ensures
        ({
            let d = (spec_open_all(doors, wither_keys, blood_keys, nbs, i)->0).0;
            &&& d.len() == doors.len()
            &&& forall|j: int| 0 <= j < doors.len() && doors[j].is_open ==> #[trigger] d[j].is_open
            &&& forall|k: int| i <= k < nbs.len() ==> #[trigger] d[nbs[k].door as int].is_open
        }),
    decreases nbs.len() - i,
{
    if i < nbs.len() {
        let d0 = doors[nbs[i].door as int];
        let next = doors.update(nbs[i].door as int, Door { is_open: true, ..d0 });
        lemma_open_all_opens_every_door(
            next,
            (wither_keys - key_use(d0.door_type, DoorType::Wither)) as usize,
            (blood_keys - key_use(d0.door_type, DoorType::Blood)) as usize,
            nbs,
            i + 1,
        );
        let d = (spec_open_all(doors, wither_keys, blood_keys, nbs, i)->0).0;
        assert(next[nbs[i].door as int].is_open);
        assert forall|j: int| 0 <= j < doors.len() && doors[j].is_open implies #[trigger] d[j].is_open by {
            assert(next[j].is_open);
        }
        assert forall|k: int| i <= k < nbs.len() implies #[trigger] d[nbs[k].door as int].is_open by {
            if k == i {
                assert(next[nbs[i].door as int].is_open);
            }
        }
    }
}

impl Dungeon {
    /// The neighbours of a room: for each of its segments in order, the rooms
    /// behind its north, east, south and west doors.
    pub fn neighbours(&self, room: usize) -> (r: Vec<RoomNeighbour>)
        requires
            room_on_grid(*self, room as int),
        ensures
            r@ == neighbours_of(*self, room as int),
    {
        let segments = &self.rooms[room].segments;
        let ghost segs = segments@;
        let ghost links = self.links@;
        assert(forall|k: int| 0 <= k < segs.len() ==> (#[trigger] segs[k]).0.x < 6 && segs[k].0.z < 6) by {
            assert forall|k: int| 0 <= k < segs.len() implies (#[trigger] segs[k]).0.x < 6 && segs[k].0.z < 6 by {
                assert(self.rooms@[room as int].segments@[k] == segs[k]);
            }
        }
        let mut r: Vec<RoomNeighbour> = Vec::new();
        let mut i: usize = 0;
        while i < segments.len()
            invariant
                segs == segments@,
                links == self.links@,
                links.len() == 36,
                forall|k: int| 0 <= k < segs.len() ==> (#[trigger] segs[k]).0.x < 6 && segs[k].0.z < 6,
                i <= segs.len(),
                r@ == spec_room_neighbours(links, segs, i as nat),
            decreases segs.len() - i,
        {
            let s = segments[i].0;
            assert(segs[i as int].0 == s);
            let l = self.links[s.x + s.z * 6];
            let ghost before = r@;
            if let Some(n) = l.north {
                r.push(n);
            }
            if let Some(n) = l.east {
                r.push(n);
            }
            if let Some(n) = l.south {
                r.push(n);
            }
            if let Some(n) = l.west {
                r.push(n);
            }
            assert(r@ =~= before + cell_neighbours(l));
            i = i + 1;
        }
        r
    }

    /// A player used a block at `p` in room `room`: the first of the room's
    /// doors there that is closed and can be opened is opened, using its key;
    /// every closed door there passed over for want of a key earns a "no key"
    /// message. Gives the neighbour through the opened door (its room is now
    /// discovered), if any, the number of messages, and what the world sees of
    /// the door opening.
    pub fn try_open_door(&mut self, room: usize, p: BlockPos) -> (r: (Option<RoomNeighbour>, usize, Option<DoorOpening>))
        requires
            room_on_grid(*old(self), room as int),
            neighbour_doors_exist(*old(self), room as int),
        ensures
            ({
                let nbs = neighbours_of(*old(self), room as int);
                let t = spec_try_open(
                    old(self).doors@,
                    old(self).wither_key_count,
                    old(self).blood_key_count,
                    nbs,
                    p,
                    0,
                );
                &&& r.0 == t.0
                &&& r.1 == t.1
                &&& r.2 == match t.0 {
                    Some(nb) => Some(spec_door_opening(old(self).doors@[nb.door as int])),
                    None => None,
                }
                &&& match t.0 {
                    Some(nb) => {
                        let door = old(self).doors@[nb.door as int];
                        &&& final(self).doors@ == old(self).doors@.update(
                            nb.door as int,
                            Door { is_open: true, ..door },
                        )
                        &&& final(self).wither_key_count == old(self).wither_key_count - key_use(
                            door.door_type,
                            DoorType::Wither,
                        )
                        &&& final(self).blood_key_count == old(self).blood_key_count - key_use(
                            door.door_type,
                            DoorType::Blood,
                        )
                    },
                    None => {
                        &&& final(self).doors@ == old(self).doors@
                        &&& final(self).wither_key_count == old(self).wither_key_count
                        &&& final(self).blood_key_count == old(self).blood_key_count
                    },
                }
            }),
            final(self).rooms@ == old(self).rooms@,
            final(self).links@ == old(self).links@,
            final(self).room_index_grid@ == old(self).room_index_grid@,
            final(self).entrance_room_index == old(self).entrance_room_index,
            final(self).state == old(self).state,
            final(self).map_offset_x == old(self).map_offset_x,
            final(self).map_offset_y == old(self).map_offset_y,
    {
        let nbs = self.neighbours(room);
        let ghost doors0 = self.doors@;
        let ghost wk = self.wither_key_count;
        let ghost bk = self.blood_key_count;
        let mut messages: usize = 0;
        let mut i: usize = 0;
        while i < nbs.len()
            invariant
                *self == *old(self),
                doors0 == old(self).doors@,
                wk == old(self).wither_key_count,
                bk == old(self).blood_key_count,
                nbs@ == neighbours_of(*old(self), room as int),
                neighbour_doors_exist(*old(self), room as int),
                i <= nbs@.len(),
                messages <= i,
                spec_try_open(doors0, wk, bk, nbs@, p, 0).0 == spec_try_open(doors0, wk, bk, nbs@, p, i as int).0,
                spec_try_open(doors0, wk, bk, nbs@, p, 0).1 == spec_try_open(doors0, wk, bk, nbs@, p, i as int).1
                    + messages,
            decreases nbs@.len() - i,
        {
            let nb = nbs[i];
            assert(nb.door < self.doors@.len());
            let door = self.doors[nb.door];
            if !door.contains(p) || door.is_open {
                i = i + 1;
                continue;
            }
            if !door.can_open(self) {
                messages = messages + 1;
                i = i + 1;
                continue;
            }
            let mut opened = door;
            let opening = opened.open(self);
            self.doors.set(nb.door, opened);
            proof {
                assert(self.doors@ =~= old(self).doors@.update(nb.door as int, Door { is_open: true, ..door }));
            }
            return (Some(nb), messages, Some(opening));
        }
        (None, messages, None)
    }

    /// Starts the run's rooms: every door of the entrance room is opened in
    /// turn (using keys as it goes), and the rooms behind them are discovered.
    /// Gives those rooms, neighbour by neighbour, and what the world sees of
    /// each door opening.
    pub fn start_dungeon(&mut self) -> (r: (Vec<usize>, Vec<DoorOpening>))
        requires
            room_on_grid(*old(self), old(self).entrance_room_index as int),
            neighbour_doors_exist(*old(self), old(self).entrance_room_index as int),
            spec_open_all(
                old(self).doors@,
                old(self).wither_key_count,
                old(self).blood_key_count,
                neighbours_of(*old(self), old(self).entrance_room_index as int),
                0,
            ) is Some,
        ensures
            ({
                let after = spec_open_all(
                    old(self).doors@,
                    old(self).wither_key_count,
                    old(self).blood_key_count,
                    neighbours_of(*old(self), old(self).entrance_room_index as int),
                    0,
                )->0;
                &&& final(self).doors@ == after.0
                &&& final(self).wither_key_count == after.1
                &&& final(self).blood_key_count == after.2
            }),
            r.0@ == neighbour_rooms(neighbours_of(*old(self), old(self).entrance_room_index as int)),
            r.1@ == neighbour_openings(
                old(self).doors@,
                neighbours_of(*old(self), old(self).entrance_room_index as int),
            ),
            final(self).rooms@ == old(self).rooms@,
            final(self).links@ == old(self).links@,
            final(self).room_index_grid@ == old(self).room_index_grid@,
            final(self).entrance_room_index == old(self).entrance_room_index,
            final(self).state == old(self).state,
            final(self).map_offset_x == old(self).map_offset_x,
            final(self).map_offset_y == old(self).map_offset_y,
    {
        let nbs = self.neighbours(self.entrance_room_index);
        let ghost whole = spec_open_all(self.doors@, self.wither_key_count, self.blood_key_count, nbs@, 0);
        let mut rooms: Vec<usize> = Vec::new();
        let mut openings: Vec<DoorOpening> = Vec::new();
        let mut i: usize = 0;
        while i < nbs.len()
            invariant
                nbs@ == neighbours_of(*old(self), old(self).entrance_room_index as int),
                whole == spec_open_all(
                    old(self).doors@,
                    old(self).wither_key_count,
                    old(self).blood_key_count,
                    nbs@,
                    0,
                ),
                whole is Some,
                whole == spec_open_all(self.doors@, self.wither_key_count, self.blood_key_count, nbs@, i as int),
                neighbour_doors_exist(*old(self), old(self).entrance_room_index as int),
                self.doors@.len() == old(self).doors@.len(),
                forall|j: int|
                    0 <= j < self.doors@.len() ==> (#[trigger] self.doors@[j]).x == old(self).doors@[j].x
                        && self.doors@[j].z == old(self).doors@[j].z && self.doors@[j].door_type
                        == old(self).doors@[j].door_type,
                i <= nbs@.len(),
                rooms@ == neighbour_rooms(nbs@.take(i as int)),
                openings@ == neighbour_openings(old(self).doors@, nbs@.take(i as int)),
                self.rooms@ == old(self).rooms@,
                self.links@ == old(self).links@,
                self.room_index_grid@ == old(self).room_index_grid@,
                self.entrance_room_index == old(self).entrance_room_index,
                self.state == old(self).state,
                self.map_offset_x == old(self).map_offset_x,
                self.map_offset_y == old(self).map_offset_y,
            decreases nbs@.len() - i,
        {
            let nb = nbs[i];
            assert(nb.door < self.doors@.len());
            let mut door = self.doors[nb.door];
            assert(self.doors@[nb.door as int].x == old(self).doors@[nb.door as int].x);
            let opening = door.open(self);
            let ghost before = self.doors@;
            self.doors.set(nb.door, door);
            assert forall|j: int| 0 <= j < self.doors@.len() implies (#[trigger] self.doors@[j]).x
                == old(self).doors@[j].x && self.doors@[j].z == old(self).doors@[j].z
                && self.doors@[j].door_type == old(self).doors@[j].door_type by {
                assert(before[j].x == old(self).doors@[j].x);
            }
            rooms.push(nb.room);
            openings.push(opening);
            i = i + 1;
            assert(rooms@ =~= neighbour_rooms(nbs@.take(i as int)));
            assert(openings@ =~= neighbour_openings(old(self).doors@, nbs@.take(i as int)));
        }
        assert(nbs@.take(nbs@.len() as int) =~= nbs@);
        (rooms, openings)
    }
}

} // verus!
