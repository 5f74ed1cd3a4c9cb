use vstd::prelude::*;

use crate::geometry::BlockPos;
use crate::grid::{RoomGridLookup, DUNGEON_ORIGIN_X, DUNGEON_ORIGIN_Z};
use crate::room::Room;

verus! {

/// The room (by entity id) that covers the column of a world block.
pub open spec fn spec_room_at(lookup: RoomGridLookup, position: BlockPos) -> Option<u64> {
    if position.x < DUNGEON_ORIGIN_X || position.z < DUNGEON_ORIGIN_Z {
        None
    } else {
        lookup.spec_get(
            ((position.x - DUNGEON_ORIGIN_X) / 32) as usize,
            ((position.z - DUNGEON_ORIGIN_Z) / 32) as usize,
        )
    }
}

/// The placed rooms, each with its entity id: ids differ, and no room lists a
/// player twice.
pub open spec fn rooms_wf(rooms: Seq<(u64, Room)>) -> bool {
    &&& forall|i: int, j: int| 0 <= i < j < rooms.len() ==> rooms[i].0 != rooms[j].0
    &&& forall|i: int| 0 <= i < rooms.len() ==> (#[trigger] rooms[i]).1.players@.no_duplicates()
}

/// A player is listed by exactly the room it is recorded to be in.
pub open spec fn presence_ok(rooms: Seq<(u64, Room)>, player: u64, current: Option<u64>) -> bool {
    forall|i: int|
        0 <= i < rooms.len() ==> ((#[trigger] rooms[i]).1.players@.contains(player) <==> current
            == Some(rooms[i].0))
}

/// The rooms are the same but for the lists of players, and every other
/// player is listed where it was.
pub open spec fn same_rooms_but(a: Seq<(u64, Room)>, b: Seq<(u64, Room)>, player: u64) -> bool {
    &&& a.len() == b.len()
    &&& forall|i: int|
        0 <= i < a.len() ==> {
            &&& (#[trigger] a[i]).0 == b[i].0
            &&& a[i].1.rotation == b[i].1.rotation
            &&& a[i].1.corner == b[i].1.corner
            &&& a[i].1.secrets@ == b[i].1.secrets@
            &&& a[i].1.found_secrets == b[i].1.found_secrets
            &&& forall|q: u64| q != player ==> (a[i].1.players@.contains(q) <==> b[i].1.players@.contains(q))
        }
}

/// Removing a value from a list without repeats removes it entirely and keeps
/// the rest.
proof fn lemma_remove_value_no_duplicates(s: Seq<u64>, x: u64)
    requires
        s.no_duplicates(),
        s.contains(x),
    ensures
        s.remove_value(x).no_duplicates(),
        !s.remove_value(x).contains(x),
        forall|q: u64| q != x ==> (s.remove_value(x).contains(q) <==> s.contains(q)),
{
    s.index_of_first_ensures(x);
    let i = s.index_of_first(x)->0;
    let r = s.remove(i);
    assert(s.remove_value(x) == r);
    assert forall|q: u64| q != x implies (r.contains(q) <==> s.contains(q)) by {
        if s.contains(q) {
            let k = choose|k: int| 0 <= k < s.len() && s[k] == q;
            if k < i {
                assert(r[k] == q);
            } else {
                assert(k != i);
                assert(r[k - 1] == q);
            }
        }
    }
    if r.contains(x) {
        let k = choose|k: int| 0 <= k < r.len() && r[k] == x;
        if k < i {
            assert(s[k] == x);
        } else {
            assert(s[k + 1] == x);
        }
    }
}

/// Index of the room with entity id `id`, if there is one.
fn find_room(rooms: &Vec<(u64, Room)>, id: u64) -> (r: Option<usize>)
    ensures
        match r {
            Some(i) => i < rooms@.len() && rooms@[i as int].0 == id,
            None => forall|i: int| 0 <= i < rooms@.len() ==> (#[trigger] rooms@[i]).0 != id,
        },
{
    let mut i: usize = 0;
    while i < rooms.len()
        invariant
            i <= rooms@.len(),
            forall|k: int| 0 <= k < i ==> (#[trigger] rooms@[k]).0 != id,
        decreases rooms@.len() - i,
    {
        if rooms[i].0 == id {
            return Some(i);
        }
        i = i + 1;
    }
    None
}

proof fn lemma_same_rooms_but_trans(a: Seq<(u64, Room)>, b: Seq<(u64, Room)>, c: Seq<(u64, Room)>, player: u64)
    requires
        same_rooms_but(a, b, player),
        same_rooms_but(b, c, player),
    ensures
        same_rooms_but(a, c, player),
{
    assert forall|i: int| 0 <= i < a.len() implies forall|q: u64| q != player ==> ((#[trigger] a[i]).1.players@.contains(q) <==> c[i].1.players@.contains(q)) by {
        assert(a[i] == a[i]);
        assert(b[i] == b[i]);
    }
}

/// The player leaves the room `entity`, if it is one of the rooms.
fn leave_room(rooms: &mut Vec<(u64, Room)>, player: u64, entity: u64)
    requires
        rooms_wf(old(rooms)@),
        presence_ok(old(rooms)@, player, Some(entity)),
    ensures
        rooms_wf(final(rooms)@),
        forall|k: int| 0 <= k < final(rooms)@.len() ==> !(#[trigger] final(rooms)@[k]).1.players@.contains(player),
        same_rooms_but(old(rooms)@, final(rooms)@, player),
{
    if let Some(i) = find_room(rooms, entity) {
        let ghost before = rooms@;
        let (id, mut room) = rooms.remove(i);
        proof {
            assert(before[i as int].1.players@.contains(player));
            lemma_remove_value_no_duplicates(room.players@, player);
        }
        room.remove_player(player);
        rooms.insert(i, (id, room));
        proof {
            assert forall|k: int| 0 <= k < rooms@.len() && k != i implies #[trigger] rooms@[k] == before[k] by {}
            assert forall|k: int| 0 <= k < rooms@.len() implies !(#[trigger] rooms@[k]).1.players@.contains(player) by {
                if k != i {
                    assert(rooms@[k] == before[k]);
                }
            }
            assert forall|k: int| 0 <= k < rooms@.len() implies (#[trigger] rooms@[k]).1.players@.no_duplicates() by {
                if k != i {
                    assert(rooms@[k] == before[k]);
                }
            }
            assert forall|a: int, b: int| 0 <= a < b < rooms@.len() implies rooms@[a].0 != rooms@[b].0 by {
                assert(rooms@[a].0 == before[a].0 && rooms@[b].0 == before[b].0);
            }
            assert forall|k: int| 0 <= k < rooms@.len() implies forall|q: u64| q != player ==> ((#[trigger] before[k]).1.players@.contains(q) <==> rooms@[k].1.players@.contains(q)) by {
                if k != i {
                    assert(rooms@[k] == before[k]);
                }
            }
        }
    }
}

/// The player joins the room `entity`, if it is one of the rooms.
fn join_room(rooms: &mut Vec<(u64, Room)>, player: u64, entity: Option<u64>)
    requires
        rooms_wf(old(rooms)@),
        forall|k: int| 0 <= k < old(rooms)@.len() ==> !(#[trigger] old(rooms)@[k]).1.players@.contains(player),
    ensures
        rooms_wf(final(rooms)@),
        presence_ok(final(rooms)@, player, entity),
        same_rooms_but(old(rooms)@, final(rooms)@, player),
{
    if let Some(e) = entity {
        if let Some(j) = find_room(rooms, e) {
            let ghost before = rooms@;
            let (id, mut room) = rooms.remove(j);
            assert(!room.players@.contains(player));
            room.insert_player(player);
            proof {
                assert forall|a: int, b: int| 0 <= a < b < room.players@.len() implies room.players@[a]
                    != room.players@[b] by {
                    if b == room.players@.len() - 1 {
                        assert(room.players@[b] == player);
                        assert(before[j as int].1.players@[a] == room.players@[a]);
                    } else {
                        assert(before[j as int].1.players@[a] == room.players@[a]);
                        assert(before[j as int].1.players@[b] == room.players@[b]);
                    }
                }
            }
            rooms.insert(j, (id, room));
            proof {
                assert forall|k: int| 0 <= k < rooms@.len() && k != j implies #[trigger] rooms@[k] == before[k] by {}
                assert(rooms@[j as int].1.players@ == before[j as int].1.players@.push(player));
                assert forall|k: int| 0 <= k < rooms@.len() implies ((#[trigger] rooms@[k]).1.players@.contains(player)
                    <==> entity == Some(rooms@[k].0)) by {
                    if k == j {
                        assert(rooms@[k].1.players@[rooms@[k].1.players@.len() - 1] == player);
                    } else {
                        assert(rooms@[k] == before[k]);
                        assert(rooms@[k].0 != rooms@[j as int].0);
                    }
                }
                assert forall|k: int| 0 <= k < rooms@.len() implies (#[trigger] rooms@[k]).1.players@.no_duplicates() by {
                    if k != j {
                        assert(rooms@[k] == before[k]);
                    }
                }
                assert forall|a: int, b: int| 0 <= a < b < rooms@.len() implies rooms@[a].0 != rooms@[b].0 by {
                    assert(rooms@[a].0 == before[a].0 && rooms@[b].0 == before[b].0);
                }
                assert forall|k: int| 0 <= k < rooms@.len() implies forall|q: u64| q != player ==> ((#[trigger] before[k]).1.players@.contains(q) <==> rooms@[k].1.players@.contains(q)) by {
                    if k == j {
                        assert forall|q: u64| q != player implies (rooms@[k].1.players@.contains(q) <==> before[k].1.players@.contains(q)) by {
                            if before[k].1.players@.contains(q) {
                                let m = choose|m: int| 0 <= m < before[k].1.players@.len() && before[k].1.players@[m] == q;
                                assert(rooms@[k].1.players@[m] == q);
                            }
                            if rooms@[k].1.players@.contains(q) {
                                let m = choose|m: int| 0 <= m < rooms@[k].1.players@.len() && rooms@[k].1.players@[m] == q;
                                assert(before[k].1.players@[m] == q);
                            }
                        }
                    } else {
                        assert(rooms@[k] == before[k]);
                    }
                }
            }
        }
    }
}

/// Every player's record names exactly the room that lists it: each player
/// with a record is listed by the room it is recorded in and by no other, and
/// a room lists only players with a record.
pub open spec fn all_presence_ok(rooms: Seq<(u64, Room)>, records: Map<u64, Option<u64>>) -> bool {
    &&& forall|q: u64| #[trigger] records.contains_key(q) ==> presence_ok(rooms, q, records[q])
    &&& forall|i: int, q: u64|
        0 <= i < rooms.len() && #[trigger] rooms[i].1.players@.contains(q) ==> records.contains_key(q)
}

/// Moving one player's record, as `update_room` does, keeps every player
/// listed by exactly the room it is recorded in: the moved player by its new
/// room, and every other player where it was.
pub proof fn lemma_update_keeps_all_presence(
    before: Seq<(u64, Room)>,
    after: Seq<(u64, Room)>,
    records: Map<u64, Option<u64>>,
    player: u64,
    current: Option<u64>,
)
    requires
        all_presence_ok(before, records),
        records.contains_key(player),
        presence_ok(after, player, current),
        same_rooms_but(before, after, player),
    ensures
        all_presence_ok(after, records.insert(player, current)),
{
    let updated = records.insert(player, current);
    assert forall|q: u64| #[trigger] updated.contains_key(q) implies presence_ok(after, q, updated[q]) by {
        if q != player {
            assert(presence_ok(before, q, records[q]));
            assert forall|i: int| 0 <= i < after.len() implies ((#[trigger] after[i]).1.players@.contains(q)
                <==> updated[q] == Some(after[i].0)) by {
                assert(before[i].0 == after[i].0);
                assert(before[i].1.players@.contains(q) <==> after[i].1.players@.contains(q));
            }
        }
    }
    assert forall|i: int, q: u64|
        0 <= i < after.len() && #[trigger] after[i].1.players@.contains(q) implies updated.contains_key(q) by {
        if q != player {
            assert(before[i].1.players@.contains(q));
        }
    }
}

/// Moves a player's record to the room covering its block: it leaves the room
/// it was in and joins the new one, when they differ.
pub fn update_room(
    player: u64,
    position: BlockPos,
    current_room: &mut Option<u64>,
    lookup: &RoomGridLookup,
    rooms: &mut Vec<(u64, Room)>,
)
    requires
        lookup.wf(),
        rooms_wf(old(rooms)@),
        presence_ok(old(rooms)@, player, *old(current_room)),
    ensures
        *final(current_room) == spec_room_at(*lookup, position),
        rooms_wf(final(rooms)@),
        presence_ok(final(rooms)@, player, *final(current_room)),
        same_rooms_but(old(rooms)@, final(rooms)@, player),
{
    let new_room = lookup.get_from_world(position);
    assert(new_room == spec_room_at(*lookup, position));
    if new_room == *current_room {
        return;
    }
    let ghost initial = rooms@;
    match *current_room {
        Some(entity) => leave_room(rooms, player, entity),
        None => {
            assert(forall|k: int| 0 <= k < rooms@.len() ==> !(#[trigger] rooms@[k]).1.players@.contains(player));
        },
    }
    let ghost middle = rooms@;
    join_room(rooms, player, new_room);
    proof {
        lemma_same_rooms_but_trans(initial, middle, rooms@, player);
    }
    *current_room = new_room;
}

/// A player that leaves the game leaves the room it was in.
pub fn on_player_remove(player: u64, current_room: Option<u64>, rooms: &mut Vec<(u64, Room)>)
    requires
        rooms_wf(old(rooms)@),
        presence_ok(old(rooms)@, player, current_room),
    ensures
        rooms_wf(final(rooms)@),
        presence_ok(final(rooms)@, player, None),
        same_rooms_but(old(rooms)@, final(rooms)@, player),
{
    match current_room {
        Some(entity) => leave_room(rooms, player, entity),
        None => {},
    }
}

} // verus!
