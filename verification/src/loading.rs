use vstd::prelude::*;
use rand::rngs::StdRng;

use crate::layout::{LayoutRoom, LayoutRoomView};
use crate::rng::choose_index;
use crate::room_data::{
    fitting_rooms, random_room_data, same_room_data, RoomData, RoomShape, RoomType,
};

verus! {

/// The type of stored room a layout room asks for: its own type for a special
/// room, a normal room otherwise.
pub open spec fn wanted_type(v: LayoutRoomView) -> RoomType {
    if v.id <= 6 {
        v.room_type
    } else {
        RoomType::Normal
    }
}

/// The shape of stored room a layout room asks for: a fairy room may have any
/// number of doors, the other special rooms have one; other rooms go by the
/// shape of their cells.
pub open spec fn wanted_shape(v: LayoutRoomView) -> RoomShape {
    if v.id <= 6 {
        if v.room_type == RoomType::Fairy {
            RoomShape::OneByOne
        } else {
            RoomShape::OneByOneEnd
        }
    } else {
        v.shape
    }
}

pub open spec fn picked_names(picked: Seq<RoomData>) -> Seq<String> {
    picked.map_values(|d: RoomData| d.name)
}

/// `d` is a stored room that fits room `v` and was not used before (with the
/// room's type), or the stand-in room (with the room's type) when none fits.
pub open spec fn picked_for(lookup: Seq<RoomData>, v: LayoutRoomView, used: Seq<String>, d: RoomData) -> bool {
    let fits = fitting_rooms(lookup, wanted_type(v), wanted_shape(v), used);
    &&& d.room_type == wanted_type(v)
    &&& fits.len() > 0 ==> exists|i: int| #[trigger] fits.contains(i) && same_room_data(lookup[i], d)
    &&& fits.len() == 0 ==> d.name@ == "Dummy"@ && d.block_data@.len() == 0 && d.width == 31
        && d.length == 31
}

/// Picks the stored room of every layout room, in order, each at random among
/// those that fit it and that no earlier room took.
pub fn pick_room_data(rooms: &Vec<LayoutRoom>, lookup: &Vec<RoomData>, rng: &mut StdRng) -> (r: Vec<
    RoomData,
>)
    ensures
        r@.len() == rooms@.len(),
        forall|k: int|
            0 <= k < r@.len() ==> picked_for(
                lookup@,
                (#[trigger] rooms@[k])@,
                picked_names(r@.take(k)),
                r@[k],
            ),
{
    let mut picked: Vec<RoomData> = Vec::new();
    let mut used: Vec<String> = Vec::new();
    let mut i: usize = 0;
    while i < rooms.len()
        invariant
            i <= rooms@.len(),
            picked@.len() == i,
            used@ == picked_names(picked@),
            forall|k: int|
                0 <= k < i ==> picked_for(
                    lookup@,
                    (#[trigger] rooms@[k])@,
                    picked_names(picked@.take(k)),
                    picked@[k],
                ),
        decreases rooms@.len() - i,
    {
        let room = &rooms[i];
        let special = room.id <= 6;
        let (room_type, shape) = if special {
            (
                room.room_type,
                match room.room_type {
                    RoomType::Fairy => RoomShape::OneByOne,
                    _ => RoomShape::OneByOneEnd,
                },
            )
        } else {
            (RoomType::Normal, room.shape)
        };
        assert(room_type == wanted_type(room@) && shape == wanted_shape(room@));
        let mut data = random_room_data(lookup, room_type, shape, &used, rng);
        data.room_type = room_type;
        let name = data.name.clone();
        let ghost before = picked@;
        used.push(name);
        picked.push(data);
        proof {
            assert(picked@.take(i as int) =~= before);
            assert(used@ =~= picked_names(picked@));
            assert forall|k: int|
                0 <= k < i + 1 implies picked_for(
                lookup@,
                (#[trigger] rooms@[k])@,
                picked_names(picked@.take(k)),
                picked@[k],
            ) by {
                assert(picked@.take(k) =~= before.take(k)) by {
                    if k < i {
                        assert(picked@.take(k) =~= before.take(k));
                    }
                }
                if k == i {
                    assert(before.take(k) =~= before);
                }
            }
        }
        i = i + 1;
    }
    picked
}

/// No two rooms that found a fitting stored room share one (by name).
pub proof fn lemma_picked_rooms_distinct(
    lookup: Seq<RoomData>,
    rooms: Seq<LayoutRoomView>,
    picked: Seq<RoomData>,
    j: int,
    k: int,
)
    requires
        picked.len() == rooms.len(),
        forall|m: int|
            0 <= m < picked.len() ==> picked_for(lookup, #[trigger] rooms[m], picked_names(picked.take(m)), picked[m]),
        0 <= j < k < picked.len(),
        fitting_rooms(lookup, wanted_type(rooms[k]), wanted_shape(rooms[k]), picked_names(picked.take(k))).len()
            > 0,
    ensures
        picked[j].name@ != picked[k].name@,
{
    let used = picked_names(picked.take(k));
    let fits = fitting_rooms(lookup, wanted_type(rooms[k]), wanted_shape(rooms[k]), used);
    assert(picked_for(lookup, rooms[k], used, picked[k]));
    let i = choose|i: int| #[trigger] fits.contains(i) && same_room_data(lookup[i], picked[k]);
    assert(used[j] == picked[j].name);
}

/// The layout that a run is played on: one of the `layout_count` known
/// layouts, picked at random; `None` when there are none.
pub fn choose_layout(layout_count: usize, rng: &mut StdRng) -> (r: Option<usize>)
    ensures
        r is None <==> layout_count == 0,
        r matches Some(i) ==> i < layout_count,
{
    let mut indices: Vec<usize> = Vec::new();
    let mut i: usize = 0;
    while i < layout_count
        invariant
            i <= layout_count,
            indices@ == Seq::new(i as nat, |k: int| k as usize),
        decreases layout_count - i,
    {
        indices.push(i);
        i = i + 1;
        assert(indices@ =~= Seq::new(i as nat, |k: int| k as usize));
    }
    let r = choose_index(&indices, rng);
    proof {
        if let Some(c) = r {
            let k = indices@.index_of(c);
            assert(indices@[k] == c);
        }
    }
    r
}

} // verus!
