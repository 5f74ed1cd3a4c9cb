use vstd::prelude::*;

use crate::geometry::{BlockPos, Rotation};
use crate::room::RoomSegment;
use crate::rng::choose_one;
use rand::rngs::StdRng;
use vstd::string::StringExecFns;

verus! {

/// The footprint of a room: how many grid cells it covers and, for single
/// cells, where its doors are.
#[derive(Clone, Copy, Debug, PartialEq, Eq, Structural)]
pub enum RoomShape {
    /// 1x1 with a varying number of doors (fairy room).
    OneByOne,
    /// 1x1 dead end, one door.
    OneByOneEnd,
    /// 1x1 with four doors.
    OneByOneCross,
    /// 1x1 with two opposite doors.
    OneByOneStraight,
    /// 1x1 with two doors forming a bend.
    OneByOneBend,
    /// 1x1 with three doors.
    OneByOneTriple,
    OneByTwo,
    OneByThree,
    OneByFour,
    TwoByTwo,
    L,
    Invalid,
}

#[derive(Clone, Copy, Debug, PartialEq, Eq, Structural)]
pub enum RoomType {
    Normal,
    Puzzle,
    Trap,
    Fairy,
    Entrance,
    Blood,
    Yellow,
    Rare,
}

#[derive(Clone, Copy, Debug, PartialEq, Eq, Structural)]
pub enum SecretType {
    Essence { rotation: u8 },
    Chest { rotation: Rotation },
    Item,
}

#[derive(Clone, Copy, Debug, PartialEq, Eq, Structural)]
pub enum SecretSpawnCondition {
    EnterArea { width: i32, height: i32 },
    EnterRoom,
}

#[derive(Clone, Copy, Debug, PartialEq, Eq, Structural)]
pub struct SecretData {
    pub secret: SecretType,
    pub position: BlockPos,
    pub spawn_condition: SecretSpawnCondition,
}

/// A block entity stored with a room; the skull rotation is its 16-step index.
#[derive(Clone, Debug)]
pub enum BlockEntityData {
    Skull { skull_type: u8, texture: Option<String>, rotation: u8 },
    Sign { lines: Vec<String> },
    Banner { patterns: Vec<String> },
}

/// The kind of skull that a stored skull block entity becomes in the world.
#[derive(Clone, Copy, Debug, PartialEq, Eq, Structural)]
pub enum SkullKind {
    Skeleton,
    WitherSkeleton,
    Zombie,
    PlayerHead,
    Creeper,
}

/// The parts of a room's stored data that the dungeon's rules read.
#[derive(Clone, Debug)]
pub struct RoomData {
    pub name: String,
    pub id: String,
    pub shape: RoomShape,
    pub room_type: RoomType,
    pub bottom: i32,
    pub width: i32,
    pub length: i32,
    pub height: i32,
    pub secrets: Vec<SecretData>,
    /// Block entities, by their position in the room's own frame (above its bottom).
    pub block_entities: Vec<(BlockPos, BlockEntityData)>,
    /// Block states, `x` fastest, then `z`, then `y`; state 0 is air.
    pub block_data: Vec<u16>,
}

/// Shape that a room gets from the door bitmask of a single cell
/// (north is the highest of the four bits).
pub open spec fn spec_single_cell_shape(bitmask: u8) -> RoomShape {
    if bitmask == 0b1111 {
        RoomShape::OneByOneCross
    } else if bitmask == 0b1000 || bitmask == 0b0100 || bitmask == 0b0010 || bitmask == 0b0001 {
        RoomShape::OneByOneEnd
    } else if bitmask == 0b0101 || bitmask == 0b1010 {
        RoomShape::OneByOneStraight
    } else if bitmask == 0b0011 || bitmask == 0b1001 || bitmask == 0b1100 || bitmask == 0b0110 {
        RoomShape::OneByOneBend
    } else if bitmask == 0b1011 || bitmask == 0b1101 || bitmask == 0b1110 || bitmask == 0b0111 {
        RoomShape::OneByOneTriple
    } else {
        RoomShape::OneByOne
    }
}

/// The segments use at least two different columns and two different rows.
pub open spec fn spans_both_axes(s: Seq<(RoomSegment, u8)>) -> bool {
    (exists|i: int, j: int| 0 <= i < s.len() && 0 <= j < s.len() && s[i].0.x != s[j].0.x)
        && (exists|i: int, j: int| 0 <= i < s.len() && 0 <= j < s.len() && s[i].0.z != s[j].0.z)
}

pub open spec fn spec_shape_from_segments(s: Seq<(RoomSegment, u8)>) -> RoomShape {
    if s.len() == 1 {
        spec_single_cell_shape(s[0].1)
    } else if s.len() == 2 {
        RoomShape::OneByTwo
    } else if s.len() == 3 {
        if spans_both_axes(s) { RoomShape::L } else { RoomShape::OneByThree }
    } else if s.len() == 4 {
        if spans_both_axes(s) { RoomShape::TwoByTwo } else { RoomShape::OneByFour }
    } else {
        RoomShape::Invalid
    }
}

pub fn single_cell_shape(bitmask: u8) -> (r: RoomShape)
    ensures
        r == spec_single_cell_shape(bitmask),
{
    match bitmask {
        0b1111 => RoomShape::OneByOneCross,
        0b1000 | 0b0100 | 0b0010 | 0b0001 => RoomShape::OneByOneEnd,
        0b0101 | 0b1010 => RoomShape::OneByOneStraight,
        0b0011 | 0b1001 | 0b1100 | 0b0110 => RoomShape::OneByOneBend,
        0b1011 | 0b1101 | 0b1110 | 0b0111 => RoomShape::OneByOneTriple,
        _ => RoomShape::OneByOne,
    }
}

/// Whether the segments use more than one column and more than one row.
fn segments_span_both_axes(segments: &Vec<(RoomSegment, u8)>) -> (r: bool)
    requires
        segments.len() > 0,
    ensures
        r == spans_both_axes(segments@),
{
    let first = segments[0].0;
    let mut other_x = false;
    let mut other_z = false;
    let mut i: usize = 1;
    while i < segments.len()
        invariant
            0 < i <= segments.len(),
            first == segments@[0].0,
            other_x <==> (exists|k: int| 0 <= k < i && segments@[k].0.x != first.x),
            other_z <==> (exists|k: int| 0 <= k < i && segments@[k].0.z != first.z),
        decreases segments.len() - i,
    {
        if segments[i].0.x != first.x {
            other_x = true;
        }
        if segments[i].0.z != first.z {
            other_z = true;
        }
        i = i + 1;
    }
    proof {
        let s = segments@;
        if other_x {
            let k = choose|k: int| 0 <= k < s.len() && s[k].0.x != first.x;
            assert(0 <= k < s.len() && 0 < s.len() && s[k].0.x != s[0].0.x);
        } else {
            assert forall|a: int, b: int| 0 <= a < s.len() && 0 <= b < s.len() implies s[a].0.x
                == s[b].0.x by {
                assert(!(s[a].0.x != first.x));
                assert(!(s[b].0.x != first.x));
            }
        }
        if other_z {
            let k = choose|k: int| 0 <= k < s.len() && s[k].0.z != first.z;
            assert(0 <= k < s.len() && 0 < s.len() && s[k].0.z != s[0].0.z);
        } else {
            assert forall|a: int, b: int| 0 <= a < s.len() && 0 <= b < s.len() implies s[a].0.z
                == s[b].0.z by {
                assert(!(s[a].0.z != first.z));
                assert(!(s[b].0.z != first.z));
            }
        }
    }
    other_x && other_z
}

impl RoomShape {
    /// The shape of a room made of `segments`, each with its door bitmask.
    pub fn from_segments(segments: &Vec<(RoomSegment, u8)>) -> (r: RoomShape)
        ensures
            r == spec_shape_from_segments(segments@),
    {
        let n = segments.len();
        if n == 1 {
            single_cell_shape(segments[0].1)
        } else if n == 2 {
            RoomShape::OneByTwo
        } else if n == 3 {
            if segments_span_both_axes(segments) {
                RoomShape::L
            } else {
                RoomShape::OneByThree
            }
        } else if n == 4 {
            if segments_span_both_axes(segments) {
                RoomShape::TwoByTwo
            } else {
                RoomShape::OneByFour
            }
        } else {
            RoomShape::Invalid
        }
    }
}

/// Two stored block entities hold the same thing.
pub open spec fn same_block_entity(a: BlockEntityData, b: BlockEntityData) -> bool {
    match (a, b) {
        (
            BlockEntityData::Skull { skull_type: t1, texture: x1, rotation: r1 },
            BlockEntityData::Skull { skull_type: t2, texture: x2, rotation: r2 },
        ) => t1 == t2 && r1 == r2 && match (x1, x2) {
            (Some(s1), Some(s2)) => s1@ == s2@,
            (None, None) => true,
            _ => false,
        },
        (BlockEntityData::Sign { lines: l1 }, BlockEntityData::Sign { lines: l2 }) => l1@ == l2@,
        (BlockEntityData::Banner { patterns: p1 }, BlockEntityData::Banner { patterns: p2 }) => p1@
            == p2@,
        _ => false,
    }
}

/// Two room data hold the same room.
pub open spec fn same_room_data(a: RoomData, b: RoomData) -> bool {
    &&& a.name@ == b.name@
    &&& a.id@ == b.id@
    &&& a.shape == b.shape
    &&& a.room_type == b.room_type
    &&& a.bottom == b.bottom
    &&& a.width == b.width
    &&& a.length == b.length
    &&& a.height == b.height
    &&& a.secrets@ == b.secrets@
    &&& a.block_data@ == b.block_data@
    &&& a.block_entities@.len() == b.block_entities@.len()
    &&& forall|k: int|
        0 <= k < a.block_entities@.len() ==> (#[trigger] a.block_entities@[k]).0
            == b.block_entities@[k].0 && same_block_entity(a.block_entities@[k].1, b.block_entities@[k].1)
}

fn copy_strings(v: &Vec<String>) -> (r: Vec<String>)
    ensures
        r@ == v@,
{
    let mut r: Vec<String> = Vec::new();
    let mut i: usize = 0;
    while i < v.len()
        invariant
            i <= v@.len(),
            r@ == v@.take(i as int),
        decreases v@.len() - i,
    {
        r.push(v[i].clone());
        assert(r@ =~= v@.take(i + 1));
        i = i + 1;
    }
    assert(v@.take(i as int) =~= v@);
    r
}

impl BlockEntityData {
    pub fn duplicate(&self) -> (r: BlockEntityData)
        ensures
            same_block_entity(*self, r),
    {
        match self {
            BlockEntityData::Skull { skull_type, texture, rotation } => BlockEntityData::Skull {
                skull_type: *skull_type,
                texture: match texture {
                    Some(t) => Some(t.clone()),
                    None => None,
                },
                rotation: *rotation,
            },
            BlockEntityData::Sign { lines } => BlockEntityData::Sign { lines: copy_strings(lines) },
            BlockEntityData::Banner { patterns } => BlockEntityData::Banner {
                patterns: copy_strings(patterns),
            },
        }
    }
}

impl RoomData {
    /// The stand-in for a room that no stored room fits: an empty 31 by 31 room.
    pub fn dummy() -> (r: RoomData)
        ensures
            r.name@ == "Dummy"@,
            r.id@ == ""@,
            r.shape == RoomShape::OneByOne,
            r.room_type == RoomType::Normal,
            r.bottom == 68,
            r.width == 31,
            r.length == 31,
            r.height == 30,
            r.secrets@.len() == 0,
            r.block_entities@.len() == 0,
            r.block_data@.len() == 0,
    {
        RoomData {
            name: String::from_str("Dummy"),
            id: String::from_str(""),
            shape: RoomShape::OneByOne,
            room_type: RoomType::Normal,
            bottom: 68,
            width: 31,
            length: 31,
            height: 30,
            secrets: Vec::new(),
            block_entities: Vec::new(),
            block_data: Vec::new(),
        }
    }

    /// A copy of this room's data.
    pub fn duplicate(&self) -> (r: RoomData)
        ensures
            same_room_data(*self, r),
    {
        let mut secrets: Vec<SecretData> = Vec::new();
        let mut i: usize = 0;
        while i < self.secrets.len()
            invariant
                i <= self.secrets@.len(),
                secrets@ == self.secrets@.take(i as int),
            decreases self.secrets@.len() - i,
        {
            secrets.push(self.secrets[i]);
            assert(secrets@ =~= self.secrets@.take(i + 1));
            i = i + 1;
        }
        assert(self.secrets@.take(i as int) =~= self.secrets@);
        let mut block_data: Vec<u16> = Vec::new();
        let mut i: usize = 0;
        while i < self.block_data.len()
            invariant
                i <= self.block_data@.len(),
                block_data@ == self.block_data@.take(i as int),
            decreases self.block_data@.len() - i,
        {
            block_data.push(self.block_data[i]);
            assert(block_data@ =~= self.block_data@.take(i + 1));
            i = i + 1;
        }
        assert(self.block_data@.take(i as int) =~= self.block_data@);
        let mut block_entities: Vec<(BlockPos, BlockEntityData)> = Vec::new();
        let mut i: usize = 0;
        while i < self.block_entities.len()
            invariant
                i <= self.block_entities@.len(),
                block_entities@.len() == i,
                forall|k: int|
                    0 <= k < i ==> (#[trigger] block_entities@[k]).0 == self.block_entities@[k].0
                        && same_block_entity(self.block_entities@[k].1, block_entities@[k].1),
            decreases self.block_entities@.len() - i,
        {
            let e = &self.block_entities[i];
            block_entities.push((e.0, e.1.duplicate()));
            i = i + 1;
        }
        RoomData {
            name: self.name.clone(),
            id: self.id.clone(),
            shape: self.shape,
            room_type: self.room_type,
            bottom: self.bottom,
            width: self.width,
            length: self.length,
            height: self.height,
            secrets,
            block_entities,
            block_data,
        }
    }
}

/// A stored room that may be picked for a room of this type and shape: not
/// already used (by name).
pub open spec fn room_fits(data: RoomData, room_type: RoomType, room_shape: RoomShape, used: Seq<String>) -> bool {
    &&& data.room_type == room_type
    &&& data.shape == room_shape
    &&& !(exists|k: int| 0 <= k < used.len() && (#[trigger] used[k])@ == data.name@)
}

/// The stored rooms that fit, by index.
pub open spec fn fitting_rooms(
    lookup: Seq<RoomData>,
    room_type: RoomType,
    room_shape: RoomShape,
    used: Seq<String>,
) -> Set<int> {
    Set::new(|i: int| 0 <= i < lookup.len() && room_fits(lookup[i], room_type, room_shape, used))
}

fn name_used(used: &Vec<String>, name: &String) -> (r: bool)
    ensures
        r == (exists|k: int| 0 <= k < used@.len() && (#[trigger] used@[k])@ == name@),
{
    let mut i: usize = 0;
    while i < used.len()
        invariant
            i <= used@.len(),
            forall|k: int| 0 <= k < i ==> (#[trigger] used@[k])@ != name@,
        decreases used@.len() - i,
    {
        if used[i] == *name {
            return true;
        }
        i = i + 1;
    }
    false
}

/// A stored room for a room of this type and shape, picked at random among
/// those that fit and were not used yet; the stand-in room when none fits.
pub fn random_room_data(
    lookup: &Vec<RoomData>,
    room_type: RoomType,
    room_shape: RoomShape,
    existing_room_ids: &Vec<String>,
    rng: &mut StdRng,
) -> (r: RoomData)
    ensures
        fitting_rooms(lookup@, room_type, room_shape, existing_room_ids@).len() > 0 ==> exists|i: int|
            #[trigger] fitting_rooms(lookup@, room_type, room_shape, existing_room_ids@).contains(i)
                && same_room_data(lookup@[i], r),
        fitting_rooms(lookup@, room_type, room_shape, existing_room_ids@).len() == 0 ==> r.name@
            == "Dummy"@ && r.block_data@.len() == 0 && r.width == 31 && r.length == 31,
{
    let ghost fits = fitting_rooms(lookup@, room_type, room_shape, existing_room_ids@);
    proof {
        vstd::set_lib::lemma_int_range(0, lookup@.len() as int);
        assert(fits.subset_of(vstd::set_lib::set_int_range(0, lookup@.len() as int)));
        vstd::set_lib::lemma_set_subset_finite(vstd::set_lib::set_int_range(0, lookup@.len() as int), fits);
    }
    let mut candidates: Vec<usize> = Vec::new();
    let mut i: usize = 0;
    while i < lookup.len()
        invariant
            i <= lookup@.len(),
            fits == fitting_rooms(lookup@, room_type, room_shape, existing_room_ids@),
            forall|k: int| 0 <= k < candidates@.len() ==> fits.contains(#[trigger] candidates@[k] as int),
            forall|j: int| 0 <= j < i && fits.contains(j) ==> candidates@.contains(j as usize),
        decreases lookup@.len() - i,
    {
        let ghost before = candidates@;
        let data = &lookup[i];
        if data.room_type == room_type && data.shape == room_shape && !name_used(
            existing_room_ids,
            &data.name,
        ) {
            candidates.push(i);
            assert(candidates@[candidates@.len() - 1] == i);
        }
        assert forall|j: int| 0 <= j < i + 1 && fits.contains(j) implies candidates@.contains(
            j as usize,
        ) by {
            if j < i {
                assert(before.contains(j as usize));
                let k = choose|k: int| 0 <= k < before.len() && before[k] == j as usize;
                assert(candidates@[k] == j as usize);
            } else {
                assert(room_fits(lookup@[j], room_type, room_shape, existing_room_ids@));
            }
        }
        i = i + 1;
    }
    proof {
        if fits.len() > 0 {
            vstd::set::axiom_set_choose_len(fits);
            let j = fits.choose();
            assert(candidates@.contains(j as usize));
            let k = choose|k: int| 0 <= k < candidates@.len() && candidates@[k] == j as usize;
            assert(candidates@.len() > 0);
        }
    }
    match choose_one(&candidates, rng) {
        Some(c) => {
            proof {
                let k = choose|k: int| 0 <= k < candidates@.len() && candidates@[k] == c;
                assert(fits.contains(candidates@[k] as int));
                vstd::set::axiom_set_contains_len(fits, c as int);
            }
            lookup[c].duplicate()
        },
        None => RoomData::dummy(),
    }
}

} // verus!
