use vstd::prelude::*;

use crate::geometry::{pos_in_range, spec_compose, BlockPos, Rotation};
use crate::secrets::compose;
use crate::room::{room_dims_bounded, spec_relative_to_world, Room};
use crate::room_data::{BlockEntityData, RoomData, SkullKind};
use crate::rng::{is_random_uuid, new_uuid};

verus! {

/// Most blocks that a room's data may hold.
pub const MAX_ROOM_BLOCKS: usize = 0x0800_0000;

/// Where the block at index `i` of a room's data stands, in the room's own
/// frame: `x` runs fastest, then `z`, then `y` from the room's bottom.
pub open spec fn spec_block_local(width: int, length: int, bottom: int, i: int) -> BlockPos {
    BlockPos {
        x: (i % width) as i32,
        y: (bottom + i / (width * length)) as i32,
        z: ((i / width) % length) as i32,
    }
}

/// The world blocks that a room's data places: every block but air (state 0),
/// in index order, each with its state.
pub open spec fn spec_block_placements(
    rotation: Rotation,
    corner: BlockPos,
    width: int,
    length: int,
    bottom: int,
    blocks: Seq<u16>,
) -> Seq<(BlockPos, u16)>
    decreases blocks.len(),
{
    if blocks.len() == 0 {
        seq![]
    } else {
        let i = blocks.len() - 1;
        let rest = spec_block_placements(rotation, corner, width, length, bottom, blocks.drop_last());
        if blocks[i] != 0 {
            rest.push(
                (
                    spec_relative_to_world(
                        rotation,
                        corner,
                        spec_block_local(width, length, bottom, i),
                    ),
                    blocks[i],
                ),
            )
        } else {
            rest
        }
    }
}

/// The blocks of a room's data, placed in the world by the room's corner and
/// rotation (the states themselves are turned by the world when it sets them).
pub fn block_placements(room: &Room, data: &RoomData) -> (r: Vec<(BlockPos, u16)>)
    requires
        pos_in_range(room.corner),
        room_dims_bounded(*data),
        data.block_data@.len() <= MAX_ROOM_BLOCKS,
        data.block_data@.len() > 0 ==> data.width > 0 && data.length > 0,
    ensures
        r@ == spec_block_placements(
            room.rotation,
            room.corner,
            data.width as int,
            data.length as int,
            data.bottom as int,
            data.block_data@,
        ),
{
    let mut r: Vec<(BlockPos, u16)> = Vec::new();
    let mut i: usize = 0;
    while i < data.block_data.len()
        invariant
            i <= data.block_data@.len(),
            pos_in_range(room.corner),
            room_dims_bounded(*data),
            data.block_data@.len() <= MAX_ROOM_BLOCKS,
            data.block_data@.len() > 0 ==> data.width > 0 && data.length > 0,
            r@ == spec_block_placements(
                room.rotation,
                room.corner,
                data.width as int,
                data.length as int,
                data.bottom as int,
                data.block_data@.take(i as int),
            ),
        decreases data.block_data@.len() - i,
    {
        assert(data.block_data@.take(i + 1).drop_last() =~= data.block_data@.take(i as int));
        let block = data.block_data[i];
        if block != 0 {
            let index: i64 = i as i64;
            let w: i64 = data.width as i64;
            let l: i64 = data.length as i64;
            assert(1 <= w * l <= 0x0400_0000 * 0x0400_0000) by (nonlinear_arith)
                requires
                    1 <= w <= 0x0400_0000,
                    1 <= l <= 0x0400_0000,
            ;
            let wl: i64 = w * l;
            let layer: i64 = index / wl;
            assert(0 <= layer <= index) by (nonlinear_arith)
                requires
                    wl >= 1,
                    index >= 0,
                    layer == index / wl,
            ;
            let x: i64 = index % w;
            let z: i64 = (index / w) % l;
            let y: i64 = data.bottom as i64 + layer;
            let local = BlockPos { x: x as i32, y: y as i32, z: z as i32 };
            assert(local == spec_block_local(
                data.width as int,
                data.length as int,
                data.bottom as int,
                i as int,
            ));
            let position = room.relative_to_world(local);
            r.push((position, block));
        }
        i = i + 1;
    }
    assert(data.block_data@.take(i as int) =~= data.block_data@);
    r
}

} // verus!

verus! {

/// The UUID a texture was given first, if any.
pub open spec fn spec_lookup(entries: Seq<(String, u128)>, texture: Seq<char>) -> Option<u128>
    decreases entries.len(),
{
    if entries.len() == 0 {
        None
    } else if entries[0].0@ == texture {
        Some(entries[0].1)
    } else {
        spec_lookup(entries.drop_first(), texture)
    }
}

/// Adding a texture's UUID leaves every texture already known with its UUID,
/// and gives the added texture, if it was unknown, the added UUID.
pub proof fn lemma_lookup_push(
    entries: Seq<(String, u128)>,
    added: (String, u128),
    texture: Seq<char>,
)
    ensures
        spec_lookup(entries.push(added), texture) == (match spec_lookup(entries, texture) {
            Some(u) => Some(u),
            None => if added.0@ == texture {
                Some(added.1)
            } else {
                None
            },
        }),
    decreases entries.len(),
{
    if entries.len() > 0 {
        assert(entries.push(added).drop_first() =~= entries.drop_first().push(added));
        lemma_lookup_push(entries.drop_first(), added, texture);
    } else {
        assert(entries.push(added).drop_first() =~= Seq::<(String, u128)>::empty());
        assert(spec_lookup(Seq::<(String, u128)>::empty(), texture) is None);
        assert(entries.push(added)[0] == added);
    }
}

/// The UUIDs given to player-head textures while rooms are loaded: one per
/// texture, so every skull with the same texture shares it.
pub struct SkullUuids {
    pub entries: Vec<(String, u128)>,
}

impl SkullUuids {
    pub fn new() -> (r: SkullUuids)
        ensures
            r.entries@.len() == 0,
    {
        SkullUuids { entries: Vec::new() }
    }

    /// The UUID of `texture`: the one it was given before, else a new random
    /// one, which it keeps from now on.
    pub fn uuid_for(&mut self, texture: &String) -> (r: u128)
        ensures
            spec_lookup(final(self).entries@, texture@) == Some(r),
            match spec_lookup(old(self).entries@, texture@) {
                Some(u) => r == u && final(self).entries@ == old(self).entries@,
                None => {
                    &&& is_random_uuid(r)
                    &&& final(self).entries@.len() == old(self).entries@.len() + 1
                    &&& final(self).entries@.drop_last() == old(self).entries@
                    &&& final(self).entries@.last().0@ == texture@
                    &&& final(self).entries@.last().1 == r
                },
            },
    {
        let mut i: usize = 0;
        assert(self.entries@.skip(0) =~= self.entries@);
        while i < self.entries.len()
            invariant
                i <= self.entries@.len(),
                self.entries@ == old(self).entries@,
                spec_lookup(self.entries@, texture@) == spec_lookup(self.entries@.skip(i as int), texture@),
            decreases self.entries@.len() - i,
        {
            assert(self.entries@.skip(i as int).drop_first() =~= self.entries@.skip(i + 1));
            if self.entries[i].0 == *texture {
                return self.entries[i].1;
            }
            i = i + 1;
        }
        let u = new_uuid();
        let ghost before = self.entries@;
        self.entries.push((texture.clone(), u));
        proof {
            lemma_lookup_push(before, (*texture, u), texture@);
            assert(self.entries@.drop_last() =~= before);
        }
        u
    }
}

} // verus!

verus! {

/// The kind of skull a stored skull type makes; a player head needs a texture
/// (without one the skull is left out).
pub open spec fn spec_skull_kind(skull_type: u8, has_texture: bool) -> Option<SkullKind> {
    if skull_type == 0 {
        Some(SkullKind::Skeleton)
    } else if skull_type == 1 {
        Some(SkullKind::WitherSkeleton)
    } else if skull_type == 2 {
        Some(SkullKind::Zombie)
    } else if skull_type == 3 {
        if has_texture {
            Some(SkullKind::PlayerHead)
        } else {
            None
        }
    } else {
        Some(SkullKind::Creeper)
    }
}

pub fn skull_kind(skull_type: u8, has_texture: bool) -> (r: Option<SkullKind>)
    requires
        skull_type <= 4,
    ensures
        r == spec_skull_kind(skull_type, has_texture),
{
    if skull_type == 0 {
        Some(SkullKind::Skeleton)
    } else if skull_type == 1 {
        Some(SkullKind::WitherSkeleton)
    } else if skull_type == 2 {
        Some(SkullKind::Zombie)
    } else if skull_type == 3 {
        if has_texture {
            Some(SkullKind::PlayerHead)
        } else {
            None
        }
    } else {
        Some(SkullKind::Creeper)
    }
}

pub open spec fn texture_view(t: Option<String>) -> Option<Seq<char>> {
    match t {
        Some(s) => Some(s@),
        None => None,
    }
}

/// World position of a block entity stored at `p` (relative to the room's
/// corner and bottom).
pub open spec fn spec_entity_world(rotation: Rotation, corner: BlockPos, bottom: int, p: BlockPos) -> BlockPos {
    let w = spec_relative_to_world(rotation, corner, p);
    BlockPos { x: w.x, y: (w.y + bottom) as i32, z: w.z }
}

/// The skull a stored block entity becomes: where, which kind, its stored
/// rotation and its texture; other block entities place nothing.
pub open spec fn spec_skull(
    rotation: Rotation,
    corner: BlockPos,
    bottom: int,
    e: (BlockPos, BlockEntityData),
) -> Option<(BlockPos, SkullKind, u8, Option<Seq<char>>)> {
    match e.1 {
        BlockEntityData::Skull { skull_type, texture, rotation: turn } => match spec_skull_kind(
            skull_type,
            texture is Some,
        ) {
            Some(kind) => Some(
                (spec_entity_world(rotation, corner, bottom, e.0), kind, turn, texture_view(texture)),
            ),
            None => None,
        },
        _ => None,
    }
}

pub open spec fn spec_skulls(
    rotation: Rotation,
    corner: BlockPos,
    bottom: int,
    entities: Seq<(BlockPos, BlockEntityData)>,
) -> Seq<(BlockPos, SkullKind, u8, Option<Seq<char>>)>
    decreases entities.len(),
{
    if entities.len() == 0 {
        seq![]
    } else {
        let rest = spec_skulls(rotation, corner, bottom, entities.drop_last());
        match spec_skull(rotation, corner, bottom, entities.last()) {
            Some(s) => rest.push(s),
            None => rest,
        }
    }
}

/// A skull that a room places in the world.
pub struct SkullPlacement {
    pub position: BlockPos,
    pub kind: SkullKind,
    /// The stored 16-step rotation, before the room's own rotation is applied.
    pub rotation: u8,
    pub texture: Option<String>,
    /// The UUID of a player head's texture.
    pub uuid: Option<u128>,
}

pub open spec fn skull_entities_ok(data: RoomData) -> bool {
    forall|k: int|
        0 <= k < data.block_entities@.len() ==> {
            &&& pos_in_range((#[trigger] data.block_entities@[k]).0)
            &&& (data.block_entities@[k].1 matches BlockEntityData::Skull { skull_type, .. }
                ==> skull_type <= 4)
        }
}

/// The skulls of a room, placed in the world; player heads get the UUID of
/// their texture.
pub fn skull_placements(room: &Room, data: &RoomData, uuids: &mut SkullUuids) -> (r: Vec<
    SkullPlacement,
>)
    requires
        pos_in_range(room.corner),
        room_dims_bounded(*data),
        skull_entities_ok(*data),
    ensures
        r@.len() == spec_skulls(room.rotation, room.corner, data.bottom as int, data.block_entities@).len(),
        forall|k: int|
            0 <= k < r@.len() ==> {
                let s = spec_skulls(room.rotation, room.corner, data.bottom as int, data.block_entities@)[k];
                &&& (#[trigger] r@[k]).position == s.0
                &&& r@[k].kind == s.1
                &&& r@[k].rotation == s.2
                &&& texture_view(r@[k].texture) == s.3
                &&& if r@[k].kind == SkullKind::PlayerHead {
                    r@[k].texture is Some && Some(r@[k].uuid->0) == spec_lookup(
                        final(uuids).entries@,
                        r@[k].texture->0@,
                    ) && r@[k].uuid is Some
                } else {
                    r@[k].uuid is None
                }
            },
        forall|t: Seq<char>|
            #[trigger] spec_lookup(old(uuids).entries@, t) is Some ==> spec_lookup(final(uuids).entries@, t)
                == spec_lookup(old(uuids).entries@, t),
{
    let ghost skulls = spec_skulls(room.rotation, room.corner, data.bottom as int, data.block_entities@);
    let mut r: Vec<SkullPlacement> = Vec::new();
    let mut i: usize = 0;
    while i < data.block_entities.len()
        invariant
            i <= data.block_entities@.len(),
            pos_in_range(room.corner),
            room_dims_bounded(*data),
            skull_entities_ok(*data),
            r@.len() == spec_skulls(room.rotation, room.corner, data.bottom as int, data.block_entities@.take(i as int)).len(),
            forall|k: int|
                0 <= k < r@.len() ==> {
                    let s = spec_skulls(room.rotation, room.corner, data.bottom as int, data.block_entities@.take(i as int))[k];
                    &&& (#[trigger] r@[k]).position == s.0
                    &&& r@[k].kind == s.1
                    &&& r@[k].rotation == s.2
                    &&& texture_view(r@[k].texture) == s.3
                    &&& if r@[k].kind == SkullKind::PlayerHead {
                        r@[k].texture is Some && Some(r@[k].uuid->0) == spec_lookup(
                            uuids.entries@,
                            r@[k].texture->0@,
                        ) && r@[k].uuid is Some
                    } else {
                        r@[k].uuid is None
                    }
                },
            forall|t: Seq<char>|
                #[trigger] spec_lookup(old(uuids).entries@, t) is Some ==> spec_lookup(uuids.entries@, t)
                    == spec_lookup(old(uuids).entries@, t),
        decreases data.block_entities@.len() - i,
    {
        let ghost prefix = data.block_entities@.take(i as int);
        assert(data.block_entities@.take(i + 1).drop_last() =~= prefix);
        assert(data.block_entities@.take(i + 1).last() == data.block_entities@[i as int]);
        let entry = &data.block_entities[i];
        match &entry.1 {
            BlockEntityData::Skull { skull_type, texture, rotation } => {
                let has_texture = match texture {
                    Some(_) => true,
                    None => false,
                };
                match skull_kind(*skull_type, has_texture) {
                    Some(kind) => {
                        let w = room.relative_to_world(entry.0);
                        let position = BlockPos { x: w.x, y: w.y + data.bottom, z: w.z };
                        let ghost entries_before = uuids.entries@;
                        let (tex, uuid) = match texture {
                            Some(t) => {
                                if kind == SkullKind::PlayerHead {
                                    let u = uuids.uuid_for(t);
                                    (Some(t.clone()), Some(u))
                                } else {
                                    (Some(t.clone()), None)
                                }
                            },
                            None => (None, None),
                        };
                        proof {
                            assert forall|t: Seq<char>|
                                #[trigger] spec_lookup(entries_before, t) is Some implies spec_lookup(
                                    uuids.entries@,
                                    t,
                                ) == spec_lookup(entries_before, t) by {
                                if uuids.entries@ != entries_before {
                                    lemma_lookup_push(entries_before, uuids.entries@.last(), t);
                                    assert(uuids.entries@ == entries_before.push(uuids.entries@.last()));
                                }
                            }
                        }
                        r.push(SkullPlacement { position, kind, rotation: *rotation, texture: tex, uuid });
                    },
                    None => {},
                }
            },
            _ => {},
        }
        i = i + 1;
    }
    assert(data.block_entities@.take(i as int) =~= data.block_entities@);
    r
}

/// The pictures that a room's paintings can show.
#[derive(Clone, Copy, Debug, PartialEq, Eq, Structural)]
pub enum PaintingVariant {
    Wanderer,
    Graham,
}

/// A painting placed in the world.
#[derive(Clone, Copy, Debug, PartialEq, Eq, Structural)]
pub struct PaintingPlacement {
    pub position: BlockPos,
    pub rotation: Rotation,
    pub variant: PaintingVariant,
}

/// The picture a stored painting names: the wanderer by that name, the
/// Graham picture for any other name.
pub open spec fn spec_painting_variant(name: Seq<char>) -> PaintingVariant {
    if name == "Wanderer"@ {
        PaintingVariant::Wanderer
    } else {
        PaintingVariant::Graham
    }
}

/// A room's painting, stored at `position` relative to the room with its own
/// `rotation` and picture name, placed in the world: at its world block,
/// turned with the room.
pub fn painting_placement(room: &Room, position: BlockPos, rotation: Rotation, variant: &String) -> (r:
    PaintingPlacement)
    requires
        pos_in_range(room.corner),
        pos_in_range(position),
    ensures
        r.position == spec_relative_to_world(room.rotation, room.corner, position),
        r.rotation == spec_compose(rotation, room.rotation),
        r.variant == spec_painting_variant(variant@),
{
    let wanderer = String::from_str("Wanderer");
    proof {
        reveal_strlit("Wanderer");
    }
    let picture = if *variant == wanderer {
        PaintingVariant::Wanderer
    } else {
        PaintingVariant::Graham
    };
    PaintingPlacement {
        position: room.relative_to_world(position),
        rotation: compose(rotation, room.rotation),
        variant: picture,
    }
}

} // verus!
