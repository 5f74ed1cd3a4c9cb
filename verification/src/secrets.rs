use vstd::prelude::*;

use crate::geometry::{pos_in_range, spec_compose, spec_quarter_turns, spec_from_quarter_turns, BlockPos, Rotation};
use crate::room::{spec_relative_to_world, Room};
use crate::room_data::{RoomData, SecretSpawnCondition, SecretType};

verus! {

/// A secret of a room, and whether it was found.
#[derive(Clone, Copy, Debug, PartialEq, Eq, Structural)]
pub struct Secret {
    pub collected: bool,
}

/// Collecting a secret: the first time marks it found and adds one to its
/// room's count; after that nothing changes.
pub open spec fn spec_collect(collected: bool, found: usize) -> (bool, usize) {
    if collected {
        (collected, found)
    } else {
        (true, (found + 1) as usize)
    }
}

/// Marks `secret` found, counting it in its room's `found_secrets` the first time.
pub fn update_room_secrets(secret: &mut Secret, found_secrets: &mut usize)
    requires
        !old(secret).collected ==> *old(found_secrets) < usize::MAX,
    ensures
        (final(secret).collected, *final(found_secrets)) == spec_collect(
            old(secret).collected,
            *old(found_secrets),
        ),
{
    if secret.collected {
        return;
    }
    secret.collected = true;
    *found_secrets = *found_secrets + 1;
}

/// A secret is counted once however often it is collected.
pub proof fn lemma_collect_twice(collected: bool, found: usize)
    requires
        !collected ==> found < usize::MAX,
    ensures
        spec_collect(spec_collect(collected, found).0, spec_collect(collected, found).1) == spec_collect(
            collected,
            found,
        ),
{
}

/// The kind of a secret chest.
#[derive(Clone, Copy, Debug, PartialEq, Eq, Structural)]
pub enum ChestSecretType {
    Blessing { locked: bool },
    Item,
}

/// The kind of a secret item.
#[derive(Clone, Copy, Debug, PartialEq, Eq, Structural)]
pub enum ItemSecretType {
    SpiritLeap,
}

impl ItemSecretType {
    /// The item that the secret drops, as its item id and enchantment (id and
    /// level): a spirit leap is an ender pearl with a glint.
    pub fn get_item(&self) -> (r: (u16, (u16, u16)))
        ensures
            r == (368u16, (1u16, 1u16)),
    {
        match self {
            ItemSecretType::SpiritLeap => (368, (1, 1)),
        }
    }
}

/// What a room's secret becomes in the world.
#[derive(Clone, Copy, Debug, PartialEq, Eq, Structural)]
pub enum SecretKind {
    Chest { chest_type: ChestSecretType, rotation: Rotation },
    Item { item_type: ItemSecretType },
    Essence,
}

/// When a secret appears: when a player enters an area of `width` by
/// `height` blocks centred on it, or when a player enters its room.
#[derive(Clone, Copy, Debug, PartialEq, Eq, Structural)]
pub enum SecretSpawn {
    Area { width: i32, height: i32 },
    RoomEnter,
}

/// A secret placed in the world.
#[derive(Clone, Copy, Debug, PartialEq, Eq, Structural)]
pub struct SecretPlacement {
    pub position: BlockPos,
    pub kind: SecretKind,
    pub spawn: SecretSpawn,
}

/// The placement of a room's stored secret: at its world block; a chest turned
/// with the room (a blessing for now), an item secret (a spirit leap for now),
/// or an essence.
pub open spec fn spec_secret_placement(
    rotation: Rotation,
    corner: BlockPos,
    secret: crate::room_data::SecretData,
) -> SecretPlacement {
    SecretPlacement {
        position: spec_relative_to_world(rotation, corner, secret.position),
        kind: match secret.secret {
            SecretType::Chest { rotation: r } => SecretKind::Chest {
                chest_type: ChestSecretType::Blessing { locked: false },
                rotation: spec_compose(r, rotation),
            },
            SecretType::Item => SecretKind::Item { item_type: ItemSecretType::SpiritLeap },
            SecretType::Essence { .. } => SecretKind::Essence,
        },
        spawn: match secret.spawn_condition {
            SecretSpawnCondition::EnterArea { width, height } => SecretSpawn::Area { width, height },
            SecretSpawnCondition::EnterRoom => SecretSpawn::RoomEnter,
        },
    }
}

/// `a` turned further by `b`.
pub fn compose(a: Rotation, b: Rotation) -> (r: Rotation)
    ensures
        r == spec_compose(a, b),
{
    let qa: u8 = match a {
        Rotation::Identity => 0,
        Rotation::Clockwise90 => 1,
        Rotation::Clockwise180 => 2,
        Rotation::CounterClockwise90 => 3,
    };
    let qb: u8 = match b {
        Rotation::Identity => 0,
        Rotation::Clockwise90 => 1,
        Rotation::Clockwise180 => 2,
        Rotation::CounterClockwise90 => 3,
    };
    let q = (qa + qb) % 4;
    assert(q as int == (spec_quarter_turns(a) + spec_quarter_turns(b)) % 4);
    if q == 0 {
        Rotation::Identity
    } else if q == 1 {
        Rotation::Clockwise90
    } else if q == 2 {
        Rotation::Clockwise180
    } else {
        Rotation::CounterClockwise90
    }
}

/// The secrets of a room, placed in the world, in the order they are stored.
pub fn load_secrets(room: &Room, data: &RoomData) -> (r: Vec<SecretPlacement>)
    requires
        pos_in_range(room.corner),
        forall|i: int| 0 <= i < data.secrets@.len() ==> pos_in_range(#[trigger] data.secrets@[i].position),
    ensures
        r@.len() == data.secrets@.len(),
        forall|i: int|
            0 <= i < r@.len() ==> #[trigger] r@[i] == spec_secret_placement(
                room.rotation,
                room.corner,
                data.secrets@[i],
            ),
{
    let mut r: Vec<SecretPlacement> = Vec::new();
    let mut i: usize = 0;
    while i < data.secrets.len()
        invariant
            i <= data.secrets@.len(),
            pos_in_range(room.corner),
            forall|k: int| 0 <= k < data.secrets@.len() ==> pos_in_range(#[trigger] data.secrets@[k].position),
            r@.len() == i,
            forall|k: int|
                0 <= k < i ==> #[trigger] r@[k] == spec_secret_placement(
                    room.rotation,
                    room.corner,
                    data.secrets@[k],
                ),
        decreases data.secrets@.len() - i,
    {
        let secret = data.secrets[i];
        let position = room.relative_to_world(secret.position);
        let kind = match secret.secret {
            SecretType::Chest { rotation } => SecretKind::Chest {
                chest_type: ChestSecretType::Blessing { locked: false },
                rotation: compose(rotation, room.rotation),
            },
            SecretType::Item => SecretKind::Item { item_type: ItemSecretType::SpiritLeap },
            SecretType::Essence { .. } => SecretKind::Essence,
        };
        let spawn = match secret.spawn_condition {
            SecretSpawnCondition::EnterArea { width, height } => SecretSpawn::Area { width, height },
            SecretSpawnCondition::EnterRoom => SecretSpawn::RoomEnter,
        };
        r.push(SecretPlacement { position, kind, spawn });
        i = i + 1;
    }
    r
}

/// What opening a secret chest does.
#[derive(Clone, Copy, Debug, PartialEq, Eq, Structural)]
pub struct ChestInteraction {
    /// `§cThat chest is locked!`
    pub locked_message: bool,
    /// `§cThis chest has already been searched!`
    pub searched_message: bool,
    /// A blessing head rises spinning from the chest.
    pub spin_blessing: bool,
    /// The chest-open sound plays.
    pub open_sound: bool,
    /// The chest's lid opens and the secret is collected.
    pub open_and_collect: bool,
}

pub open spec fn spec_chest_interaction(chest_type: ChestSecretType, collected: bool) -> ChestInteraction {
    match chest_type {
        ChestSecretType::Blessing { locked } => if locked {
            ChestInteraction {
                locked_message: true,
                searched_message: false,
                spin_blessing: false,
                open_sound: false,
                open_and_collect: false,
            }
        } else {
            ChestInteraction {
                locked_message: false,
                searched_message: false,
                spin_blessing: !collected,
                open_sound: !collected,
                open_and_collect: true,
            }
        },
        ChestSecretType::Item => ChestInteraction {
            locked_message: false,
            searched_message: collected,
            spin_blessing: false,
            open_sound: !collected,
            open_and_collect: true,
        },
    }
}

/// A player opens a secret chest of this type, found before or not: a locked
/// blessing chest only says so; otherwise the chest opens and is collected,
/// with its sound and, for a blessing, the spinning head the first time, and a
/// searched item chest says so.
pub fn chest_interaction(chest_type: ChestSecretType, collected: bool) -> (r: ChestInteraction)
    ensures
        r == spec_chest_interaction(chest_type, collected),
{
    match chest_type {
        ChestSecretType::Blessing { locked } => if locked {
            ChestInteraction {
                locked_message: true,
                searched_message: false,
                spin_blessing: false,
                open_sound: false,
                open_and_collect: false,
            }
        } else {
            ChestInteraction {
                locked_message: false,
                searched_message: false,
                spin_blessing: !collected,
                open_sound: !collected,
                open_and_collect: true,
            }
        },
        ChestSecretType::Item => ChestInteraction {
            locked_message: false,
            searched_message: collected,
            spin_blessing: false,
            open_sound: !collected,
            open_and_collect: true,
        },
    }
}

/// What the spinning essence or blessing head does `ticks` ticks after it
/// appeared: every fifth tick a harp note (pitch in hundredths, rising a tenth
/// each time) with a cloud; on the twentieth tick, the orb sound twice.
pub fn essence_spin_tick(ticks: u64) -> (r: (Option<u64>, bool))
    requires
        ticks <= 0x1000_0000,
    ensures
        r.0 == (if ticks % 5 == 0 {
            Some((80 + 10 * (ticks / 5)) as u64)
        } else {
            None::<u64>
        }),
        r.1 == (ticks == 20),
{
    let harp = if ticks % 5 == 0 {
        Some(80 + 10 * (ticks / 5))
    } else {
        None
    };
    (harp, ticks == 20)
}

/// The indices `k` among the first `n` for which `pick(k)` holds, in order.
pub open spec fn spec_indices_where(pick: spec_fn(int) -> bool, n: nat) -> Seq<usize>
    decreases n,
{
    if n == 0 {
        seq![]
    } else {
        let k = (n - 1) as nat;
        spec_indices_where(pick, k) + if pick(k as int) {
            seq![k as usize]
        } else {
            seq![]
        }
    }
}

pub open spec fn entered_now(rooms: Seq<Room>, entered: Seq<bool>) -> spec_fn(int) -> bool {
    |k: int| !entered[k] && rooms[k].players@.len() > 0
}

/// Marks the rooms entered for the first time, those not entered before with
/// a player inside now, and gives them by index, in order.
pub fn update_room_entered(rooms: &Vec<Room>, entered: &mut Vec<bool>) -> (r: Vec<usize>)
    requires
        rooms@.len() == old(entered)@.len(),
    ensures
        r@ == spec_indices_where(entered_now(rooms@, old(entered)@), rooms@.len()),
        final(entered)@.len() == old(entered)@.len(),
        forall|k: int|
            0 <= k < rooms@.len() ==> #[trigger] final(entered)@[k] == (old(entered)@[k] || rooms@[k].players@.len()
                > 0),
{
    let ghost before = entered@;
    let mut r: Vec<usize> = Vec::new();
    let mut i: usize = 0;
    while i < rooms.len()
        invariant
            i <= rooms@.len(),
            rooms@.len() == before.len(),
            entered@.len() == before.len(),
            r@ == spec_indices_where(entered_now(rooms@, before), i as nat),
            forall|k: int| 0 <= k < i ==> #[trigger] entered@[k] == (before[k] || rooms@[k].players@.len() > 0),
            forall|k: int| i <= k < before.len() ==> #[trigger] entered@[k] == before[k],
        decreases rooms@.len() - i,
    {
        if !entered[i] && rooms[i].players.len() > 0 {
            r.push(i);
            entered.set(i, true);
        }
        i = i + 1;
        assert(r@ =~= spec_indices_where(entered_now(rooms@, before), i as nat));
    }
    r
}

pub open spec fn spawns_on_enter(placements: Seq<SecretPlacement>, spawned: Seq<bool>) -> spec_fn(int) -> bool {
    |k: int| !spawned[k] && placements[k].spawn == SecretSpawn::RoomEnter
}

/// The secrets of a room that appear now that it was entered: those that
/// appear on entering their room and have not appeared yet, by index.
pub fn secrets_spawned_on_enter(placements: &Vec<SecretPlacement>, spawned: &Vec<bool>) -> (r: Vec<usize>)
    requires
        placements@.len() == spawned@.len(),
    ensures
        r@ == spec_indices_where(spawns_on_enter(placements@, spawned@), placements@.len()),
{
    let mut r: Vec<usize> = Vec::new();
    let mut i: usize = 0;
    while i < placements.len()
        invariant
            i <= placements@.len(),
            placements@.len() == spawned@.len(),
            r@ == spec_indices_where(spawns_on_enter(placements@, spawned@), i as nat),
        decreases placements@.len() - i,
    {
        if !spawned[i] && placements[i].spawn == SecretSpawn::RoomEnter {
            r.push(i);
        }
        i = i + 1;
        assert(r@ =~= spec_indices_where(spawns_on_enter(placements@, spawned@), i as nat));
    }
    r
}

} // verus!
