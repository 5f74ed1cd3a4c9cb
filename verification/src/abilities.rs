use vstd::prelude::*;

use crate::room_data::RoomType;
use vstd::string::StringExecFns;

use crate::geometry::BlockPos;
use crate::text::{push_decimal, spec_decimal};

verus! {

/// A cooldown on an item's ability, in server ticks (20 a second).
#[derive(Clone, Copy, Debug, PartialEq, Eq, Structural)]
pub struct Cooldown {
    pub ticks_remaining: usize,
    /// Whether running out of the cooldown goes unannounced.
    pub silent: bool,
}

impl Cooldown {
    pub fn from_ticks(ticks: usize, silent: bool) -> (r: Cooldown)
        ensures
            r == (Cooldown { ticks_remaining: ticks, silent }),
    {
        Cooldown { ticks_remaining: ticks, silent }
    }

    pub fn from_seconds(seconds: usize, silent: bool) -> (r: Cooldown)
        requires
            seconds * 20 <= usize::MAX,
        ensures
            r == (Cooldown { ticks_remaining: (seconds * 20) as usize, silent }),
    {
        Cooldown { ticks_remaining: seconds * 20, silent }
    }
}

/// A sound of the tactical insertion.
#[derive(Clone, Copy, Debug, PartialEq, Eq, Structural)]
pub enum AbilitySound {
    ZombieRemedy,
    NoteHat,
}

/// The sound the tactical insertion makes on its `ticks_active`-th tick, with
/// its volume and pitch in hundredths.
pub open spec fn spec_tactical_cue(ticks_active: usize) -> Option<(AbilitySound, u32, u32)> {
    if ticks_active == 1 {
        Some((AbilitySound::ZombieRemedy, 100, 75))
    } else if ticks_active == 2 {
        Some((AbilitySound::ZombieRemedy, 100, 110))
    } else if ticks_active == 10 {
        Some((AbilitySound::NoteHat, 80, 120))
    } else if ticks_active == 20 {
        Some((AbilitySound::NoteHat, 85, 135))
    } else if ticks_active == 30 {
        Some((AbilitySound::NoteHat, 85, 145))
    } else if ticks_active == 40 {
        Some((AbilitySound::NoteHat, 90, 155))
    } else if ticks_active == 50 {
        Some((AbilitySound::NoteHat, 100, 170))
    } else if ticks_active == 61 {
        Some((AbilitySound::ZombieRemedy, 70, 190))
    } else if ticks_active == 63 {
        Some((AbilitySound::ZombieRemedy, 60, 175))
    } else if ticks_active == 66 {
        Some((AbilitySound::ZombieRemedy, 50, 155))
    } else {
        None
    }
}

/// Ticks that the tactical insertion stays active.
pub const TACTICAL_INSERTION_DURATION: usize = 70;

/// The tick on which the tactical insertion sends its player back.
pub const TACTICAL_INSERTION_RETURN_TICK: usize = 60;

/// What the tactical insertion does on its `ticks_active`-th tick: the sound it
/// plays, if any (volume and pitch in hundredths), and whether it sends its
/// player back to where it was used.
pub fn tactical_insertion_tick(ticks_active: usize) -> (r: (Option<(AbilitySound, u32, u32)>, bool))
    ensures
        r.0 == spec_tactical_cue(ticks_active),
        r.1 == (ticks_active == TACTICAL_INSERTION_RETURN_TICK),
{
    let cue = if ticks_active == 1 {
        Some((AbilitySound::ZombieRemedy, 100, 75))
    } else if ticks_active == 2 {
        Some((AbilitySound::ZombieRemedy, 100, 110))
    } else if ticks_active == 10 {
        Some((AbilitySound::NoteHat, 80, 120))
    } else if ticks_active == 20 {
        Some((AbilitySound::NoteHat, 85, 135))
    } else if ticks_active == 30 {
        Some((AbilitySound::NoteHat, 85, 145))
    } else if ticks_active == 40 {
        Some((AbilitySound::NoteHat, 90, 155))
    } else if ticks_active == 50 {
        Some((AbilitySound::NoteHat, 100, 170))
    } else if ticks_active == 61 {
        Some((AbilitySound::ZombieRemedy, 70, 190))
    } else if ticks_active == 63 {
        Some((AbilitySound::ZombieRemedy, 60, 175))
    } else if ticks_active == 66 {
        Some((AbilitySound::ZombieRemedy, 50, 155))
    } else {
        None
    };
    (cue, ticks_active == TACTICAL_INSERTION_RETURN_TICK)
}

/// What using the tactical insertion comes to.
pub enum TacticalUse {
    /// It is on cooldown: the player is told for how many more seconds.
    OnCooldown { message: String },
    /// It marks the player's place, and goes on cooldown for twenty seconds.
    Activate { cooldown: Cooldown },
}

pub open spec fn spec_cooldown_message(ticks_remaining: usize) -> Seq<char> {
    "§cThis ability is on cooldown for "@ + spec_decimal((ticks_remaining / 20) as nat) + "s."@
}

/// The tactical insertion.
#[derive(Clone, Copy, Debug, PartialEq, Eq, Structural)]
pub struct TacticalInsertion;

impl TacticalInsertion {
    /// Using the tactical insertion with the cooldown it is on, if any.
    pub fn on_interact(&self, cooldown: Option<Cooldown>) -> (r: TacticalUse)
        ensures
            match cooldown {
                Some(cd) => r matches TacticalUse::OnCooldown { message } && message@ == spec_cooldown_message(
                    cd.ticks_remaining,
                ),
                None => r == (TacticalUse::Activate {
                    cooldown: Cooldown { ticks_remaining: 400, silent: false },
                }),
            },
    {
        match cooldown {
            Some(cd) => {
                let mut message = String::from_str("§cThis ability is on cooldown for ");
                push_decimal(&mut message, (cd.ticks_remaining / 20) as u64);
                message.append("s.");
                proof {
                    reveal_strlit("§cThis ability is on cooldown for ");
                    reveal_strlit("s.");
                }
                assert(message@ =~= spec_cooldown_message(cd.ticks_remaining));
                TacticalUse::OnCooldown { message }
            },
            None => TacticalUse::Activate { cooldown: Cooldown::from_seconds(20, false) },
        }
    }
}

/// Block ids (block state over 16) that a player can warp into and through.
pub open spec fn spec_is_valid_ether_warp_block(id: usize) -> bool {
    id == 0 || id == 6 || id == 9 || id == 11 || id == 30 || id == 31 || id == 32 || id == 36
        || id == 37 || id == 38 || id == 39 || id == 40 || id == 50 || id == 51 || id == 55 || id
        == 59 || id == 65 || id == 66 || id == 69 || id == 76 || id == 77 || id == 78 || id == 93
        || id == 94 || id == 104 || id == 105 || id == 106 || id == 111 || id == 115 || id == 131
        || id == 132 || id == 140 || id == 141 || id == 142 || id == 143 || id == 144 || id == 149
        || id == 150 || id == 157 || id == 171 || id == 175
}

pub fn is_valid_ether_warp_block(id: usize) -> (r: bool)
    ensures
        r == spec_is_valid_ether_warp_block(id),
{
    match id {
        0 | 6 | 9 | 11 | 30 | 31 | 32 | 36 | 37 | 38 | 39 | 40 | 50 | 51 | 55 | 59 | 65 | 66 | 69
        | 76 | 77 | 78 | 93 | 94 | 104 | 105 | 106 | 111 | 115 | 131 | 132 | 140 | 141 | 142
        | 143 | 144 | 149 | 150 | 157 | 171 | 175 => true,
        _ => false,
    }
}

/// A player fits at a block when it and the block above are both passable
/// (given by their block states).
pub open spec fn spec_fits(state: u16, above: u16) -> bool {
    spec_is_valid_ether_warp_block((state >> 4u16) as usize) && spec_is_valid_ether_warp_block(
        (above >> 4u16) as usize,
    )
}

pub fn fits(state: u16, above: u16) -> (r: bool)
    ensures
        r == spec_fits(state, above),
{
    is_valid_ether_warp_block((state >> 4u16) as usize) && is_valid_ether_warp_block(
        (above >> 4u16) as usize,
    )
}

/// A block the ether-warp ray passes: the block, its state and the states of
/// the two blocks above it.
pub type RayBlock = (BlockPos, u16, u16, u16);

/// Most blocks the ether-warp ray looks at.
pub const ETHER_WARP_MAX_STEPS: usize = 1000;

/// Where the ether warp lands, from block `i` of the ray on: on the first
/// solid block, if the player fits on top of it; nowhere if the ray reaches
/// its end first.
pub open spec fn spec_ether_target(ray: Seq<RayBlock>, end: BlockPos, i: int) -> Option<BlockPos>
    decreases ray.len() - i,
{
    if i < 0 || i >= ray.len() {
        None
    } else if !spec_is_valid_ether_warp_block((ray[i].1 >> 4u16) as usize) {
        if spec_fits(ray[i].2, ray[i].3) {
            Some(ray[i].0)
        } else {
            None
        }
    } else if ray[i].0 == end {
        None
    } else {
        spec_ether_target(ray, end, i + 1)
    }
}

/// The ray's block `i` is solid: the player cannot pass through it.
pub open spec fn solid_at(ray: Seq<RayBlock>, i: int) -> bool {
    !spec_is_valid_ether_warp_block((ray[i].1 >> 4u16) as usize)
}

/// The two blocks above the ray's block `i` are both passable, so the player
/// fits standing on it.
pub open spec fn room_above(ray: Seq<RayBlock>, i: int) -> bool {
    spec_is_valid_ether_warp_block((ray[i].2 >> 4u16) as usize) && spec_is_valid_ether_warp_block(
        (ray[i].3 >> 4u16) as usize,
    )
}

/// The ray gets to its block `i`: every block before it is passable and
/// none of them is where the ray ends.
pub open spec fn ray_reaches(ray: Seq<RayBlock>, end: BlockPos, i: int) -> bool {
    forall|k: int| 0 <= k < i ==> !solid_at(ray, k) && ray[k].0 != end
}

proof fn lemma_ether_from(ray: Seq<RayBlock>, end: BlockPos, j: int)
    requires
        0 <= j <= ray.len(),
        ray_reaches(ray, end, j),
    ensures
        ({
            let r = spec_ether_target(ray, end, j);
            &&& forall|i: int|
                j <= i < ray.len() && solid_at(ray, i) && #[trigger] ray_reaches(ray, end, i) ==> r == (if room_above(
                    ray,
                    i,
                ) {
                    Some(ray[i].0)
                } else {
                    None
                })
            &&& r is Some ==> exists|i: int|
                j <= i < ray.len() && solid_at(ray, i) && #[trigger] ray_reaches(ray, end, i) && room_above(ray, i)
                    && r == Some(ray[i].0)
        }),
    decreases ray.len() - j,
{
    if j < ray.len() {
        if solid_at(ray, j) {
            assert forall|i: int|
                j <= i < ray.len() && solid_at(ray, i) && #[trigger] ray_reaches(ray, end, i) implies i == j by {
                if i > j {
                    assert(!solid_at(ray, j));
                }
            }
            assert(spec_fits(ray[j].2, ray[j].3) == room_above(ray, j));
        } else if ray[j].0 == end {
            assert forall|i: int|
                j <= i < ray.len() && solid_at(ray, i) && #[trigger] ray_reaches(ray, end, i) implies false by {
                if i > j {
                    assert(ray[j].0 != end);
                }
            }
        } else {
            assert(ray_reaches(ray, end, j + 1));
            lemma_ether_from(ray, end, j + 1);
        }
    }
}

/// The ether warp lands on the first solid block its ray meets before it
/// ends, when the player fits on top of it (both blocks above passable);
/// it lands nowhere if that block leaves no room above it, and it lands
/// only ever on such a block.
pub proof fn lemma_ether_warp_lands_on_first_solid(ray: Seq<RayBlock>, end: BlockPos)
    ensures
        forall|i: int|
            0 <= i < ray.len() && solid_at(ray, i) && #[trigger] ray_reaches(ray, end, i) ==> spec_ether_target(
                ray,
                end,
                0,
            ) == (if room_above(ray, i) {
                Some(ray[i].0)
            } else {
                None
            }),
        spec_ether_target(ray, end, 0) is Some ==> exists|i: int|
            0 <= i < ray.len() && solid_at(ray, i) && #[trigger] ray_reaches(ray, end, i) && room_above(ray, i)
                && spec_ether_target(ray, end, 0) == Some(ray[i].0),
{
    lemma_ether_from(ray, end, 0);
}

/// The block the ether warp lands on, given the blocks its ray passes in
/// order (of which it looks at the first thousand) and the block where the
/// ray ends.
pub fn ether_warp_target(ray: &Vec<RayBlock>, end: BlockPos) -> (r: Option<BlockPos>)
    ensures
        r == spec_ether_target(
            ray@.take(if ray@.len() < ETHER_WARP_MAX_STEPS { ray@.len() as int } else { ETHER_WARP_MAX_STEPS as int }),
            end,
            0,
        ),
{
    let n: usize = if ray.len() < ETHER_WARP_MAX_STEPS { ray.len() } else { ETHER_WARP_MAX_STEPS };
    let ghost seen = ray@.take(n as int);
    let mut i: usize = 0;
    while i < n
        invariant
            i <= n,
            n <= ray@.len(),
            n as int == (if ray@.len() < ETHER_WARP_MAX_STEPS { ray@.len() as int } else { ETHER_WARP_MAX_STEPS as int }),
            seen == ray@.take(n as int),
            spec_ether_target(seen, end, 0) == spec_ether_target(seen, end, i as int),
        decreases n - i,
    {
        let (position, state, above, above2) = ray[i];
        assert(seen[i as int] == ray@[i as int]);
        if !is_valid_ether_warp_block((state >> 4u16) as usize) {
            if fits(above, above2) {
                return Some(position);
            } else {
                return None;
            }
        }
        if position == end {
            return None;
        }
        i = i + 1;
    }
    None
}

/// A point of the instant-transmission ray: the block it falls in, and the
/// states of that block and the one above.
pub type TransmissionStep = (BlockPos, u16, u16);

/// Where instant transmission lands and whether a block was in the way, going
/// on from step `i` with the last block looked at and the landing so far:
/// points in the block last looked at are passed over, the first block the
/// player does not fit in stops the ray, any other becomes the landing.
pub open spec fn spec_transmission(
    steps: Seq<TransmissionStep>,
    i: int,
    last: BlockPos,
    landing: Option<BlockPos>,
) -> (Option<BlockPos>, bool)
    decreases steps.len() - i,
{
    if i < 1 || i >= steps.len() {
        (landing, false)
    } else if steps[i].0 == last {
        spec_transmission(steps, i + 1, last, landing)
    } else if !spec_fits(steps[i].1, steps[i].2) {
        (landing, true)
    } else {
        spec_transmission(steps, i + 1, steps[i].0, Some(steps[i].0))
    }
}

/// The player fits at step `i` of the ray: its block and the block above
/// are both passable.
pub open spec fn fits_at(steps: Seq<TransmissionStep>, i: int) -> bool {
    spec_is_valid_ether_warp_block((steps[i].1 >> 4u16) as usize) && spec_is_valid_ether_warp_block(
        (steps[i].2 >> 4u16) as usize,
    )
}

/// Step `i` of the ray enters a block the step before it was not in.
pub open spec fn new_block_at(steps: Seq<TransmissionStep>, i: int) -> bool {
    steps[i].0 != steps[i - 1].0
}

/// The ray ends at `e`: every new block before it fits the player, and `e`
/// is either the end of the ray or a new block the player does not fit in.
pub open spec fn ray_end(steps: Seq<TransmissionStep>, e: int) -> bool {
    &&& 1 <= e <= steps.len()
    &&& e == steps.len() || (new_block_at(steps, e) && !fits_at(steps, e))
    &&& forall|k: int| 1 <= k < e && #[trigger] new_block_at(steps, k) ==> fits_at(steps, k)
}

/// Where the player lands if the ray ends at `e`: the block of the last step
/// before it, once the ray has entered a new block; else the first block if
/// the player fits there, and nowhere otherwise.
pub open spec fn landing_before(steps: Seq<TransmissionStep>, e: int) -> Option<BlockPos> {
    if exists|k: int| 1 <= k < e && #[trigger] new_block_at(steps, k) {
        Some(steps[e - 1].0)
    } else if fits_at(steps, 0) {
        Some(steps[0].0)
    } else {
        None
    }
}

proof fn lemma_transmission_from(steps: Seq<TransmissionStep>, i: int, landing: Option<BlockPos>)
    requires
        1 <= i <= steps.len(),
        forall|k: int| 1 <= k < i && #[trigger] new_block_at(steps, k) ==> fits_at(steps, k),
        landing == landing_before(steps, i),
    ensures
        ({
            let r = spec_transmission(steps, i, steps[i - 1].0, landing);
            &&& r.1 <==> exists|j: int| i <= j < steps.len() && #[trigger] new_block_at(steps, j) && !fits_at(steps, j)
            &&& exists|e: int| i <= e && #[trigger] ray_end(steps, e)
            &&& forall|e: int| i <= e && #[trigger] ray_end(steps, e) ==> r.0 == landing_before(steps, e)
        }),
    decreases steps.len() - i,
{
    let r = spec_transmission(steps, i, steps[i - 1].0, landing);
    if i == steps.len() {
        assert(ray_end(steps, i));
    } else if steps[i].0 == steps[i - 1].0 {
        assert(!new_block_at(steps, i));
        assert forall|k: int| 1 <= k < i + 1 && #[trigger] new_block_at(steps, k) implies fits_at(steps, k) by {}
        assert(landing_before(steps, i + 1) == landing_before(steps, i)) by {
            if exists|k: int| 1 <= k < i + 1 && #[trigger] new_block_at(steps, k) {
                let k = choose|k: int| 1 <= k < i + 1 && #[trigger] new_block_at(steps, k);
                assert(k < i);
            }
        }
        lemma_transmission_from(steps, i + 1, landing);
        assert(r == spec_transmission(steps, i + 1, steps[i].0, landing));
        assert forall|e: int| i <= e && #[trigger] ray_end(steps, e) implies r.0 == landing_before(steps, e) by {
            if e == i {
                assert(!new_block_at(steps, i));
            }
        }
        if exists|j: int| i <= j < steps.len() && #[trigger] new_block_at(steps, j) && !fits_at(steps, j) {
            let j = choose|j: int| i <= j < steps.len() && #[trigger] new_block_at(steps, j) && !fits_at(steps, j);
            assert(j != i);
        }
    } else if !fits_at(steps, i) {
        assert(new_block_at(steps, i));
        assert(ray_end(steps, i));
        assert forall|e: int| i <= e && #[trigger] ray_end(steps, e) implies r.0 == landing_before(steps, e) by {
            if e > i {
                assert(new_block_at(steps, i));
            }
        }
    } else {
        assert(new_block_at(steps, i));
        assert forall|k: int| 1 <= k < i + 1 && #[trigger] new_block_at(steps, k) implies fits_at(steps, k) by {}
        assert(landing_before(steps, i + 1) == Some(steps[i].0));
        lemma_transmission_from(steps, i + 1, Some(steps[i].0));
        assert(r == spec_transmission(steps, i + 1, steps[i].0, Some(steps[i].0)));
        assert forall|e: int| i <= e && #[trigger] ray_end(steps, e) implies r.0 == landing_before(steps, e) by {
            if e == i {
                assert(fits_at(steps, i));
            }
        }
        if exists|j: int| i <= j < steps.len() && #[trigger] new_block_at(steps, j) && !fits_at(steps, j) {
            let j = choose|j: int| i <= j < steps.len() && #[trigger] new_block_at(steps, j) && !fits_at(steps, j);
            assert(j != i);
        }
    }
}

/// Instant transmission moves the player along its ray through new blocks
/// it fits in, judged by the block and the block above it: the ray stops (and
/// reports a block in the way) exactly when it reaches a new block the
/// player does not fit in, and then at the first such block; the player lands
/// in the block of the last step before the ray ends, once it has entered a
/// new block, and otherwise stays in the first block if it fits there.
pub proof fn lemma_transmission_lands_where_the_player_fits(steps: Seq<TransmissionStep>)
    requires
        steps.len() >= 1,
    ensures
        ({
            let r = spec_transmission(
                steps,
                1,
                steps[0].0,
                if spec_fits(steps[0].1, steps[0].2) { Some(steps[0].0) } else { None },
            );
            &&& r.1 <==> exists|j: int| 1 <= j < steps.len() && #[trigger] new_block_at(steps, j) && !fits_at(steps, j)
            &&& exists|e: int| #[trigger] ray_end(steps, e)
            &&& forall|e: int| #[trigger] ray_end(steps, e) ==> r.0 == landing_before(steps, e)
        }),
{
    assert(spec_fits(steps[0].1, steps[0].2) == fits_at(steps, 0));
    lemma_transmission_from(
        steps,
        1,
        if spec_fits(steps[0].1, steps[0].2) { Some(steps[0].0) } else { None },
    );
}

/// Instant transmission over the points of its ray, in order from the eyes of
/// the player: the first point's block is looked at, and is the landing if the
/// player fits there; then each new block on the way, until one is in the way.
pub fn instant_transmission(steps: &Vec<TransmissionStep>) -> (r: (Option<BlockPos>, bool))
    requires
        steps@.len() >= 1,
    ensures
        r == spec_transmission(
            steps@,
            1,
            steps@[0].0,
            if spec_fits(steps@[0].1, steps@[0].2) { Some(steps@[0].0) } else { None },
        ),
{
    let (first, state, above) = steps[0];
    let mut last_checked = first;
    let mut current_block: Option<BlockPos> = if fits(state, above) { Some(first) } else { None };
    let ghost whole = spec_transmission(steps@, 1, last_checked, current_block);
    let mut i: usize = 1;
    while i < steps.len()
        invariant
            1 <= i <= steps@.len(),
            whole == spec_transmission(steps@, 1, steps@[0].0, if spec_fits(steps@[0].1, steps@[0].2) { Some(steps@[0].0) } else { None }),
            whole == spec_transmission(steps@, i as int, last_checked, current_block),
        decreases steps@.len() - i,
    {
        let (block_pos, state, above) = steps[i];
        if block_pos == last_checked {
            i = i + 1;
            continue;
        }
        if !fits(state, above) {
            return (current_block, true);
        }
        last_checked = block_pos;
        current_block = Some(block_pos);
        i = i + 1;
    }
    (current_block, false)
}

/// Ticks after which a block broken with the dungeon breaker comes back.
pub const BROKEN_BLOCK_TICKS: usize = 200;

/// Starting to dig a block with the dungeon breaker: it breaks the block (and
/// uses a charge) only when the run has started, a charge is left, the
/// pickaxe is held, the player is in a room, the block with a margin around
/// it lies wholly inside that room, and the block is not bedrock. Gives the
/// charges left when it broke the block; the block comes back after
/// `BROKEN_BLOCK_TICKS`.
pub fn dungeon_breaker_dig(
    start_destroy: bool,
    started: bool,
    charges: usize,
    holding_pickaxe: bool,
    in_room: bool,
    inside_room: bool,
    is_bedrock: bool,
) -> (r: Option<usize>)
    ensures
        r == (if start_destroy && started && charges != 0 && holding_pickaxe && in_room && inside_room
            && !is_bedrock {
            Some((charges - 1) as usize)
        } else {
            None::<usize>
        }),
{
    if !start_destroy {
        return None;
    }
    if !started || charges == 0 {
        return None;
    }
    if holding_pickaxe {
        if !in_room {
            return None;
        }
        if inside_room {
            if is_bedrock {
                return None;
            }
            return Some(charges - 1);
        }
    }
    None
}

/// Instant transmission cannot be used from inside a trap or puzzle room.
pub fn transmission_allowed_from(room_type: Option<RoomType>) -> (r: bool)
    ensures
        r == !(room_type == Some(RoomType::Trap) || room_type == Some(RoomType::Puzzle)),
{
    match room_type {
        Some(RoomType::Trap) | Some(RoomType::Puzzle) => false,
        _ => true,
    }
}

/// Instant transmission does not land a player inside a puzzle room.
pub fn transmission_lands_in(room_type: Option<RoomType>) -> (r: bool)
    ensures
        r == (room_type != Some(RoomType::Puzzle)),
{
    match room_type {
        Some(RoomType::Puzzle) => false,
        _ => true,
    }
}

} // verus!
