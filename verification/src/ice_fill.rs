use vstd::prelude::*;
use std::collections::HashMap;
use rand::rngs::StdRng;

use crate::geometry::{pos_in_range, BlockPos};
use crate::room::{spec_relative_to_world, Room};
use crate::rng::choose_index;

verus! {

/// The three ice layers of the puzzle, in the room's own frame: a rectangle of
/// blocks at one height, `(y, x0, x1, z0, z1)`, and one more block south of its
/// middle, where the layer is left.
pub open spec fn spec_layer_rect(layer: int) -> (int, int, int, int, int) {
    if layer == 0 {
        (69, 14, 16, 7, 9)
    } else if layer == 1 {
        (70, 13, 17, 12, 16)
    } else {
        (71, 12, 18, 19, 25)
    }
}

/// `p` is an ice block of layer `layer`.
pub open spec fn in_layer(layer: int, p: BlockPos) -> bool {
    let (y, x0, x1, z0, z1) = spec_layer_rect(layer);
    p.y == y && ((x0 <= p.x <= x1 && z0 <= p.z <= z1) || (p.x == 15 && p.z == z1 + 1))
}

/// The obstacle blocks of each layer, in the room's own frame.
pub open spec fn spec_obstacles(layer: int) -> Seq<BlockPos> {
    if layer == 0 {
        seq![BlockPos { x: 14, y: 70, z: 7 }, BlockPos { x: 16, y: 70, z: 9 }]
    } else if layer == 1 {
        seq![
            BlockPos { x: 15, y: 71, z: 13 },
            BlockPos { x: 17, y: 71, z: 12 },
            BlockPos { x: 17, y: 71, z: 16 },
            BlockPos { x: 17, y: 71, z: 15 },
            BlockPos { x: 16, y: 71, z: 16 },
            BlockPos { x: 14, y: 71, z: 15 },
        ]
    } else {
        seq![
            BlockPos { x: 14, y: 72, z: 19 },
            BlockPos { x: 14, y: 72, z: 20 },
            BlockPos { x: 16, y: 72, z: 21 },
            BlockPos { x: 16, y: 72, z: 22 },
            BlockPos { x: 17, y: 72, z: 22 },
            BlockPos { x: 16, y: 72, z: 25 },
            BlockPos { x: 13, y: 72, z: 24 },
            BlockPos { x: 14, y: 72, z: 24 },
        ]
    }
}

/// The ice blocks of layer `layer`, row by row and then the last block.
pub fn layer_blocks(layer: usize) -> (r: Vec<BlockPos>)
    requires
        layer < 3,
    ensures
        r@.no_duplicates(),
        forall|p: BlockPos| r@.contains(p) <==> in_layer(layer as int, p),
        forall|i: int| 0 <= i < r@.len() ==> pos_in_range(#[trigger] r@[i]),
{
    let (y, x0, x1, z0, z1): (i32, i32, i32, i32, i32) = if layer == 0 {
        (69, 14, 16, 7, 9)
    } else if layer == 1 {
        (70, 13, 17, 12, 16)
    } else {
        (71, 12, 18, 19, 25)
    };
    let mut r: Vec<BlockPos> = Vec::new();
    let mut z: i32 = z0;
    while z <= z1
        invariant
            z0 <= z <= z1 + 1,
            (y as int, x0 as int, x1 as int, z0 as int, z1 as int) == spec_layer_rect(layer as int),
            r@.no_duplicates(),
            forall|p: BlockPos|
                r@.contains(p) <==> (p.y == y && x0 <= p.x <= x1 && z0 <= p.z < z),
            forall|i: int| 0 <= i < r@.len() ==> pos_in_range(#[trigger] r@[i]),
        decreases z1 + 1 - z,
    {
        let mut x: i32 = x0;
        while x <= x1
            invariant
                z0 <= z <= z1,
                x0 <= x <= x1 + 1,
                (y as int, x0 as int, x1 as int, z0 as int, z1 as int) == spec_layer_rect(layer as int),
                r@.no_duplicates(),
                forall|p: BlockPos|
                    r@.contains(p) <==> (p.y == y && ((x0 <= p.x <= x1 && z0 <= p.z < z) || (
                    p.z == z && x0 <= p.x < x))),
                forall|i: int| 0 <= i < r@.len() ==> pos_in_range(#[trigger] r@[i]),
            decreases x1 + 1 - x,
        {
            let p = BlockPos::new(x, y, z);
            assert(!r@.contains(p));
            let ghost before = r@;
            r.push(p);
            assert forall|q: BlockPos| r@.contains(q) <==> (q.y == y && ((x0 <= q.x <= x1 && z0 <= q.z
                < z) || (q.z == z && x0 <= q.x < x + 1))) by {
                if r@.contains(q) && q != p {
                    let k = choose|k: int| 0 <= k < r@.len() && r@[k] == q;
                    assert(before[k] == q);
                }
                if q == p {
                    assert(r@[r@.len() - 1] == p);
                }
                if before.contains(q) {
                    let k = choose|k: int| 0 <= k < before.len() && before[k] == q;
                    assert(r@[k] == q);
                }
            }
            x = x + 1;
        }
        z = z + 1;
    }
    let p = BlockPos::new(15, y, z1 + 1);
    assert(!r@.contains(p));
    let ghost before = r@;
    r.push(p);
    assert forall|q: BlockPos| r@.contains(q) <==> in_layer(layer as int, q) by {
        if r@.contains(q) && q != p {
            let k = choose|k: int| 0 <= k < r@.len() && r@[k] == q;
            assert(before[k] == q);
        }
        if q == p {
            assert(r@[r@.len() - 1] == p);
        }
        if before.contains(q) {
            let k = choose|k: int| 0 <= k < before.len() && before[k] == q;
            assert(r@[k] == q);
        }
    }
    r
}

/// How many obstacle layouts layer `layer` can be given.
pub fn obstacle_option_count(layer: usize) -> (r: usize)
    requires
        layer < 3,
    ensures
        r == 1,
{
    1
}

/// Obstacle layout `option` of layer `layer`.
pub fn obstacle_option(layer: usize, option: usize) -> (r: Vec<BlockPos>)
    requires
        layer < 3,
        option < 1,
    ensures
        r@ == spec_obstacles(layer as int),
{
    let r = if layer == 0 {
        vec![BlockPos::new(14, 70, 7), BlockPos::new(16, 70, 9)]
    } else if layer == 1 {
        vec![
            BlockPos::new(15, 71, 13),
            BlockPos::new(17, 71, 12),
            BlockPos::new(17, 71, 16),
            BlockPos::new(17, 71, 15),
            BlockPos::new(16, 71, 16),
            BlockPos::new(14, 71, 15),
        ]
    } else {
        vec![
            BlockPos::new(14, 72, 19),
            BlockPos::new(14, 72, 20),
            BlockPos::new(16, 72, 21),
            BlockPos::new(16, 72, 22),
            BlockPos::new(17, 72, 22),
            BlockPos::new(16, 72, 25),
            BlockPos::new(13, 72, 24),
            BlockPos::new(14, 72, 24),
        ]
    };
    assert(r@ =~= spec_obstacles(layer as int));
    r
}

/// Why a player failed the layer.
#[derive(Clone, Copy, Debug, PartialEq, Eq, Structural)]
pub enum IceMessage {
    /// `§cDon't move diagonally! Bad!`
    Diagonal,
    /// `§cOops! You stepped on the wrong block!`
    WrongBlock,
}

/// Ticks before a failed layer is laid out again.
pub const RESPAWN_TICKS: usize = 60;

/// A tick of a failed layer's countdown: the ticks left after it, or `None`
/// when the layer is laid out again now.
pub open spec fn spec_respawn_tick(in_ticks: usize) -> Option<usize> {
    if in_ticks <= 1 {
        None
    } else {
        Some((in_ticks - 1) as usize)
    }
}

/// The countdown after `k` ticks from `in_ticks`; `None` once the layer is
/// back.
pub open spec fn spec_respawn_after(in_ticks: usize, k: nat) -> Option<usize>
    decreases k,
{
    if k == 0 {
        Some(in_ticks)
    } else {
        match spec_respawn_after(in_ticks, (k - 1) as nat) {
            Some(t) => spec_respawn_tick(t),
            None => None,
        }
    }
}

/// A failed layer comes back after exactly `RESPAWN_TICKS` ticks of its
/// room: the countdown runs for 59 ticks and the 60th lays the layer out
/// again.
pub proof fn lemma_failed_layer_respawns(k: nat)
    requires
        k <= RESPAWN_TICKS,
    ensures
        k < RESPAWN_TICKS ==> spec_respawn_after(RESPAWN_TICKS, k) == Some((RESPAWN_TICKS - k) as usize),
        k == RESPAWN_TICKS ==> spec_respawn_after(RESPAWN_TICKS, k) is None,
    decreases k,
{
    if k > 0 {
        lemma_failed_layer_respawns((k - 1) as nat);
    }
}

/// One tick, in a discovered room, of a puzzle whose layer failed: the
/// countdown goes on, or on its last tick layer `current_layer` is laid out
/// again; the layer number and the obstacle layouts stay.
pub open spec fn respawn_step(a: IceFillPuzzle, b: IceFillPuzzle, room: &Room) -> bool {
    a.layer matches Layer::Respawning { in_ticks } && {
        &&& b.current_layer == a.current_layer
        &&& b.obstacles@ == a.obstacles@
        &&& match spec_respawn_tick(in_ticks) {
            None => spawned_layer(
                b.layer,
                room,
                a.current_layer as int,
                a.obstacles@[a.current_layer as int]@,
            ),
            Some(t) => b.layer == (Layer::Respawning { in_ticks: t }),
        }
    }
}

/// The countdown of a failed layer, `i` ticks in.
proof fn lemma_countdown(states: Seq<IceFillPuzzle>, room: &Room, i: int)
    requires
        states.len() == RESPAWN_TICKS + 1,
        states[0].layer == (Layer::Respawning { in_ticks: RESPAWN_TICKS }),
        forall|j: int| 0 <= j < RESPAWN_TICKS ==> #[trigger] respawn_step(states[j], states[j + 1], room),
        0 <= i < RESPAWN_TICKS,
    ensures
        states[i].layer == (Layer::Respawning { in_ticks: (RESPAWN_TICKS - i) as usize }),
        states[i].current_layer == states[0].current_layer,
        states[i].obstacles@ == states[0].obstacles@,
    decreases i,
{
    if i > 0 {
        let j = i - 1;
        lemma_countdown(states, room, j);
        assert(respawn_step(states[j], states[j + 1], room));
        assert(j + 1 == i);
    }
}

/// A failed layer comes back whole: from the moment a wrong step starts the
/// countdown, the puzzle, ticking in its discovered room, counts down for 59
/// ticks, and on the 60th lays out the same layer again, with all its ice,
/// its obstacles and nothing walked yet.
pub proof fn lemma_failed_layer_comes_back(states: Seq<IceFillPuzzle>, room: &Room)
    requires
        states.len() == RESPAWN_TICKS + 1,
        states[0].layer == (Layer::Respawning { in_ticks: RESPAWN_TICKS }),
        forall|j: int| 0 <= j < RESPAWN_TICKS ==> #[trigger] respawn_step(states[j], states[j + 1], room),
    ensures
        forall|i: int|
            0 <= i < RESPAWN_TICKS ==> (#[trigger] states[i]).layer == (Layer::Respawning {
                in_ticks: (RESPAWN_TICKS - i) as usize,
            }),
        states[RESPAWN_TICKS as int].current_layer == states[0].current_layer,
        spawned_layer(
            states[RESPAWN_TICKS as int].layer,
            room,
            states[0].current_layer as int,
            states[0].obstacles@[states[0].current_layer as int]@,
        ),
{
    assert forall|i: int| 0 <= i < RESPAWN_TICKS implies (#[trigger] states[i]).layer == (Layer::Respawning {
        in_ticks: (RESPAWN_TICKS - i) as usize,
    }) by {
        lemma_countdown(states, room, i);
    }
    let last: int = RESPAWN_TICKS - 1;
    lemma_countdown(states, room, last);
    assert(respawn_step(states[last], states[last + 1], room));
}

/// What a tick of the puzzle asks of the world.
pub enum IceFillOutcome {
    Nothing,
    /// Layer `layer` is cleared: its chime plays, and the next layer is laid
    /// out unless it was the last, which completes the puzzle.
    LayerDone { layer: usize, puzzle_complete: bool },
    /// The layer failed: its ice melts away and its obstacles fall.
    Failed { ice: Vec<BlockPos>, obstacles: Vec<BlockPos> },
    /// The failed layer is laid out again.
    Respawned,
}

/// A tick's effects: the blocks turned to packed ice, the player told why
/// the layer failed, and the outcome.
pub struct IceFillTick {
    pub placed: Vec<BlockPos>,
    pub message: Option<(u64, IceMessage)>,
    pub outcome: IceFillOutcome,
}

/// The state of the current layer.
pub enum Layer {
    Inactive,
    Active {
        /// Every ice block of the layer, in the world.
        ice: Vec<BlockPos>,
        /// Its obstacle blocks, in the world.
        obstacles: Vec<BlockPos>,
        /// The ice blocks still to be walked over.
        remaining_ice_blocks: Vec<BlockPos>,
        /// The last ice block each player stood on.
        tracked_positions: HashMap<u64, BlockPos>,
    },
    Respawning { in_ticks: usize },
}

/// The ice-fill puzzle: three layers of ice, each to be walked over once,
/// block by block, around its obstacles.
pub struct IceFillPuzzle {
    pub current_layer: usize,
    pub layer: Layer,
    /// The obstacle layout picked for each layer, in the room's own frame.
    pub obstacles: Vec<Vec<BlockPos>>,
}

pub open spec fn spec_world(room: &Room, p: BlockPos) -> BlockPos {
    spec_relative_to_world(room.rotation, room.corner, p)
}

/// The block above `p`.
pub open spec fn above(p: BlockPos) -> BlockPos {
    BlockPos { x: p.x, y: (p.y + 1) as i32, z: p.z }
}

/// `layer` is layer `cur` freshly laid out by `room`, with `rel` its obstacles
/// in the room's frame: all its ice, its obstacles, the ice without an
/// obstacle on top still to walk over, and no player's last block known.
pub open spec fn spawned_layer(layer: Layer, room: &Room, cur: int, rel: Seq<BlockPos>) -> bool {
    layer matches Layer::Active { ice, obstacles, remaining_ice_blocks, tracked_positions } && {
        &&& forall|p: BlockPos|
            ice@.contains(p) <==> exists|q: BlockPos|
                in_layer(cur, q) && #[trigger] spec_world(room, q) == p
        &&& obstacles@ == rel.map_values(|q: BlockPos| spec_world(room, q))
        &&& forall|p: BlockPos|
            remaining_ice_blocks@.contains(p) <==> exists|q: BlockPos|
                in_layer(cur, q) && !rel.contains(above(q)) && #[trigger] spec_world(room, q) == p
        &&& tracked_positions@ == Map::<u64, BlockPos>::empty()
        &&& ice@.no_duplicates()
        &&& remaining_ice_blocks@.no_duplicates()
    }
}

pub open spec fn spec_abs(v: int) -> int {
    if v < 0 {
        -v
    } else {
        v
    }
}

/// Steps between two blocks along the axes.
pub open spec fn manhattan(a: BlockPos, b: BlockPos) -> int {
    spec_abs(a.x - b.x) + spec_abs(a.y - b.y) + spec_abs(a.z - b.z)
}

/// The players, one after the other, walking over the active layer: those off
/// the ice or still on their last block are passed over; a diagonal step or a
/// step onto a block already walked fails the layer; a good step turns the
/// block to packed ice, and the last such step clears the layer.
/// The result: whether the layer was cleared or failed (if either), the
/// blocks still to walk, the players' last blocks, the blocks turned, and the
/// player told why the layer failed.
pub open spec fn spec_walk(
    ice: Seq<BlockPos>,
    remaining: Seq<BlockPos>,
    last_blocks: Map<u64, BlockPos>,
    players: Seq<(u64, BlockPos)>,
) -> (Option<bool>, Seq<BlockPos>, Map<u64, BlockPos>, Seq<BlockPos>, Option<(u64, IceMessage)>)
    decreases players.len(),
{
    if players.len() == 0 {
        (None, remaining, last_blocks, seq![], None)
    } else {
        let id = players[0].0;
        let pos = players[0].1;
        let rest = players.drop_first();
        if !ice.contains(pos) {
            spec_walk(ice, remaining, last_blocks, rest)
        } else if last_blocks.contains_key(id) && last_blocks[id] == pos {
            spec_walk(ice, remaining, last_blocks, rest)
        } else if last_blocks.contains_key(id) && manhattan(pos, last_blocks[id]) > 1 {
            (Some(false), remaining, last_blocks, seq![], Some((id, IceMessage::Diagonal)))
        } else {
            let t = last_blocks.insert(id, pos);
            if !remaining.contains(pos) {
                (Some(false), remaining, t, seq![], Some((id, IceMessage::WrongBlock)))
            } else {
                let r = remaining.remove_value(pos);
                if r.len() == 0 {
                    (Some(true), r, t, seq![pos], None)
                } else {
                    let w = spec_walk(ice, r, t, rest);
                    (w.0, w.1, w.2, seq![pos] + w.3, w.4)
                }
            }
        }
    }
}

/// Walking never invents ice: the blocks turned and the blocks still to walk
/// are, together, exactly the blocks that were to walk; and a cleared layer has
/// none left.
pub proof fn lemma_walk_keeps_ice(
    ice: Seq<BlockPos>,
    remaining: Seq<BlockPos>,
    last_blocks: Map<u64, BlockPos>,
    players: Seq<(u64, BlockPos)>,
)
    ensures
        ({
            let w = spec_walk(ice, remaining, last_blocks, players);
            &&& (w.3 + w.1).to_multiset() == remaining.to_multiset()
            &&& w.0 == Some(true) ==> w.1.len() == 0
            &&& forall|k: int| 0 <= k < w.3.len() ==> ice.contains(#[trigger] w.3[k])
        }),
    decreases players.len(),
{
    broadcast use vstd::seq_lib::group_to_multiset_ensures;

    let w = spec_walk(ice, remaining, last_blocks, players);
    if players.len() == 0 {
        assert(w.3 + w.1 =~= remaining);
    } else {
        let id = players[0].0;
        let pos = players[0].1;
        let rest = players.drop_first();
        if !ice.contains(pos) || (last_blocks.contains_key(id) && last_blocks[id] == pos) {
            lemma_walk_keeps_ice(ice, remaining, last_blocks, rest);
        } else if last_blocks.contains_key(id) && manhattan(pos, last_blocks[id]) > 1 {
            assert(w.3 + w.1 =~= remaining);
        } else {
            let t = last_blocks.insert(id, pos);
            if !remaining.contains(pos) {
                assert(w.3 + w.1 =~= remaining);
            } else {
                let r = remaining.remove_value(pos);
                let i = remaining.index_of_first(pos)->0;
                remaining.index_of_first_ensures(pos);
                assert(r == remaining.remove(i));
                assert(r.to_multiset() == remaining.to_multiset().remove(pos));
                if r.len() == 0 {
                    vstd::seq_lib::lemma_multiset_commutative(seq![pos], r);
                } else {
                    let v = spec_walk(ice, r, t, rest);
                    lemma_walk_keeps_ice(ice, r, t, rest);
                    assert(w.3 + w.1 =~= seq![pos] + (v.3 + v.1));
                    vstd::seq_lib::lemma_multiset_commutative(seq![pos], v.3 + v.1);
                    assert forall|k: int| 0 <= k < w.3.len() implies ice.contains(#[trigger] w.3[k]) by {
                        if k > 0 {
                            assert(w.3[k] == v.3[k - 1]);
                        }
                    }
                }
                assert(seq![pos].to_multiset() =~= vstd::multiset::Multiset::empty().insert(pos)) by {
                    assert(seq![pos] =~= Seq::<BlockPos>::empty().push(pos));
                }
                assert(remaining.to_multiset().count(pos) > 0);
            }
        }
    }
}

proof fn lemma_remove_value_distinct(s: Seq<BlockPos>, x: BlockPos)
    requires
        s.no_duplicates(),
        s.contains(x),
    ensures
        s.remove_value(x).no_duplicates(),
        !s.remove_value(x).contains(x),
        forall|y: BlockPos| y != x ==> (s.remove_value(x).contains(y) <==> s.contains(y)),
{
    let i = s.index_of_first(x)->0;
    s.index_of_first_ensures(x);
    let r = s.remove(i);
    assert(s.remove_value(x) == r);
    assert forall|a: int, b: int| 0 <= a < b < r.len() implies r[a] != r[b] by {
        let a2 = if a < i { a } else { a + 1 };
        let b2 = if b < i { b } else { b + 1 };
        assert(r[a] == s[a2] && r[b] == s[b2]);
    }
    if r.contains(x) {
        let j = choose|j: int| 0 <= j < r.len() && r[j] == x;
        let j2 = if j < i { j } else { j + 1 };
        assert(s[j2] == x && s[i] == x);
    }
    assert forall|y: BlockPos| y != x implies (r.contains(y) <==> s.contains(y)) by {
        if r.contains(y) {
            let j = choose|j: int| 0 <= j < r.len() && r[j] == y;
            let j2 = if j < i { j } else { j + 1 };
            assert(s[j2] == y);
        }
        if s.contains(y) {
            let j = choose|j: int| 0 <= j < s.len() && s[j] == y;
            if j < i {
                assert(r[j] == y);
            } else {
                assert(j != i);
                assert(r[j - 1] == y);
            }
        }
    }
}

/// Walking keeps the blocks still to walk free of repeats, and a block walked
/// over is no longer among them.
pub proof fn lemma_walk_keeps_distinct(
    ice: Seq<BlockPos>,
    remaining: Seq<BlockPos>,
    last_blocks: Map<u64, BlockPos>,
    players: Seq<(u64, BlockPos)>,
)
    requires
        remaining.no_duplicates(),
    ensures
        ({
            let w = spec_walk(ice, remaining, last_blocks, players);
            &&& w.1.no_duplicates()
            &&& forall|k: int| 0 <= k < w.3.len() ==> !w.1.contains(#[trigger] w.3[k])
        }),
    decreases players.len(),
{
    if players.len() > 0 {
        let id = players[0].0;
        let pos = players[0].1;
        let rest = players.drop_first();
        if !ice.contains(pos) || (last_blocks.contains_key(id) && last_blocks[id] == pos) {
            lemma_walk_keeps_distinct(ice, remaining, last_blocks, rest);
        } else if last_blocks.contains_key(id) && manhattan(pos, last_blocks[id]) > 1 {
        } else {
            let t = last_blocks.insert(id, pos);
            if remaining.contains(pos) {
                let r = remaining.remove_value(pos);
                lemma_remove_value_distinct(remaining, pos);
                if r.len() != 0 {
                    lemma_walk_keeps_distinct(ice, r, t, rest);
                    lemma_walk_keeps_ice(ice, r, t, rest);
                    let w = spec_walk(ice, remaining, last_blocks, players);
                    let v = spec_walk(ice, r, t, rest);
                    assert forall|k: int| 0 <= k < w.3.len() implies !w.1.contains(#[trigger] w.3[k]) by {
                        if k == 0 {
                            broadcast use vstd::seq_lib::group_to_multiset_ensures;
                            assert(w.3[0] == pos);
                            if v.1.contains(pos) {
                                assert((v.3 + v.1).contains(pos)) by {
                                    let j = choose|j: int| 0 <= j < v.1.len() && v.1[j] == pos;
                                    assert((v.3 + v.1)[v.3.len() + j] == pos);
                                }
                                assert((v.3 + v.1).to_multiset().count(pos) > 0);
                                assert(r.to_multiset().count(pos) > 0);
                            }
                        } else {
                            assert(w.3[k] == v.3[k - 1]);
                        }
                    }
                }
            }
        }
    }
}

pub open spec fn after_placed(
    placed: Seq<BlockPos>,
    w: (Option<bool>, Seq<BlockPos>, Map<u64, BlockPos>, Seq<BlockPos>, Option<(u64, IceMessage)>),
) -> (Option<bool>, Seq<BlockPos>, Map<u64, BlockPos>, Seq<BlockPos>, Option<(u64, IceMessage)>) {
    (w.0, w.1, w.2, placed + w.3, w.4)
}

fn contains_pos(v: &Vec<BlockPos>, p: BlockPos) -> (r: bool)
    ensures
        r == v@.contains(p),
{
    let mut i: usize = 0;
    while i < v.len()
        invariant
            i <= v@.len(),
            forall|k: int| 0 <= k < i ==> v@[k] != p,
        decreases v@.len() - i,
    {
        if v[i] == p {
            assert(v@[i as int] == p);
            return true;
        }
        i = i + 1;
    }
    false
}

fn remove_pos(v: &mut Vec<BlockPos>, p: BlockPos)
    requires
        old(v)@.contains(p),
    ensures
        final(v)@ == old(v)@.remove_value(p),
{
    let mut i: usize = 0;
    while i < v.len()
        invariant
            i <= v@.len(),
            v@ == old(v)@,
            v@.contains(p),
            forall|k: int| 0 <= k < i ==> v@[k] != p,
        decreases v@.len() - i,
    {
        if v[i] == p {
            assert(v@.index_of_first(p) == Some(i as int)) by {
                v@.index_of_first_ensures(p);
            }
            v.remove(i);
            return;
        }
        i = i + 1;
    }
    proof {
        let k = choose|k: int| 0 <= k < v@.len() && v@[k] == p;
    }
}

/// Walks the players over an active layer; see `spec_walk`.
fn walk(
    ice: &Vec<BlockPos>,
    remaining: &mut Vec<BlockPos>,
    last_blocks: &mut HashMap<u64, BlockPos>,
    players: &Vec<(u64, BlockPos)>,
    placed: &mut Vec<BlockPos>,
) -> (r: (Option<bool>, Option<(u64, IceMessage)>))
    ensures
        ({
            let w = spec_walk(ice@, old(remaining)@, old(last_blocks)@, players@);
            &&& r.0 == w.0
            &&& final(remaining)@ == w.1
            &&& final(last_blocks)@ == w.2
            &&& final(placed)@ == old(placed)@ + w.3
            &&& r.1 == w.4
        }),
{
    broadcast use vstd::std_specs::hash::group_hash_axioms;

    let ghost whole = spec_walk(ice@, remaining@, last_blocks@, players@);
    let ghost placed0 = placed@;
    let mut i: usize = 0;
    assert(players@.skip(0) =~= players@);
    assert(seq![] + whole.3 =~= whole.3);
    while i < players.len()
        invariant
            i <= players@.len(),
            placed@.len() >= placed0.len(),
            whole == spec_walk(ice@, old(remaining)@, old(last_blocks)@, players@),
            placed0 == old(placed)@,
            placed@.subrange(0, placed0.len() as int) == placed0,
            whole == after_placed(
                placed@.skip(placed0.len() as int),
                spec_walk(ice@, remaining@, last_blocks@, players@.skip(i as int)),
            ),
        decreases players@.len() - i,
    {
        let ghost suffix = players@.skip(i as int);
        assert(suffix.drop_first() =~= players@.skip(i + 1));
        let (id, pos) = players[i];
        assert(suffix[0] == (id, pos));
        let ghost done = placed@.skip(placed0.len() as int);
        if !contains_pos(ice, pos) {
            i = i + 1;
            continue;
        }
        match last_blocks.get(&id) {
            Some(last) => {
                let last = *last;
                if last == pos {
                    i = i + 1;
                    continue;
                }
                let dx: i64 = pos.x as i64 - last.x as i64;
                let dy: i64 = pos.y as i64 - last.y as i64;
                let dz: i64 = pos.z as i64 - last.z as i64;
                let ax: i64 = if dx < 0 { -dx } else { dx };
                let ay: i64 = if dy < 0 { -dy } else { dy };
                let az: i64 = if dz < 0 { -dz } else { dz };
                if ax + ay + az > 1 {
                    assert(placed@ =~= placed0 + done);
                    assert(ice@.contains(pos));
                    assert(last_blocks@.contains_key(id) && last_blocks@[id] == last);
                    assert(manhattan(pos, last) > 1);
                    assert(spec_walk(ice@, remaining@, last_blocks@, suffix) == (Some(false), remaining@, last_blocks@, Seq::<BlockPos>::empty(), Some((id, IceMessage::Diagonal))));
                    assert(done + Seq::<BlockPos>::empty() =~= done);
                    return (Some(false), Some((id, IceMessage::Diagonal)));
                }
            },
            None => {},
        }
        last_blocks.insert(id, pos);
        if !contains_pos(remaining, pos) {
            assert(placed@ =~= placed0 + done);
            assert(done + Seq::<BlockPos>::empty() =~= done);
            return (Some(false), Some((id, IceMessage::WrongBlock)));
        }
        remove_pos(remaining, pos);
        placed.push(pos);
        assert(placed@.skip(placed0.len() as int) =~= done.push(pos));
        assert(placed@.subrange(0, placed0.len() as int) =~= placed0);
        if remaining.len() == 0 {
            assert(placed@ =~= placed0 + done + seq![pos]);
            return (Some(true), None);
        }
        proof {
            let w = spec_walk(ice@, remaining@, last_blocks@, players@.skip(i + 1));
            assert(done.push(pos) + w.3 =~= done + (seq![pos] + w.3));
        }
        i = i + 1;
    }
    assert(placed@ =~= placed0 + placed@.skip(placed0.len() as int));
    assert(placed@.skip(placed0.len() as int) + seq![] =~= placed@.skip(placed0.len() as int));
    (None, None)
}

impl IceFillPuzzle {
    pub open spec fn wf(&self) -> bool {
        &&& self.obstacles@.len() == 3
        &&& self.current_layer <= 3
        &&& forall|i: int, k: int|
            0 <= i < 3 && 0 <= k < self.obstacles@[i]@.len() ==> pos_in_range(
                #[trigger] self.obstacles@[i]@[k],
            )
        &&& match self.layer {
            Layer::Respawning { in_ticks } => in_ticks >= 1 && self.current_layer < 3,
            Layer::Active { ice, remaining_ice_blocks, .. } => ice@.no_duplicates()
                && remaining_ice_blocks@.no_duplicates(),
            _ => true,
        }
    }

    /// A fresh puzzle with an obstacle layout picked at random for each layer.
    pub fn new(rng: &mut StdRng) -> (r: IceFillPuzzle)
        ensures
            r.wf(),
            r.current_layer == 0,
            r.layer is Inactive,
            forall|i: int| 0 <= i < 3 ==> (#[trigger] r.obstacles@[i])@ == spec_obstacles(i),
    {
        let mut obstacles: Vec<Vec<BlockPos>> = Vec::new();
        let mut layer: usize = 0;
        while layer < 3
            invariant
                layer <= 3,
                obstacles@.len() == layer,
                forall|i: int| 0 <= i < layer ==> (#[trigger] obstacles@[i])@ == spec_obstacles(i),
            decreases 3 - layer,
        {
            let count = obstacle_option_count(layer);
            let mut options: Vec<usize> = Vec::new();
            let mut k: usize = 0;
            while k < count
                invariant
                    k <= count,
                    count == 1,
                    options@.len() == k,
                    forall|j: int| 0 <= j < k ==> options@[j] == j,
                decreases count - k,
            {
                options.push(k);
                k = k + 1;
            }
            let chosen = match choose_index(&options, rng) {
                Some(option) => obstacle_option(layer, option),
                None => Vec::new(),
            };
            obstacles.push(chosen);
            layer = layer + 1;
        }
        let r = IceFillPuzzle { current_layer: 0, layer: Layer::Inactive, obstacles };
        assert forall|i: int, k: int|
            0 <= i < 3 && 0 <= k < r.obstacles@[i]@.len() implies pos_in_range(
                #[trigger] r.obstacles@[i]@[k],
            ) by {
            assert(r.obstacles@[i]@ == spec_obstacles(i));
        }
        r
    }

    /// Lays out the current layer in the world: its ice, its obstacles and the
    /// ice blocks to walk over (those without an obstacle on top), with nobody
    /// last_blocks yet.
    pub fn spawn_active_layer(&mut self, room: &Room)
        requires
            old(self).wf(),
            old(self).current_layer < 3,
            pos_in_range(room.corner),
        ensures
            final(self).current_layer == old(self).current_layer,
            final(self).obstacles@ == old(self).obstacles@,
            final(self).wf(),
            spawned_layer(final(self).layer, room, old(self).current_layer as int, old(self).obstacles@[old(self).current_layer as int]@),
    {
        let cur = self.current_layer;
        let layer = layer_blocks(cur);
        let ghost rel = self.obstacles@[cur as int]@;
        let mut ice: Vec<BlockPos> = Vec::new();
        let mut remaining: Vec<BlockPos> = Vec::new();
        let mut i: usize = 0;
        while i < layer.len()
            invariant
                i <= layer@.len(),
                self.obstacles@.len() == 3,
                cur < 3,
                rel == self.obstacles@[cur as int]@,
                pos_in_range(room.corner),
                forall|k: int| 0 <= k < layer@.len() ==> pos_in_range(#[trigger] layer@[k]),
                ice@.no_duplicates(),
                remaining@.no_duplicates(),
                forall|p: BlockPos|
                    ice@.contains(p) <==> exists|k: int|
                        0 <= k < i && #[trigger] spec_world(room, layer@[k]) == p,
                forall|p: BlockPos|
                    remaining@.contains(p) <==> exists|k: int|
                        0 <= k < i && !rel.contains(above(layer@[k])) && #[trigger] spec_world(
                            room,
                            layer@[k],
                        ) == p,
            decreases layer@.len() - i,
        {
            let block = layer[i];
            let position = room.relative_to_world(block);
            let up = BlockPos { x: block.x, y: block.y + 1, z: block.z };
            let mut blocked = false;
            let mut k: usize = 0;
            while k < self.obstacles[cur].len()
                invariant
                    self.obstacles@.len() == 3,
                    cur < 3,
                    rel == self.obstacles@[cur as int]@,
                    k <= rel.len(),
                    blocked == rel.subrange(0, k as int).contains(up),
                decreases rel.len() - k,
            {
                if self.obstacles[cur][k] == up {
                    blocked = true;
                }
                proof {
                    let s0 = rel.subrange(0, k as int);
                    let s1 = rel.subrange(0, k + 1);
                    assert(s1 =~= s0.push(rel[k as int]));
                    if s1.contains(up) && !s0.contains(up) {
                        let j = choose|j: int| 0 <= j < s1.len() && s1[j] == up;
                        if j < k {
                            assert(s0[j] == up);
                        }
                    }
                    if s0.contains(up) {
                        let j = choose|j: int| 0 <= j < s0.len() && s0[j] == up;
                        assert(s1[j] == up);
                    }
                    if rel[k as int] == up {
                        assert(s1[k as int] == up);
                    }
                }
                k = k + 1;
            }
            assert(rel.subrange(0, rel.len() as int) =~= rel);
            assert(up == above(block));
            let ghost ice_before = ice@;
            let ghost rem_before = remaining@;
            if !blocked && !contains_pos(&remaining, position) {
                remaining.push(position);
            }
            if !contains_pos(&ice, position) {
                ice.push(position);
            }
            proof {
                assert forall|p: BlockPos| ice@.contains(p) <==> exists|k: int|
                    0 <= k < i + 1 && #[trigger] spec_world(room, layer@[k]) == p by {
                    if p == position {
                        assert(ice@.contains(p)) by {
                            if ice@.len() > ice_before.len() {
                                assert(ice@[ice@.len() - 1] == p);
                            }
                        }
                        assert(spec_world(room, layer@[i as int]) == p);
                    } else {
                        if ice@.contains(p) {
                            let j = choose|j: int| 0 <= j < ice@.len() && ice@[j] == p;
                            assert(ice_before[j] == p);
                        }
                        if ice_before.contains(p) {
                            let j = choose|j: int| 0 <= j < ice_before.len() && ice_before[j] == p;
                            assert(ice@[j] == p);
                        }
                    }
                }
                assert forall|p: BlockPos| remaining@.contains(p) <==> exists|k: int|
                    0 <= k < i + 1 && !rel.contains(above(layer@[k])) && #[trigger] spec_world(
                        room,
                        layer@[k],
                    ) == p by {
                    if p == position && !blocked {
                        assert(remaining@.contains(p)) by {
                            if remaining@.len() > rem_before.len() {
                                assert(remaining@[remaining@.len() - 1] == p);
                            }
                        }
                        assert(spec_world(room, layer@[i as int]) == p);
                    } else {
                        if remaining@.contains(p) {
                            let j = choose|j: int| 0 <= j < remaining@.len() && remaining@[j] == p;
                            assert(rem_before[j] == p);
                        }
                        if rem_before.contains(p) {
                            let j = choose|j: int| 0 <= j < rem_before.len() && rem_before[j] == p;
                            assert(remaining@[j] == p);
                        }
                    }
                }
            }
            i = i + 1;
        }
        let mut obstacles: Vec<BlockPos> = Vec::new();
        let mut k: usize = 0;
        while k < self.obstacles[cur].len()
            invariant
                self.obstacles@.len() == 3,
                cur < 3,
                rel == self.obstacles@[cur as int]@,
                k <= rel.len(),
                pos_in_range(room.corner),
                forall|i: int, k: int|
                    0 <= i < 3 && 0 <= k < self.obstacles@[i]@.len() ==> pos_in_range(
                        #[trigger] self.obstacles@[i]@[k],
                    ),
                obstacles@ == rel.subrange(0, k as int).map_values(|q: BlockPos| spec_world(room, q)),
            decreases rel.len() - k,
        {
            let o = room.relative_to_world(self.obstacles[cur][k]);
            obstacles.push(o);
            assert(obstacles@ =~= rel.subrange(0, k + 1).map_values(|q: BlockPos| spec_world(room, q)));
            k = k + 1;
        }
        assert(rel.subrange(0, rel.len() as int) =~= rel);
        proof {
            assert forall|p: BlockPos| ice@.contains(p) <==> exists|q: BlockPos|
                in_layer(cur as int, q) && #[trigger] spec_world(room, q) == p by {
                if ice@.contains(p) {
                    let j = choose|j: int| 0 <= j < layer@.len() && #[trigger] spec_world(room, layer@[j]) == p;
                    assert(layer@.contains(layer@[j]));
                    assert(in_layer(cur as int, layer@[j]));
                }
                if exists|q: BlockPos| in_layer(cur as int, q) && #[trigger] spec_world(room, q) == p {
                    let q = choose|q: BlockPos| in_layer(cur as int, q) && #[trigger] spec_world(room, q) == p;
                    assert(layer@.contains(q));
                    let j = choose|j: int| 0 <= j < layer@.len() && layer@[j] == q;
                    assert(spec_world(room, layer@[j]) == p);
                }
            }
            assert forall|p: BlockPos| remaining@.contains(p) <==> exists|q: BlockPos|
                in_layer(cur as int, q) && !rel.contains(above(q)) && #[trigger] spec_world(room, q) == p by {
                if remaining@.contains(p) {
                    let j = choose|j: int| 0 <= j < layer@.len() && !rel.contains(above(layer@[j])) && #[trigger] spec_world(room, layer@[j]) == p;
                    assert(layer@.contains(layer@[j]));
                    assert(in_layer(cur as int, layer@[j]));
                }
                if exists|q: BlockPos| in_layer(cur as int, q) && !rel.contains(above(q)) && #[trigger] spec_world(room, q) == p {
                    let q = choose|q: BlockPos| in_layer(cur as int, q) && !rel.contains(above(q)) && #[trigger] spec_world(room, q) == p;
                    assert(layer@.contains(q));
                    let j = choose|j: int| 0 <= j < layer@.len() && layer@[j] == q;
                    assert(spec_world(room, layer@[j]) == p);
                }
            }
        }
        self.layer = Layer::Active {
            ice,
            obstacles,
            remaining_ice_blocks: remaining,
            tracked_positions: HashMap::new(),
        };
    }

    /// One tick of the puzzle in a room found by `discovered` players at the
    /// given blocks (each the block under a player's feet).
    pub fn tick(&mut self, discovered: bool, room: &Room, players: &Vec<(u64, BlockPos)>) -> (r: IceFillTick)
        requires
            old(self).wf(),
            pos_in_range(room.corner),
            discovered && old(self).layer is Active ==> old(self).current_layer < 3,
        ensures
            final(self).wf(),
            final(self).obstacles@ == old(self).obstacles@,
            discovered && old(self).layer is Respawning ==> respawn_step(*old(self), *final(self), room),
            !discovered ==> {
                &&& final(self).layer == old(self).layer
                &&& final(self).current_layer == old(self).current_layer
                &&& r.placed@.len() == 0
                &&& r.message is None
                &&& r.outcome is Nothing
            },
            discovered ==> match old(self).layer {
                Layer::Inactive => {
                    &&& final(self).layer is Inactive
                    &&& final(self).current_layer == old(self).current_layer
                    &&& r.placed@.len() == 0
                    &&& r.message is None
                    &&& r.outcome is Nothing
                },
                Layer::Respawning { in_ticks } => {
                    &&& final(self).current_layer == old(self).current_layer
                    &&& r.placed@.len() == 0
                    &&& r.message is None
                    &&& match spec_respawn_tick(in_ticks) {
                        None => {
                            &&& spawned_layer(
                                final(self).layer,
                                room,
                                old(self).current_layer as int,
                                old(self).obstacles@[old(self).current_layer as int]@,
                            )
                            &&& r.outcome is Respawned
                        },
                        Some(t) => {
                            &&& final(self).layer == (Layer::Respawning { in_ticks: t })
                            &&& r.outcome is Nothing
                        },
                    }
                },
                Layer::Active { ice, obstacles, remaining_ice_blocks, tracked_positions } => {
                    let w = spec_walk(ice@, remaining_ice_blocks@, tracked_positions@, players@);
                    let cur = old(self).current_layer;
                    &&& r.placed@ == w.3
                    &&& r.message == w.4
                    &&& match w.0 {
                        None => {
                            &&& final(self).current_layer == cur
                            &&& r.outcome is Nothing
                            &&& final(self).layer matches Layer::Active {
                                ice: i2,
                                obstacles: o2,
                                remaining_ice_blocks: r2,
                                tracked_positions: t2,
                            } && i2@ == ice@ && o2@ == obstacles@ && r2@ == w.1 && t2@ == w.2
                        },
                        Some(false) => {
                            &&& final(self).current_layer == cur
                            &&& final(self).layer == (Layer::Respawning { in_ticks: RESPAWN_TICKS })
                            &&& r.outcome matches IceFillOutcome::Failed { ice: fi, obstacles: fo }
                                && fi@ == ice@ && fo@ == obstacles@
                        },
                        Some(true) => {
                            &&& final(self).current_layer == cur + 1
                            &&& r.outcome matches IceFillOutcome::LayerDone { layer, puzzle_complete }
                                && layer == cur && puzzle_complete == (cur + 1 == 3)
                            &&& cur + 1 == 3 ==> (final(self).layer matches Layer::Active {
                                ice: i2,
                                obstacles: o2,
                                remaining_ice_blocks: r2,
                                tracked_positions: t2,
                            } && i2@ == ice@ && o2@ == obstacles@ && r2@ == w.1 && t2@ == w.2)
                            &&& cur + 1 < 3 ==> spawned_layer(
                                final(self).layer,
                                room,
                                cur + 1,
                                old(self).obstacles@[cur + 1]@,
                            )
                        },
                    }
                },
            },
    {
        if !discovered {
            return IceFillTick { placed: Vec::new(), message: None, outcome: IceFillOutcome::Nothing };
        }
        let mut layer = Layer::Inactive;
        std::mem::swap(&mut layer, &mut self.layer);
        match layer {
            Layer::Inactive => {
                self.layer = Layer::Inactive;
                IceFillTick { placed: Vec::new(), message: None, outcome: IceFillOutcome::Nothing }
            },
            Layer::Respawning { in_ticks } => {
                let t = in_ticks - 1;
                if t == 0 {
                    self.spawn_active_layer(room);
                    IceFillTick { placed: Vec::new(), message: None, outcome: IceFillOutcome::Respawned }
                } else {
                    self.layer = Layer::Respawning { in_ticks: t };
                    IceFillTick { placed: Vec::new(), message: None, outcome: IceFillOutcome::Nothing }
                }
            },
            Layer::Active { ice, obstacles, remaining_ice_blocks, tracked_positions } => {
                let mut remaining_ice_blocks = remaining_ice_blocks;
                let mut tracked_positions = tracked_positions;
                let mut placed: Vec<BlockPos> = Vec::new();
                proof {
                    lemma_walk_keeps_distinct(ice@, remaining_ice_blocks@, tracked_positions@, players@);
                }
                let (result, message) = walk(
                    &ice,
                    &mut remaining_ice_blocks,
                    &mut tracked_positions,
                    players,
                    &mut placed,
                );
                assert(Seq::<BlockPos>::empty() + placed@ =~= placed@);
                match result {
                    None => {
                        self.layer = Layer::Active {
                            ice,
                            obstacles,
                            remaining_ice_blocks,
                            tracked_positions,
                        };
                        IceFillTick { placed, message, outcome: IceFillOutcome::Nothing }
                    },
                    Some(false) => {
                        self.layer = Layer::Respawning { in_ticks: RESPAWN_TICKS };
                        IceFillTick { placed, message, outcome: IceFillOutcome::Failed { ice, obstacles } }
                    },
                    Some(true) => {
                        let done = self.current_layer;
                        self.current_layer = done + 1;
                        if self.current_layer == 3 {
                            self.layer = Layer::Active {
                                ice,
                                obstacles,
                                remaining_ice_blocks,
                                tracked_positions,
                            };
                            IceFillTick {
                                placed,
                                message,
                                outcome: IceFillOutcome::LayerDone { layer: done, puzzle_complete: true },
                            }
                        } else {
                            self.spawn_active_layer(room);
                            IceFillTick {
                                placed,
                                message,
                                outcome: IceFillOutcome::LayerDone { layer: done, puzzle_complete: false },
                            }
                        }
                    },
                }
            },
        }
    }
}

pub open spec fn spec_gate_block(i: int) -> BlockPos {
    BlockPos { x: (13 + i / 6) as i32, y: (74 + i % 6) as i32, z: 27 }
}

/// The world blocks of the completed puzzle's gate (they become barriers, each
/// with a moving iron-bars block).
pub fn completion_gate(room: &Room) -> (r: Vec<BlockPos>)
    requires
        pos_in_range(room.corner),
    ensures
        r@.len() == 30,
        forall|i: int| 0 <= i < 30 ==> #[trigger] r@[i] == spec_world(room, spec_gate_block(i)),
{
    let mut r: Vec<BlockPos> = Vec::new();
    let mut x: i32 = 13;
    while x <= 17
        invariant
            13 <= x <= 18,
            pos_in_range(room.corner),
            r@.len() == 6 * (x - 13),
            forall|i: int| 0 <= i < r@.len() ==> #[trigger] r@[i] == spec_world(room, spec_gate_block(i)),
        decreases 18 - x,
    {
        let mut y: i32 = 74;
        while y <= 79
            invariant
                13 <= x <= 17,
                74 <= y <= 80,
                pos_in_range(room.corner),
                r@.len() == 6 * (x - 13) + (y - 74),
                forall|i: int| 0 <= i < r@.len() ==> #[trigger] r@[i] == spec_world(room, spec_gate_block(i)),
            decreases 80 - y,
        {
            let block = room.relative_to_world(BlockPos::new(x, y, 27));
            proof {
                let i = r@.len() as int;
                assert(i / 6 == x - 13 && i % 6 == y - 74) by (nonlinear_arith)
                    requires
                        i == 6 * (x - 13) + (y - 74),
                        74 <= y <= 79,
                ;
            }
            r.push(block);
            y = y + 1;
        }
        x = x + 1;
    }
    r
}

/// Where the completed puzzle's click sound plays from: the block `(14, 74, 27)`
/// of the room.
pub fn completion_sound_block(room: &Room) -> (r: BlockPos)
    requires
        pos_in_range(room.corner),
    ensures
        r == spec_world(room, BlockPos { x: 14, y: 74, z: 27 }),
{
    room.relative_to_world(BlockPos::new(14, 74, 27))
}

} // verus!
