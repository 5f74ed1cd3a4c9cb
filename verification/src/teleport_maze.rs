use vstd::prelude::*;

use crate::dungeon::DungeonState;

use rand::rngs::StdRng;

use crate::geometry::{pos_in_range, BlockPos};
use crate::room::{spec_relative_to_world, Room};
use crate::rng::{random_below, shuffle};

verus! {

/// A pad left to pair: the section it lies in, the pad, and the block a player
/// sent to it lands on.
pub type SectionPad = (usize, BlockPos, BlockPos);

/// Which way a player faces after going through a pad.
#[derive(Clone, Copy, Debug, PartialEq, Eq, Structural)]
pub enum TeleportPadRotation {
    /// A fixed yaw, in whole degrees, in the room's own frame.
    Static { yaw: i32 },
    /// Towards the pad that leads to the exit.
    TowardsEnd,
}

/// A pad: stepping on `position` sends the player to `teleports_to`.
#[derive(Clone, Copy, Debug, PartialEq, Eq, Structural)]
pub struct TeleportPad {
    pub position: BlockPos,
    pub teleports_to: BlockPos,
    pub rotate_type: TeleportPadRotation,
}

/// The teleport-pad maze puzzle: its pads and the pad that leads to the exit,
/// first in the room's own frame and, once discovered, in the world.
pub struct TeleportMaze {
    pub teleport_pads: Vec<TeleportPad>,
    pub target: BlockPos,
}

/// The first index at or after `from` whose pad lies in another section than
/// the first pad of `s`.
pub open spec fn first_other_section(s: Seq<SectionPad>, from: int) -> Option<int>
    decreases s.len() - from,
{
    if from < 0 || from >= s.len() {
        None
    } else if s[from].0 != s[0].0 {
        Some(from)
    } else {
        first_other_section(s, from + 1)
    }
}

/// The pads paired two by two from the front. When the next two lie in the same
/// section, the first pad of another section further on takes the second one's
/// place (they swap); when there is none, the pairing fails.
pub open spec fn spec_pair_up(s: Seq<SectionPad>) -> Option<Seq<(SectionPad, SectionPad)>>
    decreases s.len(),
{
    if s.len() < 2 {
        Some(seq![])
    } else {
        let t = if s[0].0 == s[1].0 {
            match first_other_section(s, 2) {
                Some(j) => Some(s.update(1, s[j]).update(j, s[1])),
                None => None,
            }
        } else {
            Some(s)
        };
        match t {
            None => None,
            Some(t) => if t.len() == s.len() {
                match spec_pair_up(t.skip(2)) {
                    None => None,
                    Some(rest) => Some(seq![(t[0], t[1])] + rest),
                }
            } else {
                None
            },
        }
    }
}

/// The two pads that link `a` and `b`: each sends its player to the other's
/// landing block, facing the end.
pub open spec fn linked_pad(from: SectionPad, to: SectionPad) -> TeleportPad {
    TeleportPad {
        position: from.1,
        teleports_to: to.2,
        rotate_type: TeleportPadRotation::TowardsEnd,
    }
}

/// The pads of a list of pairs, two per pair, in order.
pub open spec fn pads_of(pairs: Seq<(SectionPad, SectionPad)>) -> Seq<TeleportPad> {
    Seq::new(
        2 * pairs.len(),
        |i: int|
            if i % 2 == 0 {
                linked_pad(pairs[i / 2].0, pairs[i / 2].1)
            } else {
                linked_pad(pairs[i / 2].1, pairs[i / 2].0)
            },
    )
}

pub open spec fn prepend_pairs(
    done: Seq<(SectionPad, SectionPad)>,
    rest: Option<Seq<(SectionPad, SectionPad)>>,
) -> Option<Seq<(SectionPad, SectionPad)>> {
    match rest {
        None => None,
        Some(r) => Some(done + r),
    }
}

/// The pads of a list of pairs, in order.
pub open spec fn pair_members(pairs: Seq<(SectionPad, SectionPad)>) -> Seq<SectionPad> {
    Seq::new(2 * pairs.len(), |i: int| if i % 2 == 0 { pairs[i / 2].0 } else { pairs[i / 2].1 })
}

/// Pairing an even number of pads, when it succeeds, puts every pad in exactly
/// one pair, and the two pads of a pair always lie in different sections.
pub proof fn lemma_pairs_cross_sections(s: Seq<SectionPad>)
    requires
        s.len() % 2 == 0,
        spec_pair_up(s) is Some,
    ensures
        forall|k: int|
            0 <= k < spec_pair_up(s)->0.len() ==> (#[trigger] spec_pair_up(s)->0[k]).0.0
                != spec_pair_up(s)->0[k].1.0,
        pair_members(spec_pair_up(s)->0).to_multiset() == s.to_multiset(),
    decreases s.len(),
{
    broadcast use vstd::seq_lib::group_to_multiset_ensures;
    broadcast use vstd::multiset::group_multiset_axioms;

    let pairs = spec_pair_up(s)->0;
    if s.len() < 2 {
        assert(s =~= seq![]);
        assert(pair_members(pairs) =~= seq![]);
    } else {
        let t = if s[0].0 == s[1].0 {
            let j = first_other_section(s, 2)->0;
            lemma_first_other_section(s, 2);
            let u = s.update(1, s[j]);
            vstd::seq_lib::to_multiset_update(s, 1, s[j]);
            vstd::seq_lib::to_multiset_update(u, j, s[1]);
            assert(u.update(j, s[1]).to_multiset() =~= s.to_multiset());
            u.update(j, s[1])
        } else {
            s
        };
        assert(t.to_multiset() == s.to_multiset());
        let rest = spec_pair_up(t.skip(2))->0;
        assert(pairs == seq![(t[0], t[1])] + rest);
        lemma_pairs_cross_sections(t.skip(2));
        assert(t =~= seq![t[0], t[1]] + t.skip(2));
        vstd::seq_lib::lemma_multiset_commutative(seq![t[0], t[1]], t.skip(2));
        assert(pair_members(pairs) =~= seq![t[0], t[1]] + pair_members(rest));
        vstd::seq_lib::lemma_multiset_commutative(seq![t[0], t[1]], pair_members(rest));
        assert forall|k: int| 0 <= k < pairs.len() implies (#[trigger] pairs[k]).0.0 != pairs[k].1.0 by {
            if k > 0 {
                assert(pairs[k] == rest[k - 1]);
            }
        }
    }
}

/// What `first_other_section` finds lies in another section, after `from`.
proof fn lemma_first_other_section(s: Seq<SectionPad>, from: int)
    requires
        first_other_section(s, from) is Some,
    ensures
        from <= first_other_section(s, from)->0 < s.len(),
        s[first_other_section(s, from)->0].0 != s[0].0,
    decreases s.len() - from,
{
    if 0 <= from < s.len() && s[from].0 == s[0].0 {
        lemma_first_other_section(s, from + 1);
    }
}

/// Pairs the pads that are left, each with a pad of another section, and
/// returns the pads that link them; `None` where the last pads to pair all lie
/// in one section.
pub fn pair_across_sections(left: Vec<SectionPad>) -> (r: Option<Vec<TeleportPad>>)
    ensures
        match spec_pair_up(left@) {
            None => r is None,
            Some(pairs) => r matches Some(p) && p@ == pads_of(pairs),
        },
{
    let ghost initial = left@;
    let mut remaining = left;
    let mut pads: Vec<TeleportPad> = Vec::new();
    let ghost mut done: Seq<(SectionPad, SectionPad)> = seq![];
    let mut index: usize = 0;
    assert(remaining@.skip(0) =~= initial);
    proof {
        if let Some(all) = spec_pair_up(initial) {
            assert(seq![] + all =~= all);
        }
    }
    while remaining.len() - index >= 2
        invariant
            index <= remaining.len(),
            remaining@.len() == initial.len(),
            initial == left@,
            spec_pair_up(initial) == prepend_pairs(done, spec_pair_up(remaining@.skip(index as int))),
            pads@ == pads_of(done),
        decreases remaining.len() - index,
    {
        let ghost suffix = remaining@.skip(index as int);
        assert(suffix[0] == remaining@[index as int] && suffix[1] == remaining@[index + 1]);
        if remaining[index].0 == remaining[index + 1].0 {
            let mut k: usize = index + 2;
            while k < remaining.len() && remaining[k].0 == remaining[index].0
                invariant
                    index + 2 <= k <= remaining.len(),
                    index + 1 < remaining.len(),
                    suffix == remaining@.skip(index as int),
                    first_other_section(suffix, 2) == first_other_section(suffix, k - index),
                    spec_pair_up(initial) == prepend_pairs(done, spec_pair_up(suffix)),
                    suffix[0].0 == suffix[1].0,
                    initial == left@,
                decreases remaining.len() - k,
            {
                k = k + 1;
            }
            if k >= remaining.len() {
                assert(first_other_section(suffix, 2) is None);
                assert(spec_pair_up(suffix) is None);
                return None;
            }
            let a = remaining[index + 1];
            let b = remaining[k];
            remaining.set(index + 1, b);
            remaining.set(k, a);
            assert(remaining@.skip(index as int) =~= suffix.update(1, suffix[k - index]).update(
                k - index,
                suffix[1],
            ));
        } else {
            assert(remaining@.skip(index as int) =~= suffix);
        }
        let ghost t = remaining@.skip(index as int);
        assert(t.skip(2) =~= remaining@.skip(index + 2));
        let first = remaining[index];
        let second = remaining[index + 1];
        pads.push(TeleportPad {
            position: first.1,
            teleports_to: second.2,
            rotate_type: TeleportPadRotation::TowardsEnd,
        });
        pads.push(TeleportPad {
            position: second.1,
            teleports_to: first.2,
            rotate_type: TeleportPadRotation::TowardsEnd,
        });
        proof {
            let ghost before = done;
            done = done + seq![(first, second)];
            assert(pads@ =~= pads_of(done));
        }
        index = index + 2;
    }
    assert(remaining@.skip(index as int).len() < 2);
    assert(done + seq![] =~= done);
    Some(pads)
}



/// The corner of each of the seven pad sections of the maze, in the room's own frame.
pub open spec fn spec_section_offset(index: int) -> BlockPos {
    if index == 0 {
        BlockPos { x: 20, y: 70, z: 6 }
    } else if index == 1 {
        BlockPos { x: 20, y: 70, z: 14 }
    } else if index == 2 {
        BlockPos { x: 20, y: 70, z: 22 }
    } else if index == 3 {
        BlockPos { x: 12, y: 70, z: 22 }
    } else if index == 4 {
        BlockPos { x: 4, y: 70, z: 22 }
    } else if index == 5 {
        BlockPos { x: 4, y: 70, z: 14 }
    } else {
        BlockPos { x: 4, y: 70, z: 6 }
    }
}

pub open spec fn shifted(p: BlockPos, dx: int, dy: int, dz: int) -> BlockPos {
    BlockPos { x: (p.x + dx) as i32, y: (p.y + dy) as i32, z: (p.z + dz) as i32 }
}

/// The four pads of a section, each with the block its player lands on.
pub open spec fn spec_section_pads(index: int) -> Seq<(BlockPos, BlockPos)> {
    let o = spec_section_offset(index);
    seq![
        (o, shifted(o, 1, -1, 1)),
        (shifted(o, 6, 0, 0), shifted(o, 5, -1, 1)),
        (shifted(o, 0, 0, 6), shifted(o, 1, -1, 5)),
        (shifted(o, 6, 0, 6), shifted(o, 5, -1, 5)),
    ]
}

/// A pad of one of the sections, with its landing block.
pub open spec fn is_section_pad(t: (BlockPos, BlockPos)) -> bool {
    exists|i: int| 0 <= i < 7 && #[trigger] spec_section_pads(i).contains(t)
}

pub open spec fn spec_entrance_pad() -> BlockPos {
    BlockPos { x: 15, y: 70, z: 12 }
}

pub open spec fn spec_exit_pad() -> BlockPos {
    BlockPos { x: 15, y: 70, z: 14 }
}

pub open spec fn spec_entrance_landing() -> BlockPos {
    BlockPos { x: 15, y: 69, z: 11 }
}

pub open spec fn spec_exit_landing() -> BlockPos {
    BlockPos { x: 15, y: 69, z: 15 }
}

/// The position of pad `k` of section `i`.
pub open spec fn pad_pos(i: int, k: int) -> BlockPos {
    spec_section_pads(i)[k].0
}

/// A block where the maze has a pad: the entrance and exit pads and the four
/// pads of each of the seven sections.
pub open spec fn maze_position(p: BlockPos) -> bool {
    ||| p == spec_entrance_pad()
    ||| p == spec_exit_pad()
    ||| exists|i: int, k: int| 0 <= i < 7 && 0 <= k < 4 && #[trigger] pad_pos(i, k) == p
}

/// The thirty pad blocks of the maze, in order.
pub open spec fn all_maze_positions() -> Seq<BlockPos> {
    Seq::new(
        30,
        |n: int|
            if n == 0 {
                spec_entrance_pad()
            } else if n == 1 {
                spec_exit_pad()
            } else {
                pad_pos((n - 2) / 4, (n - 2) % 4)
            },
    )
}

/// Different pads of the sections lie on different blocks, none of them the
/// entrance or the exit pad.
proof fn lemma_pad_positions(i1: int, k1: int, i2: int, k2: int)
    requires
        0 <= i1 < 7,
        0 <= k1 < 4,
        0 <= i2 < 7,
        0 <= k2 < 4,
    ensures
        pad_pos(i1, k1) == pad_pos(i2, k2) ==> i1 == i2 && k1 == k2,
        pad_pos(i1, k1) != spec_entrance_pad(),
        pad_pos(i1, k1) != spec_exit_pad(),
        pad_pos(i1, k1).y == 70,
{
}

proof fn lemma_all_maze_positions()
    ensures
        all_maze_positions().no_duplicates(),
        forall|x: BlockPos| maze_position(x) <==> all_maze_positions().contains(x),
{
    let u = all_maze_positions();
    assert forall|a: int, b: int| 0 <= a < 30 && 0 <= b < 30 && a != b implies u[a] != u[b] by {
        if a >= 2 {
            lemma_pad_positions((a - 2) / 4, (a - 2) % 4, (a - 2) / 4, (a - 2) % 4);
        }
        if b >= 2 {
            lemma_pad_positions((b - 2) / 4, (b - 2) % 4, (b - 2) / 4, (b - 2) % 4);
        }
        if a >= 2 && b >= 2 {
            lemma_pad_positions((a - 2) / 4, (a - 2) % 4, (b - 2) / 4, (b - 2) % 4);
        }
    }
    assert forall|x: BlockPos| maze_position(x) implies u.contains(x) by {
        if x == spec_entrance_pad() {
            assert(u[0] == x);
        } else if x == spec_exit_pad() {
            assert(u[1] == x);
        } else {
            let (i, k) = choose|i: int, k: int| 0 <= i < 7 && 0 <= k < 4 && #[trigger] pad_pos(i, k) == x;
            assert(u[2 + 4 * i + k] == x);
        }
    }
    assert forall|x: BlockPos| u.contains(x) implies maze_position(x) by {
        let n = choose|n: int| 0 <= n < 30 && u[n] == x;
        if n >= 2 {
            assert(pad_pos((n - 2) / 4, (n - 2) % 4) == x);
        }
    }
}

/// Thirty different maze blocks are all the maze's pad blocks.
proof fn lemma_covers_maze(s: Seq<BlockPos>)
    requires
        s.len() == 30,
        s.no_duplicates(),
        forall|n: int| 0 <= n < s.len() ==> maze_position(#[trigger] s[n]),
    ensures
        forall|x: BlockPos| maze_position(x) <==> s.contains(x),
{
    let u = all_maze_positions();
    lemma_all_maze_positions();
    s.unique_seq_to_set();
    u.unique_seq_to_set();
    assert(s.to_set().subset_of(u.to_set()));
    vstd::set_lib::lemma_subset_equality(s.to_set(), u.to_set());
    assert forall|x: BlockPos| maze_position(x) implies s.contains(x) by {
        assert(u.to_set().contains(x));
        assert(s.to_set().contains(x));
    }
}

/// The seven sections in some order.
pub open spec fn is_permutation7(perm: Seq<int>) -> bool {
    &&& perm.len() == 7
    &&& perm.no_duplicates()
    &&& forall|j: int| 0 <= j < 7 ==> 0 <= #[trigger] perm[j] < 7
}

/// Section `i` comes up in the order `perm`.
pub open spec fn section_on_chain(perm: Seq<int>, i: int) -> bool {
    exists|j: int| 0 <= j < 7 && #[trigger] perm[j] == i
}

/// Every section comes up in an order of the seven sections: laid along it,
/// the chain from the entrance section to the exit section passes them all.
pub proof fn lemma_every_section_reachable(perm: Seq<int>)
    requires
        is_permutation7(perm),
    ensures
        forall|i: int| 0 <= i < 7 ==> #[trigger] section_on_chain(perm, i),
{
    let r = Set::new(|i: int| 0 <= i < 7);
    vstd::set_lib::lemma_int_range(0, 7);
    assert(r =~= vstd::set_lib::set_int_range(0, 7));
    perm.unique_seq_to_set();
    assert(perm.to_set().subset_of(r));
    vstd::set_lib::lemma_subset_equality(perm.to_set(), r);
    assert forall|i: int| 0 <= i < 7 implies #[trigger] section_on_chain(perm, i) by {
        assert(r.contains(i));
        assert(perm.to_set().contains(i));
    }
}

/// The blocks of a list of pads.
pub open spec fn pad_positions(p: Seq<TeleportPad>) -> Seq<BlockPos> {
    p.map_values(|t: TeleportPad| t.position)
}

/// The pads still in each section, in order.
pub open spec fn section_views(s: Seq<Vec<(BlockPos, BlockPos)>>) -> Seq<Seq<(BlockPos, BlockPos)>> {
    s.map_values(|v: Vec<(BlockPos, BlockPos)>| v@)
}

/// While the maze is laid out, with the sections shuffled into the order
/// `perm`: each section still holds only pads of its own section, on blocks
/// that differ from each other and from those of the pads laid so far, which
/// are on different maze blocks.
pub open spec fn laying_ok(perm: Seq<int>, sv: Seq<Seq<(BlockPos, BlockPos)>>, pads: Seq<TeleportPad>) -> bool {
    &&& is_permutation7(perm)
    &&& sv.len() == 7
    &&& forall|j: int, k: int|
        0 <= j < 7 && 0 <= k < sv[j].len() ==> spec_section_pads(perm[j]).contains(#[trigger] sv[j][k])
    &&& forall|j1: int, k1: int, j2: int, k2: int|
        #![trigger sv[j1][k1], sv[j2][k2]]
        0 <= j1 < 7 && 0 <= j2 < 7 && 0 <= k1 < sv[j1].len() && 0 <= k2 < sv[j2].len() && !(j1 == j2 && k1
            == k2) ==> sv[j1][k1].0 != sv[j2][k2].0
    &&& forall|j: int, k: int|
        0 <= j < 7 && 0 <= k < sv[j].len() ==> !pad_positions(pads).contains(#[trigger] sv[j][k].0)
    &&& pad_positions(pads).no_duplicates()
    &&& forall|n: int| 0 <= n < pads.len() ==> maze_position(#[trigger] pads[n].position)
}

proof fn lemma_section_pad_position(i: int, t: (BlockPos, BlockPos))
    requires
        0 <= i < 7,
        spec_section_pads(i).contains(t),
    ensures
        maze_position(t.0),
        t.0 != spec_entrance_pad(),
        t.0 != spec_exit_pad(),
{
    let k = choose|k: int| 0 <= k < 4 && spec_section_pads(i)[k] == t;
    assert(pad_pos(i, k) == t.0);
    lemma_pad_positions(i, k, i, k);
}

/// The sections as shuffled, before any pad is taken.
proof fn lemma_laying_starts(perm: Seq<int>, sv: Seq<Seq<(BlockPos, BlockPos)>>)
    requires
        is_permutation7(perm),
        sv.len() == 7,
        forall|j: int| 0 <= j < 7 ==> #[trigger] sv[j] == spec_section_pads(perm[j]),
    ensures
        laying_ok(perm, sv, seq![]),
{
    assert forall|j1: int, k1: int, j2: int, k2: int|
        #![trigger sv[j1][k1], sv[j2][k2]]
        0 <= j1 < 7 && 0 <= j2 < 7 && 0 <= k1 < sv[j1].len() && 0 <= k2 < sv[j2].len() && !(j1 == j2 && k1
            == k2) implies sv[j1][k1].0 != sv[j2][k2].0 by {
        assert(sv[j1] == spec_section_pads(perm[j1]));
        assert(sv[j2] == spec_section_pads(perm[j2]));
        lemma_pad_positions(perm[j1], k1, perm[j2], k2);
        if perm[j1] == perm[j2] {
            assert(j1 == j2);
        }
    }
    assert forall|j: int, k: int|
        0 <= j < 7 && 0 <= k < sv[j].len() implies spec_section_pads(perm[j]).contains(#[trigger] sv[j][k]) by {
        assert(sv[j] == spec_section_pads(perm[j]));
    }
    assert(pad_positions(seq![]) =~= Seq::<BlockPos>::empty());
}

/// Laying the entrance or the exit pad.
proof fn lemma_laying_fixed(perm: Seq<int>, sv: Seq<Seq<(BlockPos, BlockPos)>>, pads: Seq<TeleportPad>, pad: TeleportPad)
    requires
        laying_ok(perm, sv, pads),
        pad.position == spec_entrance_pad() || pad.position == spec_exit_pad(),
        !pad_positions(pads).contains(pad.position),
    ensures
        laying_ok(perm, sv, pads.push(pad)),
{
    let q = pads.push(pad);
    assert(pad_positions(q) =~= pad_positions(pads).push(pad.position));
    assert forall|j: int, k: int|
        0 <= j < 7 && 0 <= k < sv[j].len() implies !pad_positions(q).contains(#[trigger] sv[j][k].0) by {
        lemma_section_pad_position(perm[j], sv[j][k]);
        if pad_positions(q).contains(sv[j][k].0) {
            let n = choose|n: int| 0 <= n < q.len() && pad_positions(q)[n] == sv[j][k].0;
            if n < pads.len() {
                assert(pad_positions(pads)[n] == sv[j][k].0);
            }
        }
    }
    assert forall|n: int| 0 <= n < q.len() implies maze_position(#[trigger] q[n].position) by {
        if n < pads.len() {
            assert(q[n] == pads[n]);
        }
    }
}

/// Taking pad `k` of section `j` and laying a pad on its block.
proof fn lemma_laying_takes(
    perm: Seq<int>,
    sv: Seq<Seq<(BlockPos, BlockPos)>>,
    pads: Seq<TeleportPad>,
    j: int,
    k: int,
    pad: TeleportPad,
)
    requires
        laying_ok(perm, sv, pads),
        0 <= j < 7,
        0 <= k < sv[j].len(),
        pad.position == sv[j][k].0,
    ensures
        laying_ok(perm, sv.update(j, sv[j].remove(k)), pads.push(pad)),
{
    let s2 = sv.update(j, sv[j].remove(k));
    let q = pads.push(pad);
    assert(pad_positions(q) =~= pad_positions(pads).push(pad.position));
    assert forall|j2: int, k2: int|
        0 <= j2 < 7 && 0 <= k2 < s2[j2].len() implies #[trigger] s2[j2][k2] == sv[j2][if j2 == j && k2 >= k {
        k2 + 1
    } else {
        k2
    }] by {}
    assert forall|j2: int, k2: int|
        0 <= j2 < 7 && 0 <= k2 < s2[j2].len() implies spec_section_pads(perm[j2]).contains(#[trigger] s2[j2][k2]) by {
        let o = if j2 == j && k2 >= k { k2 + 1 } else { k2 };
        assert(s2[j2][k2] == sv[j2][o]);
    }
    assert forall|j1: int, k1: int, j2: int, k2: int|
        #![trigger s2[j1][k1], s2[j2][k2]]
        0 <= j1 < 7 && 0 <= j2 < 7 && 0 <= k1 < s2[j1].len() && 0 <= k2 < s2[j2].len() && !(j1 == j2 && k1
            == k2) implies s2[j1][k1].0 != s2[j2][k2].0 by {
        let o1 = if j1 == j && k1 >= k { k1 + 1 } else { k1 };
        let o2 = if j2 == j && k2 >= k { k2 + 1 } else { k2 };
        assert(s2[j1][k1] == sv[j1][o1]);
        assert(s2[j2][k2] == sv[j2][o2]);
        assert(sv[j1][o1].0 != sv[j2][o2].0);
    }
    assert forall|j2: int, k2: int|
        0 <= j2 < 7 && 0 <= k2 < s2[j2].len() implies !pad_positions(q).contains(#[trigger] s2[j2][k2].0) by {
        let o = if j2 == j && k2 >= k { k2 + 1 } else { k2 };
        assert(s2[j2][k2] == sv[j2][o]);
        assert(sv[j2][o].0 != sv[j][k].0);
        assert(!pad_positions(pads).contains(sv[j2][o].0));
        if pad_positions(q).contains(s2[j2][k2].0) {
            let n = choose|n: int| 0 <= n < q.len() && pad_positions(q)[n] == s2[j2][k2].0;
            if n < pads.len() {
                assert(pad_positions(pads)[n] == s2[j2][k2].0);
            }
        }
    }
    assert(!pad_positions(pads).contains(sv[j][k].0));
    assert forall|n: int| 0 <= n < q.len() implies maze_position(#[trigger] q[n].position) by {
        if n < pads.len() {
            assert(q[n] == pads[n]);
        } else {
            lemma_section_pad_position(perm[j], sv[j][k]);
        }
    }
}

/// The four pads of section `index`.
pub fn section_pads(index: usize) -> (r: Vec<(BlockPos, BlockPos)>)
    requires
        index < 7,
    ensures
        r@ == spec_section_pads(index as int),
{
    let o = if index == 0 {
        BlockPos::new(20, 70, 6)
    } else if index == 1 {
        BlockPos::new(20, 70, 14)
    } else if index == 2 {
        BlockPos::new(20, 70, 22)
    } else if index == 3 {
        BlockPos::new(12, 70, 22)
    } else if index == 4 {
        BlockPos::new(4, 70, 22)
    } else if index == 5 {
        BlockPos::new(4, 70, 14)
    } else {
        BlockPos::new(4, 70, 6)
    };
    let r = vec![
        (o, o.offset(1, -1, 1)),
        (o.offset(6, 0, 0), o.offset(5, -1, 1)),
        (o.offset(0, 0, 6), o.offset(1, -1, 5)),
        (o.offset(6, 0, 6), o.offset(5, -1, 5)),
    ];
    assert(r@ =~= spec_section_pads(index as int));
    r
}

/// Takes a pad out of `pads` at a random place and returns it.
pub fn pop_with_rng(pads: &mut Vec<(BlockPos, BlockPos)>, rng: &mut StdRng) -> (r: (BlockPos, BlockPos))
    requires
        old(pads).len() > 0,
    ensures
        exists|i: int|
            0 <= i < old(pads)@.len() && r == old(pads)@[i] && final(pads)@ == old(pads)@.remove(i),
{
    let pad_index = random_below(rng, pads.len());
    let it = pads[pad_index];
    pads.remove(pad_index);
    it
}

/// The pads of the maze and their landing blocks lie near the room's corner.
proof fn lemma_section_pad_in_range(t: (BlockPos, BlockPos))
    requires
        is_section_pad(t),
    ensures
        pos_in_range(t.0) && pos_in_range(t.1),
{
    let i = choose|i: int| 0 <= i < 7 && #[trigger] spec_section_pads(i).contains(t);
    let k = choose|k: int| 0 <= k < 4 && spec_section_pads(i)[k] == t;
}

/// Takes a random pad out of section `index`.
fn pop_from_section(
    sections: &mut Vec<Vec<(BlockPos, BlockPos)>>,
    index: usize,
    rng: &mut StdRng,
) -> (r: (BlockPos, BlockPos))
    requires
        index < old(sections).len(),
        old(sections)@[index as int].len() > 0,
    ensures
        final(sections)@.len() == old(sections)@.len(),
        forall|j: int|
            0 <= j < old(sections)@.len() && j != index ==> final(sections)@[j]@ == old(
                sections,
            )@[j]@,
        exists|k: int|
            0 <= k < old(sections)@[index as int]@.len() && r == old(sections)@[index as int]@[k]
                && final(sections)@[index as int]@ == old(sections)@[index as int]@.remove(k),
{
    let mut pads = sections.remove(index);
    let item = pop_with_rng(&mut pads, rng);
    sections.insert(index, pads);
    item
}

/// The sizes of the sections while the chain from the entrance to the exit is
/// laid: the sections before `index` have given two pads, the one at `index`
/// and the last have given one, the others none.
pub open spec fn chain_section_len(i: int, index: int) -> int {
    if i < index || index == 6 {
        2
    } else if i == index || i == 6 {
        3
    } else {
        4
    }
}

/// Every section holds only pads of the maze.
pub open spec fn sections_hold_pads(sections: Seq<Vec<(BlockPos, BlockPos)>>) -> bool {
    forall|i: int, k: int|
        0 <= i < sections.len() && 0 <= k < sections[i]@.len() ==> is_section_pad(
            #[trigger] sections[i]@[k],
        )
}

/// The pads `2k` and `2k + 1` send their players to each other's landing
/// block, facing the end, and are pads of the maze.
pub open spec fn linked_maze_pads(pads: Seq<TeleportPad>, k: int) -> bool {
    exists|a: (BlockPos, BlockPos), b: (BlockPos, BlockPos)|
        #![trigger is_section_pad(a), is_section_pad(b)]
        is_section_pad(a) && is_section_pad(b) && pads[2 * k] == (TeleportPad {
            position: a.0,
            teleports_to: b.1,
            rotate_type: TeleportPadRotation::TowardsEnd,
        }) && pads[2 * k + 1] == (TeleportPad {
            position: b.0,
            teleports_to: a.1,
            rotate_type: TeleportPadRotation::TowardsEnd,
        })
}

/// Pads `2k` and `2k + 1` link a pad of section `sa` with a pad of section
/// `sb`: each sends its player to the other's landing block, facing the end.
pub open spec fn linked_sections(pads: Seq<TeleportPad>, k: int, sa: int, sb: int) -> bool {
    exists|a: (BlockPos, BlockPos), b: (BlockPos, BlockPos)|
        #![trigger spec_section_pads(sa).contains(a), spec_section_pads(sb).contains(b)]
        spec_section_pads(sa).contains(a) && spec_section_pads(sb).contains(b) && pads[2 * k] == (TeleportPad {
            position: a.0,
            teleports_to: b.1,
            rotate_type: TeleportPadRotation::TowardsEnd,
        }) && pads[2 * k + 1] == (TeleportPad {
            position: b.0,
            teleports_to: a.1,
            rotate_type: TeleportPadRotation::TowardsEnd,
        })
}

/// Pads `2k` and `2k + 1` link the sections `k - 2` and `k - 1` in the order
/// `perm`: the chain from the entrance section to the exit section.
pub open spec fn chain_link(pads: Seq<TeleportPad>, perm: Seq<int>, k: int) -> bool {
    linked_sections(pads, k, perm[k - 2], perm[k - 1])
}

/// Pads `2k` and `2k + 1` link two different sections.
pub open spec fn crossing_link(pads: Seq<TeleportPad>, perm: Seq<int>, k: int) -> bool {
    exists|ja: int, jb: int|
        0 <= ja < 7 && 0 <= jb < 7 && ja != jb && #[trigger] linked_sections(pads, k, perm[ja], perm[jb])
}

/// The pads left over once the chain is laid: two of each section, section
/// by section in the order `perm`, each with the place of its section in that
/// order, all on different blocks.
pub open spec fn leftover_pads(u: Seq<SectionPad>, perm: Seq<int>) -> bool {
    &&& u.len() == 14
    &&& forall|k: int|
        0 <= k < 14 ==> (#[trigger] u[k]).0 == k / 2 && spec_section_pads(perm[k / 2]).contains(
            (u[k].1, u[k].2),
        )
    &&& forall|k1: int, k2: int| #![trigger u[k1], u[k2]] 0 <= k1 < 14 && 0 <= k2 < 14 && k1 != k2 ==> u[k1].1 != u[k2].1
}

/// How the pads left over were paired: `s` is the leftover pads `u` in the
/// order the shuffle gave them; the maze fails exactly when they cannot be
/// paired across sections, and otherwise its last pads link the pairs.
pub open spec fn leftovers_paired(
    u: Seq<SectionPad>,
    s: Seq<SectionPad>,
    r: Option<TeleportMaze>,
    perm: Seq<int>,
) -> bool {
    &&& leftover_pads(u, perm)
    &&& s.to_multiset() == u.to_multiset()
    &&& match r {
        None => spec_pair_up(s) is None,
        Some(m) => spec_pair_up(s) is Some && m.teleport_pads@.subrange(16, 30) == pads_of(
            spec_pair_up(s)->0,
        ),
    }
}

/// A maze laid out from the sections in the order `perm`: the entrance leads
/// into the first, the pad to the exit lies in the last, each section is
/// linked to the next, the pads left over are linked across sections, and
/// the pads lie on all the maze's pad blocks, each on its own.
pub open spec fn maze_from_sections(m: TeleportMaze, perm: Seq<int>) -> bool {
    let p = m.teleport_pads@;
    &&& spec_section_pads(perm[0]).contains((p[1].position, p[0].teleports_to))
    &&& exists|t: BlockPos| #[trigger] spec_section_pads(perm[6]).contains((m.target, t))
    &&& forall|k: int| 2 <= k < 8 ==> #[trigger] chain_link(p, perm, k)
    &&& forall|k: int| 8 <= k < 15 ==> #[trigger] crossing_link(p, perm, k)
    &&& pad_positions(p).no_duplicates()
    &&& forall|x: BlockPos| maze_position(x) <==> pad_positions(p).contains(x)
}

/// What laying out a maze does for the order `perm` of the sections, the pads
/// `u` left over and their shuffled order `s`.
pub open spec fn maze_laid_out(r: Option<TeleportMaze>, perm: Seq<int>, u: Seq<SectionPad>, s: Seq<SectionPad>) -> bool {
    &&& is_permutation7(perm)
    &&& leftovers_paired(u, s, r, perm)
    &&& r matches Some(m) ==> maze_from_sections(m, perm)
}

/// Linking the pads left over: the maze's first sixteen pads followed by the
/// pairs' pads lie on all the maze's pad blocks, each on its own, and each
/// pair links two different sections.
proof fn lemma_pairs_place(
    perm: Seq<int>,
    sv: Seq<Seq<(BlockPos, BlockPos)>>,
    before: Seq<TeleportPad>,
    unmixed: Seq<SectionPad>,
    mixed: Seq<SectionPad>,
)
    requires
        laying_ok(perm, sv, before),
        before.len() == 16,
        forall|j: int| 0 <= j < 7 ==> (#[trigger] sv[j]).len() == 2,
        unmixed.len() == 14,
        forall|k: int|
            0 <= k < 14 ==> (#[trigger] unmixed[k]).0 == k / 2 && (unmixed[k].1, unmixed[k].2) == sv[k / 2][k
                % 2],
        mixed.to_multiset() == unmixed.to_multiset(),
        spec_pair_up(mixed) is Some,
    ensures
        ({
            let all = before + pads_of(spec_pair_up(mixed)->0);
            &&& all.len() == 30
            &&& pad_positions(all).no_duplicates()
            &&& forall|x: BlockPos| maze_position(x) <==> pad_positions(all).contains(x)
            &&& forall|k: int| 8 <= k < 15 ==> #[trigger] crossing_link(all, perm, k)
        }),
{
    broadcast use vstd::seq_lib::group_to_multiset_ensures;

    let ps = spec_pair_up(mixed)->0;
    vstd::seq_lib::to_multiset_len(mixed);
    vstd::seq_lib::to_multiset_len(unmixed);
    lemma_pairs_cross_sections(mixed);
    let pm = pair_members(ps);
    assert(pm.len() == 14) by {
        vstd::seq_lib::to_multiset_len(pm);
        vstd::seq_lib::to_multiset_len(mixed);
    }
    let all = before + pads_of(ps);
    // every pair member is a leftover pad
    assert forall|n: int| 0 <= n < 14 implies exists|q: int| 0 <= q < 14 && unmixed[q] == #[trigger] pm[n] by {
        vstd::seq_lib::to_multiset_contains(pm, pm[n]);
        vstd::seq_lib::to_multiset_contains(mixed, pm[n]);
        vstd::seq_lib::to_multiset_contains(unmixed, pm[n]);
        assert(pm.contains(pm[n]));
    }
    // the leftovers are all different, and so are the pair members
    assert(unmixed.no_duplicates()) by {
        assert forall|a: int, b: int| 0 <= a < 14 && 0 <= b < 14 && a != b implies unmixed[a] != unmixed[b] by {
            assert(sv[a / 2][a % 2].0 != sv[b / 2][b % 2].0);
        }
    }
    unmixed.lemma_multiset_has_no_duplicates();
    pm.lemma_multiset_has_no_duplicates_conv();
    assert forall|n: int| 0 <= n < 30 implies #[trigger] pad_positions(all)[n] == if n < 16 {
        before[n].position
    } else {
        pm[n - 16].1
    } by {}
    assert(pad_positions(all).len() == 30);
    assert forall|a: int, b: int| 0 <= a < 30 && 0 <= b < 30 && a != b implies pad_positions(all)[a]
        != pad_positions(all)[b] by {
        let pa = pad_positions(all)[a];
        let pb = pad_positions(all)[b];
        if a < 16 && b < 16 {
            assert(pad_positions(before)[a] == pa && pad_positions(before)[b] == pb);
        } else if a >= 16 && b >= 16 {
            let qa = choose|q: int| 0 <= q < 14 && unmixed[q] == pm[a - 16];
            let qb = choose|q: int| 0 <= q < 14 && unmixed[q] == pm[b - 16];
            assert(pm[a - 16] != pm[b - 16]);
            assert(sv[qa / 2][qa % 2].0 != sv[qb / 2][qb % 2].0);
        } else {
            let (x, y) = if a < 16 { (a, b) } else { (b, a) };
            let q = choose|q: int| 0 <= q < 14 && unmixed[q] == pm[y - 16];
            assert(!pad_positions(before).contains(sv[q / 2][q % 2].0));
            assert(pad_positions(before)[x] == before[x].position);
        }
    }
    assert forall|n: int| 0 <= n < 30 implies maze_position(#[trigger] pad_positions(all)[n]) by {
        if n < 16 {
            assert(maze_position(before[n].position));
        } else {
            let q = choose|q: int| 0 <= q < 14 && unmixed[q] == pm[n - 16];
            lemma_section_pad_position(perm[q / 2], sv[q / 2][q % 2]);
        }
    }
    lemma_covers_maze(pad_positions(all));
    assert forall|k: int| 8 <= k < 15 implies #[trigger] crossing_link(all, perm, k) by {
        let m = k - 8;
        let qa = choose|q: int| 0 <= q < 14 && unmixed[q] == pm[2 * m];
        let qb = choose|q: int| 0 <= q < 14 && unmixed[q] == pm[2 * m + 1];
        let a = (ps[m].0.1, ps[m].0.2);
        let b = (ps[m].1.1, ps[m].1.2);
        assert(pm[2 * m] == ps[m].0 && pm[2 * m + 1] == ps[m].1);
        assert(ps[m].0.0 != ps[m].1.0);
        assert(spec_section_pads(perm[qa / 2]).contains(a));
        assert(spec_section_pads(perm[qb / 2]).contains(b));
        assert(all[2 * k] == pads_of(ps)[2 * m]);
        assert(all[2 * k + 1] == pads_of(ps)[2 * m + 1]);
        assert(linked_sections(all, k, perm[qa / 2], perm[qb / 2]));
    }
}

/// The sections after the shuffle: the seven sections in some order.
proof fn lemma_shuffled_order(unshuffled: Seq<Vec<(BlockPos, BlockPos)>>, shuffled: Seq<Vec<(BlockPos, BlockPos)>>) -> (perm: Seq<int>)
    requires
        unshuffled.len() == 7,
        forall|i: int| 0 <= i < 7 ==> #[trigger] unshuffled[i]@ == spec_section_pads(i),
        shuffled.to_multiset() == unshuffled.to_multiset(),
    ensures
        is_permutation7(perm),
        laying_ok(perm, section_views(shuffled), seq![]),
{
    vstd::seq_lib::to_multiset_len(shuffled);
    vstd::seq_lib::to_multiset_len(unshuffled);
    let perm = Seq::new(7, |j: int| choose|i: int| 0 <= i < 7 && unshuffled[i] == shuffled[j]);
    assert forall|j: int| 0 <= j < 7 implies 0 <= #[trigger] perm[j] < 7 && unshuffled[perm[j]] == shuffled[j] by {
        assert(shuffled.contains(shuffled[j]));
        vstd::seq_lib::to_multiset_contains(shuffled, shuffled[j]);
        vstd::seq_lib::to_multiset_contains(unshuffled, shuffled[j]);
        assert(unshuffled.contains(shuffled[j]));
    }
    assert(unshuffled.no_duplicates()) by {
        assert forall|a: int, b: int| 0 <= a < 7 && 0 <= b < 7 && a != b implies unshuffled[a] != unshuffled[b] by {
            lemma_pad_positions(a, 0, b, 0);
            assert(unshuffled[a]@[0] == spec_section_pads(a)[0]);
            assert(unshuffled[b]@[0] == spec_section_pads(b)[0]);
        }
    }
    unshuffled.lemma_multiset_has_no_duplicates();
    shuffled.lemma_multiset_has_no_duplicates_conv();
    assert forall|a: int, b: int| 0 <= a < 7 && 0 <= b < 7 && a != b implies perm[a] != perm[b] by {
        assert(unshuffled[perm[a]] == shuffled[a]);
        assert(unshuffled[perm[b]] == shuffled[b]);
    }
    assert(is_permutation7(perm));
    assert forall|j: int| 0 <= j < 7 implies #[trigger] section_views(shuffled)[j] == spec_section_pads(perm[j]) by {
        assert(unshuffled[perm[j]]@ == spec_section_pads(perm[j]));
    }
    lemma_laying_starts(perm, section_views(shuffled));
    perm
}

proof fn lemma_linked_prefix(p: Seq<TeleportPad>, q: Seq<TeleportPad>, k: int, sa: int, sb: int)
    requires
        linked_sections(p, k, sa, sb),
        0 <= 2 * k,
        2 * k + 1 < p.len() <= q.len(),
        forall|n: int| 0 <= n < p.len() ==> q[n] == p[n],
    ensures
        linked_sections(q, k, sa, sb),
{
    let (a, b) = choose|a: (BlockPos, BlockPos), b: (BlockPos, BlockPos)|
        #![trigger spec_section_pads(sa).contains(a), spec_section_pads(sb).contains(b)]
        spec_section_pads(sa).contains(a) && spec_section_pads(sb).contains(b) && p[2 * k] == (TeleportPad {
            position: a.0,
            teleports_to: b.1,
            rotate_type: TeleportPadRotation::TowardsEnd,
        }) && p[2 * k + 1] == (TeleportPad {
            position: b.0,
            teleports_to: a.1,
            rotate_type: TeleportPadRotation::TowardsEnd,
        });
    assert(q[2 * k] == p[2 * k]);
    assert(q[2 * k + 1] == p[2 * k + 1]);
}

impl TeleportMaze {
    /// Lays out the maze: the seven sections in a random order, the entrance
    /// linked to a pad of the first and a pad of the last leading to the exit,
    /// each section linked to the next, and the pads left over paired at
    /// random across sections. The pads left over are two of each section; in
    /// the order the shuffle gives them they are paired across sections, and
    /// the result is `None` exactly when that pairing fails (the last two pads
    /// left to pair lie in the same section). A maze uses every pad block of
    /// the room once, and its links join different sections, the chain
    /// passing through all seven (see `maze_laid_out`).
    #[verifier::rlimit(100)]
    #[verifier::spinoff_prover]
    pub fn generate(rng: &mut StdRng) -> (r: Option<TeleportMaze>)
        ensures
            exists|perm: Seq<int>, u: Seq<SectionPad>, s: Seq<SectionPad>| #[trigger] maze_laid_out(r, perm, u, s),
            r matches Some(m) ==> {
                let p = m.teleport_pads@;
                &&& p.len() == 30
                &&& p[0].position == spec_entrance_pad()
                &&& p[0].rotate_type == TeleportPadRotation::TowardsEnd
                &&& p[1] == (TeleportPad {
                    position: p[1].position,
                    teleports_to: spec_entrance_landing(),
                    rotate_type: TeleportPadRotation::Static { yaw: 180 },
                })
                &&& is_section_pad((p[1].position, p[0].teleports_to))
                &&& p[2] == (TeleportPad {
                    position: m.target,
                    teleports_to: spec_exit_landing(),
                    rotate_type: TeleportPadRotation::Static { yaw: 0 },
                })
                &&& exists|t: BlockPos| is_section_pad((m.target, t))
                &&& p[3] == (TeleportPad {
                    position: spec_exit_pad(),
                    teleports_to: spec_entrance_landing(),
                    rotate_type: TeleportPadRotation::Static { yaw: 180 },
                })
                &&& forall|k: int| 2 <= k < 15 ==> linked_maze_pads(p, k)
                &&& m.in_range()
            },
    {
        let mut teleport_pads: Vec<TeleportPad> = Vec::new();
        let mut sections: Vec<Vec<(BlockPos, BlockPos)>> = Vec::new();
        let mut index: usize = 0;
        while index < 7
            invariant
                index <= 7,
                sections@.len() == index,
                forall|i: int| 0 <= i < index ==> #[trigger] sections@[i]@ == spec_section_pads(i),
            decreases 7 - index,
        {
            sections.push(section_pads(index));
            index = index + 1;
        }
        let ghost unshuffled = sections@;
        shuffle(&mut sections, rng);
        proof {
            assert forall|i: int| 0 <= i < 7 implies (#[trigger] sections@[i])@.len() == 4 && (forall|
                k: int,
            |
                0 <= k < 4 ==> is_section_pad(#[trigger] sections@[i]@[k])) by {
                assert(sections@.contains(sections@[i]));
                vstd::seq_lib::to_multiset_contains(sections@, sections@[i]);
                vstd::seq_lib::to_multiset_contains(unshuffled, sections@[i]);
                assert(unshuffled.contains(sections@[i]));
                let j = choose|j: int| 0 <= j < 7 && unshuffled[j] == sections@[i];
                assert forall|k: int| 0 <= k < 4 implies is_section_pad(
                    #[trigger] sections@[i]@[k],
                ) by {
                    assert(spec_section_pads(j).contains(spec_section_pads(j)[k]));
                }
            }
        }
        // the order the sections were shuffled into
        let ghost mut perm: Seq<int> = Seq::empty();
        proof {
            perm = lemma_shuffled_order(unshuffled, sections@);
        }
        // entrance
        let ghost sv0 = section_views(sections@);
        let (pad, to_pad) = pop_from_section(&mut sections, 0, rng);
        let entrance_pad = TeleportPad {
            position: BlockPos::new(15, 70, 12),
            teleports_to: to_pad,
            rotate_type: TeleportPadRotation::TowardsEnd,
        };
        let first_pad = TeleportPad {
            position: pad,
            teleports_to: BlockPos::new(15, 69, 11),
            rotate_type: TeleportPadRotation::Static { yaw: 180 },
        };
        teleport_pads.push(entrance_pad);
        teleport_pads.push(first_pad);
        proof {
            let k = choose|k: int|
                0 <= k < sv0[0].len() && (pad, to_pad) == sv0[0][k] && sections@[0]@ == sv0[0].remove(k);
            assert(section_views(sections@) =~= sv0.update(0, sv0[0].remove(k)));
            assert(pad_positions(seq![]) =~= Seq::<BlockPos>::empty());
            lemma_laying_fixed(perm, sv0, seq![], entrance_pad);
            lemma_laying_takes(perm, sv0, seq![entrance_pad], 0, k, first_pad);
            assert(teleport_pads@ =~= seq![entrance_pad].push(first_pad));
            assert(spec_section_pads(perm[0]).contains((pad, to_pad)));
            lemma_section_pad_position(perm[0], (pad, to_pad));
        }
        // exit
        let ghost sv1 = section_views(sections@);
        let ghost pads1 = teleport_pads@;
        let (pad_leading_to_end, end_landing) = pop_from_section(&mut sections, 6, rng);
        let last_pad = TeleportPad {
            position: pad_leading_to_end,
            teleports_to: BlockPos::new(15, 69, 15),
            rotate_type: TeleportPadRotation::Static { yaw: 0 },
        };
        let exit_pad = TeleportPad {
            position: BlockPos::new(15, 70, 14),
            teleports_to: BlockPos::new(15, 69, 11),
            rotate_type: TeleportPadRotation::Static { yaw: 180 },
        };
        teleport_pads.push(last_pad);
        teleport_pads.push(exit_pad);
        proof {
            let k = choose|k: int|
                0 <= k < sv1[6].len() && (pad_leading_to_end, end_landing) == sv1[6][k] && sections@[6]@
                    == sv1[6].remove(k);
            let sv2 = sv1.update(6, sv1[6].remove(k));
            assert(section_views(sections@) =~= sv2);
            lemma_laying_takes(perm, sv1, pads1, 6, k, last_pad);
            assert(spec_section_pads(perm[6]).contains((pad_leading_to_end, end_landing)));
            lemma_section_pad_position(perm[6], (pad_leading_to_end, end_landing));
            let q = pads1.push(last_pad);
            assert(pad_positions(q) =~= seq![spec_entrance_pad(), pad, pad_leading_to_end]);
            lemma_laying_fixed(perm, sv2, q, exit_pad);
            assert(teleport_pads@ =~= q.push(exit_pad));
        }
        let ghost head = teleport_pads@;
        assert(is_section_pad((pad, to_pad)));
        assert(is_section_pad((pad_leading_to_end, end_landing)));
        // every section can be reached from the one before it
        let mut index: usize = 0;
        while index < 6
            invariant
                index <= 6,
                sections@.len() == 7,
                sections_hold_pads(sections@),
                forall|i: int|
                    0 <= i < 7 ==> (#[trigger] sections@[i])@.len() == chain_section_len(
                        i,
                        index as int,
                    ),
                teleport_pads@.len() == 4 + 2 * index,
                teleport_pads@.subrange(0, 4) == head,
                forall|k: int| 2 <= k < 2 + index ==> linked_maze_pads(teleport_pads@, k),
                laying_ok(perm, section_views(sections@), teleport_pads@),
                forall|k: int| 2 <= k < 2 + index ==> #[trigger] chain_link(teleport_pads@, perm, k),
            decreases 6 - index,
        {
            assert(sections@[index as int]@.len() == chain_section_len(index as int, index as int));
            let ghost sva = section_views(sections@);
            let (pad_a, to_pad_a) = pop_from_section(&mut sections, index, rng);
            assert(sections@[index + 1]@.len() == chain_section_len(index + 1, index as int));
            let ghost svb = section_views(sections@);
            let (pad_b, to_pad_b) = pop_from_section(&mut sections, index + 1, rng);
            let ghost before = teleport_pads@;
            let pa = TeleportPad {
                position: pad_a,
                teleports_to: to_pad_b,
                rotate_type: TeleportPadRotation::TowardsEnd,
            };
            let pb = TeleportPad {
                position: pad_b,
                teleports_to: to_pad_a,
                rotate_type: TeleportPadRotation::TowardsEnd,
            };
            teleport_pads.push(pa);
            teleport_pads.push(pb);
            proof {
                let k1 = choose|k: int|
                    #![trigger sva[index as int].remove(k)]
                    0 <= k < sva[index as int].len() && (pad_a, to_pad_a) == sva[index as int][k]
                        && svb[index as int] == sva[index as int].remove(k);
                assert(svb =~= sva.update(index as int, sva[index as int].remove(k1)));
                let k2 = choose|k: int|
                    #![trigger svb[index + 1].remove(k)]
                    0 <= k < svb[index + 1].len() && (pad_b, to_pad_b) == svb[index + 1][k]
                        && sections@[index + 1]@ == svb[index + 1].remove(k);
                assert(section_views(sections@) =~= svb.update(index + 1, svb[index + 1].remove(k2)));
                assert(spec_section_pads(perm[index as int]).contains(sva[index as int][k1]));
                lemma_laying_takes(perm, sva, before, index as int, k1, pa);
                assert(spec_section_pads(perm[index + 1]).contains(svb[index + 1][k2]));
                lemma_laying_takes(perm, svb, before.push(pa), index + 1, k2, pb);
                assert(teleport_pads@ =~= before.push(pa).push(pb));
                assert forall|k: int| 2 <= k < 3 + index implies #[trigger] chain_link(teleport_pads@, perm, k) by {
                    if k < 2 + index {
                        assert(chain_link(before, perm, k));
                        lemma_linked_prefix(before, teleport_pads@, k, perm[k - 2], perm[k - 1]);
                    } else {
                        assert(teleport_pads@[2 * k] == pa);
                        assert(teleport_pads@[2 * k + 1] == pb);
                        assert(linked_sections(teleport_pads@, k, perm[index as int], perm[index + 1]));
                    }
                }
                assert(is_section_pad((pad_a, to_pad_a)));
                assert(is_section_pad((pad_b, to_pad_b)));
                assert(teleport_pads@.subrange(0, 4) =~= head);
                assert forall|k: int| 2 <= k < 3 + index implies linked_maze_pads(teleport_pads@, k) by {
                    if k < 2 + index {
                        assert(linked_maze_pads(before, k));
                        let (a, b) = choose|a: (BlockPos, BlockPos), b: (BlockPos, BlockPos)|
                            #![trigger is_section_pad(a), is_section_pad(b)]
                            is_section_pad(a) && is_section_pad(b) && before[2 * k] == (TeleportPad {
                                position: a.0,
                                teleports_to: b.1,
                                rotate_type: TeleportPadRotation::TowardsEnd,
                            }) && before[2 * k + 1] == (TeleportPad {
                                position: b.0,
                                teleports_to: a.1,
                                rotate_type: TeleportPadRotation::TowardsEnd,
                            });
                        assert(teleport_pads@[2 * k] == before[2 * k]);
                        assert(teleport_pads@[2 * k + 1] == before[2 * k + 1]);
                    } else {
                        assert(teleport_pads@[2 * k] == (TeleportPad {
                            position: (pad_a, to_pad_a).0,
                            teleports_to: (pad_b, to_pad_b).1,
                            rotate_type: TeleportPadRotation::TowardsEnd,
                        }));
                    }
                }
                assert forall|i: int| 0 <= i < 7 implies (#[trigger] sections@[i])@.len()
                    == chain_section_len(i, index + 1) by {}
            }
            index = index + 1;
        }
        // the pads left over, with the section each lies in
        let ghost sv_left = section_views(sections@);
        let mut remaining: Vec<SectionPad> = Vec::new();
        let mut i: usize = 0;
        while i < 7
            invariant
                i <= 7,
                sections@.len() == 7,
                sections_hold_pads(sections@),
                forall|j: int| 0 <= j < 7 ==> (#[trigger] sections@[j])@.len() == 2,
                remaining@.len() == 2 * i,
                forall|k: int|
                    0 <= k < remaining@.len() ==> is_section_pad(
                        (#[trigger] remaining@[k].1, remaining@[k].2),
                    ),
                forall|k: int| 0 <= k < remaining@.len() ==> (#[trigger] remaining@[k]).0 == k / 2,
                section_views(sections@) == sv_left,
                forall|k: int|
                    0 <= k < remaining@.len() ==> ((#[trigger] remaining@[k]).1, remaining@[k].2) == sv_left[k
                        / 2][k % 2],
            decreases 7 - i,
        {
            let mut j: usize = 0;
            while j < sections[i].len()
                invariant
                    i < 7,
                    j <= 2,
                    sections@.len() == 7,
                    sections_hold_pads(sections@),
                    forall|j: int| 0 <= j < 7 ==> (#[trigger] sections@[j])@.len() == 2,
                    remaining@.len() == 2 * i + j,
                    forall|k: int|
                        0 <= k < remaining@.len() ==> is_section_pad(
                            (#[trigger] remaining@[k].1, remaining@[k].2),
                        ),
                    forall|k: int| 0 <= k < remaining@.len() ==> (#[trigger] remaining@[k]).0 == k / 2,
                    section_views(sections@) == sv_left,
                    forall|k: int|
                        0 <= k < remaining@.len() ==> ((#[trigger] remaining@[k]).1, remaining@[k].2)
                            == sv_left[k / 2][k % 2],
                decreases 2 - j,
            {
                let (p, t) = sections[i][j];
                assert(sv_left[i as int][j as int] == sections@[i as int]@[j as int]);
                assert(is_section_pad(sections@[i as int]@[j as int]));
                remaining.push((i, p, t));
                j = j + 1;
            }
            i = i + 1;
        }
        let ghost unmixed = remaining@;
        proof {
            assert forall|k: int| 0 <= k < 14 implies (#[trigger] unmixed[k]).0 == k / 2 && spec_section_pads(
                perm[k / 2],
            ).contains((unmixed[k].1, unmixed[k].2)) by {
                assert(sv_left[k / 2][k % 2] == (unmixed[k].1, unmixed[k].2));
            }
            assert forall|k1: int, k2: int|
                #![trigger unmixed[k1], unmixed[k2]]
                0 <= k1 < 14 && 0 <= k2 < 14 && k1 != k2 implies unmixed[k1].1 != unmixed[k2].1 by {
                assert(sv_left[k1 / 2][k1 % 2] == (unmixed[k1].1, unmixed[k1].2));
                assert(sv_left[k2 / 2][k2 % 2] == (unmixed[k2].1, unmixed[k2].2));
            }
            assert(leftover_pads(unmixed, perm));
        }
        shuffle(&mut remaining, rng);
        let ghost mixed = remaining@;
        match pair_across_sections(remaining) {
            None => {
                assert(maze_laid_out(None, perm, unmixed, mixed));
                None
            },
            Some(pairs) => {
                let mut pairs = pairs;
                proof {
                    lemma_pairs_cross_sections(mixed);
                    let ps = spec_pair_up(mixed)->0;
                    assert(pair_members(ps).len() == 14) by {
                        vstd::seq_lib::to_multiset_len(pair_members(ps));
                        vstd::seq_lib::to_multiset_len(mixed);
                    }
                    assert forall|m: int| 0 <= m < ps.len() implies is_section_pad(
                        ((#[trigger] ps[m]).0.1, ps[m].0.2),
                    ) && is_section_pad((ps[m].1.1, ps[m].1.2)) by {
                        let x = pair_members(ps)[2 * m];
                        let y = pair_members(ps)[2 * m + 1];
                        vstd::seq_lib::to_multiset_contains(pair_members(ps), x);
                        vstd::seq_lib::to_multiset_contains(pair_members(ps), y);
                        vstd::seq_lib::to_multiset_contains(mixed, x);
                        vstd::seq_lib::to_multiset_contains(mixed, y);
                        vstd::seq_lib::to_multiset_contains(unmixed, x);
                        vstd::seq_lib::to_multiset_contains(unmixed, y);
                        assert(pair_members(ps).contains(x));
                        assert(pair_members(ps).contains(y));
                    }
                }
                let ghost before = teleport_pads@;
                teleport_pads.append(&mut pairs);
                proof {
                    let ps = spec_pair_up(mixed)->0;
                    assert forall|k: int| 2 <= k < 15 implies linked_maze_pads(teleport_pads@, k) by {
                        if k < 8 {
                            assert(linked_maze_pads(before, k));
                            let (a, b) = choose|a: (BlockPos, BlockPos), b: (BlockPos, BlockPos)|
                                #![trigger is_section_pad(a), is_section_pad(b)]
                                is_section_pad(a) && is_section_pad(b) && before[2 * k] == (TeleportPad {
                                    position: a.0,
                                    teleports_to: b.1,
                                    rotate_type: TeleportPadRotation::TowardsEnd,
                                }) && before[2 * k + 1] == (TeleportPad {
                                    position: b.0,
                                    teleports_to: a.1,
                                    rotate_type: TeleportPadRotation::TowardsEnd,
                                });
                            assert(teleport_pads@[2 * k] == before[2 * k]);
                            assert(teleport_pads@[2 * k + 1] == before[2 * k + 1]);
                        } else {
                            let m = k - 8;
                            let a = (ps[m].0.1, ps[m].0.2);
                            let b = (ps[m].1.1, ps[m].1.2);
                            assert(is_section_pad(a) && is_section_pad(b));
                            assert(teleport_pads@[2 * k] == pads_of(ps)[2 * m]);
                            assert(teleport_pads@[2 * k + 1] == pads_of(ps)[2 * m + 1]);
                        }
                    }
                    assert(teleport_pads@.subrange(0, 4) == head);
                    assert(teleport_pads@[0] == head[0]);
                    assert(teleport_pads@[1] == head[1]);
                    assert(teleport_pads@[2] == head[2]);
                    assert(teleport_pads@[3] == head[3]);
                    lemma_section_pad_in_range((pad, to_pad));
                    lemma_section_pad_in_range((pad_leading_to_end, end_landing));
                    assert forall|n: int| 0 <= n < teleport_pads@.len() implies pos_in_range(
                        (#[trigger] teleport_pads@[n]).position,
                    ) && pos_in_range(teleport_pads@[n].teleports_to) by {
                        if n >= 4 {
                            let k = n / 2;
                            assert(linked_maze_pads(teleport_pads@, k));
                            let (a, b) = choose|a: (BlockPos, BlockPos), b: (BlockPos, BlockPos)|
                                #![trigger is_section_pad(a), is_section_pad(b)]
                                is_section_pad(a) && is_section_pad(b) && teleport_pads@[2 * k]
                                    == (TeleportPad {
                                    position: a.0,
                                    teleports_to: b.1,
                                    rotate_type: TeleportPadRotation::TowardsEnd,
                                }) && teleport_pads@[2 * k + 1] == (TeleportPad {
                                    position: b.0,
                                    teleports_to: a.1,
                                    rotate_type: TeleportPadRotation::TowardsEnd,
                                });
                            lemma_section_pad_in_range(a);
                            lemma_section_pad_in_range(b);
                        }
                    }
                }
                let r = Some(TeleportMaze { teleport_pads, target: pad_leading_to_end });
                proof {
                    assert(teleport_pads@.subrange(16, 30) =~= pads_of(spec_pair_up(mixed)->0));
                    lemma_pairs_place(perm, sv_left, before, unmixed, mixed);
                    let all = before + pads_of(spec_pair_up(mixed)->0);
                    assert(teleport_pads@ =~= all);
                    assert forall|k: int| 2 <= k < 8 implies #[trigger] chain_link(teleport_pads@, perm, k) by {
                        assert(chain_link(before, perm, k));
                        lemma_linked_prefix(before, teleport_pads@, k, perm[k - 2], perm[k - 1]);
                    }
                    assert(spec_section_pads(perm[6]).contains((pad_leading_to_end, end_landing)));
                    let m = r->0;
                    let p = m.teleport_pads@;
                    assert(p == teleport_pads@);
                    assert(p[1] == head[1] && p[0] == head[0]);
                    assert(spec_section_pads(perm[0]).contains((p[1].position, p[0].teleports_to)));
                    assert(spec_section_pads(perm[6]).contains((m.target, end_landing)));
                    assert(forall|k: int| 2 <= k < 8 ==> #[trigger] chain_link(p, perm, k));
                    assert(forall|k: int| 8 <= k < 15 ==> #[trigger] crossing_link(p, perm, k));
                    assert(pad_positions(p).no_duplicates());
                    assert(forall|x: BlockPos| maze_position(x) <==> pad_positions(p).contains(x));
                    assert(maze_from_sections(r->0, perm));
                    assert(maze_laid_out(r, perm, unmixed, mixed));
                }
                r
            },
        }
    }
}

impl TeleportMaze {
    /// Every position of the maze is small enough to be moved into the world.
    pub open spec fn in_range(&self) -> bool {
        &&& pos_in_range(self.target)
        &&& forall|i: int|
            0 <= i < self.teleport_pads@.len() ==> pos_in_range(
                (#[trigger] self.teleport_pads@[i]).position,
            ) && pos_in_range(self.teleport_pads@[i].teleports_to)
    }

    /// Moves the maze from the room's own frame into the world once the room
    /// is found: every pad, every landing block and the target.
    pub fn discover(&mut self, room: &Room)
        requires
            old(self).in_range(),
            pos_in_range(room.corner),
        ensures
            final(self).teleport_pads@.len() == old(self).teleport_pads@.len(),
            forall|i: int|
                0 <= i < old(self).teleport_pads@.len() ==> #[trigger] final(self).teleport_pads@[i]
                    == (TeleportPad {
                    position: spec_relative_to_world(
                        room.rotation,
                        room.corner,
                        old(self).teleport_pads@[i].position,
                    ),
                    teleports_to: spec_relative_to_world(
                        room.rotation,
                        room.corner,
                        old(self).teleport_pads@[i].teleports_to,
                    ),
                    rotate_type: old(self).teleport_pads@[i].rotate_type,
                }),
            final(self).target == spec_relative_to_world(room.rotation, room.corner, old(self).target),
    {
        let mut i: usize = 0;
        while i < self.teleport_pads.len()
            invariant
                i <= self.teleport_pads@.len(),
                self.teleport_pads@.len() == old(self).teleport_pads@.len(),
                pos_in_range(room.corner),
                old(self).in_range(),
                self.target == old(self).target,
                forall|k: int|
                    i <= k < self.teleport_pads@.len() ==> self.teleport_pads@[k]
                        == old(self).teleport_pads@[k],
                forall|k: int|
                    0 <= k < i ==> #[trigger] self.teleport_pads@[k] == (TeleportPad {
                        position: spec_relative_to_world(
                            room.rotation,
                            room.corner,
                            old(self).teleport_pads@[k].position,
                        ),
                        teleports_to: spec_relative_to_world(
                            room.rotation,
                            room.corner,
                            old(self).teleport_pads@[k].teleports_to,
                        ),
                        rotate_type: old(self).teleport_pads@[k].rotate_type,
                    }),
            decreases old(self).teleport_pads@.len() - i,
        {
            let pad = self.teleport_pads[i];
            assert(pad == old(self).teleport_pads@[i as int]);
            let moved = TeleportPad {
                position: room.relative_to_world(pad.position),
                teleports_to: room.relative_to_world(pad.teleports_to),
                rotate_type: pad.rotate_type,
            };
            self.teleport_pads.set(i, moved);
            i = i + 1;
        }
        self.target = room.relative_to_world(self.target);
    }
}

/// The maze checks its pads for players every tick before the run starts, and
/// every tenth tick once it has started.
pub fn pads_checked(state: DungeonState) -> (r: bool)
    ensures
        r == !(state is Started && state->ticks % 10 != 0),
{
    match state {
        DungeonState::Started { ticks } => ticks % 10 == 0,
        _ => true,
    }
}

} // verus!
