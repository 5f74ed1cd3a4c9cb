use vstd::prelude::*;

use crate::geometry::{spec_direction_offset, BlockPos, Direction};

verus! {

/// A block that a crusher places.
#[derive(Clone, Copy, Debug, PartialEq, Eq, Structural)]
pub enum CrusherBlock {
    RedstoneBlock,
    /// Polished granite (stone, variant 2).
    PolishedGranite,
    Air,
}

/// What one tick of a crusher does to the world.
#[derive(Clone, Copy, Debug, PartialEq, Eq, Structural)]
pub enum CrusherAction {
    SetBlock { block: CrusherBlock, position: BlockPos },
    /// Moves a player by `(dx, 0, dz)` out of the crusher's way.
    PushPlayer { player: u64, dx: i32, dz: i32 },
}

/// A wall that slides out block by block along `direction` until it reaches
/// `max_length`, optionally pauses, then slides back.
#[derive(Clone, Copy, Debug, PartialEq, Eq, Structural)]
pub struct Crusher {
    pub block_pos: BlockPos,
    pub direction: Direction,
    pub width: i32,
    pub height: i32,
    pub max_length: u16,
    pub tick_per_block: u16,
    pub pause_duration: u16,
    pub current_length: u16,
    pub tick: u16,
    pub is_paused: bool,
    pub is_reversed: bool,
}

/// The blocks of one slab of the wall at `(x, y, z)`: `width` columns across
/// the direction of travel, each `height` blocks high, column by column.
pub open spec fn spec_slab(x: int, y: int, z: int, dx: int, dz: int, width: int, height: int) -> Seq<
    BlockPos,
>
    decreases width,
{
    if width <= 0 {
        seq![]
    } else {
        spec_slab(x, y, z, dx, dz, width - 1, height) + spec_column(
            x + (width - 1) * dz,
            y,
            z + (width - 1) * dx,
            height,
        )
    }
}

pub open spec fn spec_column(x: int, y: int, z: int, height: int) -> Seq<BlockPos>
    decreases height,
{
    if height <= 0 {
        seq![]
    } else {
        spec_column(x, y, z, height - 1).push(
            BlockPos { x: x as i32, y: (y + height - 1) as i32, z: z as i32 },
        )
    }
}

/// A wall with no columns, or columns of no height, has no blocks.
proof fn lemma_empty_slab(x: int, y: int, z: int, dx: int, dz: int, width: int, height: int)
    requires
        width <= 0 || height <= 0,
    ensures
        spec_slab(x, y, z, dx, dz, width, height) == Seq::<BlockPos>::empty(),
    decreases width,
{
    if width > 0 {
        lemma_empty_slab(x, y, z, dx, dz, width - 1, height);
        assert(spec_column(x + (width - 1) * dz, y, z + (width - 1) * dx, height) == Seq::<BlockPos>::empty());
        assert(spec_slab(x, y, z, dx, dz, width, height) =~= Seq::<BlockPos>::empty());
    }
}

pub open spec fn set_all(block: CrusherBlock, ps: Seq<BlockPos>) -> Seq<CrusherAction> {
    ps.map_values(|p: BlockPos| CrusherAction::SetBlock { block, position: p })
}

/// `v * d` for a unit step `d`.
fn scale(v: i32, d: i32) -> (r: i32)
    requires
        -1 <= d <= 1,
        0 <= v,
    ensures
        r == v * d,
{
    if d == 0 {
        0
    } else if d == 1 {
        v
    } else {
        assert(v * d == -v) by (nonlinear_arith)
            requires
                d == -1,
        ;
        -v
    }
}

/// `a + k * d` lies between `a` and `a + n * d` for a unit step `d` and
/// `0 <= k <= n`.
proof fn lemma_between(a: int, k: int, n: int, d: int)
    requires
        -1 <= d <= 1,
        0 <= k <= n,
    ensures
        a <= a + k * d <= a + n * d || a + n * d <= a + k * d <= a,
{
    if d == 0 {
        assert(k * d == 0 && n * d == 0);
    } else if d == 1 {
        assert(k * d == k && n * d == n);
    } else {
        assert(k * d == -k && n * d == -n) by (nonlinear_arith)
            requires
                d == -1,
        ;
    }
}

impl Crusher {
    /// The crusher's fixed numbers let it run for ever: it moves with a
    /// nonzero speed, its tick counter never needs more than 16 bits, it does
    /// not step back further than it went out (a crusher of length 0 must take
    /// more than one tick per block), and every block it touches has
    /// coordinates that fit in an `i32`. A width or height of 0 or less gives
    /// an empty wall. (A crusher along `Up` or `Down` does not move its slab;
    /// it can only run while nobody is there to be pushed, see `tick`.)
    pub open spec fn valid_params(&self) -> bool {
        let (dx, dy, dz) = spec_direction_offset(self.direction);
        &&& self.tick_per_block >= 1
        &&& self.max_length >= 1 || self.tick_per_block >= 2
        &&& self.tick_per_block * (self.max_length + 1) <= u16::MAX
        &&& i32::MIN <= self.block_pos.y - 1
        &&& i32::MIN <= self.block_pos.x + self.max_length * dx <= i32::MAX
        &&& i32::MIN <= self.block_pos.z + self.max_length * dz <= i32::MAX
        &&& self.width > 0 && self.height > 0 ==> {
            &&& self.block_pos.y + self.height - 1 <= i32::MAX
            &&& i32::MIN <= self.block_pos.x + (self.width - 1) * dz <= i32::MAX
            &&& i32::MIN <= self.block_pos.z + (self.width - 1) * dx <= i32::MAX
        }
    }

    /// Valid numbers, and a state that the ticks can reach: the wall is never
    /// longer than the crusher reaches, and the tick counter stays below the
    /// tick of the next step (or the end of the pause).
    pub open spec fn wf(&self) -> bool {
        &&& self.valid_params()
        &&& self.current_length <= self.max_length + 1
        &&& !self.is_reversed ==> self.current_length <= self.max_length
        &&& self.is_reversed ==> self.current_length < self.max_length || (self.max_length == 0
            && self.current_length == 0 && (self.is_paused || self.tick == 0))
        &&& !self.is_paused ==> self.tick < self.tick_per_block * (self.current_length + 1)
        &&& self.is_paused ==> self.current_length == 0 && self.tick < self.pause_duration
    }

    /// A resting crusher.
    pub fn new(
        block_pos: BlockPos,
        direction: Direction,
        width: i32,
        height: i32,
        max_length: u16,
        tick_per_block: u16,
        pause_duration: u16,
    ) -> (r: Crusher)
        ensures
            r == (Crusher {
                block_pos,
                direction,
                width,
                height,
                max_length,
                tick_per_block,
                pause_duration,
                current_length: 0,
                tick: 0,
                is_paused: false,
                is_reversed: false,
            }),
            r.valid_params() ==> r.wf(),
    {
        Crusher {
            block_pos,
            direction,
            width,
            height,
            max_length,
            tick_per_block,
            pause_duration,
            current_length: 0,
            tick: 0,
            is_paused: false,
            is_reversed: false,
        }
    }

    /// Blocks of the slab whose first column is at `(x, y, z)`.
    fn set_blocks(&self, block: CrusherBlock, x: i32, y: i32, z: i32, dx: i32, dz: i32, out: &mut Vec<
        CrusherAction,
    >)
        requires
            -1 <= dx <= 1,
            -1 <= dz <= 1,
            self.width > 0 && self.height > 0 ==> {
                &&& y + self.height - 1 <= i32::MAX
                &&& i32::MIN <= x + (self.width - 1) * dz <= i32::MAX
                &&& i32::MIN <= z + (self.width - 1) * dx <= i32::MAX
            },
        ensures
            final(out)@ == old(out)@ + set_all(
                block,
                spec_slab(x as int, y as int, z as int, dx as int, dz as int, self.width as int, self.height as int),
            ),
    {
        let ghost start = out@;
        if self.width <= 0 || self.height <= 0 {
            proof {
                lemma_empty_slab(x as int, y as int, z as int, dx as int, dz as int, self.width as int, self.height as int);
                assert(start + set_all(block, Seq::<BlockPos>::empty()) =~= start);
            }
            return;
        }
        let mut w: i32 = 0;
        while w < self.width
            invariant
                0 <= w <= self.width,
                0 < self.height,
                y + self.height - 1 <= i32::MAX,
                i32::MIN <= x + (self.width - 1) * dz <= i32::MAX,
                i32::MIN <= z + (self.width - 1) * dx <= i32::MAX,
                -1 <= dx <= 1,
                -1 <= dz <= 1,
                out@ == start + set_all(block, spec_slab(x as int, y as int, z as int, dx as int, dz as int, w as int, self.height as int)),
            decreases self.width - w,
        {
            proof {
                lemma_between(x as int, w as int, self.width - 1, dz as int);
                lemma_between(z as int, w as int, self.width - 1, dx as int);
            }
            let cx = x + scale(w, dz);
            let cz = z + scale(w, dx);
            let ghost before = out@;
            let mut h: i32 = 0;
            while h < self.height
                invariant
                    0 <= h <= self.height,
                    y + self.height - 1 <= i32::MAX,
                    out@ == before + set_all(block, spec_column(cx as int, y as int, cz as int, h as int)),
                decreases self.height - h,
            {
                let p = BlockPos { x: cx, y: y + h, z: cz };
                out.push(CrusherAction::SetBlock { block, position: p });
                proof {
                    assert(spec_column(cx as int, y as int, cz as int, h + 1) == spec_column(cx as int, y as int, cz as int, h as int).push(p));
                    assert(set_all(block, spec_column(cx as int, y as int, cz as int, h + 1)) =~= set_all(block, spec_column(cx as int, y as int, cz as int, h as int)).push(CrusherAction::SetBlock { block, position: p }));
                }
                h = h + 1;
            }
            proof {
                let old_slab = spec_slab(x as int, y as int, z as int, dx as int, dz as int, w as int, self.height as int);
                let col = spec_column(cx as int, y as int, cz as int, self.height as int);
                assert(spec_slab(x as int, y as int, z as int, dx as int, dz as int, w + 1, self.height as int) == old_slab + col);
                assert(set_all(block, old_slab + col) =~= set_all(block, old_slab) + set_all(block, col));
            }
            w = w + 1;
        }
    }

    /// Whether a player at `position` stands where the slab at `(x, y, z)` is
    /// being placed; players are never pushed yet, so this is always false.
    pub fn is_in_way(&self, position: BlockPos, x: i32, y: i32, z: i32) -> (r: bool)
        requires
            self.direction.is_horizontal(),
        ensures
            !r,
    {
        false
    }

    /// One game tick: keeps the redstone block under the crusher, and every
    /// `tick_per_block` ticks moves the wall one block out (placing a slab) or,
    /// on the way back, removes one slab; at either end it pauses for
    /// `pause_duration` ticks (if nonzero) and then turns around. Players are
    /// checked for being in the way only on a tick that places a slab, and
    /// only a crusher along a horizontal direction can tell (see `is_in_way`).
    pub fn tick(&mut self, players: &Vec<(u64, BlockPos)>) -> (r: Vec<CrusherAction>)
        requires
            old(self).wf(),
            players@.len() > 0 && !old(self).is_paused && !old(self).is_reversed && (old(self).tick + 1)
                % (old(self).tick_per_block as int) == 0 ==> old(self).direction.is_horizontal(),
        ensures
            final(self).wf(),
            (*final(self), r@) == spec_crusher_tick(*old(self)),
    {
        let ghost s0 = *self;
        proof {
            assert(s0.tick_per_block * (s0.current_length + 1) <= s0.tick_per_block * (s0.max_length + 1)) by (nonlinear_arith)
                requires
                    s0.current_length <= s0.max_length,
                    s0.tick_per_block >= 1,
            ;
            let t: int = s0.tick + 1;
            let tpb: int = s0.tick_per_block as int;
            let cl: int = s0.current_length as int;
            assert(t <= tpb * (cl + 1) ==> t < tpb * (cl + 2)) by (nonlinear_arith)
                requires
                    tpb >= 1,
            ;
            assert(t % tpb != 0 && t <= tpb * (cl + 1) ==> t < tpb * (cl + 1)) by (nonlinear_arith)
                requires
                    tpb >= 1,
                    cl >= 0,
            ;
            assert(0 < tpb * (0 + 1)) by (nonlinear_arith)
                requires
                    tpb >= 1,
            ;
            assert(s0.max_length + 1 <= s0.tick_per_block * (s0.max_length + 1)) by (nonlinear_arith)
                requires
                    s0.tick_per_block >= 1,
            ;
            if s0.is_reversed && !s0.is_paused && s0.current_length >= s0.max_length {
                assert(t % tpb == 1) by (nonlinear_arith)
                    requires
                        t == 1,
                        tpb >= 2,
                ;
            }
            let (dx, dy, dz) = spec_direction_offset(s0.direction);
            assert(dx == 0 || dz == 0);
            lemma_between(s0.block_pos.x as int, s0.current_length as int, s0.max_length as int, dx as int);
            lemma_between(s0.block_pos.z as int, s0.current_length as int, s0.max_length as int, dz as int);
            if s0.current_length <= s0.max_length {
                lemma_between(s0.block_pos.x as int, s0.max_length - s0.current_length, s0.max_length as int, dx as int);
                lemma_between(s0.block_pos.z as int, s0.max_length - s0.current_length, s0.max_length as int, dz as int);
            }
        }
        let mut out: Vec<CrusherAction> = Vec::new();
        self.tick = self.tick + 1;
        out.push(
            CrusherAction::SetBlock {
                block: CrusherBlock::RedstoneBlock,
                position: BlockPos { x: self.block_pos.x, y: self.block_pos.y - 1, z: self.block_pos.z },
            },
        );
        if self.is_paused {
            if self.tick == self.pause_duration {
                self.is_reversed = !self.is_reversed;
                self.is_paused = false;
                self.tick = 0;
            }
        } else {
            assert(s0.tick_per_block * (s0.current_length + 1) <= s0.tick_per_block * (s0.max_length + 1)) by (nonlinear_arith)
                requires
                    s0.current_length <= s0.max_length,
                    s0.tick_per_block >= 1,
            ;
            if self.tick % self.tick_per_block == 0 {
                let (dx, _dy, dz) = self.direction.get_offset();
                if !self.is_reversed {
                    let x = self.block_pos.x + scale(self.current_length as i32, dx);
                    let y = self.block_pos.y;
                    let z = self.block_pos.z + scale(self.current_length as i32, dz);
                    self.set_blocks(CrusherBlock::PolishedGranite, x, y, z, dx, dz, &mut out);
                    let ghost mid = *self;
                    let ghost out_mid = out@;
                    let mut i: usize = 0;
                    while i < players.len()
                        invariant
                            i <= players.len(),
                            *self == mid,
                            out@ == out_mid,
                            players@.len() > 0 ==> mid.direction.is_horizontal(),
                        decreases players.len() - i,
                    {
                        let (id, position) = players[i];
                        if self.is_in_way(position, x, y, z) {
                            out.push(CrusherAction::PushPlayer { player: id, dx, dz });
                        }
                        i = i + 1;
                    }
                } else {
                    let back = (self.max_length - self.current_length) as i32;
                    let x = self.block_pos.x + scale(back, dx);
                    let y = self.block_pos.y;
                    let z = self.block_pos.z + scale(back, dz);
                    self.set_blocks(CrusherBlock::Air, x, y, z, dx, dz, &mut out);
                }
                self.current_length = self.current_length + 1;
            }
            if self.is_reversed && self.current_length == self.max_length || !self.is_reversed
                && self.current_length > self.max_length {
                if self.pause_duration != 0 {
                    self.is_paused = true;
                } else {
                    self.is_reversed = !self.is_reversed;
                }
                self.tick = 0;
                self.current_length = 0;
            }
        }
        assert(self.current_length <= self.max_length + 1);
        assert(!self.is_reversed ==> self.current_length <= self.max_length);
        assert(self.is_reversed ==> self.current_length < self.max_length || (self.max_length == 0
            && self.current_length == 0 && (self.is_paused || self.tick == 0)));
        assert(!self.is_paused ==> self.tick < self.tick_per_block * (self.current_length + 1));
        assert(self.is_paused ==> self.current_length == 0 && self.tick < self.pause_duration);
        out
    }
}

/// One tick of a crusher: its next state and the actions it takes.
pub open spec fn spec_crusher_tick(s: Crusher) -> (Crusher, Seq<CrusherAction>) {
    let t = (s.tick + 1) as u16;
    let red = CrusherAction::SetBlock {
        block: CrusherBlock::RedstoneBlock,
        position: BlockPos { x: s.block_pos.x, y: (s.block_pos.y - 1) as i32, z: s.block_pos.z },
    };
    if s.is_paused {
        if t == s.pause_duration {
            (Crusher { is_reversed: !s.is_reversed, is_paused: false, tick: 0, ..s }, seq![red])
        } else {
            (Crusher { tick: t, ..s }, seq![red])
        }
    } else {
        let (dx, dy, dz) = spec_direction_offset(s.direction);
        let acted = t % s.tick_per_block == 0;
        let blocks = if !acted {
            seq![]
        } else if !s.is_reversed {
            set_all(
                CrusherBlock::PolishedGranite,
                spec_slab(
                    s.block_pos.x + s.current_length * dx,
                    s.block_pos.y as int,
                    s.block_pos.z + s.current_length * dz,
                    dx as int,
                    dz as int,
                    s.width as int,
                    s.height as int,
                ),
            )
        } else {
            set_all(
                CrusherBlock::Air,
                spec_slab(
                    s.block_pos.x + (s.max_length - s.current_length) * dx,
                    s.block_pos.y as int,
                    s.block_pos.z + (s.max_length - s.current_length) * dz,
                    dx as int,
                    dz as int,
                    s.width as int,
                    s.height as int,
                ),
            )
        };
        let cl = if acted { (s.current_length + 1) as u16 } else { s.current_length };
        let ended = (s.is_reversed && cl == s.max_length) || (!s.is_reversed && cl > s.max_length);
        let next = if !ended {
            Crusher { tick: t, current_length: cl, ..s }
        } else if s.pause_duration != 0 {
            Crusher { is_paused: true, tick: 0, current_length: 0, ..s }
        } else {
            Crusher { is_reversed: !s.is_reversed, tick: 0, current_length: 0, ..s }
        };
        (next, seq![red] + blocks)
    }
}

/// The crusher after `n` ticks.
pub open spec fn spec_crusher_run(c: Crusher, n: int) -> Crusher
    decreases n,
{
    if n <= 0 {
        c
    } else {
        spec_crusher_tick(spec_crusher_run(c, n - 1)).0
    }
}

/// The actions of tick number `n` (counted from 1) of a crusher.
pub open spec fn spec_tick_actions(c: Crusher, n: int) -> Seq<CrusherAction> {
    spec_crusher_tick(spec_crusher_run(c, n - 1)).1
}

/// A crusher as `new` makes it: retracted, going out, not paused.
pub open spec fn at_rest(c: Crusher) -> bool {
    c.current_length == 0 && c.tick == 0 && !c.is_paused && !c.is_reversed
}

/// The redstone block under the crusher.
pub open spec fn redstone(c: Crusher) -> CrusherAction {
    CrusherAction::SetBlock {
        block: CrusherBlock::RedstoneBlock,
        position: BlockPos { x: c.block_pos.x, y: (c.block_pos.y - 1) as i32, z: c.block_pos.z },
    }
}

/// The slab `k` blocks out from the crusher along its direction.
pub open spec fn crusher_slab(c: Crusher, k: int) -> Seq<BlockPos> {
    let (dx, dy, dz) = spec_direction_offset(c.direction);
    spec_slab(
        c.block_pos.x + k * dx,
        c.block_pos.y as int,
        c.block_pos.z + k * dz,
        dx as int,
        dz as int,
        c.width as int,
        c.height as int,
    )
}

/// Ticks of one whole cycle: out, pause, back, pause.
pub open spec fn cycle_length(c: Crusher) -> int {
    c.tick_per_block * (2 * c.max_length + 1) + 2 * c.pause_duration
}

proof fn lemma_run_add(c: Crusher, a: int, b: int)
    requires
        0 <= a,
        0 <= b,
    ensures
        spec_crusher_run(c, a + b) == spec_crusher_run(spec_crusher_run(c, a), b),
    decreases b,
{
    if b > 0 {
        lemma_run_add(c, a, b - 1);
    }
}

/// `(n + 1) / t` steps up by one exactly when `n + 1` is a multiple of `t`.
proof fn lemma_div_step(n: int, t: int)
    requires
        0 <= n,
        1 <= t,
    ensures
        (n + 1) % t == 0 ==> (n + 1) / t == n / t + 1,
        (n + 1) % t != 0 ==> (n + 1) / t == n / t,
{
    vstd::arithmetic::div_mod::lemma_fundamental_div_mod(n, t);
    vstd::arithmetic::div_mod::lemma_fundamental_div_mod(n + 1, t);
    let q = n / t;
    let r = n % t;
    assert(0 <= r < t);
    assert(n + 1 == q * t + (r + 1)) by (nonlinear_arith)
        requires
            n == t * q + r,
    ;
    if r + 1 < t {
        vstd::arithmetic::div_mod::lemma_fundamental_div_mod_converse(n + 1, t, q, r + 1);
    } else {
        assert(n + 1 == (q + 1) * t + 0) by (nonlinear_arith)
            requires
                n + 1 == q * t + (r + 1),
                r + 1 == t,
        ;
        vstd::arithmetic::div_mod::lemma_fundamental_div_mod_converse(n + 1, t, q + 1, 0);
    }
}

/// Below `t * (m + 1)` the quotient by `t` is at most `m`.
proof fn lemma_div_below(n: int, t: int, m: int)
    requires
        0 <= n < t * (m + 1),
        1 <= t,
        0 <= m,
    ensures
        0 <= n / t <= m,
{
    vstd::arithmetic::div_mod::lemma_fundamental_div_mod(n, t);
    assert(n / t <= m) by (nonlinear_arith)
        requires
            n == t * (n / t) + n % t,
            0 <= n % t < t,
            n < t * (m + 1),
            1 <= t,
    ;
    assert(0 <= n / t) by (nonlinear_arith)
        requires
            n == t * (n / t) + n % t,
            0 <= n % t < t,
            0 <= n,
            1 <= t,
    ;
}

/// While the crusher goes out (or back), after `n` ticks its counter is `n`
/// and it has moved `n / tick_per_block` blocks.
proof fn lemma_moving(c: Crusher, n: int)
    requires
        c.valid_params(),
        c.max_length >= 1,
        c.current_length == 0,
        c.tick == 0,
        !c.is_paused,
        0 <= n < c.tick_per_block * (if c.is_reversed { c.max_length as int } else { c.max_length + 1 }),
    ensures
        spec_crusher_run(c, n) == (Crusher { tick: n as u16, current_length: (n / c.tick_per_block as int) as u16, ..c }),
    decreases n,
{
    let t = c.tick_per_block as int;
    let top: int = if c.is_reversed { c.max_length as int } else { c.max_length + 1 };
    if n > 0 {
        lemma_moving(c, n - 1);
        lemma_div_step(n - 1, t);
        lemma_div_below(n, t, top - 1);
        lemma_div_below(n - 1, t, top - 1);
        assert(t * top <= 0xffff) by (nonlinear_arith)
            requires
                t * (c.max_length + 1) <= 0xffff,
                0 <= top <= c.max_length + 1,
                t >= 1,
        ;
    }
}

/// The tick of a moving crusher, `n` ticks into its move: the redstone, and
/// every `tick_per_block`-th tick the next slab.
proof fn lemma_moving_actions(c: Crusher, n: int)
    requires
        c.valid_params(),
        c.max_length >= 1,
        c.current_length == 0,
        c.tick == 0,
        !c.is_paused,
        0 <= n < c.tick_per_block * (if c.is_reversed { c.max_length as int } else { c.max_length + 1 }),
    ensures
        spec_tick_actions(c, n + 1) == seq![redstone(c)] + if (n + 1) % (c.tick_per_block as int) != 0 {
            Seq::<CrusherAction>::empty()
        } else if c.is_reversed {
            set_all(CrusherBlock::Air, crusher_slab(c, c.max_length - n / (c.tick_per_block as int)))
        } else {
            set_all(CrusherBlock::PolishedGranite, crusher_slab(c, n / (c.tick_per_block as int)))
        },
{
    lemma_moving(c, n);
    let t = c.tick_per_block as int;
    let top: int = if c.is_reversed { c.max_length as int } else { c.max_length + 1 };
    lemma_div_below(n, t, top - 1);
    assert(t * top <= 0xffff) by (nonlinear_arith)
        requires
            t * (c.max_length + 1) <= 0xffff,
            0 <= top <= c.max_length + 1,
            t >= 1,
    ;
}

/// The last tick of a move: the crusher pauses or turns, back at length 0.
proof fn lemma_move_ends(c: Crusher)
    requires
        c.valid_params(),
        c.max_length >= 1,
        c.current_length == 0,
        c.tick == 0,
        !c.is_paused,
    ensures
        ({
            let top: int = if c.is_reversed { c.max_length as int } else { c.max_length + 1 };
            let n = c.tick_per_block * top;
            spec_crusher_run(c, n) == if c.pause_duration != 0 {
                Crusher { is_paused: true, ..c }
            } else {
                Crusher { is_reversed: !c.is_reversed, ..c }
            }
        }),
{
    let t = c.tick_per_block as int;
    let top: int = if c.is_reversed { c.max_length as int } else { c.max_length + 1 };
    let n = t * top;
    assert(n >= 1) by (nonlinear_arith)
        requires
            t >= 1,
            top >= 1,
            n == t * top,
    ;
    lemma_moving(c, n - 1);
    lemma_div_step(n - 1, t);
    assert(n == top * t + 0) by (nonlinear_arith)
        requires
            n == t * top,
    ;
    vstd::arithmetic::div_mod::lemma_fundamental_div_mod_converse(n, t, top, 0);
    assert(n <= 0xffff) by (nonlinear_arith)
        requires
            t * (c.max_length + 1) <= 0xffff,
            0 <= top <= c.max_length + 1,
            t >= 1,
            n == t * top,
    ;
}

/// A pause of `pause_duration` ticks, then the crusher turns.
proof fn lemma_pausing(c: Crusher, j: int)
    requires
        c.valid_params(),
        c.is_paused,
        c.current_length == 0,
        c.tick == 0,
        0 <= j <= c.pause_duration,
        c.pause_duration >= 1,
    ensures
        j < c.pause_duration ==> spec_crusher_run(c, j) == (Crusher { tick: j as u16, ..c }),
        j == c.pause_duration ==> spec_crusher_run(c, j) == (Crusher {
            is_paused: false,
            is_reversed: !c.is_reversed,
            ..c
        }),
        1 <= j ==> spec_tick_actions(c, j) == seq![redstone(c)],
    decreases j,
{
    if j > 0 {
        lemma_pausing(c, j - 1);
    }
}

/// A crusher at rest runs through its whole cycle and comes back to rest: it
/// sets the redstone block under it on every tick; going out, every
/// `tick_per_block`-th tick it places the next slab of stone, from the slab at
/// the crusher itself to the slab `max_length` blocks out, and does nothing
/// else on the other ticks; then it pauses for `pause_duration` ticks (if that
/// is nonzero) and turns; going back, every `tick_per_block`-th tick it
/// clears the farthest slab still standing, down to the slab one block out
/// (the slab at the crusher itself stays); then it pauses again and turns.
pub proof fn lemma_crusher_cycle(c: Crusher)
    requires
        c.valid_params(),
        c.max_length >= 1,
        at_rest(c),
    ensures
        spec_crusher_run(c, cycle_length(c)) == c,
        forall|n: int| n >= 1 ==> (#[trigger] spec_tick_actions(c, n))[0] == redstone(c),
        forall|k: int|
            0 <= k <= c.max_length ==> spec_tick_actions(c, c.tick_per_block * (k + 1)) == seq![redstone(c)]
                + set_all(CrusherBlock::PolishedGranite, #[trigger] crusher_slab(c, k)),
        forall|n: int|
            1 <= n <= c.tick_per_block * (c.max_length + 1) && n % (c.tick_per_block as int) != 0
                ==> #[trigger] spec_tick_actions(c, n) == seq![redstone(c)],
        forall|j: int|
            1 <= j <= c.pause_duration ==> #[trigger] spec_tick_actions(
                c,
                c.tick_per_block * (c.max_length + 1) + j,
            ) == seq![redstone(c)],
        forall|k: int|
            1 <= k <= c.max_length ==> spec_tick_actions(
                c,
                c.tick_per_block * (c.max_length + 1) + c.pause_duration + c.tick_per_block * (
                c.max_length - k + 1),
            ) == seq![redstone(c)] + set_all(CrusherBlock::Air, #[trigger] crusher_slab(c, k)),
{
    let t = c.tick_per_block as int;
    let m = c.max_length as int;
    let p = c.pause_duration as int;
    let n1 = t * (m + 1);
    let n2 = t * m;
    assert(n1 >= 1 && n2 >= 1 && t * (2 * m + 1) == n1 + n2) by (nonlinear_arith)
        requires
            t >= 1,
            m >= 1,
            n1 == t * (m + 1),
            n2 == t * m,
    ;
    assert forall|n: int| n >= 1 implies (#[trigger] spec_tick_actions(c, n))[0] == redstone(c) by {
        lemma_run_keeps_place(c, n - 1);
    }
    assert forall|k: int| 0 <= k <= m implies spec_tick_actions(c, t * (k + 1)) == seq![redstone(c)]
        + set_all(CrusherBlock::PolishedGranite, #[trigger] crusher_slab(c, k)) by {
        let n = t * (k + 1) - 1;
        assert(0 <= n < n1 && n == k * t + (t - 1) && n + 1 == (k + 1) * t + 0) by (nonlinear_arith)
            requires
                t >= 1,
                0 <= k <= m,
                n == t * (k + 1) - 1,
                n1 == t * (m + 1),
        ;
        vstd::arithmetic::div_mod::lemma_fundamental_div_mod_converse(n + 1, t, k + 1, 0);
        vstd::arithmetic::div_mod::lemma_fundamental_div_mod_converse(n, t, k, t - 1);
        lemma_moving_actions(c, n);
    }
    assert forall|n: int| 1 <= n <= n1 && n % t != 0 implies #[trigger] spec_tick_actions(c, n)
        == seq![redstone(c)] by {
        lemma_moving_actions(c, n - 1);
        assert(seq![redstone(c)] + Seq::<CrusherAction>::empty() =~= seq![redstone(c)]);
    }
    lemma_move_ends(c);
    let s1 = spec_crusher_run(c, n1);
    let r0 = Crusher { is_reversed: true, ..c };
    if p != 0 {
        assert forall|j: int| 1 <= j <= p implies #[trigger] spec_tick_actions(c, n1 + j)
            == seq![redstone(c)] by {
            lemma_pausing(s1, j);
            lemma_run_add(c, n1, j - 1);
        }
        lemma_pausing(s1, p);
        lemma_run_add(c, n1, p);
    }
    assert(spec_crusher_run(c, n1 + p) == r0);
    assert forall|k: int| 1 <= k <= m implies spec_tick_actions(c, n1 + p + t * (m - k + 1))
        == seq![redstone(c)] + set_all(CrusherBlock::Air, #[trigger] crusher_slab(c, k)) by {
        let n = t * (m - k + 1) - 1;
        assert(0 <= n < n2 && n == (m - k) * t + (t - 1) && n + 1 == (m - k + 1) * t + 0) by (nonlinear_arith)
            requires
                t >= 1,
                1 <= k <= m,
                n == t * (m - k + 1) - 1,
                n2 == t * m,
        ;
        vstd::arithmetic::div_mod::lemma_fundamental_div_mod_converse(n + 1, t, m - k + 1, 0);
        vstd::arithmetic::div_mod::lemma_fundamental_div_mod_converse(n, t, m - k, t - 1);
        lemma_moving_actions(r0, n);
        lemma_run_add(c, n1 + p, n);
        assert(crusher_slab(r0, m - (m - k)) == crusher_slab(c, k));
    }
    lemma_move_ends(r0);
    lemma_run_add(c, n1 + p, n2);
    let s3 = spec_crusher_run(r0, n2);
    if p != 0 {
        lemma_pausing(s3, p);
        lemma_run_add(c, n1 + p + n2, p);
    }
    assert(cycle_length(c) == n1 + p + n2 + p);
}

/// Ticking never moves a crusher or changes its fixed numbers.
proof fn lemma_run_keeps_place(c: Crusher, n: int)
    ensures
        spec_crusher_run(c, n).block_pos == c.block_pos,
        spec_crusher_run(c, n).direction == c.direction,
        spec_crusher_run(c, n).width == c.width,
        spec_crusher_run(c, n).height == c.height,
        spec_crusher_run(c, n).max_length == c.max_length,
        spec_crusher_run(c, n).tick_per_block == c.tick_per_block,
        spec_crusher_run(c, n).pause_duration == c.pause_duration,
    decreases n,
{
    if n > 0 {
        lemma_run_keeps_place(c, n - 1);
    }
}

} // verus!
