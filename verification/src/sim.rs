//! The simulation core: the block registry, the three timers and the random
//! generator, with the tick-driven spawn and gravity updates and the
//! key-press handler.

use vstd::prelude::*;
use crate::block::{models, in_limit, Block, BlockModel, Status};
use crate::config::{Config, MAX_BLOCKS, MAX_TIME};
use crate::engine::{
    fall_once, lemma_resolve_cases, lemma_settled_count_bounds, lemma_settled_count_monotone,
    lemma_settled_count_push, lemma_settled_count_strict, resolve_against, resolve_one,
    settled_count, step_all,
};
use crate::grid::{lemma_snap_bounds, lemma_step_preserves_alignment, snap_exec, snap_to_grid};
use crate::rng::{draw_in_range, seeded_rng};
use crate::timer::Timer;

verus! {

/// A directional key press. Left and right nudge the falling blocks one grid
/// step; up and down are acknowledged but do nothing.
#[derive(Clone, Copy, Debug, PartialEq, Eq, Structural)]
pub enum Direction {
    Left,
    Right,
    Up,
    Down,
}

/// Which of the three timers fired during one `tick` call.
#[derive(Clone, Copy, Debug, PartialEq, Eq, Structural)]
pub struct TickEvents {
    pub spawn_fired: bool,
    pub gravity_fired: bool,
    pub color_fired: bool,
}

/// The simulation: configuration, block registry, timers and the random
/// generator the spawner draws from.
pub struct Sim {
    pub config: Config,
    pub blocks: Vec<Block>,
    pub spawn_timer: Timer,
    pub gravity_timer: Timer,
    pub color_timer: Timer,
    pub rng: rand::rngs::StdRng,
}

impl Sim {
    /// The registry as a sequence of block models, in registry order.
    pub open spec fn model(self) -> Seq<BlockModel> {
        models(self.blocks@)
    }

    /// One block's place in a well-formed registry: inside the horizontal
    /// bounds and grid-aligned, at or above the floor, of the configured
    /// half-extent; a falling block is no higher than the spawn height, and a
    /// settled block no higher than the spawn height plus one block height
    /// per settled block below the count `scount`.
    pub open spec fn block_ok(b: BlockModel, c: Config, scount: int) -> bool {
        &&& c.left_bound <= b.x <= c.right_bound
        &&& b.x % (c.grid_step as int) == 0
        &&& b.half == c.half_extent
        &&& c.floor_y <= b.y
        &&& (b.status == Status::Falling ==> b.y <= c.spawn_y)
        &&& (b.status == Status::Settled ==> b.y <= c.spawn_y + 2 * c.half_extent * scount)
    }

    /// The simulation invariant, established by `new` and preserved by every
    /// entry point.
    pub open spec fn wf(self) -> bool {
        &&& self.config.valid()
        &&& self.model().len() <= MAX_BLOCKS
        &&& (forall|i: int|
            0 <= i < self.model().len() ==> Self::block_ok(
                #[trigger] self.model()[i],
                self.config,
                settled_count(self.model()),
            ))
        &&& self.spawn_timer.wf() && self.spawn_timer.interval == self.config.spawn_interval
        &&& self.gravity_timer.wf() && self.gravity_timer.interval == self.config.gravity_interval
        &&& self.color_timer.wf() && self.color_timer.interval == self.config.color_interval
    }

    /// In a well-formed registry every block's coordinates are far from the
    /// integer limits.
    proof fn lemma_wf_in_limit(self)
        requires
            self.wf(),
        ensures
            forall|i: int| 0 <= i < self.model().len() ==> in_limit(#[trigger] self.model()[i]),
    {
        lemma_settled_count_bounds(self.model());
        let sc = settled_count(self.model());
        assert forall|i: int| 0 <= i < self.model().len() implies in_limit(
            #[trigger] self.model()[i],
        ) by {
            let b = self.model()[i];
            assert(Self::block_ok(b, self.config, sc));
            assert(0 <= 2 * self.config.half_extent * sc <= 2_000_000_000_000) by (nonlinear_arith)
                requires 0 <= self.config.half_extent <= 1_000_000 && 0 <= sc <= 1_000_000;
        }
    }

    /// A fresh simulation: the given configuration, an empty registry, all
    /// three timers at zero, and a generator built from the seed.
    pub fn new(config: Config, seed: u64) -> (s: Sim)
        requires
            config.valid(),
        ensures
            s.wf(),
            s.config == config,
            s.model() == Seq::<BlockModel>::empty(),
            s.spawn_timer.accumulated == 0,
            s.gravity_timer.accumulated == 0,
            s.color_timer.accumulated == 0,
    {
        let s = Sim {
            config,
            blocks: Vec::new(),
            spawn_timer: Timer::new(config.spawn_interval),
            gravity_timer: Timer::new(config.gravity_interval),
            color_timer: Timer::new(config.color_interval),
            rng: seeded_rng(seed),
        };
        proof {
            assert(s.model() =~= Seq::<BlockModel>::empty());
        }
        s
    }

    /// The block a spawn at drawn position `raw_x` creates: grid-snapped x,
    /// spawn height, configured half-extent, falling.
    pub open spec fn spawned_block(c: Config, raw_x: int) -> BlockModel {
        BlockModel {
            x: snap_to_grid(raw_x, c.grid_step as int),
            y: c.spawn_y as int,
            half: c.half_extent as int,
            status: Status::Falling,
        }
    }

    /// The right-hand partner of a double spawn: one grid step to the right
    /// of the snapped position.
    pub open spec fn spawned_partner(c: Config, raw_x: int) -> BlockModel {
        BlockModel {
            x: snap_to_grid(raw_x, c.grid_step as int) + c.grid_step,
            y: c.spawn_y as int,
            half: c.half_extent as int,
            status: Status::Falling,
        }
    }

    /// Registers one new falling block at the grid snap of the drawn
    /// position `raw_x`, at the spawn height.
    pub fn spawn_single_at(&mut self, raw_x: i64)
        requires
            old(self).wf(),
            old(self).config.left_bound <= raw_x < old(self).config.right_bound,
            old(self).model().len() < MAX_BLOCKS,
        ensures
            final(self).wf(),
            final(self).config == old(self).config,
            final(self).spawn_timer == old(self).spawn_timer,
            final(self).gravity_timer == old(self).gravity_timer,
            final(self).color_timer == old(self).color_timer,
            final(self).model() == old(self).model().push(
                Self::spawned_block(old(self).config, raw_x as int),
            ),
            // Grid alignment and horizontal bound of the spawned block.
            final(self).model().last().x % (old(self).config.grid_step as int) == 0,
            old(self).config.left_bound <= final(self).model().last().x
                <= old(self).config.right_bound,
    {
        let c = self.config;
        proof {
            lemma_snap_bounds(
                raw_x as int,
                c.grid_step as int,
                c.left_bound as int,
                c.right_bound as int,
            );
        }
        let x = snap_exec(raw_x, c.grid_step);
        let b = Block { x, y: c.spawn_y, half: c.half_extent, status: Status::Falling };
        self.blocks.push(b);
        proof {
            let pre = old(self).model();
            assert(self.model() =~= pre.push(b@));
            lemma_settled_count_push(pre, b@);
            assert(Self::block_ok(b@, c, settled_count(self.model())));
        }
    }
    /// Registers two new falling blocks with touching footprints: the grid
    /// snap of the drawn position `raw_x`, and its right-hand partner one
    /// grid step over, both at the spawn height.
    pub fn spawn_double_at(&mut self, raw_x: i64)
        requires
            old(self).wf(),
            old(self).config.left_bound <= raw_x
                < old(self).config.right_bound - old(self).config.grid_step,
            old(self).model().len() + 2 <= MAX_BLOCKS,
        ensures
            final(self).wf(),
            final(self).config == old(self).config,
            final(self).spawn_timer == old(self).spawn_timer,
            final(self).gravity_timer == old(self).gravity_timer,
            final(self).color_timer == old(self).color_timer,
            final(self).model() == old(self).model().push(
                Self::spawned_block(old(self).config, raw_x as int),
            ).push(Self::spawned_partner(old(self).config, raw_x as int)),
            // Grid alignment and horizontal bound of both spawned blocks.
            forall|i: int|
                old(self).model().len() <= i < final(self).model().len()
                    ==> (#[trigger] final(self).model()[i]).x % (old(self).config.grid_step as int)
                    == 0 && old(self).config.left_bound <= final(self).model()[i].x
                    <= old(self).config.right_bound,
    {
        let c = self.config;
        proof {
            lemma_step_preserves_alignment(c.right_bound as int, c.grid_step as int);
            lemma_snap_bounds(
                raw_x as int,
                c.grid_step as int,
                c.left_bound as int,
                c.right_bound - c.grid_step,
            );
            lemma_step_preserves_alignment(
                snap_to_grid(raw_x as int, c.grid_step as int),
                c.grid_step as int,
            );
        }
        let x = snap_exec(raw_x, c.grid_step);
        let b1 = Block { x, y: c.spawn_y, half: c.half_extent, status: Status::Falling };
        let b2 = Block {
            x: x + c.grid_step,
            y: c.spawn_y,
            half: c.half_extent,
            status: Status::Falling,
        };
        self.blocks.push(b1);
        self.blocks.push(b2);
        proof {
            let pre = old(self).model();
            assert(self.model() =~= pre.push(b1@).push(b2@));
            lemma_settled_count_push(pre, b1@);
            lemma_settled_count_push(pre.push(b1@), b2@);
            let sc = settled_count(self.model());
            assert(Self::block_ok(b1@, c, sc));
            assert(Self::block_ok(b2@, c, sc));
        }
    }

    /// Whether `post` is `pre` with one spawn event applied: either a single
    /// block or a double spawn, at some drawn position within the spawn
    /// range of the chosen shape.
    pub open spec fn spawn_outcome(pre: Seq<BlockModel>, post: Seq<BlockModel>, c: Config) -> bool {
        ||| (exists|raw: int|
            c.left_bound <= raw < c.right_bound && post == pre.push(
                #[trigger] Self::spawned_block(c, raw),
            ))
        ||| (exists|raw: int|
            c.left_bound <= raw < c.right_bound - c.grid_step && post == pre.push(
                #[trigger] Self::spawned_block(c, raw),
            ).push(Self::spawned_partner(c, raw)))
    }

    /// One spawn event: draws the shape (single or double, uniformly) and
    /// the horizontal position (uniform in the shape's spawn range), snaps
    /// the position to the grid, and registers the new falling block(s).
    pub fn spawn_random(&mut self)
        requires
            old(self).wf(),
            old(self).model().len() + 2 <= MAX_BLOCKS,
        ensures
            final(self).wf(),
            final(self).config == old(self).config,
            final(self).spawn_timer == old(self).spawn_timer,
            final(self).gravity_timer == old(self).gravity_timer,
            final(self).color_timer == old(self).color_timer,
            Self::spawn_outcome(old(self).model(), final(self).model(), old(self).config),
    {
        let c = self.config;
        let shape = draw_in_range(&mut self.rng, 0, 2);
        if shape == 0 {
            let raw = draw_in_range(&mut self.rng, c.left_bound, c.right_bound);
            self.spawn_single_at(raw);
        } else {
            let raw = draw_in_range(&mut self.rng, c.left_bound, c.right_bound - c.grid_step);
            self.spawn_double_at(raw);
        }
    }
    /// A block after one key press: a falling block moves one grid step in
    /// the pressed direction unless the move would leave the bounds; settled
    /// blocks, vertical presses, and out-of-bounds moves change nothing.
    pub open spec fn moved_block(b: BlockModel, dir: Direction, c: Config) -> BlockModel {
        if b.status == Status::Falling {
            match dir {
                Direction::Left => if b.x - c.grid_step >= c.left_bound {
                    BlockModel { x: b.x - c.grid_step, ..b }
                } else {
                    b
                },
                Direction::Right => if b.x + c.grid_step <= c.right_bound {
                    BlockModel { x: b.x + c.grid_step, ..b }
                } else {
                    b
                },
                _ => b,
            }
        } else {
            b
        }
    }

    /// Applies one directional key press: every falling block is moved
    /// independently, clamped to the horizontal bounds; no block ever leaves
    /// `[left_bound, right_bound]`.
    pub fn on_key_press(&mut self, dir: Direction)
        requires
            old(self).wf(),
        ensures
            final(self).wf(),
            final(self).config == old(self).config,
            final(self).spawn_timer == old(self).spawn_timer,
            final(self).gravity_timer == old(self).gravity_timer,
            final(self).color_timer == old(self).color_timer,
            final(self).model().len() == old(self).model().len(),
            forall|i: int|
                0 <= i < old(self).model().len() ==> #[trigger] final(self).model()[i]
                    == Self::moved_block(old(self).model()[i], dir, old(self).config),
            // Horizontal bound: no move ever leaves the playfield.
            forall|i: int|
                0 <= i < old(self).model().len() ==> old(self).config.left_bound <= (
                #[trigger] final(self).model()[i]).x <= old(self).config.right_bound,
    {
        let ghost pre = self.model();
        let c = self.config;
        let n = self.blocks.len();
        let mut out: Vec<Block> = Vec::new();
        let mut i: usize = 0;
        while i < n
            invariant
                i <= n,
                n == self.blocks@.len(),
                self.model() == pre,
                c == self.config,
                c.valid(),
                forall|k: int|
                    0 <= k < n ==> Self::block_ok(#[trigger] pre[k], c, settled_count(pre)),
                out@.len() == i,
                forall|k: int|
                    0 <= k < i ==> #[trigger] models(out@)[k] == Self::moved_block(pre[k], dir, c),
            decreases n - i,
        {
            let b = self.blocks[i];
            assert(b@ == pre[i as int]);
            let moved = if matches!(b.status, Status::Falling) {
                match dir {
                    Direction::Left => {
                        if b.x - c.grid_step >= c.left_bound {
                            Block { x: b.x - c.grid_step, ..b }
                        } else {
                            b
                        }
                    },
                    Direction::Right => {
                        if b.x + c.grid_step <= c.right_bound {
                            Block { x: b.x + c.grid_step, ..b }
                        } else {
                            b
                        }
                    },
                    _ => b,
                }
            } else {
                b
            };
            let ghost out_pre = out@;
            out.push(moved);
            proof {
                assert(models(out@) =~= models(out_pre).push(moved@));
                assert(moved@ == Self::moved_block(pre[i as int], dir, c));
                assert(forall|k: int|
                    0 <= k < out_pre.len() ==> #[trigger] models(out@)[k] == models(out_pre)[k]);
            }
            i += 1;
        }
        self.blocks = out;
        proof {
            let post = self.model();
            assert forall|k: int|
                0 <= k < n && pre[k].status == Status::Settled implies #[trigger] post[k].status
                == Status::Settled by {
                assert(post[k] == Self::moved_block(pre[k], dir, c));
            }
            assert forall|k: int|
                0 <= k < n && post[k].status == Status::Settled implies #[trigger] pre[k].status
                == Status::Settled by {
                assert(post[k] == Self::moved_block(pre[k], dir, c));
            }
            lemma_settled_count_monotone(pre, post);
            lemma_settled_count_monotone(post, pre);
            assert forall|k: int| 0 <= k < post.len() implies Self::block_ok(
                #[trigger] post[k],
                c,
                settled_count(post),
            ) by {
                assert(post[k] == Self::moved_block(pre[k], dir, c));
                assert(Self::block_ok(pre[k], c, settled_count(pre)));
                lemma_step_preserves_alignment(pre[k].x, c.grid_step as int);
            }
        }
    }
    /// One discrete gravity step over the registry as it stood at the start
    /// of the step: every falling block descends one fall step, is clamped
    /// to the floor, and lands on top of any settled block it penetrates;
    /// settled blocks never change. Beyond the exact result `step_all`,
    /// the contract states the settling idempotence, floor bound, monotonic
    /// fall and landing placement laws.
    #[verifier::rlimit(60)]
    pub fn gravity_step(&mut self)
        requires
            old(self).wf(),
        ensures
            final(self).wf(),
            final(self).config == old(self).config,
            final(self).spawn_timer == old(self).spawn_timer,
            final(self).gravity_timer == old(self).gravity_timer,
            final(self).color_timer == old(self).color_timer,
            final(self).model() == step_all(old(self).model(), old(self).config),
            final(self).model().len() == old(self).model().len(),
            // Settling idempotence: a settled block is never changed again.
            forall|i: int|
                0 <= i < old(self).model().len() && old(self).model()[i].status == Status::Settled
                    ==> #[trigger] final(self).model()[i] == old(self).model()[i],
            // Floor bound: no block ever sinks below the floor.
            forall|i: int|
                0 <= i < old(self).model().len() ==> (#[trigger] final(self).model()[i]).y
                    >= old(self).config.floor_y,
            // Monotonic fall: a block that keeps falling moved down by
            // exactly the fall step and nothing else changed.
            forall|i: int|
                0 <= i < old(self).model().len() && old(self).model()[i].status == Status::Falling
                    && (#[trigger] final(self).model()[i]).status == Status::Falling
                    ==> final(self).model()[i] == (BlockModel {
                        y: old(self).model()[i].y - old(self).config.fall_step,
                        ..old(self).model()[i]
                    }),
            // Landing placement: a block that settled this step rests either
            // exactly on the floor or exactly on top of a block that was
            // already settled.
            forall|i: int|
                0 <= i < old(self).model().len() && old(self).model()[i].status == Status::Falling
                    && (#[trigger] final(self).model()[i]).status == Status::Settled
                    ==> final(self).model()[i].y == old(self).config.floor_y || (exists|j: int|
                        0 <= j < old(self).model().len()
                            && old(self).model()[j].status == Status::Settled
                            && final(self).model()[i].y == old(self).model()[j].y
                            + old(self).model()[j].half + old(self).model()[i].half),
    {
        let ghost pre = self.model();
        let c = self.config;
        proof {
            old(self).lemma_wf_in_limit();
            assert forall|k: int| 0 <= k < self.blocks@.len() implies in_limit(
                #[trigger] self.blocks@[k]@,
            ) by {
                assert(pre[k] == self.blocks@[k]@);
            }
        }
        let n = self.blocks.len();
        let mut out: Vec<Block> = Vec::new();
        let mut i: usize = 0;
        while i < n
            invariant
                i <= n,
                n == self.blocks@.len(),
                self.model() == pre,
                c == self.config,
                c.valid(),
                forall|k: int| 0 <= k < n ==> in_limit(#[trigger] self.blocks@[k]@),
                out@.len() == i,
                forall|k: int|
                    0 <= k < i ==> #[trigger] models(out@)[k] == step_all(pre, c)[k],
            decreases n - i,
        {
            let b = self.blocks[i];
            assert(b@ == pre[i as int]);
            let stepped = if matches!(b.status, Status::Falling) {
                resolve_one(b, &self.blocks, &self.config)
            } else {
                b
            };
            let ghost out_pre = out@;
            out.push(stepped);
            proof {
                assert(models(out@) =~= models(out_pre).push(stepped@));
                assert(stepped@ == step_all(pre, c)[i as int]);
                assert(forall|k: int|
                    0 <= k < out_pre.len() ==> #[trigger] models(out@)[k] == models(out_pre)[k]);
            }
            i += 1;
        }
        self.blocks = out;
        proof {
            let post = self.model();
            assert(post =~= step_all(pre, c));
            let h = c.half_extent as int;
            assert forall|k: int|
                0 <= k < n && pre[k].status == Status::Settled implies (
            #[trigger] post[k]).status == Status::Settled by {
                assert(post[k] == pre[k]);
            }
            lemma_settled_count_monotone(pre, post);
            lemma_settled_count_bounds(pre);
            lemma_settled_count_bounds(post);
            let sc0 = settled_count(pre);
            let sc1 = settled_count(post);
            assert forall|k: int| 0 <= k < n implies Self::block_ok(
                #[trigger] post[k],
                c,
                sc1,
            ) by {
                assert(Self::block_ok(pre[k], c, sc0));
                if pre[k].status == Status::Falling {
                    let fallen = fall_once(pre[k], c);
                    lemma_resolve_cases(fallen, pre);
                    let r = resolve_against(fallen, pre);
                    assert(post[k] == r);
                    if r == fallen {
                        assert(0 <= 2 * h * sc1) by (nonlinear_arith)
                            requires h >= 0 && sc1 >= 0;
                    } else {
                        let j = choose|j: int|
                            0 <= j < pre.len() && pre[j].status == Status::Settled && r.y == pre[j].y
                                + pre[j].half + fallen.half;
                        assert(Self::block_ok(pre[j], c, sc0));
                        lemma_settled_count_strict(pre, post, k);
                        assert(2 * h * (sc0 + 1) <= 2 * h * sc1) by (nonlinear_arith)
                            requires h >= 0 && sc0 + 1 <= sc1;
                        assert(2 * h * sc0 + 2 * h == 2 * h * (sc0 + 1)) by (nonlinear_arith);
                    }
                } else {
                    assert(post[k] == pre[k]);
                    assert(2 * h * sc0 <= 2 * h * sc1) by (nonlinear_arith)
                        requires h >= 0 && sc0 <= sc1;
                }
            }
            assert forall|k: int|
                0 <= k < n && pre[k].status == Status::Falling && (
            #[trigger] post[k]).status == Status::Settled implies post[k].y == c.floor_y
                || exists|j: int|
                0 <= j < pre.len() && pre[j].status == Status::Settled && post[k].y == pre[j].y
                    + pre[j].half + pre[k].half by {
                let fallen = fall_once(pre[k], c);
                lemma_resolve_cases(fallen, pre);
            }
            assert forall|k: int|
                0 <= k < n && pre[k].status == Status::Falling && (
            #[trigger] post[k]).status == Status::Falling implies post[k] == BlockModel {
                y: pre[k].y - c.fall_step,
                ..pre[k]
            } by {
                let fallen = fall_once(pre[k], c);
                lemma_resolve_cases(fallen, pre);
            }
        }
    }
    /// What one `tick` call does to the registry, through the intermediate
    /// state `mid` after the spawn phase: if the spawn timer fired, `mid` is
    /// `pre` with one spawn event applied, else `pre` unchanged; if the
    /// gravity timer fired, the result is one gravity step over `mid`, else
    /// `mid` unchanged.
    pub open spec fn tick_frame(
        pre: Seq<BlockModel>,
        mid: Seq<BlockModel>,
        post: Seq<BlockModel>,
        spawned: bool,
        fell: bool,
        c: Config,
    ) -> bool {
        &&& (if spawned {
            Self::spawn_outcome(pre, mid, c)
        } else {
            mid == pre
        })
        &&& post == (if fell {
            step_all(mid, c)
        } else {
            mid
        })
    }

    /// What one `tick` call does to the registry: through some intermediate
    /// state after the spawn phase, `tick_frame` holds.
    pub open spec fn tick_rel(
        pre: Seq<BlockModel>,
        post: Seq<BlockModel>,
        spawned: bool,
        fell: bool,
        c: Config,
    ) -> bool {
        exists|mid: Seq<BlockModel>| #[trigger] Self::tick_frame(pre, mid, post, spawned, fell, c)
    }

    /// Advances the simulation by `delta` elapsed time units: all three
    /// timers tick; if the spawn timer fired, one spawn event runs; if the
    /// gravity timer then fired, one gravity step runs over the registry
    /// including any block just spawned. The color timer only reports, for
    /// the presentation layer's cosmetic color cycle.
    pub fn tick(&mut self, delta: u64) -> (ev: TickEvents)
        requires
            old(self).wf(),
            delta <= MAX_TIME,
            old(self).model().len() + 2 <= MAX_BLOCKS,
        ensures
            final(self).wf(),
            final(self).config == old(self).config,
            ev.spawn_fired == old(self).spawn_timer.spec_fires(delta),
            ev.gravity_fired == old(self).gravity_timer.spec_fires(delta),
            ev.color_fired == old(self).color_timer.spec_fires(delta),
            final(self).spawn_timer.interval == old(self).spawn_timer.interval,
            final(self).gravity_timer.interval == old(self).gravity_timer.interval,
            final(self).color_timer.interval == old(self).color_timer.interval,
            final(self).spawn_timer.accumulated == old(self).spawn_timer.spec_accumulated_after(
                delta,
            ),
            final(self).gravity_timer.accumulated == old(
                self,
            ).gravity_timer.spec_accumulated_after(delta),
            final(self).color_timer.accumulated == old(self).color_timer.spec_accumulated_after(
                delta,
            ),
            Self::tick_rel(
                old(self).model(),
                final(self).model(),
                ev.spawn_fired,
                ev.gravity_fired,
                old(self).config,
            ),
    {
        let spawn_fired = self.spawn_timer.advance(delta);
        let gravity_fired = self.gravity_timer.advance(delta);
        let color_fired = self.color_timer.advance(delta);
        if spawn_fired {
            self.spawn_random();
        }
        let ghost mid = self.model();
        if gravity_fired {
            self.gravity_step();
        }
        proof {
            assert(Self::tick_frame(
                old(self).model(),
                mid,
                self.model(),
                spawn_fired,
                gravity_fired,
                old(self).config,
            ));
            assert(Self::tick_rel(
                old(self).model(),
                self.model(),
                spawn_fired,
                gravity_fired,
                old(self).config,
            ));
        }
        TickEvents { spawn_fired, gravity_fired, color_fired }
    }

    /// How many blocks the registry holds.
    pub fn block_count(&self) -> (n: usize)
        ensures
            n == self.model().len(),
    {
        self.blocks.len()
    }

    /// The block at registry index `i`, for drawing and inspection.
    pub fn get_block(&self, i: usize) -> (b: Block)
        requires
            i < self.model().len(),
        ensures
            b@ == self.model()[i as int],
    {
        self.blocks[i]
    }
}

} // verus!
