//! Gravity and collision resolution: one discrete gravity step moves every
//! falling block down by the configured fall step, clamps it to the floor,
//! and lands it on top of any settled block whose footprint it penetrates,
//! testing the settled geometry in registry order.

use vstd::prelude::*;
use crate::block::{Block, BlockModel, Status, overlaps, overlaps_exec, models, in_limit, FIELD_LIMIT};
use crate::config::Config;

verus! {

/// One downward move of a falling block: y decreases by the fall step; at or
/// below the floor the block is clamped to the floor and settles.
pub open spec fn fall_once(b: BlockModel, c: Config) -> BlockModel {
    let y2 = b.y - c.fall_step;
    if y2 <= c.floor_y {
        BlockModel { x: b.x, y: c.floor_y as int, half: b.half, status: Status::Settled }
    } else {
        BlockModel { x: b.x, y: y2, half: b.half, status: b.status }
    }
}

/// The falling block `b` comes to rest exactly on top of the settled block `s`.
pub open spec fn land_on(b: BlockModel, s: BlockModel) -> BlockModel {
    BlockModel { x: b.x, y: s.y + s.half + b.half, half: b.half, status: Status::Settled }
}

/// One collision test of the moving block `b` against a registry entry `s`:
/// only a settled entry whose footprint overlaps `b` changes anything, and
/// then `b` lands on it.
pub open spec fn resolve_step(b: BlockModel, s: BlockModel) -> BlockModel {
    if s.status == Status::Settled && overlaps(b, s) {
        land_on(b, s)
    } else {
        b
    }
}

/// The moving block `b` tested against the registry entries `others` in
/// order; the last overlapping settled entry determines the resting y.
pub open spec fn resolve_against(b: BlockModel, others: Seq<BlockModel>) -> BlockModel
    decreases others.len(),
{
    if others.len() == 0 {
        b
    } else {
        resolve_against(resolve_step(b, others[0]), others.drop_first())
    }
}

/// The whole registry after one gravity step: every falling block falls once
/// and is resolved against the registry as it stood at the start of the step;
/// settled blocks do not move.
pub open spec fn step_all(blocks: Seq<BlockModel>, c: Config) -> Seq<BlockModel> {
    blocks.map_values(
        |b: BlockModel|
            if b.status == Status::Falling {
                resolve_against(fall_once(b, c), blocks)
            } else {
                b
            },
    )
}

/// How many entries of `s` are settled.
pub open spec fn settled_count(s: Seq<BlockModel>) -> int
    decreases s.len(),
{
    if s.len() == 0 {
        0
    } else {
        (if s[0].status == Status::Settled { 1int } else { 0int }) + settled_count(s.drop_first())
    }
}

/// Appending an entry adds one to the settled count exactly when the entry
/// is settled.
pub proof fn lemma_settled_count_push(s: Seq<BlockModel>, e: BlockModel)
    ensures
        settled_count(s.push(e)) == settled_count(s)
            + (if e.status == Status::Settled { 1int } else { 0int }),
    decreases s.len(),
{
    if s.len() == 0 {
        assert(s.push(e)[0] == e);
        assert(s.push(e).drop_first() =~= Seq::<BlockModel>::empty());
        assert(settled_count(Seq::<BlockModel>::empty()) == 0);
    } else {
        assert(s.push(e)[0] == s[0]);
        assert(s.push(e).drop_first() =~= s.drop_first().push(e));
        lemma_settled_count_push(s.drop_first(), e);
    }
}

/// Resolving one entry later is resolving all earlier entries first, then
/// taking one more collision test on the result.
pub proof fn lemma_resolve_snoc(b: BlockModel, others: Seq<BlockModel>, e: BlockModel)
    ensures
        resolve_against(b, others.push(e)) == resolve_step(resolve_against(b, others), e),
    decreases others.len(),
{
    if others.len() == 0 {
        assert(others.push(e)[0] == e);
        assert(others.push(e).drop_first() =~= Seq::<BlockModel>::empty());
        assert(resolve_against(resolve_step(b, e), Seq::<BlockModel>::empty())
            == resolve_step(b, e));
    } else {
        assert(others.push(e)[0] == others[0]);
        assert(others.push(e).drop_first() =~= others.drop_first().push(e));
        lemma_resolve_snoc(resolve_step(b, others[0]), others.drop_first(), e);
    }
}

/// Resolution either leaves the moving block as it is, or settles it exactly
/// on top of some settled registry entry; x and half-extent never change.
pub proof fn lemma_resolve_cases(b: BlockModel, others: Seq<BlockModel>)
    ensures
        ({
            let r = resolve_against(b, others);
            &&& r.x == b.x
            &&& r.half == b.half
            &&& (r == b || (r.status == Status::Settled && exists|j: int|
                0 <= j < others.len() && others[j].status == Status::Settled
                    && r.y == others[j].y + others[j].half + b.half))
        }),
    decreases others.len(),
{
    if others.len() > 0 {
        let b2 = resolve_step(b, others[0]);
        lemma_resolve_cases(b2, others.drop_first());
        let r = resolve_against(b, others);
        if r == b2 {
            if b2 != b {
                assert(others[0].status == Status::Settled
                    && r.y == others[0].y + others[0].half + b.half);
            }
        } else {
            let j2 = choose|j: int|
                0 <= j < others.drop_first().len()
                    && others.drop_first()[j].status == Status::Settled
                    && r.y == others.drop_first()[j].y + others.drop_first()[j].half + b2.half;
            assert(others.drop_first()[j2] == others[j2 + 1]);
            assert(0 <= j2 + 1 < others.len() && others[j2 + 1].status == Status::Settled
                && r.y == others[j2 + 1].y + others[j2 + 1].half + b.half);
        }
    }
}

/// The settled count never exceeds the length.
pub proof fn lemma_settled_count_bounds(s: Seq<BlockModel>)
    ensures
        0 <= settled_count(s) <= s.len(),
    decreases s.len(),
{
    if s.len() > 0 {
        lemma_settled_count_bounds(s.drop_first());
    }
}

/// If every settled entry of `a` is settled at the same place in `b`, the
/// settled count does not decrease.
pub proof fn lemma_settled_count_monotone(a: Seq<BlockModel>, b: Seq<BlockModel>)
    requires
        a.len() == b.len(),
        forall|i: int| 0 <= i < a.len() && a[i].status == Status::Settled
            ==> #[trigger] b[i].status == Status::Settled,
    ensures
        settled_count(a) <= settled_count(b),
    decreases a.len(),
{
    if a.len() > 0 {
        assert forall|i: int|
            0 <= i < a.drop_first().len() && a.drop_first()[i].status == Status::Settled
                implies #[trigger] b.drop_first()[i].status == Status::Settled by {
            assert(a.drop_first()[i] == a[i + 1]);
            assert(b.drop_first()[i] == b[i + 1]);
        }
        lemma_settled_count_monotone(a.drop_first(), b.drop_first());
    }
}

/// As `lemma_settled_count_monotone`, and some entry newly settled in `b`
/// makes the count strictly larger.
pub proof fn lemma_settled_count_strict(a: Seq<BlockModel>, b: Seq<BlockModel>, k: int)
    requires
        a.len() == b.len(),
        forall|i: int| 0 <= i < a.len() && a[i].status == Status::Settled
            ==> #[trigger] b[i].status == Status::Settled,
        0 <= k < a.len(),
        a[k].status != Status::Settled,
        b[k].status == Status::Settled,
    ensures
        settled_count(a) + 1 <= settled_count(b),
    decreases a.len(),
{
    assert forall|i: int|
        0 <= i < a.drop_first().len() && a.drop_first()[i].status == Status::Settled
            implies #[trigger] b.drop_first()[i].status == Status::Settled by {
        assert(a.drop_first()[i] == a[i + 1]);
        assert(b.drop_first()[i] == b[i + 1]);
    }
    if k == 0 {
        lemma_settled_count_monotone(a.drop_first(), b.drop_first());
    } else {
        assert(a.drop_first()[k - 1] == a[k]);
        assert(b.drop_first()[k - 1] == b[k]);
        lemma_settled_count_strict(a.drop_first(), b.drop_first(), k - 1);
    }
}

/// Executable single fall; equal to the `fall_once` model.
pub fn fall_exec(b: Block, c: &Config) -> (r: Block)
    requires
        c.valid(),
        in_limit(b@),
    ensures
        r@ == fall_once(b@, *c),
{
    let y2 = b.y - c.fall_step;
    if y2 <= c.floor_y {
        Block { x: b.x, y: c.floor_y, half: b.half, status: Status::Settled }
    } else {
        Block { x: b.x, y: y2, half: b.half, status: b.status }
    }
}

/// Executable gravity-and-collision resolution of one block against a
/// snapshot of the registry; equal to the
/// `resolve_against(fall_once(..), ..)` model.
pub fn resolve_one(b: Block, others: &Vec<Block>, c: &Config) -> (r: Block)
    requires
        c.valid(),
        in_limit(b@),
        forall|j: int| 0 <= j < others@.len() ==> in_limit(#[trigger] others@[j]@),
    ensures
        r@ == resolve_against(fall_once(b@, *c), models(others@)),
{
    let ghost fallen = fall_once(b@, *c);
    let mut cur = fall_exec(b, c);
    let n = others.len();
    let mut j: usize = 0;
    while j < n
        invariant
            j <= n,
            n == others@.len(),
            c.valid(),
            in_limit(b@),
            forall|k: int| 0 <= k < others@.len() ==> in_limit(#[trigger] others@[k]@),
            fallen == fall_once(b@, *c),
            cur@ == resolve_against(fallen, models(others@).take(j as int)),
            cur.x == b.x,
            cur.half == b.half,
            -2 * FIELD_LIMIT <= cur.y <= 3 * FIELD_LIMIT,
        decreases n - j,
    {
        let ghost pre = cur@;
        let other = others[j];
        assert(models(others@)[j as int] == others@[j as int]@);
        if matches!(other.status, Status::Settled) && overlaps_exec(&cur, &other) {
            cur = Block {
                x: cur.x,
                y: other.y + other.half + cur.half,
                half: cur.half,
                status: Status::Settled,
            };
        }
        proof {
            assert(cur@ == resolve_step(pre, others@[j as int]@));
            lemma_resolve_snoc(fallen, models(others@).take(j as int), models(others@)[j as int]);
            assert(models(others@).take(j as int + 1)
                =~= models(others@).take(j as int).push(models(others@)[j as int]));
        }
        j += 1;
    }
    proof {
        assert(models(others@).take(n as int) =~= models(others@));
    }
    cur
}

} // verus!
