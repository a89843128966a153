//! Horizontal grid snapping: a spawned block's x is the drawn position with
//! its remainder toward zero removed, so all spawned blocks align to the
//! same grid as the settled geometry.

use vstd::prelude::*;
use vstd::arithmetic::div_mod::{
    lemma_div_is_ordered, lemma_div_multiples_vanish, lemma_fundamental_div_mod, lemma_mod_bound,
    lemma_mod_multiples_basic,
};
use vstd::arithmetic::mul::lemma_mul_inequality;
use crate::config::MAX_COORD;

verus! {

/// `x` with its remainder toward zero removed: the nearest multiple of
/// `step` lying between `x` and zero.
pub open spec fn snap_to_grid(x: int, step: int) -> int
    recommends
        step > 0,
{
    if x >= 0 {
        x - (x % step)
    } else {
        x + ((-x) % step)
    }
}

/// Snapping yields a grid multiple, and stays between any grid-aligned
/// bounds that enclose the drawn position.
pub proof fn lemma_snap_bounds(x: int, step: int, lo: int, hi: int)
    requires
        0 < step,
        lo % step == 0,
        hi % step == 0,
        lo <= x < hi,
    ensures
        snap_to_grid(x, step) % step == 0,
        lo <= snap_to_grid(x, step) <= hi,
{
    lemma_fundamental_div_mod(lo, step);
    lemma_fundamental_div_mod(hi, step);
    if x >= 0 {
        lemma_fundamental_div_mod(x, step);
        lemma_mod_bound(x, step);
        let q = x / step;
        assert(snap_to_grid(x, step) == step * q);
        lemma_mod_multiples_basic(q, step);
        lemma_div_is_ordered(lo, x, step);
        lemma_mul_inequality(lo / step, q, step);
        assert(step * (lo / step) == (lo / step) * step) by (nonlinear_arith);
        assert(step * q == q * step) by (nonlinear_arith);
    } else {
        let nx = -x;
        lemma_fundamental_div_mod(nx, step);
        lemma_mod_bound(nx, step);
        let q = nx / step;
        assert(-(step * q) == step * (-q)) by (nonlinear_arith);
        assert(snap_to_grid(x, step) == step * (-q));
        lemma_mod_multiples_basic(-q, step);
        assert(-(step * (hi / step)) == step * (-(hi / step))) by (nonlinear_arith);
        assert(-hi == step * (-(hi / step)));
        lemma_div_multiples_vanish(-(hi / step), step);
        lemma_div_is_ordered(-hi, nx, step);
        lemma_mul_inequality(-q, hi / step, step);
        assert(step * (-q) == (-q) * step) by (nonlinear_arith);
        assert(step * (hi / step) == (hi / step) * step) by (nonlinear_arith);
    }
}

/// Moving a grid-aligned position by one grid step keeps it grid-aligned.
pub proof fn lemma_step_preserves_alignment(x: int, step: int)
    requires
        step > 0,
        x % step == 0,
    ensures
        (x + step) % step == 0,
        (x - step) % step == 0,
{
    lemma_fundamental_div_mod(x, step);
    assert(x + step == (x / step + 1) * step) by (nonlinear_arith)
        requires x == step * (x / step) + x % step && x % step == 0;
    lemma_mod_multiples_basic(x / step + 1, step);
    assert(x - step == (x / step - 1) * step) by (nonlinear_arith)
        requires x == step * (x / step) + x % step && x % step == 0;
    lemma_mod_multiples_basic(x / step - 1, step);
}

/// Executable snap; equal to the `snap_to_grid` model.
pub fn snap_exec(x: i64, step: i64) -> (r: i64)
    requires
        0 < step <= MAX_COORD,
        -MAX_COORD <= x <= MAX_COORD,
    ensures
        r == snap_to_grid(x as int, step as int),
{
    if x >= 0 {
        x - x % step
    } else {
        proof {
            lemma_mod_bound(-x as int, step as int);
        }
        x + (-x) % step
    }
}

} // verus!
