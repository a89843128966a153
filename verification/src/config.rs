//! Playfield geometry and timing configuration, validated once at load time.

use vstd::prelude::*;
use vstd::arithmetic::div_mod::{lemma_fundamental_div_mod, lemma_mod_multiples_basic};

verus! {

/// Largest magnitude accepted for any playfield coordinate or step.
pub const MAX_COORD: i64 = 1_000_000;

/// Largest accepted timer interval and per-call elapsed time, in time units
/// (the host decides the unit; milliseconds are a natural choice).
pub const MAX_TIME: u64 = 1_000_000_000;

/// Largest number of blocks the registry accepts.
pub const MAX_BLOCKS: usize = 1_000_000;

/// Immutable simulation configuration: playfield geometry and timer intervals.
#[derive(Clone, Copy, Debug, PartialEq, Eq, Structural)]
pub struct Config {
    /// Leftmost x a block center may occupy; a multiple of `grid_step`.
    pub left_bound: i64,
    /// Rightmost x a block center may occupy; a multiple of `grid_step`.
    pub right_bound: i64,
    /// y at which falling blocks come to rest on the floor.
    pub floor_y: i64,
    /// y at which new blocks are created.
    pub spawn_y: i64,
    /// Half-extent of every block's square footprint.
    pub half_extent: i64,
    /// Horizontal quantization unit; spawned x snaps to a multiple of it.
    pub grid_step: i64,
    /// Distance a falling block descends per gravity tick.
    pub fall_step: i64,
    /// Interval of the spawn timer, in time units.
    pub spawn_interval: u64,
    /// Interval of the gravity timer, in time units.
    pub gravity_interval: u64,
    /// Interval of the cosmetic color-cycle timer, in time units.
    pub color_interval: u64,
}

/// The way in which a rejected configuration is inconsistent.
#[derive(Clone, Copy, Debug, PartialEq, Eq, Structural)]
pub enum ConfigError {
    /// A timer interval is zero or above `MAX_TIME`.
    IntervalOutOfRange,
    /// `half_extent`, `grid_step` or `fall_step` is non-positive or above `MAX_COORD`.
    StepOutOfRange,
    /// The horizontal bounds are out of range, inverted, narrower than two
    /// grid steps, or not aligned to the grid.
    BoundsInvalid,
    /// The floor and spawn heights are out of range or not ordered.
    HeightsInvalid,
}

impl Config {
    /// The three timer intervals are positive and within range.
    pub open spec fn intervals_ok(self) -> bool {
        &&& 0 < self.spawn_interval <= MAX_TIME
        &&& 0 < self.gravity_interval <= MAX_TIME
        &&& 0 < self.color_interval <= MAX_TIME
    }

    /// The block half-extent, grid step and fall step are positive and within range.
    pub open spec fn steps_ok(self) -> bool {
        &&& 0 < self.half_extent <= MAX_COORD
        &&& 0 < self.grid_step <= MAX_COORD
        &&& 0 < self.fall_step <= MAX_COORD
    }

    /// The horizontal bounds are within range, at least two grid steps apart
    /// (so a double spawn always fits), and grid-aligned.
    pub open spec fn bounds_ok(self) -> bool {
        &&& -MAX_COORD <= self.left_bound
        &&& self.right_bound <= MAX_COORD
        &&& self.left_bound < self.right_bound
        &&& self.right_bound - self.left_bound >= 2 * self.grid_step
        &&& self.left_bound % self.grid_step == 0
        &&& self.right_bound % self.grid_step == 0
    }

    /// The floor lies within range and strictly below the spawn height.
    pub open spec fn heights_ok(self) -> bool {
        &&& -MAX_COORD <= self.floor_y
        &&& self.spawn_y <= MAX_COORD
        &&& self.floor_y < self.spawn_y
    }

    /// A configuration every simulation entry point relies on.
    pub open spec fn valid(self) -> bool {
        &&& self.intervals_ok()
        &&& self.steps_ok()
        &&& self.bounds_ok()
        &&& self.heights_ok()
    }

    /// The first inconsistency found in an invalid configuration, in the
    /// order the checks run.
    pub open spec fn first_fault(self) -> ConfigError {
        if !self.intervals_ok() {
            ConfigError::IntervalOutOfRange
        } else if !self.steps_ok() {
            ConfigError::StepOutOfRange
        } else if !self.bounds_ok() {
            ConfigError::BoundsInvalid
        } else {
            ConfigError::HeightsInvalid
        }
    }

    /// Validates the configuration constants once; every later entry point
    /// requires the returned configuration.
    pub fn new(
        left_bound: i64,
        right_bound: i64,
        floor_y: i64,
        spawn_y: i64,
        half_extent: i64,
        grid_step: i64,
        fall_step: i64,
        spawn_interval: u64,
        gravity_interval: u64,
        color_interval: u64,
    ) -> (r: Result<Config, ConfigError>)
        ensures
            ({
                let c = Config {
                    left_bound,
                    right_bound,
                    floor_y,
                    spawn_y,
                    half_extent,
                    grid_step,
                    fall_step,
                    spawn_interval,
                    gravity_interval,
                    color_interval,
                };
                match r {
                    Ok(cc) => cc == c && c.valid(),
                    Err(e) => !c.valid() && e == c.first_fault(),
                }
            }),
    {
        let c = Config {
            left_bound,
            right_bound,
            floor_y,
            spawn_y,
            half_extent,
            grid_step,
            fall_step,
            spawn_interval,
            gravity_interval,
            color_interval,
        };
        if !(0 < spawn_interval && spawn_interval <= MAX_TIME
            && 0 < gravity_interval && gravity_interval <= MAX_TIME
            && 0 < color_interval && color_interval <= MAX_TIME)
        {
            return Err(ConfigError::IntervalOutOfRange);
        }
        if !(0 < half_extent && half_extent <= MAX_COORD
            && 0 < grid_step && grid_step <= MAX_COORD
            && 0 < fall_step && fall_step <= MAX_COORD)
        {
            return Err(ConfigError::StepOutOfRange);
        }
        if !(-MAX_COORD <= left_bound && right_bound <= MAX_COORD && left_bound < right_bound
            && right_bound - left_bound >= 2 * grid_step
            && is_multiple_of(left_bound, grid_step)
            && is_multiple_of(right_bound, grid_step))
        {
            return Err(ConfigError::BoundsInvalid);
        }
        if !(-MAX_COORD <= floor_y && spawn_y <= MAX_COORD && floor_y < spawn_y) {
            return Err(ConfigError::HeightsInvalid);
        }
        Ok(c)
    }
}

/// `d` divides `x` exactly; `x % d == 0` in the mathematical (euclidean) sense.
pub fn is_multiple_of(x: i64, d: i64) -> (r: bool)
    requires
        0 < d,
        -MAX_COORD <= x <= MAX_COORD,
    ensures
        r == (x as int % d as int == 0),
{
    if x >= 0 {
        x % d == 0
    } else {
        proof {
            lemma_neg_divides(x as int, d as int);
        }
        (-x) % d == 0
    }
}

/// `d` divides `x` exactly when it divides `-x` exactly.
proof fn lemma_neg_divides(x: int, d: int)
    requires
        d > 0,
    ensures
        (x % d == 0) <==> ((-x) % d == 0),
{
    if x % d == 0 {
        lemma_fundamental_div_mod(x, d);
        assert(-x == (-(x / d)) * d) by (nonlinear_arith)
            requires x == d * (x / d) + x % d && x % d == 0;
        lemma_mod_multiples_basic(-(x / d), d);
    }
    if (-x) % d == 0 {
        lemma_fundamental_div_mod(-x, d);
        assert(x == (-((-x) / d)) * d) by (nonlinear_arith)
            requires -x == d * ((-x) / d) + (-x) % d && (-x) % d == 0;
        lemma_mod_multiples_basic(-((-x) / d), d);
    }
}

} // verus!
