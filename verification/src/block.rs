//! The block entity: a square footprint with a center position and a
//! falling/settled status, together with its mathematical model and the
//! epsilon-margin overlap test used by collision resolution.

use vstd::prelude::*;
use crate::config::Config;

verus! {

/// Inward margin of the overlap test: penetration must reach this depth on
/// every side, so exactly touching footprints (as grid-aligned stacking
/// produces) do not read as collisions.
pub const EPSILON: i64 = 1;

/// Whether a block still falls or has come to rest. A block is created
/// `Falling` and transitions to `Settled` exactly once, never back.
#[derive(Clone, Copy, Debug, PartialEq, Eq, Structural)]
pub enum Status {
    Falling,
    Settled,
}

/// One block of the simulation: a square of half-extent `half` centered at
/// `(x, y)` in playfield space.
#[derive(Clone, Copy, Debug, PartialEq, Eq, Structural)]
pub struct Block {
    pub x: i64,
    pub y: i64,
    pub half: i64,
    pub status: Status,
}

/// The mathematical model of a block: the same fields over unbounded integers.
pub struct BlockModel {
    pub x: int,
    pub y: int,
    pub half: int,
    pub status: Status,
}

impl View for Block {
    type V = BlockModel;

    open spec fn view(&self) -> BlockModel {
        BlockModel { x: self.x as int, y: self.y as int, half: self.half as int, status: self.status }
    }
}

/// The models of a sequence of blocks.
pub open spec fn models(s: Seq<Block>) -> Seq<BlockModel> {
    s.map_values(|b: Block| b@)
}

impl BlockModel {
    /// The block sits within the playfield: x between the horizontal bounds,
    /// y at or above the floor, and the configured half-extent.
    pub open spec fn in_field(self, c: Config) -> bool {
        &&& c.left_bound <= self.x <= c.right_bound
        &&& c.floor_y <= self.y
        &&& self.half == c.half_extent
    }
}

/// Symmetric axis-aligned overlap between two square footprints, with the
/// inward `EPSILON` margin: both footprints must penetrate each other by at
/// least the margin horizontally and vertically.
pub open spec fn overlaps(a: BlockModel, b: BlockModel) -> bool {
    &&& a.x + a.half >= b.x - b.half + EPSILON
    &&& a.x - a.half <= b.x + b.half - EPSILON
    &&& a.y - a.half <= b.y + b.half - EPSILON
    &&& a.y + a.half >= b.y - b.half + EPSILON
}

/// Magnitude bound under which the overlap test and landing arithmetic stay
/// far from the integer limits.
pub const FIELD_LIMIT: i64 = 4_000_000_000_000;

/// All four coordinates of the block are within `FIELD_LIMIT`.
pub open spec fn in_limit(b: BlockModel) -> bool {
    &&& -FIELD_LIMIT <= b.x <= FIELD_LIMIT
    &&& -FIELD_LIMIT <= b.y <= FIELD_LIMIT
    &&& 0 <= b.half <= FIELD_LIMIT
}

/// A wider magnitude bound admitted by the executable overlap test, loose
/// enough for a block freshly landed on top of in-limit geometry.
pub open spec fn in_overlap_limit(b: BlockModel) -> bool {
    &&& -4 * FIELD_LIMIT <= b.x <= 4 * FIELD_LIMIT
    &&& -4 * FIELD_LIMIT <= b.y <= 4 * FIELD_LIMIT
    &&& 0 <= b.half <= FIELD_LIMIT
}

/// Executable overlap test; equal to the `overlaps` model.
pub fn overlaps_exec(a: &Block, b: &Block) -> (r: bool)
    requires
        in_overlap_limit(a@),
        in_overlap_limit(b@),
    ensures
        r == overlaps(a@, b@),
{
    a.x + a.half >= b.x - b.half + EPSILON
        && a.x - a.half <= b.x + b.half - EPSILON
        && a.y - a.half <= b.y + b.half - EPSILON
        && a.y + a.half >= b.y - b.half + EPSILON
}

} // verus!
