//! Generators for testing and profiling the renderer.

use crate::math::vector::I64Vec3;
use crate::world::block::BlockState;
use vstd::prelude::*;

verus! {

/// Rolling ground: every block below the wave is filled.
///
/// The wave itself is the caller's: `swing` is its height above `level` at
/// the block's first coordinate, rounded up to a whole number. For a whole
/// `y`, being below `level + swing` is then the same as being below the
/// wave itself, so nothing is lost by the rounding.
pub fn sine(level: i64, swing: i64, pos: I64Vec3) -> (block: BlockState)
    requires
        i64::MIN <= swing + level <= i64::MAX,
    ensures
        block == (pos.y < swing + level),
{
    pos.y < swing + level
}

/// Nothing anywhere.
pub fn empty(_pos: I64Vec3) -> (block: BlockState)
    ensures
        !block,
{
    false
}

/// Every block filled.
pub fn full(_pos: I64Vec3) -> (block: BlockState)
    ensures
        block,
{
    true
}

} // verus!
