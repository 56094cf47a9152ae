//! Block generators: what a block holds, from its place alone.

pub mod debug;

use super::block::BlockState;
use crate::math::vector::I64Vec3;
use vstd::prelude::*;

verus! {

/// Flat ground: every block below the height `level` is filled.
pub fn flat(level: i64, pos: I64Vec3) -> (block: BlockState)
    ensures
        block == (pos.y < level),
{
    pos.y < level
}

} // verus!
