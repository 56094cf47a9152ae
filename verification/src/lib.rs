//! Voxel chunks and the instance records that a vertex-pulling renderer draws them from.

pub mod math;
pub mod render;
pub mod world;

use vstd::prelude::*;

verus! {

/// The whole feature set under one name: what a host application registers
/// to get chunks, their generation and their renderer.
#[derive(Clone, Copy, Debug, Default, PartialEq, Eq, Hash)]
pub struct VoxelPlugin;

} // verus!
