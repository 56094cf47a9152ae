//! The instance buffer and what fills it.

pub mod buffers;
pub mod pipeline;

use crate::math::matrix::Mat4;
use buffers::Cube;
use vstd::prelude::*;

verus! {

/// A cube that stands in the scene by itself, outside any chunk.
#[derive(Clone, Copy, Debug, PartialEq, Eq, Hash, Structural)]
pub struct PulledCube {
    /// The model matrix that places the cube in the world.
    pub transform: Mat4,
    /// Whether any view sees the cube.
    pub visible: bool,
}

impl PulledCube {
    /// The cube's instance record: its model matrix, transposed.
    pub open spec fn spec_cube(self) -> Cube {
        Cube { transform: self.transform.spec_transpose() }
    }

    pub fn cube(&self) -> (cube: Cube)
        ensures
            cube == self.spec_cube(),
    {
        Cube { transform: self.transform.transpose() }
    }
}

} // verus!
