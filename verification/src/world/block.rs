use crate::render::buffers::{Cube, ToCubes};
use vstd::prelude::*;

verus! {

/// What a cell holds: `true` where a cube is drawn.
pub type BlockState = bool;

impl ToCubes for bool {
    open spec fn cubes(&self) -> Seq<Cube> {
        if *self {
            seq![Cube::spec_default()]
        } else {
            Seq::empty()
        }
    }

    fn to_cubes(&self) -> (cubes: Vec<Cube>) {
        let mut cubes: Vec<Cube> = Vec::new();
        if *self {
            cubes.push(Cube::default());
        }
        cubes
    }
}

} // verus!
