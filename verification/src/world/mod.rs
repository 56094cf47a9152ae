//! Blocks, chunks and the level that generates them.

pub mod block;
pub mod chunk;
pub mod generation;

use crate::math::vector::I64Vec3;
use block::BlockState;
use chunk::{generated_by, lemma_edge_bound, region_fits, spec_volume, total, Chunk};
use vstd::prelude::*;

verus! {

/// A world: the generator that says what every block holds.
///
/// A level keeps no chunks. Each load asks the generator again.
pub struct Level<G> {
    pub generator: G,
}

/// Where a chunk lies, counted in chunks.
#[derive(Clone, Copy, Debug, PartialEq, Eq, Hash, Structural)]
pub struct ChunkOffset(pub I64Vec3);

/// The corner block of the chunk at `chunk`, for chunks of edge length `size`.
pub open spec fn spec_origin(chunk: I64Vec3, size: int) -> I64Vec3 {
    I64Vec3 { x: (chunk.x * size) as i64, y: (chunk.y * size) as i64, z: (chunk.z * size) as i64 }
}

/// The corner block of the chunk at `chunk` has coordinates within `i64`.
pub open spec fn origin_fits(chunk: I64Vec3, size: int) -> bool {
    &&& i64::MIN <= chunk.x * size <= i64::MAX
    &&& i64::MIN <= chunk.y * size <= i64::MAX
    &&& i64::MIN <= chunk.z * size <= i64::MAX
}

impl ChunkOffset {
    /// The chunk's corner block: the offset times the edge length.
    pub fn origin<const SIZE: usize>(&self) -> (origin: I64Vec3)
        requires
            spec_volume(SIZE as int) <= usize::MAX,
            origin_fits(self.0, SIZE as int),
        ensures
            origin == spec_origin(self.0, SIZE as int),
    {
        proof {
            lemma_edge_bound(SIZE as int);
        }
        self.0.scaled(SIZE as i64)
    }
}

impl<G: Fn(I64Vec3) -> BlockState + Copy> Level<G> {
    /// Generates the chunk at `chunk` and says where it lies.
    pub fn load<const SIZE: usize>(&self, chunk: I64Vec3) -> (loaded: (Chunk<SIZE>, ChunkOffset))
        requires
            spec_volume(SIZE as int) <= usize::MAX,
            origin_fits(chunk, SIZE as int),
            region_fits(spec_origin(chunk, SIZE as int), SIZE as int),
            total(self.generator),
        ensures
            generated_by(loaded.0@, self.generator, spec_origin(chunk, SIZE as int), SIZE as int),
            loaded.1 == ChunkOffset(chunk),
    {
        proof {
            lemma_edge_bound(SIZE as int);
        }
        (Chunk::<SIZE>::generate(self.generator, chunk.scaled(SIZE as i64)), ChunkOffset(chunk))
    }
}

} // verus!
