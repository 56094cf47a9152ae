use super::block::BlockState;
use crate::math::vector::{I64Vec3, IVec3};
use crate::math::single::lemma_represents_unique;
use crate::render::buffers::{lemma_cube_at_translation, Cube, ToCubes};
use std::ops::Index;
use vstd::prelude::*;

verus! {

/// A fixed-size cube of blocks: `SIZE` cells along each edge, stored in
/// linear order with the first coordinate slowest and the third fastest.
#[derive(Debug)]
pub struct Chunk<const SIZE: usize> {
    blocks: Vec<BlockState>,
}

/// The copy of a chunk that the renderer reads.
#[derive(Debug)]
pub struct ExtractedChunk<const SIZE: usize> {
    blocks: Vec<BlockState>,
}

/// The number of cells in a chunk with `size` cells along each edge.
pub open spec fn spec_volume(size: int) -> int {
    size * size * size
}

/// The first coordinate of the cell with linear index `index`: the slowest one.
pub open spec fn cell_x(index: int, size: int) -> int {
    index / (size * size)
}

/// The second coordinate of the cell with linear index `index`.
pub open spec fn cell_y(index: int, size: int) -> int {
    (index / size) % size
}

/// The third coordinate of the cell with linear index `index`: the fastest one.
pub open spec fn cell_z(index: int, size: int) -> int {
    index % size
}

/// The linear index of the cell `(x, y, z)`.
pub open spec fn cell_index(x: int, y: int, z: int, size: int) -> int {
    x * size * size + y * size + z
}

/// The cell with linear index `index` in a chunk of edge length `size`.
pub open spec fn spec_index_to_pos(index: int, size: int) -> IVec3 {
    IVec3 {
        x: cell_x(index, size) as i32,
        y: cell_y(index, size) as i32,
        z: cell_z(index, size) as i32,
    }
}

/// The linear index of the cell `pos` in a chunk of edge length `size`.
pub open spec fn spec_pos_to_index(pos: IVec3, size: int) -> int {
    cell_index(pos.x as int, pos.y as int, pos.z as int, size)
}

/// A cell lies inside a chunk of edge length `size`.
pub open spec fn in_chunk(pos: IVec3, size: int) -> bool {
    0 <= pos.x < size && 0 <= pos.y < size && 0 <= pos.z < size
}

/// A chunk whose cells can be counted in `usize` has an edge below 2^22.
pub proof fn lemma_edge_bound(size: int)
    requires
        0 <= size,
        spec_volume(size) <= usize::MAX,
    ensures
        size < 0x40_0000,
        size * size <= spec_volume(size) || size == 0,
{
    if size >= 0x40_0000 {
        assert(size * size * size >= 0x40_0000 * 0x40_0000 * 0x40_0000) by (nonlinear_arith)
            requires
                size >= 0x40_0000,
        ;
    }
    if size > 0 {
        assert(size * size <= size * size * size) by (nonlinear_arith)
            requires
                size >= 1,
        ;
    }
}

/// Every linear index names one cell inside the chunk, and that cell's
/// linear index is the one that was started from.
pub proof fn lemma_index_round_trip(index: int, size: int)
    requires
        0 <= index < spec_volume(size),
        0 < size,
    ensures
        0 <= cell_x(index, size) < size,
        0 <= cell_y(index, size) < size,
        0 <= cell_z(index, size) < size,
        cell_index(cell_x(index, size), cell_y(index, size), cell_z(index, size), size) == index,
        size <= i32::MAX ==> in_chunk(spec_index_to_pos(index, size), size) && spec_pos_to_index(
            spec_index_to_pos(index, size),
            size,
        ) == index,
{
    let q = index / size;
    assert(index == size * q + index % size) by {
        vstd::arithmetic::div_mod::lemma_fundamental_div_mod(index, size);
    }
    assert(q == size * (q / size) + q % size) by {
        vstd::arithmetic::div_mod::lemma_fundamental_div_mod(q, size);
    }
    assert(index / (size * size) == q / size) by {
        vstd::arithmetic::div_mod::lemma_div_denominator(index, size, size);
    }
    let x = q / size;
    assert(0 <= q) by {
        vstd::arithmetic::div_mod::lemma_div_pos_is_pos(index, size);
    }
    assert(0 <= x) by {
        vstd::arithmetic::div_mod::lemma_div_pos_is_pos(q, size);
    }
    assert(x < size) by (nonlinear_arith)
        requires
            0 <= x,
            0 < size,
            0 <= q % size,
            0 <= index % size,
            q == size * x + q % size,
            index == size * q + index % size,
            index < size * size * size,
    ;
    assert(x * size * size + (q % size) * size + index % size == index) by (nonlinear_arith)
        requires
            q == size * x + q % size,
            index == size * q + index % size,
    ;
}

/// Every cell inside the chunk has a linear index below the volume, and the
/// cell of that index is the cell that was started from.
pub proof fn lemma_pos_round_trip(x: int, y: int, z: int, size: int)
    requires
        0 <= x < size,
        0 <= y < size,
        0 <= z < size,
    ensures
        0 <= cell_index(x, y, z, size) < spec_volume(size),
        cell_x(cell_index(x, y, z, size), size) == x,
        cell_y(cell_index(x, y, z, size), size) == y,
        cell_z(cell_index(x, y, z, size), size) == z,
{
    let index = cell_index(x, y, z, size);
    let q = x * size + y;
    assert(index == size * q + z) by (nonlinear_arith)
        requires
            index == x * size * size + y * size + z,
            q == x * size + y,
    ;
    assert(0 <= q) by (nonlinear_arith)
        requires
            0 <= x,
            0 <= y,
            0 < size,
            q == x * size + y,
    ;
    vstd::arithmetic::div_mod::lemma_fundamental_div_mod_converse(index, size, q, z);
    vstd::arithmetic::div_mod::lemma_fundamental_div_mod_converse(q, size, x, y);
    assert(index / (size * size) == q / size) by {
        assert(0 <= index) by (nonlinear_arith)
            requires
                index == size * q + z,
                0 <= q,
                0 <= z,
                0 < size,
        ;
        vstd::arithmetic::div_mod::lemma_div_denominator(index, size, size);
    }
    assert(index < size * size * size) by (nonlinear_arith)
        requires
            index == x * size * size + y * size + z,
            0 <= x < size,
            0 <= y < size,
            0 <= z < size,
    ;
    assert(0 <= index) by (nonlinear_arith)
        requires
            index == size * q + z,
            0 <= q,
            0 <= z,
            0 < size,
    ;
}

/// The cell with linear index `index` in a chunk of edge length `size`.
pub fn index_to_pos(index: usize, size: usize) -> (pos: IVec3)
    requires
        index < spec_volume(size as int) <= usize::MAX,
    ensures
        pos == spec_index_to_pos(index as int, size as int),
        pos.x == cell_x(index as int, size as int),
        pos.x == index as int / size as int / size as int,
        pos.y == cell_y(index as int, size as int),
        pos.z == cell_z(index as int, size as int),
        in_chunk(pos, size as int),
{
    proof {
        if size == 0 {
            assert(spec_volume(0) == 0);
        }
        lemma_edge_bound(size as int);
        lemma_index_round_trip(index as int, size as int);
        vstd::arithmetic::div_mod::lemma_div_denominator(index as int, size as int, size as int);
    }
    IVec3::new(
        (index / (size * size)) as i32,
        ((index / size) % size) as i32,
        (index % size) as i32,
    )
}

/// The linear index of the cell `pos` in a chunk of edge length `size`.
pub fn pos_to_index(pos: IVec3, size: usize) -> (index: usize)
    requires
        in_chunk(pos, size as int),
        spec_volume(size as int) <= usize::MAX,
    ensures
        index == spec_pos_to_index(pos, size as int),
        index < spec_volume(size as int),
{
    proof {
        lemma_edge_bound(size as int);
        lemma_pos_round_trip(pos.x as int, pos.y as int, pos.z as int, size as int);
        let s = size as int;
        let (x, y) = (pos.x as int, pos.y as int);
        assert(0 <= x * s <= x * s * s && 0 <= y * s) by (nonlinear_arith)
            requires
                0 <= x,
                0 <= y,
                1 <= s,
        ;
    }
    pos.x as usize * size * size + pos.y as usize * size + pos.z as usize
}

/// The block that the cell with linear index `index` holds in the world,
/// for a chunk whose corner is the block `offset`.
pub open spec fn spec_block_at(offset: I64Vec3, index: int, size: int) -> I64Vec3 {
    offset.spec_plus(spec_index_to_pos(index, size).spec_as_i64vec3())
}

/// Every block of a chunk with corner `offset` has coordinates within `i64`.
pub open spec fn region_fits(offset: I64Vec3, size: int) -> bool {
    &&& offset.x + size - 1 <= i64::MAX
    &&& offset.y + size - 1 <= i64::MAX
    &&& offset.z + size - 1 <= i64::MAX
}

/// The generator answers for every block.
pub open spec fn total<G: Fn(I64Vec3) -> BlockState>(generator: G) -> bool {
    forall|pos: I64Vec3| call_requires(generator, (pos,))
}

/// The generator gives each block one answer only.
pub open spec fn pure<G: Fn(I64Vec3) -> BlockState>(generator: G) -> bool {
    forall|pos: I64Vec3, a: BlockState, b: BlockState|
        call_ensures(generator, (pos,), a) && call_ensures(generator, (pos,), b) ==> a == b
}

/// `blocks` is what `generator` answers for the cells of a chunk with
/// corner `offset`, cell by cell in linear order.
pub open spec fn generated_by<G: Fn(I64Vec3) -> BlockState>(
    blocks: Seq<BlockState>,
    generator: G,
    offset: I64Vec3,
    size: int,
) -> bool {
    &&& blocks.len() == spec_volume(size)
    &&& forall|index: int|
        0 <= index < blocks.len() ==> call_ensures(
            generator,
            (spec_block_at(offset, index, size),),
            #[trigger] blocks[index],
        )
}

/// The linear indices below `n` of the occupied cells, in increasing order.
pub open spec fn occupied(blocks: Seq<BlockState>, n: int) -> Seq<int> {
    Seq::new(n as nat, |index: int| index).filter(|index: int| blocks[index])
}

/// The record of the cell with linear index `index`, in the chunk's own space.
pub open spec fn cell_cube(index: int, size: int) -> Cube {
    Cube::spec_at(cell_x(index, size), cell_y(index, size), cell_z(index, size))
}

/// One record for each occupied cell, in linear order.
pub open spec fn chunk_cubes(blocks: Seq<BlockState>, size: int) -> Seq<Cube> {
    occupied(blocks, blocks.len() as int).map_values(|index: int| cell_cube(index, size))
}

/// Looking one cell further adds that cell's index if it is occupied.
pub proof fn lemma_occupied_step(blocks: Seq<BlockState>, n: int)
    requires
        0 <= n,
    ensures
        occupied(blocks, n + 1) == if blocks[n] {
            occupied(blocks, n).push(n)
        } else {
            occupied(blocks, n)
        },
        occupied(blocks, 0) == Seq::<int>::empty(),
{
    let all = Seq::new(n as nat, |index: int| index);
    assert(Seq::new((n + 1) as nat, |index: int| index) =~= all.push(n));
    all.lemma_filter_push(n, |index: int| blocks[index]);
    reveal(Seq::filter);
    assert(Seq::new(0nat, |index: int| index).filter(|index: int| blocks[index])
        =~= Seq::<int>::empty());
}

impl<const SIZE: usize> View for Chunk<SIZE> {
    type V = Seq<BlockState>;

    /// The blocks in linear order.
    closed spec fn view(&self) -> Seq<BlockState> {
        self.blocks@
    }
}

impl<const SIZE: usize> View for ExtractedChunk<SIZE> {
    type V = Seq<BlockState>;

    /// The blocks in linear order.
    closed spec fn view(&self) -> Seq<BlockState> {
        self.blocks@
    }
}

impl<const SIZE: usize> Chunk<SIZE> {
    #[verifier::type_invariant]
    spec fn filled(self) -> bool {
        self.blocks@.len() == spec_volume(SIZE as int)
    }

    /// Asks `generator` once for each cell, at the cell's place in the world.
    pub fn generate<G: Fn(I64Vec3) -> BlockState>(generator: G, offset: I64Vec3) -> (chunk: Self)
        requires
            region_fits(offset, SIZE as int),
            total(generator),
        ensures
            generated_by(chunk@, generator, offset, SIZE as int),
    {
        let output = Self::default();
        proof {
            use_type_invariant(&output);
        }
        let mut blocks = output.blocks;
        let volume: usize = blocks.len();
        let mut i: usize = 0;
        while i < volume
            invariant
                i <= volume,
                volume == spec_volume(SIZE as int) <= usize::MAX,
                region_fits(offset, SIZE as int),
                total(generator),
                blocks@.len() == volume,
                forall|index: int|
                    0 <= index < i ==> call_ensures(
                        generator,
                        (spec_block_at(offset, index, SIZE as int),),
                        #[trigger] blocks@[index],
                    ),
            decreases volume - i,
        {
            let pos = offset.plus(Self::index_to_pos(i).as_i64vec3());
            blocks.set(i, generator(pos));
            i += 1;
        }
        Chunk { blocks }
    }

    /// The number of cells.
    pub fn volume() -> (volume: usize)
        requires
            spec_volume(SIZE as int) <= usize::MAX,
        ensures
            volume == spec_volume(SIZE as int),
    {
        proof {
            lemma_edge_bound(SIZE as int);
        }
        SIZE * SIZE * SIZE
    }

    /// The cell with linear index `index`.
    pub fn index_to_pos(index: usize) -> (pos: IVec3)
        requires
            index < spec_volume(SIZE as int) <= usize::MAX,
        ensures
            pos == spec_index_to_pos(index as int, SIZE as int),
            pos.x == index as int / SIZE as int / SIZE as int,
            pos.y == index as int / SIZE as int % SIZE as int,
            pos.z == index as int % SIZE as int,
            in_chunk(pos, SIZE as int),
    {
        index_to_pos(index, SIZE)
    }

    /// The blocks in linear order.
    pub fn blocks(&self) -> (blocks: &Vec<BlockState>)
        ensures
            blocks@ == self@,
            blocks@.len() == spec_volume(SIZE as int),
    {
        proof {
            use_type_invariant(self);
        }
        &self.blocks
    }

    /// Copies the blocks for the renderer.
    pub fn to_extracted(&self) -> (extracted: ExtractedChunk<SIZE>)
        ensures
            extracted@ == self@,
    {
        proof {
            use_type_invariant(self);
        }
        let blocks = self.blocks.clone();
        assert(blocks@ =~= self.blocks@);
        ExtractedChunk { blocks }
    }
}

impl<const SIZE: usize> ExtractedChunk<SIZE> {
    #[verifier::type_invariant]
    spec fn filled(self) -> bool {
        self.blocks@.len() == spec_volume(SIZE as int)
    }

    /// The blocks in linear order.
    pub fn blocks(&self) -> (blocks: &Vec<BlockState>)
        ensures
            blocks@ == self@,
            blocks@.len() == spec_volume(SIZE as int),
    {
        proof {
            use_type_invariant(self);
        }
        &self.blocks
    }
}

impl<const SIZE: usize> Default for Chunk<SIZE> {
    /// The chunk with every cell empty.
    fn default() -> (chunk: Self)
        ensures
            chunk@.len() == spec_volume(SIZE as int),
            forall|index: int| 0 <= index < chunk@.len() ==> !chunk@[index],
    {
        let mut blocks: Vec<BlockState> = Vec::new();
        let mut x: usize = 0;
        while x < SIZE
            invariant
                x <= SIZE,
                blocks@.len() == x * SIZE * SIZE,
                forall|index: int| 0 <= index < blocks@.len() ==> !blocks@[index],
            decreases SIZE - x,
        {
            let mut y: usize = 0;
            while y < SIZE
                invariant
                    x < SIZE,
                    y <= SIZE,
                    blocks@.len() == x * SIZE * SIZE + y * SIZE,
                    forall|index: int| 0 <= index < blocks@.len() ==> !blocks@[index],
                decreases SIZE - y,
            {
                let mut z: usize = 0;
                while z < SIZE
                    invariant
                        x < SIZE,
                        y < SIZE,
                        z <= SIZE,
                        blocks@.len() == x * SIZE * SIZE + y * SIZE + z,
                        forall|index: int| 0 <= index < blocks@.len() ==> !blocks@[index],
                    decreases SIZE - z,
                {
                    blocks.push(false);
                    z += 1;
                }
                y += 1;
                assert(x * SIZE * SIZE + (y - 1) * SIZE + SIZE == x * SIZE * SIZE + y * SIZE)
                    by (nonlinear_arith);
            }
            x += 1;
            assert((x - 1) * SIZE * SIZE + SIZE * SIZE == x * SIZE * SIZE) by (nonlinear_arith);
        }
        Chunk { blocks }
    }
}

impl<const SIZE: usize> Index<usize> for Chunk<SIZE> {
    type Output = BlockState;

    /// The block of the cell with linear index `index`.
    fn index(&self, index: usize) -> (block: &BlockState)
        ensures
            *block == self@[index as int],
    {
        proof {
            use_type_invariant(self);
        }
        &self.blocks[index]
    }
}

impl<const SIZE: usize> vstd::std_specs::core::IndexSpecImpl<usize> for Chunk<SIZE> {
    /// The index names a cell of the chunk.
    open spec fn index_req(&self, index: &usize) -> bool {
        *index < spec_volume(SIZE as int)
    }
}

impl<const SIZE: usize> Index<IVec3> for Chunk<SIZE> {
    type Output = BlockState;

    /// The block of the cell `index`.
    fn index(&self, index: IVec3) -> (block: &BlockState)
        ensures
            *block == self@[spec_pos_to_index(index, SIZE as int)],
    {
        proof {
            use_type_invariant(self);
            assert(self.blocks.len() <= usize::MAX);
        }
        &self.blocks[pos_to_index(index, SIZE)]
    }
}

impl<const SIZE: usize> vstd::std_specs::core::IndexSpecImpl<IVec3> for Chunk<SIZE> {
    /// The cell lies inside the chunk.
    open spec fn index_req(&self, index: &IVec3) -> bool {
        in_chunk(*index, SIZE as int)
    }
}

impl<const SIZE: usize> Index<usize> for ExtractedChunk<SIZE> {
    type Output = BlockState;

    /// The block of the cell with linear index `index`.
    fn index(&self, index: usize) -> (block: &BlockState)
        ensures
            *block == self@[index as int],
    {
        proof {
            use_type_invariant(self);
        }
        &self.blocks[index]
    }
}

impl<const SIZE: usize> vstd::std_specs::core::IndexSpecImpl<usize> for ExtractedChunk<SIZE> {
    /// The index names a cell of the chunk.
    open spec fn index_req(&self, index: &usize) -> bool {
        *index < spec_volume(SIZE as int)
    }
}

impl<const SIZE: usize> Index<IVec3> for ExtractedChunk<SIZE> {
    type Output = BlockState;

    /// The block of the cell `index`.
    fn index(&self, index: IVec3) -> (block: &BlockState)
        ensures
            *block == self@[spec_pos_to_index(index, SIZE as int)],
    {
        proof {
            use_type_invariant(self);
            assert(self.blocks.len() <= usize::MAX);
        }
        &self.blocks[pos_to_index(index, SIZE)]
    }
}

impl<const SIZE: usize> vstd::std_specs::core::IndexSpecImpl<IVec3> for ExtractedChunk<SIZE> {
    /// The cell lies inside the chunk.
    open spec fn index_req(&self, index: &IVec3) -> bool {
        in_chunk(*index, SIZE as int)
    }
}

impl<const SIZE: usize> ToCubes for ExtractedChunk<SIZE> {
    open spec fn cubes(&self) -> Seq<Cube> {
        chunk_cubes(self@, SIZE as int)
    }

    fn to_cubes(&self) -> (cubes: Vec<Cube>) {
        proof {
            use_type_invariant(self);
            lemma_occupied_step(self@, 0);
        }
        let mut cubes: Vec<Cube> = Vec::with_capacity(256);
        let volume: usize = self.blocks.len();
        let mut i: usize = 0;
        while i < volume
            invariant
                i <= volume,
                volume == self.blocks@.len() == spec_volume(SIZE as int),
                self@ == self.blocks@,
                cubes@ == occupied(self@, i as int).map_values(
                    |index: int| cell_cube(index, SIZE as int),
                ),
            decreases volume - i,
        {
            proof {
                lemma_occupied_step(self@, i as int);
            }
            if self.blocks[i] {
                let pos = index_to_pos(i, SIZE);
                proof {
                    lemma_edge_bound(SIZE as int);
                }
                cubes.push(Cube::at(pos));
            }
            i += 1;
            assert(cubes@ =~= occupied(self@, i as int).map_values(
                |index: int| cell_cube(index, SIZE as int),
            ));
        }
        cubes
    }
}

/// A generated chunk holds, at each of its cells, what the generator
/// answers for the block at the chunk's corner plus that cell.
pub proof fn lemma_generated_cell<G: Fn(I64Vec3) -> BlockState>(
    blocks: Seq<BlockState>,
    generator: G,
    offset: I64Vec3,
    size: int,
    pos: IVec3,
)
    requires
        generated_by(blocks, generator, offset, size),
        in_chunk(pos, size),
    ensures
        0 <= spec_pos_to_index(pos, size) < blocks.len(),
        call_ensures(
            generator,
            (offset.spec_plus(pos.spec_as_i64vec3()),),
            blocks[spec_pos_to_index(pos, size)],
        ),
{
    lemma_pos_round_trip(pos.x as int, pos.y as int, pos.z as int, size);
    assert(spec_index_to_pos(spec_pos_to_index(pos, size), size) == pos);
}

/// Generating twice from one generator at one place gives the same blocks,
/// as long as the generator gives each block one answer only.
pub proof fn lemma_generation_repeatable<G: Fn(I64Vec3) -> BlockState>(
    generator: G,
    offset: I64Vec3,
    size: int,
    first: Seq<BlockState>,
    second: Seq<BlockState>,
)
    requires
        pure(generator),
        generated_by(first, generator, offset, size),
        generated_by(second, generator, offset, size),
    ensures
        first == second,
{
    assert(first =~= second);
}

/// The occupied cells of a chunk, as a set of linear indices.
pub open spec fn occupied_cells(blocks: Seq<BlockState>) -> Set<int> {
    Set::new(|index: int| 0 <= index < blocks.len() && blocks[index])
}

/// The list of occupied indices below `n` names each occupied cell below
/// `n` once, names nothing else, and ascends.
pub proof fn lemma_occupied(blocks: Seq<BlockState>, n: int)
    requires
        0 <= n <= blocks.len(),
    ensures
        forall|k: int|
            0 <= k < occupied(blocks, n).len() ==> 0 <= #[trigger] occupied(blocks, n)[k] < n
                && blocks[occupied(blocks, n)[k]],
        forall|j: int, k: int|
            0 <= j < k < occupied(blocks, n).len() ==> occupied(blocks, n)[j] < occupied(
                blocks,
                n,
            )[k],
        forall|index: int|
            0 <= index < n && blocks[index] ==> occupied(blocks, n).contains(index),
        occupied(blocks, n).len() == occupied_cells(blocks.take(n)).len(),
        occupied_cells(blocks.take(n)).finite(),
    decreases n,
{
    if n == 0 {
        lemma_occupied_step(blocks, 0);
        assert(occupied_cells(blocks.take(0)) =~= Set::<int>::empty());
    } else {
        lemma_occupied(blocks, n - 1);
        lemma_occupied_step(blocks, n - 1);
        let before = occupied(blocks, n - 1);
        let now = occupied(blocks, n);
        if blocks[n - 1] {
            assert(now[now.len() - 1] == n - 1);
            assert(occupied_cells(blocks.take(n)) =~= occupied_cells(blocks.take(n - 1)).insert(
                n - 1,
            ));
        } else {
            assert(occupied_cells(blocks.take(n)) =~= occupied_cells(blocks.take(n - 1)));
        }
        assert forall|index: int| 0 <= index < n && blocks[index] implies now.contains(index) by {
            if index < n - 1 {
                assert(before.contains(index));
                let k = choose|k: int| 0 <= k < before.len() && before[k] == index;
                assert(now[k] == index);
            } else {
                assert(now[now.len() - 1] == index);
            }
        }
    }
}

/// A chunk yields one record for each of its occupied cells and no other:
/// as many records as cells are occupied, in ascending order of the cells'
/// linear indices, each the record of its own cell.
pub proof fn lemma_chunk_cubes(blocks: Seq<BlockState>, size: int)
    ensures
        occupied_cells(blocks).finite(),
        chunk_cubes(blocks, size).len() == occupied_cells(blocks).len(),
        chunk_cubes(blocks, size).len() == occupied(blocks, blocks.len() as int).len(),
        forall|k: int|
            0 <= k < chunk_cubes(blocks, size).len() ==> {
                let index = occupied(blocks, blocks.len() as int)[k];
                &&& 0 <= index < blocks.len()
                &&& blocks[index]
                &&& #[trigger] chunk_cubes(blocks, size)[k] == cell_cube(index, size)
            },
        forall|j: int, k: int|
            0 <= j < k < chunk_cubes(blocks, size).len() ==> occupied(
                blocks,
                blocks.len() as int,
            )[j] < occupied(blocks, blocks.len() as int)[k],
        forall|index: int|
            0 <= index < blocks.len() && blocks[index] ==> occupied(
                blocks,
                blocks.len() as int,
            ).contains(index),
{
    lemma_occupied(blocks, blocks.len() as int);
    assert(blocks.take(blocks.len() as int) =~= blocks);
}

/// The record of a cell carries the cell's own coordinates: the last row
/// of the stored matrix denotes them exactly.
pub proof fn lemma_cell_cube_translation(index: int, size: int)
    requires
        0 <= index < spec_volume(size) <= usize::MAX,
        0 < size,
    ensures
        cell_cube(index, size).transform.x_axis.w.represents(cell_x(index, size)),
        cell_cube(index, size).transform.y_axis.w.represents(cell_y(index, size)),
        cell_cube(index, size).transform.z_axis.w.represents(cell_z(index, size)),
{
    lemma_edge_bound(size);
    lemma_index_round_trip(index, size);
    lemma_cube_at_translation(cell_x(index, size), cell_y(index, size), cell_z(index, size));
}

/// Different cells of one chunk have different records.
pub proof fn lemma_cell_cube_injective(first: int, second: int, size: int)
    requires
        0 <= first < spec_volume(size) <= usize::MAX,
        0 <= second < spec_volume(size),
        0 < size,
        cell_cube(first, size) == cell_cube(second, size),
    ensures
        first == second,
{
    lemma_cell_cube_translation(first, size);
    lemma_cell_cube_translation(second, size);
    let cube = cell_cube(first, size);
    lemma_represents_unique(cube.transform.x_axis.w, cell_x(first, size), cell_x(second, size));
    lemma_represents_unique(cube.transform.y_axis.w, cell_y(first, size), cell_y(second, size));
    lemma_represents_unique(cube.transform.z_axis.w, cell_z(first, size), cell_z(second, size));
    lemma_index_round_trip(first, size);
    lemma_index_round_trip(second, size);
}

} // verus!
