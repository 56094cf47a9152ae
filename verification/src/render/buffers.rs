use super::PulledCube;
use crate::math::matrix::Mat4;
use crate::math::single::{lemma_from_nat_represents, Single};
use crate::math::vector::IVec3;
use crate::world::chunk::{chunk_cubes, ExtractedChunk};
use bevy::render::render_resource::{BufferUsages, BufferVec};
use vstd::prelude::*;

verus! {

/// One instance record: where the renderer draws one unit cube.
///
/// The record holds the transpose of the cube's model matrix, because the
/// shader multiplies from the other side.
#[derive(Clone, Copy, Debug, PartialEq, Eq, Hash, Structural)]
pub struct Cube {
    pub transform: Mat4,
}

/// Anything that is drawn as a list of cubes.
pub trait ToCubes {
    /// The records, in the order in which they are emitted.
    spec fn cubes(&self) -> Seq<Cube>;

    fn to_cubes(&self) -> (cubes: Vec<Cube>)
        ensures
            cubes@ == self.cubes(),
    ;
}

/// A chunk as it stands in the scene: its blocks, the model matrix that
/// places its corner in the world, and whether any view sees it.
#[derive(Clone, Copy, Debug)]
pub struct ChunkInstance<'a, const SIZE: usize> {
    pub chunk: &'a ExtractedChunk<SIZE>,
    /// The model matrix that places the chunk's corner in the world.
    pub transform: Mat4,
    /// Whether any view sees the chunk.
    pub visible: bool,
}

/// The buffer that the renderer reads its instance records from: a
/// `BufferVec` of bevy whose items are records of sixteen words.
///
/// Nothing is proved of this type. The library reaches the buffer through
/// [`staged`] and the four functions below it alone; the field is public
/// for the host, which uploads the buffer.
#[verifier::external_body]
pub struct InstanceBuffer {
    pub vec: BufferVec<[u32; 16]>,
}

/// The instance buffer and whether it is stale.
pub struct PulledCubesBuffers {
    /// The records in upload order.
    pub instances: InstanceBuffer,
    /// Set while the scene has changed since the records were last rebuilt.
    pub dirty: bool,
}

/// The bytes that the buffer holds for the next upload: what `BufferVec`
/// keeps in its `data`.
pub uninterp spec fn staged(buffer: InstanceBuffer) -> Seq<u8>;

/// A run of words as bytes: four for each word, least significant first.
pub open spec fn word_bytes(words: Seq<u32>) -> Seq<u8> {
    Seq::new(4 * words.len(), |i: int| (Single { bits: words[i / 4] }).spec_le_bytes()[i % 4])
}

/// `BufferVec::new` with the usage `STORAGE`: the buffer that it returns
/// holds no bytes.
#[verifier::external_body]
fn new_storage_buffer() -> (buffer: InstanceBuffer)
    ensures
        staged(buffer) == Seq::<u8>::empty(),
{
    InstanceBuffer { vec: BufferVec::new(BufferUsages::STORAGE) }
}

/// `BufferVec::clear`: afterwards the buffer holds no bytes.
#[verifier::external_body]
fn clear_buffer(buffer: &mut InstanceBuffer)
    ensures
        staged(*final(buffer)) == Seq::<u8>::empty(),
{
    buffer.vec.clear();
}

/// `BufferVec::push`: the buffer keeps its bytes and gains the 64 bytes of
/// the new record, which are its words in order, each least significant
/// byte first.
#[verifier::external_body]
fn push_words(buffer: &mut InstanceBuffer, words: [u32; 16])
    ensures
        staged(*final(buffer)) == staged(*old(buffer)) + word_bytes(words@),
{
    buffer.vec.push(words);
}

/// `BufferVec::len`: the number of bytes held, divided by the 64 bytes of
/// one record.
#[verifier::external_body]
fn buffer_len(buffer: &InstanceBuffer) -> (len: usize)
    ensures
        len == staged(*buffer).len() / 64,
{
    buffer.vec.len()
}

impl Cube {
    /// The record of a cube that sits at the origin.
    pub open spec fn spec_default() -> Cube {
        Cube { transform: Mat4::spec_identity() }
    }

    /// The record of the cube that fills the cell `(x, y, z)` of a chunk, in
    /// the chunk's own space.
    pub open spec fn spec_at(x: int, y: int, z: int) -> Cube {
        Cube {
            transform: Mat4::spec_from_translation(
                Single::spec_from_nat(x as nat),
                Single::spec_from_nat(y as nat),
                Single::spec_from_nat(z as nat),
            ).spec_transpose(),
        }
    }

    /// The record of the cube that fills the cell `pos` of a chunk.
    pub fn at(pos: IVec3) -> (cube: Cube)
        requires
            0 <= pos.x < 0x100_0000,
            0 <= pos.y < 0x100_0000,
            0 <= pos.z < 0x100_0000,
        ensures
            cube == Self::spec_at(pos.x as int, pos.y as int, pos.z as int),
    {
        let x = Single::from_u32(pos.x as u32);
        let y = Single::from_u32(pos.y as u32);
        let z = Single::from_u32(pos.z as u32);
        Cube { transform: Mat4::from_translation(x, y, z).transpose() }
    }

    /// The record as the renderer reads it: sixteen numbers in storage
    /// order, four bytes each, least significant byte first.
    pub open spec fn bytes(self) -> Seq<u8> {
        word_bytes(self.transform.bits())
    }

    /// Appends the record's 64 bytes to `out`.
    pub fn write_bytes(&self, out: &mut Vec<u8>)
        ensures
            final(out)@ == old(out)@ + self.bytes(),
    {
        let bits = self.transform.to_cols_array();
        let mut i: usize = 0;
        while i < 16
            invariant
                i <= 16,
                bits@ == self.transform.bits(),
                out@ == old(out)@ + word_bytes(bits@.take(i as int)),
            decreases 16 - i,
        {
            let word = Single { bits: bits[i] };
            word.write_le_bytes(out);
            i += 1;
            assert(out@ =~= old(out)@ + word_bytes(bits@.take(i as int)));
        }
        assert(bits@.take(16) =~= bits@);
    }
}

impl Default for Cube {
    fn default() -> (cube: Cube)
        ensures
            cube == Cube::spec_default(),
    {
        Cube { transform: Mat4::identity() }
    }
}

/// The translation of a cell's record stands in the last row of the stored
/// matrix and denotes the cell's coordinates exactly.
pub proof fn lemma_cube_at_translation(x: int, y: int, z: int)
    requires
        0 <= x < 0x100_0000,
        0 <= y < 0x100_0000,
        0 <= z < 0x100_0000,
    ensures
        Cube::spec_at(x, y, z).transform.x_axis.w.represents(x),
        Cube::spec_at(x, y, z).transform.y_axis.w.represents(y),
        Cube::spec_at(x, y, z).transform.z_axis.w.represents(z),
{
    lemma_from_nat_represents(x as nat);
    lemma_from_nat_represents(y as nat);
    lemma_from_nat_represents(z as nat);
}

impl<'a, const SIZE: usize> ChunkInstance<'a, SIZE> {
    /// What has to be multiplied for this chunk: for each occupied cell, in
    /// linear order, the cell's own record and the chunk's transposed matrix.
    pub open spec fn factors(self) -> Seq<(Mat4, Mat4)> {
        chunk_cubes(self.chunk@, SIZE as int).map_values(
            |cube: Cube| (cube.transform, self.transform.spec_transpose()),
        )
    }
}

/// The records of the standalone cubes: one for each visible cube, in order.
pub open spec fn spec_marker_cubes(cubes: Seq<PulledCube>) -> Seq<Cube> {
    cubes.filter(|cube: PulledCube| cube.visible).map_values(|cube: PulledCube| cube.spec_cube())
}

/// What has to be multiplied for a list of chunks: the factors of each
/// visible chunk, chunk after chunk. A chunk that no view sees gives none.
pub open spec fn chunk_factors<const SIZE: usize>(chunks: Seq<ChunkInstance<SIZE>>) -> Seq<
    (Mat4, Mat4),
> {
    chunks.filter(|chunk: ChunkInstance<SIZE>| chunk.visible).map_values(
        |chunk: ChunkInstance<SIZE>| chunk.factors(),
    ).flatten()
}

/// `product` accepts every pair of matrices.
pub open spec fn multiplies<F: Fn(Mat4, Mat4) -> Mat4>(product: F) -> bool {
    forall|a: Mat4, b: Mat4| call_requires(product, (a, b))
}

/// `records` holds exactly one record for each pair of `factors`, in
/// order, and each is what `product` returned for its pair.
pub open spec fn placed<F: Fn(Mat4, Mat4) -> Mat4>(
    product: F,
    factors: Seq<(Mat4, Mat4)>,
    records: Seq<Cube>,
) -> bool {
    &&& records.len() == factors.len()
    &&& forall|k: int|
        0 <= k < factors.len() ==> call_ensures(
            product,
            (factors[k].0, factors[k].1),
            (#[trigger] records[k]).transform,
        )
}

/// A list of records as the renderer reads it: byte `i` is byte `i % 64`
/// of record `i / 64`.
pub open spec fn instance_bytes(records: Seq<Cube>) -> Seq<u8> {
    Seq::new(64 * records.len(), |i: int| records[i / 64].bytes()[i % 64])
}

/// `after` is `before` and then the records of the visible chunks: for
/// each occupied cell of each of them, what `product` returned for the
/// cell's record and the chunk's transposed matrix.
pub open spec fn chunks_appended<const SIZE: usize, F: Fn(Mat4, Mat4) -> Mat4>(
    product: F,
    chunks: Seq<ChunkInstance<SIZE>>,
    before: Seq<u8>,
    after: Seq<u8>,
) -> bool {
    exists|records: Seq<Cube>|
        #![trigger instance_bytes(records)]
        placed(product, chunk_factors(chunks), records) && after == before + instance_bytes(
            records,
        )
}

/// The records of the standalone cubes: one for each visible cube, in order.
pub fn marker_cubes(cubes: &Vec<PulledCube>) -> (records: Vec<Cube>)
    ensures
        records@ == spec_marker_cubes(cubes@),
{
    let ghost visible = |cube: PulledCube| cube.visible;
    let ghost record = |cube: PulledCube| cube.spec_cube();
    proof {
        reveal(Seq::filter);
        assert(cubes@.take(0).filter(visible) =~= Seq::<PulledCube>::empty());
    }
    let mut records: Vec<Cube> = Vec::new();
    let mut i: usize = 0;
    while i < cubes.len()
        invariant
            i <= cubes.len(),
            visible == |cube: PulledCube| cube.visible,
            record == |cube: PulledCube| cube.spec_cube(),
            records@ == cubes@.take(i as int).filter(visible).map_values(record),
        decreases cubes.len() - i,
    {
        proof {
            assert(cubes@.take(i + 1) =~= cubes@.take(i as int).push(cubes@[i as int]));
            cubes@.take(i as int).lemma_filter_push(cubes@[i as int], visible);
        }
        if cubes[i].visible {
            records.push(cubes[i].cube());
        }
        i += 1;
        assert(records@ =~= cubes@.take(i as int).filter(visible).map_values(record));
    }
    assert(cubes@.take(cubes.len() as int) =~= cubes@);
    records
}

/// The records of the visible chunks: each occupied cell's own record
/// multiplied by its chunk's transposed matrix, chunk after chunk.
pub fn chunk_instance_cubes<const SIZE: usize, F: Fn(Mat4, Mat4) -> Mat4>(
    chunks: &Vec<ChunkInstance<SIZE>>,
    product: F,
) -> (records: Vec<Cube>)
    requires
        multiplies(product),
    ensures
        placed(product, chunk_factors(chunks@), records@),
{
    let ghost shown = |chunk: ChunkInstance<SIZE>| chunk.visible;
    let ghost factors_of = |chunk: ChunkInstance<SIZE>| chunk.factors();
    let mut records: Vec<Cube> = Vec::new();
    let mut j: usize = 0;
    proof {
        reveal(Seq::filter);
        assert(chunks@.take(0).filter(shown) =~= Seq::<ChunkInstance<SIZE>>::empty());
        assert(chunks@.take(0).filter(shown).map_values(factors_of) =~= Seq::<
            Seq<(Mat4, Mat4)>,
        >::empty());
    }
    while j < chunks.len()
        invariant
            j <= chunks.len(),
            multiplies(product),
            shown == |chunk: ChunkInstance<SIZE>| chunk.visible,
            factors_of == |chunk: ChunkInstance<SIZE>| chunk.factors(),
            placed(
                product,
                chunks@.take(j as int).filter(shown).map_values(factors_of).flatten(),
                records@,
            ),
        decreases chunks.len() - j,
    {
        let ghost before = records@;
        let ghost seen = chunks@.take(j as int).filter(shown);
        let ghost done = seen.map_values(factors_of).flatten();
        proof {
            assert(chunks@.take(j + 1) =~= chunks@.take(j as int).push(chunks@[j as int]));
            chunks@.take(j as int).lemma_filter_push(chunks@[j as int], shown);
        }
        if chunks[j].visible {
            let ghost factors = chunks@[j as int].factors();
            let local = chunks[j].chunk.to_cubes();
            let matrix = chunks[j].transform.transpose();
            let mut k: usize = 0;
            while k < local.len()
                invariant
                    k <= local.len(),
                    multiplies(product),
                    local@ == chunk_cubes(chunks@[j as int].chunk@, SIZE as int),
                    matrix == chunks@[j as int].transform.spec_transpose(),
                    factors == chunks@[j as int].factors(),
                    records@.len() == before.len() + k,
                    records@.take(before.len() as int) == before,
                    forall|n: int|
                        0 <= n < k ==> call_ensures(
                            product,
                            (factors[n].0, factors[n].1),
                            (#[trigger] records@[before.len() + n]).transform,
                        ),
                decreases local.len() - k,
            {
                let ghost so_far = records@;
                let transform = product(local[k].transform, matrix);
                records.push(Cube { transform });
                k += 1;
                proof {
                    assert(records@.take(before.len() as int) =~= so_far.take(
                        before.len() as int,
                    ));
                    assert forall|n: int| 0 <= n < k implies call_ensures(
                        product,
                        (factors[n].0, factors[n].1),
                        (#[trigger] records@[before.len() + n]).transform,
                    ) by {
                        if n < k - 1 {
                            assert(records@[before.len() + n] == so_far[before.len() + n]);
                        }
                    }
                }
            }
            proof {
                let grown = chunks@.take(j + 1).filter(shown).map_values(factors_of).flatten();
                assert(seen.push(chunks@[j as int]).map_values(factors_of) =~= seen.map_values(
                    factors_of,
                ).push(factors));
                seen.map_values(factors_of).lemma_flatten_push(factors);
                assert(grown =~= done + factors);
                assert forall|n: int| 0 <= n < grown.len() implies call_ensures(
                    product,
                    (grown[n].0, grown[n].1),
                    (#[trigger] records@[n]).transform,
                ) by {
                    if n < done.len() {
                        assert(records@[n] == records@.take(before.len() as int)[n]);
                    } else {
                        assert(records@[n] == records@[before.len() + (n - done.len())]);
                    }
                }
            }
        }
        j += 1;
    }
    assert(chunks@.take(chunks.len() as int) =~= chunks@);
    records
}

/// Appends `records` to the buffer, in order.
fn stage(buffer: &mut InstanceBuffer, records: &Vec<Cube>)
    ensures
        staged(*final(buffer)) == staged(*old(buffer)) + instance_bytes(records@),
{
    let mut i: usize = 0;
    assert(instance_bytes(records@.take(0)) =~= Seq::<u8>::empty());
    while i < records.len()
        invariant
            i <= records.len(),
            staged(*buffer) == staged(*old(buffer)) + instance_bytes(records@.take(i as int)),
        decreases records.len() - i,
    {
        push_words(buffer, records[i].transform.to_cols_array());
        i += 1;
        assert(instance_bytes(records@.take(i as int)) =~= instance_bytes(
            records@.take(i - 1),
        ) + records@[i - 1].bytes());
    }
    assert(records@.take(records.len() as int) =~= records@);
}

impl PulledCubesBuffers {
    /// The buffer before the first frame: one record of zeros, so that the
    /// first upload has something to carry, and stale.
    pub fn new() -> (buffers: PulledCubesBuffers)
        ensures
            buffers.dirty,
            staged(buffers.instances) == instance_bytes(seq![Cube { transform: Mat4::spec_zero() }]),
    {
        let mut instances = new_storage_buffer();
        let mut records: Vec<Cube> = Vec::new();
        records.push(Cube { transform: Mat4::zero() });
        stage(&mut instances, &records);
        assert(records@ =~= seq![Cube { transform: Mat4::spec_zero() }]);
        PulledCubesBuffers { instances, dirty: true }
    }

    /// The number of records in the buffer.
    pub fn len(&self) -> (len: usize)
        ensures
            len == staged(self.instances).len() / 64,
    {
        buffer_len(&self.instances)
    }

    /// Records that the scene has changed: something was added, removed or
    /// moved. The records themselves stay until the next rebuild.
    pub fn mark_dirty(&mut self)
        ensures
            final(self).dirty,
            final(self).instances == old(self).instances,
    {
        self.dirty = true;
    }
}

/// Rebuilds the buffer from the scene when it is stale: the records of the
/// visible standalone cubes first, then the records of the visible chunks.
///
/// Afterwards the buffer is fresh: it holds the scene as it was handed
/// over, each record once, until the scene is marked as changed again.
pub fn update_buffers<const SIZE: usize, F: Fn(Mat4, Mat4) -> Mat4>(
    buffers: &mut PulledCubesBuffers,
    cubes: &Vec<PulledCube>,
    chunks: &Vec<ChunkInstance<SIZE>>,
    product: F,
)
    requires
        multiplies(product),
    ensures
        !final(buffers).dirty,
        !old(buffers).dirty ==> final(buffers).instances == old(buffers).instances,
        old(buffers).dirty ==> chunks_appended(
            product,
            chunks@,
            instance_bytes(spec_marker_cubes(cubes@)),
            staged(final(buffers).instances),
        ),
        old(buffers).dirty ==> staged(final(buffers).instances).len() == 64 * (spec_marker_cubes(
            cubes@,
        ).len() + chunk_factors(chunks@).len()),
{
    if !buffers.dirty {
        return ;
    }
    buffers.dirty = false;
    clear_buffer(&mut buffers.instances);
    let markers = marker_cubes(cubes);
    stage(&mut buffers.instances, &markers);
    let records = chunk_instance_cubes(chunks, product);
    stage(&mut buffers.instances, &records);
    assert(staged(buffers.instances) =~= instance_bytes(spec_marker_cubes(cubes@)) + instance_bytes(
        records@,
    ));
}

/// The first half of a rebuild in two steps: when the buffer is stale,
/// replaces its records by those of the visible standalone cubes.
///
/// The buffer stays stale, because the chunks are still owed:
/// [`update_chunk_buffers`] appends them and marks the buffer fresh.
pub fn update_marker_buffers(buffers: &mut PulledCubesBuffers, cubes: &Vec<PulledCube>)
    ensures
        final(buffers).dirty == old(buffers).dirty,
        !old(buffers).dirty ==> final(buffers).instances == old(buffers).instances,
        old(buffers).dirty ==> staged(final(buffers).instances) == instance_bytes(
            spec_marker_cubes(cubes@),
        ),
{
    if !buffers.dirty {
        return ;
    }
    clear_buffer(&mut buffers.instances);
    let markers = marker_cubes(cubes);
    stage(&mut buffers.instances, &markers);
}

/// The second half of a rebuild in two steps: when the buffer is stale,
/// appends the records of the visible chunks and marks the buffer fresh.
///
/// On a fresh buffer it does nothing, so after a full rebuild by
/// [`update_buffers`] no chunk is staged twice.
pub fn update_chunk_buffers<const SIZE: usize, F: Fn(Mat4, Mat4) -> Mat4>(
    buffers: &mut PulledCubesBuffers,
    chunks: &Vec<ChunkInstance<SIZE>>,
    product: F,
)
    requires
        multiplies(product),
    ensures
        !final(buffers).dirty,
        !old(buffers).dirty ==> final(buffers).instances == old(buffers).instances,
        old(buffers).dirty ==> chunks_appended(
            product,
            chunks@,
            staged(old(buffers).instances),
            staged(final(buffers).instances),
        ),
        old(buffers).dirty ==> staged(final(buffers).instances).len() == staged(
            old(buffers).instances,
        ).len() + 64 * chunk_factors(chunks@).len(),
{
    if !buffers.dirty {
        return ;
    }
    buffers.dirty = false;
    let records = chunk_instance_cubes(chunks, product);
    stage(&mut buffers.instances, &records);
}

/// Each standalone cube decides its own record alone: a hidden cube adds
/// nothing to the records of the cubes around it, a visible one adds
/// exactly its own record, at its own place in the order.
pub proof fn lemma_marker_visibility(
    before: Seq<PulledCube>,
    cube: PulledCube,
    after: Seq<PulledCube>,
)
    ensures
        spec_marker_cubes(before + seq![cube] + after) == spec_marker_cubes(before) + (
        if cube.visible {
            seq![cube.spec_cube()]
        } else {
            Seq::empty()
        }) + spec_marker_cubes(after),
{
    let visible = |cube: PulledCube| cube.visible;
    Seq::filter_distributes_over_add(before + seq![cube], after, visible);
    Seq::filter_distributes_over_add(before, seq![cube], visible);
    assert(seq![cube].filter(visible) =~= if cube.visible {
        seq![cube]
    } else {
        Seq::empty()
    }) by {
        reveal_with_fuel(Seq::filter, 2);
        assert(seq![cube].drop_last() =~= Seq::<PulledCube>::empty());
    }
    assert(spec_marker_cubes(before + seq![cube] + after) =~= spec_marker_cubes(before) + (
    if cube.visible {
        seq![cube.spec_cube()]
    } else {
        Seq::empty()
    }) + spec_marker_cubes(after));
}

/// Each chunk decides its own records alone: a chunk that no view sees
/// adds nothing to what the chunks around it give, a visible one adds
/// exactly its own factors, at its own place in the order.
pub proof fn lemma_chunk_visibility<const SIZE: usize>(
    before: Seq<ChunkInstance<SIZE>>,
    chunk: ChunkInstance<SIZE>,
    after: Seq<ChunkInstance<SIZE>>,
)
    ensures
        chunk_factors(before + seq![chunk] + after) == chunk_factors(before) + (if chunk.visible {
            chunk.factors()
        } else {
            Seq::empty()
        }) + chunk_factors(after),
{
    let shown = |chunk: ChunkInstance<SIZE>| chunk.visible;
    let factors_of = |chunk: ChunkInstance<SIZE>| chunk.factors();
    Seq::filter_distributes_over_add(before + seq![chunk], after, shown);
    Seq::filter_distributes_over_add(before, seq![chunk], shown);
    assert(seq![chunk].filter(shown) =~= if chunk.visible {
        seq![chunk]
    } else {
        Seq::empty()
    }) by {
        reveal_with_fuel(Seq::filter, 2);
        assert(seq![chunk].drop_last() =~= Seq::<ChunkInstance<SIZE>>::empty());
    }
    let head = before.filter(shown).map_values(factors_of);
    let middle = seq![chunk].filter(shown).map_values(factors_of);
    let tail = after.filter(shown).map_values(factors_of);
    assert((before + seq![chunk] + after).filter(shown).map_values(factors_of) =~= head + middle
        + tail);
    vstd::seq_lib::lemma_flatten_concat(head + middle, tail);
    vstd::seq_lib::lemma_flatten_concat(head, middle);
    if chunk.visible {
        assert(middle =~= seq![chunk.factors()]);
        middle.lemma_flatten_one_element();
    } else {
        assert(middle =~= Seq::<Seq<(Mat4, Mat4)>>::empty());
    }
}

/// A list of `n` records is read as `64 * n` bytes, and each record fills
/// its own 64 of them.
pub proof fn lemma_instance_bytes(records: Seq<Cube>, record: int)
    requires
        0 <= record < records.len(),
    ensures
        instance_bytes(records).len() == 64 * records.len(),
        instance_bytes(records).subrange(64 * record, 64 * record + 64) == records[record].bytes(),
{
    assert(instance_bytes(records).subrange(64 * record, 64 * record + 64)
        =~= records[record].bytes());
}

} // verus!
