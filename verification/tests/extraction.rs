use vkxl::math::matrix::Mat4;
use vkxl::math::single::Single;
use vkxl::math::vector::{I64Vec3, IVec3};
use vkxl::render::buffers::{Cube, ToCubes};
use vkxl::world::chunk::{index_to_pos, Chunk, ExtractedChunk};
use vkxl::world::generation::debug::{empty, full};
use vkxl::world::generation::flat;

fn sparse(pos: I64Vec3) -> bool {
    (pos.x * 31 + pos.y * 17 + pos.z * 7).rem_euclid(11) < 3
}

fn translation(cube: &Cube) -> (f32, f32, f32) {
    (
        f32::from_bits(cube.transform.x_axis.w.bits),
        f32::from_bits(cube.transform.y_axis.w.bits),
        f32::from_bits(cube.transform.z_axis.w.bits),
    )
}

#[test]
fn default_cube_is_the_identity() {
    assert_eq!(Cube::default().transform, Mat4::identity());
}

#[test]
fn cube_at_holds_the_cell_in_its_last_row() {
    let cube: Cube = Cube::at(IVec3::new(3, 0, 15));
    let expected: [f32; 16] =
        [1.0, 0.0, 0.0, 3.0, 0.0, 1.0, 0.0, 0.0, 0.0, 0.0, 1.0, 15.0, 0.0, 0.0, 0.0, 1.0];
    assert_eq!(cube.transform.to_cols_array(), expected.map(f32::to_bits));
    assert_eq!(Cube::at(IVec3::new(0, 0, 0)), Cube::default());
}

#[test]
fn cube_at_is_the_transposed_translation() {
    let cube: Cube = Cube::at(IVec3::new(1, 2, 3));
    let model: Mat4 = Mat4::from_translation(Single::from_u32(1), Single::from_u32(2), Single::from_u32(3));
    assert_eq!(cube.transform, model.transpose());
    assert_ne!(cube.transform, model);
}

#[test]
fn a_block_is_one_cube_or_none() {
    assert_eq!(true.to_cubes(), vec![Cube::default()]);
    assert_eq!(false.to_cubes(), Vec::<Cube>::new());
}

#[test]
fn empty_chunk_yields_no_cubes() {
    let chunk: Chunk<8> = Chunk::generate(empty, I64Vec3::new(0, 0, 0));
    assert!(chunk.to_extracted().to_cubes().is_empty());
}

#[test]
fn full_chunk_yields_every_cell_in_linear_order() {
    let chunk: Chunk<4> = Chunk::generate(full, I64Vec3::new(9, 9, 9));
    let cubes: Vec<Cube> = chunk.to_extracted().to_cubes();
    assert_eq!(cubes.len(), 64);
    for index in 0..64usize {
        assert_eq!(cubes[index], Cube::at(index_to_pos(index, 4)));
    }
    assert_eq!(translation(&cubes[0]), (0.0, 0.0, 0.0));
    assert_eq!(translation(&cubes[1]), (0.0, 0.0, 1.0));
    assert_eq!(translation(&cubes[4]), (0.0, 1.0, 0.0));
    assert_eq!(translation(&cubes[16]), (1.0, 0.0, 0.0));
    assert_eq!(translation(&cubes[63]), (3.0, 3.0, 3.0));
}

#[test]
fn one_cube_for_each_occupied_cell() {
    let chunk: Chunk<9> = Chunk::generate(sparse, I64Vec3::new(-4, 12, 1000));
    let extracted: ExtractedChunk<9> = chunk.to_extracted();
    let cubes: Vec<Cube> = extracted.to_cubes();
    let occupied: Vec<usize> = (0..729usize).filter(|index| chunk[*index]).collect();
    assert!(!occupied.is_empty() && occupied.len() < 729);
    assert_eq!(cubes.len(), occupied.len());
    for (cube, index) in cubes.iter().zip(occupied.iter()) {
        let pos: IVec3 = index_to_pos(*index, 9);
        assert_eq!(translation(cube), (pos.x as f32, pos.y as f32, pos.z as f32));
        assert_eq!(*cube, Cube::at(pos));
    }
}

#[test]
fn cubes_do_not_depend_on_where_the_chunk_lies() {
    let here: Chunk<5> = Chunk::generate(full, I64Vec3::new(0, 0, 0));
    let there: Chunk<5> = Chunk::generate(full, I64Vec3::new(-500, 70, 123456));
    assert_eq!(here.to_extracted().to_cubes(), there.to_extracted().to_cubes());
}

#[test]
fn flat_chunk_yields_2048_distinct_cubes_below_level_eight() {
    let chunk: Chunk<16> = Chunk::generate(|pos: I64Vec3| flat(8, pos), I64Vec3::new(0, 0, 0));
    assert_eq!(chunk.blocks().iter().filter(|block| **block).count(), 2048);
    let cubes: Vec<Cube> = chunk.to_extracted().to_cubes();
    assert_eq!(cubes.len(), 2048);
    let mut seen: Vec<(u32, u32, u32)> = Vec::new();
    for cube in cubes.iter() {
        let (x, y, z): (f32, f32, f32) = translation(cube);
        assert!(y < 8.0);
        assert!(0.0 <= x && x < 16.0 && 0.0 <= y && 0.0 <= z && z < 16.0);
        assert_eq!((x.fract(), y.fract(), z.fract()), (0.0, 0.0, 0.0));
        seen.push((x as u32, y as u32, z as u32));
    }
    seen.sort();
    seen.dedup();
    assert_eq!(seen.len(), 2048);
}
