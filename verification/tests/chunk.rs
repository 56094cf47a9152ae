use vkxl::math::vector::{I64Vec3, IVec3};
use vkxl::world::chunk::{index_to_pos, pos_to_index, Chunk};
use vkxl::world::generation::debug::{empty, full, sine};
use vkxl::world::generation::flat;
use vkxl::world::{ChunkOffset, Level};

fn striped(pos: I64Vec3) -> bool {
    (pos.x + 2 * pos.y + 3 * pos.z).rem_euclid(5) == 0
}

fn ground_at_eight(pos: I64Vec3) -> bool {
    flat(8, pos)
}

#[test]
fn index_27_of_a_chunk_of_four_is_the_cell_1_2_3() {
    assert_eq!(index_to_pos(27, 4), IVec3::new(1, 2, 3));
    assert_eq!(Chunk::<4>::index_to_pos(27), IVec3::new(1, 2, 3));
}

#[test]
fn index_to_pos_follows_the_formula() {
    assert_eq!(index_to_pos(0, 16), IVec3::new(0, 0, 0));
    assert_eq!(index_to_pos(1, 16), IVec3::new(0, 0, 1));
    assert_eq!(index_to_pos(16, 16), IVec3::new(0, 1, 0));
    assert_eq!(index_to_pos(256, 16), IVec3::new(1, 0, 0));
    assert_eq!(index_to_pos(291, 16), IVec3::new(1, 2, 3));
    assert_eq!(index_to_pos(4095, 16), IVec3::new(15, 15, 15));
    assert_eq!(index_to_pos(5, 3), IVec3::new(0, 1, 2));
    assert_eq!(index_to_pos(0, 1), IVec3::new(0, 0, 0));
}

#[test]
fn pos_to_index_follows_the_formula() {
    assert_eq!(pos_to_index(IVec3::new(1, 2, 3), 16), 291);
    assert_eq!(pos_to_index(IVec3::new(15, 15, 15), 16), 4095);
    assert_eq!(pos_to_index(IVec3::new(2, 0, 1), 3), 19);
}

#[test]
fn every_index_round_trips() {
    let sizes: [usize; 6] = [1, 2, 3, 7, 16, 32];
    for size in sizes {
        for index in 0..size * size * size {
            let pos: IVec3 = index_to_pos(index, size);
            assert!(0 <= pos.x && (pos.x as usize) < size);
            assert!(0 <= pos.y && (pos.y as usize) < size);
            assert!(0 <= pos.z && (pos.z as usize) < size);
            assert_eq!(pos_to_index(pos, size), index);
        }
    }
}

#[test]
fn every_cell_round_trips() {
    let size: usize = 5;
    for x in 0..5i32 {
        for y in 0..5i32 {
            for z in 0..5i32 {
                let pos: IVec3 = IVec3::new(x, y, z);
                assert_eq!(index_to_pos(pos_to_index(pos, size), size), pos);
            }
        }
    }
}

#[test]
fn chunk_index_to_pos_uses_the_chunk_size() {
    assert_eq!(Chunk::<16>::index_to_pos(291), IVec3::new(1, 2, 3));
    assert_eq!(Chunk::<32>::index_to_pos(1024 + 64 + 3), IVec3::new(1, 2, 3));
}

#[test]
fn volume_is_the_cube_of_the_size() {
    assert_eq!(Chunk::<16>::volume(), 4096);
    assert_eq!(Chunk::<32>::volume(), 32768);
    assert_eq!(Chunk::<1>::volume(), 1);
    assert_eq!(Chunk::<0>::volume(), 0);
}

#[test]
fn default_chunk_is_empty() {
    let chunk: Chunk<4> = Chunk::default();
    assert_eq!(chunk.blocks().len(), 64);
    assert!(chunk.blocks().iter().all(|block| !*block));
}

#[test]
fn generate_asks_the_generator_at_each_cell() {
    let offset: I64Vec3 = I64Vec3::new(-7, 3, 100);
    let chunk: Chunk<6> = Chunk::generate(striped, offset);
    assert_eq!(chunk.blocks().len(), 216);
    for index in 0..216usize {
        let pos: IVec3 = Chunk::<6>::index_to_pos(index);
        let world: I64Vec3 = offset.plus(pos.as_i64vec3());
        assert_eq!(chunk[index], striped(world));
        assert_eq!(chunk[pos], striped(world));
        assert_eq!(chunk.blocks()[index], striped(world));
    }
}

#[test]
fn generate_with_size_zero_gives_an_empty_chunk() {
    let chunk: Chunk<0> = Chunk::generate(full, I64Vec3::new(1, 2, 3));
    assert!(chunk.blocks().is_empty());
}

#[test]
fn generate_reaches_the_last_block_of_the_grid() {
    let offset: I64Vec3 = I64Vec3::new(i64::MAX - 1, i64::MIN, i64::MAX - 1);
    let chunk: Chunk<2> = Chunk::generate(|pos: I64Vec3| pos.x == i64::MAX && pos.y == i64::MIN, offset);
    assert_eq!(chunk[IVec3::new(1, 0, 0)], true);
    assert_eq!(chunk[IVec3::new(1, 0, 1)], true);
    assert_eq!(chunk[IVec3::new(0, 0, 0)], false);
    assert_eq!(chunk[IVec3::new(1, 1, 0)], false);
}

#[test]
fn flat_fills_below_the_level() {
    assert!(flat(8, I64Vec3::new(0, 7, 0)));
    assert!(!flat(8, I64Vec3::new(0, 8, 0)));
    assert!(flat(-3, I64Vec3::new(100, -4, -100)));
    assert!(!flat(-3, I64Vec3::new(100, -3, -100)));
    assert!(flat(i64::MAX, I64Vec3::new(0, i64::MAX - 1, 0)));
    assert!(!flat(i64::MIN, I64Vec3::new(0, i64::MIN, 0)));
}

#[test]
fn empty_and_full_ignore_the_position() {
    let places: [I64Vec3; 3] =
        [I64Vec3::new(0, 0, 0), I64Vec3::new(-5, 9, 2), I64Vec3::new(i64::MAX, i64::MIN, 1)];
    for pos in places {
        assert!(!empty(pos));
        assert!(full(pos));
    }
}

#[test]
fn flat_chunk_at_level_eight_has_2048_blocks() {
    let chunk: Chunk<16> = Chunk::generate(ground_at_eight, I64Vec3::new(0, 0, 0));
    let filled: usize = chunk.blocks().iter().filter(|block| **block).count();
    assert_eq!(filled, 16 * 16 * 8);
    for index in 0..4096usize {
        let pos: IVec3 = Chunk::<16>::index_to_pos(index);
        assert_eq!(chunk[index], pos.y < 8);
    }
}

#[test]
fn load_generates_at_the_chunk_origin() {
    let level = Level { generator: striped };
    let (chunk, offset): (Chunk<4>, ChunkOffset) = level.load::<4>(I64Vec3::new(2, -1, 3));
    assert_eq!(offset, ChunkOffset(I64Vec3::new(2, -1, 3)));
    let origin: I64Vec3 = I64Vec3::new(8, -4, 12);
    for index in 0..64usize {
        let world: I64Vec3 = origin.plus(Chunk::<4>::index_to_pos(index).as_i64vec3());
        assert_eq!(chunk[index], striped(world));
    }
}

#[test]
fn load_twice_gives_the_same_blocks() {
    let level = Level { generator: striped };
    let first: (Chunk<8>, ChunkOffset) = level.load::<8>(I64Vec3::new(-3, 0, 5));
    let second: (Chunk<8>, ChunkOffset) = level.load::<8>(I64Vec3::new(-3, 0, 5));
    assert_eq!(first.0.blocks(), second.0.blocks());
    assert_eq!(first.1, second.1);
}

#[test]
fn load_keeps_no_state_between_chunks() {
    let level = Level { generator: ground_at_eight };
    let low: (Chunk<16>, ChunkOffset) = level.load::<16>(I64Vec3::new(0, 0, 0));
    let high: (Chunk<16>, ChunkOffset) = level.load::<16>(I64Vec3::new(0, 1, 0));
    let under: (Chunk<16>, ChunkOffset) = level.load::<16>(I64Vec3::new(4, -1, -4));
    assert_eq!(low.0.blocks().iter().filter(|block| **block).count(), 2048);
    assert_eq!(high.0.blocks().iter().filter(|block| **block).count(), 0);
    assert_eq!(under.0.blocks().iter().filter(|block| **block).count(), 4096);
}

#[test]
fn chunk_origin_is_offset_times_size() {
    assert_eq!(ChunkOffset(I64Vec3::new(2, -1, 3)).origin::<16>(), I64Vec3::new(32, -16, 48));
    assert_eq!(ChunkOffset(I64Vec3::new(0, 0, 0)).origin::<32>(), I64Vec3::new(0, 0, 0));
    assert_eq!(ChunkOffset(I64Vec3::new(-5, 7, 1)).origin::<1>(), I64Vec3::new(-5, 7, 1));
}

#[test]
fn vectors_add_and_scale_by_component() {
    let a: I64Vec3 = I64Vec3::new(1, -2, 3);
    assert_eq!(a.plus(I64Vec3::new(10, 20, -30)), I64Vec3::new(11, 18, -27));
    assert_eq!(a.scaled(-4), I64Vec3::new(-4, 8, -12));
    assert_eq!(IVec3::new(-1, 0, i32::MAX).as_i64vec3(), I64Vec3::new(-1, 0, 2147483647));
}

#[test]
fn to_extracted_copies_the_blocks() {
    let chunk: Chunk<3> = Chunk::generate(striped, I64Vec3::new(0, 0, 0));
    let extracted = chunk.to_extracted();
    assert_eq!(extracted.blocks(), chunk.blocks());
    for index in 0..27usize {
        assert_eq!(extracted[index], chunk[index]);
        let pos: IVec3 = index_to_pos(index, 3);
        assert_eq!(extracted[pos], chunk[pos]);
    }
}

#[test]
fn checked_scaled_is_none_where_a_component_overflows() {
    let v: I64Vec3 = I64Vec3::new(3, -4, 5);
    assert_eq!(v.checked_scaled(16), Some(I64Vec3::new(48, -64, 80)));
    assert_eq!(I64Vec3::new(i64::MAX / 16 + 1, 0, 0).checked_scaled(16), None);
    assert_eq!(I64Vec3::new(0, i64::MIN, 0).checked_scaled(-1), None);
    assert_eq!(I64Vec3::new(0, 0, i64::MIN / 2 - 1).checked_scaled(2), None);
    assert_eq!(I64Vec3::new(i64::MAX / 16, i64::MIN / 16, 0).checked_scaled(16).is_some(), true);
}

#[test]
fn sine_fills_below_level_plus_swing() {
    assert!(sine(8, 3, I64Vec3::new(0, 10, 0)));
    assert!(!sine(8, 3, I64Vec3::new(0, 11, 0)));
    assert!(sine(8, -3, I64Vec3::new(5, 4, 5)));
    assert!(!sine(8, -3, I64Vec3::new(5, 5, 5)));
    assert_eq!(sine(8, 0, I64Vec3::new(1, 7, 1)), flat(8, I64Vec3::new(1, 7, 1)));
    assert_eq!(sine(8, 0, I64Vec3::new(1, 8, 1)), flat(8, I64Vec3::new(1, 8, 1)));
    assert!(sine(i64::MAX - 1, 1, I64Vec3::new(0, i64::MAX - 1, 0)));
}

#[test]
fn sine_with_the_wave_rounded_up_compares_against_the_wave_itself() {
    let wave: f64 = (2.0 * 2.0 * std::f64::consts::PI / 10.0).sin() * 3.0;
    assert!(2.0 < wave && wave < 3.0);
    let swing: i64 = wave.ceil() as i64;
    assert_eq!(swing, 3);
    for y in 0i64..20 {
        assert_eq!(sine(8, swing, I64Vec3::new(2, y, 0)), (y as f64) < wave + 8.0);
    }
    assert!(sine(8, swing, I64Vec3::new(2, 10, 0)));
    assert!(!sine(8, swing, I64Vec3::new(2, 11, 0)));
    let below: f64 = (7.0 * 2.0 * std::f64::consts::PI / 10.0).sin() * 3.0;
    assert!(-3.0 < below && below < -2.0);
    for y in 0i64..20 {
        assert_eq!(sine(8, below.ceil() as i64, I64Vec3::new(7, y, 0)), (y as f64) < below + 8.0);
    }
}
