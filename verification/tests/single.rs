use vkxl::math::matrix::{Mat4, Vec4};
use vkxl::math::single::Single;

fn bits(value: f32) -> Single {
    Single { bits: value.to_bits() }
}

#[test]
fn zero_and_one_are_the_usual_bits() {
    assert_eq!(Single::zero().bits, 0.0f32.to_bits());
    assert_eq!(Single::one().bits, 1.0f32.to_bits());
    assert_eq!(Single::one().bits, 0x3F80_0000);
}

#[test]
fn from_u32_gives_known_encodings() {
    assert_eq!(Single::from_u32(0).bits, 0x0000_0000);
    assert_eq!(Single::from_u32(1).bits, 0x3F80_0000);
    assert_eq!(Single::from_u32(2).bits, 0x4000_0000);
    assert_eq!(Single::from_u32(3).bits, 0x4040_0000);
    assert_eq!(Single::from_u32(15).bits, 0x4170_0000);
    assert_eq!(Single::from_u32(16).bits, 0x4180_0000);
    assert_eq!(Single::from_u32(0xFF_FFFF).bits, 0x4B7F_FFFF);
}

#[test]
fn from_u32_agrees_with_the_machine_on_small_numbers() {
    for n in 0u32..70_000 {
        assert_eq!(Single::from_u32(n).bits, (n as f32).to_bits());
    }
}

#[test]
fn from_u32_agrees_with_the_machine_near_powers_of_two() {
    for shift in 1u32..24 {
        let power: u32 = 1 << shift;
        for n in [power - 1, power, power + 1] {
            if n < 0x100_0000 {
                assert_eq!(Single::from_u32(n).bits, (n as f32).to_bits());
                assert_eq!(f32::from_bits(Single::from_u32(n).bits), n as f32);
            }
        }
    }
}

#[test]
fn from_u32_agrees_with_the_machine_on_a_sweep() {
    let mut n: u32 = 0;
    while n < 0x100_0000 {
        assert_eq!(Single::from_u32(n).bits, (n as f32).to_bits());
        n += 251;
    }
}

#[test]
fn write_le_bytes_puts_the_low_byte_first() {
    let mut out: Vec<u8> = vec![0xAA];
    Single { bits: 0x1234_5678 }.write_le_bytes(&mut out);
    assert_eq!(out, vec![0xAA, 0x78, 0x56, 0x34, 0x12]);
    let mut one: Vec<u8> = Vec::new();
    Single::one().write_le_bytes(&mut one);
    assert_eq!(one, 1.0f32.to_le_bytes().to_vec());
}

#[test]
fn identity_has_ones_on_the_diagonal() {
    let m: Mat4 = Mat4::identity();
    let expected: [f32; 16] =
        [1.0, 0.0, 0.0, 0.0, 0.0, 1.0, 0.0, 0.0, 0.0, 0.0, 1.0, 0.0, 0.0, 0.0, 0.0, 1.0];
    assert_eq!(m.to_cols_array(), expected.map(f32::to_bits));
    assert_eq!(Mat4::zero().to_cols_array(), [0u32; 16]);
}

#[test]
fn from_translation_fills_the_last_column() {
    let m: Mat4 = Mat4::from_translation(bits(0.1), bits(0.2), bits(-1.5));
    let expected: [f32; 16] =
        [1.0, 0.0, 0.0, 0.0, 0.0, 1.0, 0.0, 0.0, 0.0, 0.0, 1.0, 0.0, 0.1, 0.2, -1.5, 1.0];
    assert_eq!(m.to_cols_array(), expected.map(f32::to_bits));
}

#[test]
fn cols_array_round_trips() {
    let mut words: [u32; 16] = [0; 16];
    for (i, word) in words.iter_mut().enumerate() {
        *word = 0x0101_0101 * (i as u32 + 1);
    }
    let m: Mat4 = Mat4::from_cols_array(&words);
    assert_eq!(m.x_axis, Vec4::new(
        Single { bits: words[0] },
        Single { bits: words[1] },
        Single { bits: words[2] },
        Single { bits: words[3] },
    ));
    assert_eq!(m.w_axis.z.bits, words[14]);
    assert_eq!(m.to_cols_array(), words);
}

#[test]
fn transpose_exchanges_rows_and_columns() {
    let mut words: [u32; 16] = [0; 16];
    for (i, word) in words.iter_mut().enumerate() {
        *word = i as u32;
    }
    let t: [u32; 16] = Mat4::from_cols_array(&words).transpose().to_cols_array();
    assert_eq!(t, [0, 4, 8, 12, 1, 5, 9, 13, 2, 6, 10, 14, 3, 7, 11, 15]);
    for column in 0..4usize {
        for row in 0..4usize {
            assert_eq!(t[4 * column + row], words[4 * row + column]);
        }
    }
}

#[test]
fn transpose_twice_is_the_matrix_itself() {
    let mut words: [u32; 16] = [0; 16];
    for (i, word) in words.iter_mut().enumerate() {
        *word = 0xDEAD_0000 + i as u32;
    }
    let m: Mat4 = Mat4::from_cols_array(&words);
    assert_ne!(m.transpose(), m);
    assert_eq!(m.transpose().transpose(), m);
}
