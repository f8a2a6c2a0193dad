//! The operations on vector registers, lane by lane.

use cubehash::arith::square;
use cubehash::lanes::{U32x16, U32x4, U32x8};
use cubehash::permutation::{byte_of_word, read_le_word, rotate_left};

fn lanes4(r: &U32x4) -> [u32; 4] {
    [r.lane(0), r.lane(1), r.lane(2), r.lane(3)]
}

fn lanes8(r: &U32x8) -> Vec<u32> {
    (0..8).map(|i| r.lane(i)).collect()
}

fn lanes16(r: &U32x16) -> Vec<u32> {
    (0..16).map(|i| r.lane(i)).collect()
}

fn counting16() -> U32x16 {
    U32x16::new([0, 1, 2, 3, 4, 5, 6, 7, 8, 9, 10, 11, 12, 13, 14, 15])
}

#[test]
fn rotation_of_a_word() {
    assert_eq!(rotate_left(0x8000_0001, 1), 0x0000_0003);
    assert_eq!(rotate_left(0x1234_5678, 7), 0x1a2b_3c09);
    assert_eq!(rotate_left(0x1234_5678, 11), 0xa2b3_c091);
    assert_eq!(rotate_left(0xffff_ffff, 31), 0xffff_ffff);
    assert_eq!(rotate_left(1, 31), 0x8000_0000);
}

#[test]
fn little_endian_words_and_bytes() {
    let bytes: [u8; 8] = [0x78, 0x56, 0x34, 0x12, 0xef, 0xcd, 0xab, 0x89];
    assert_eq!(read_le_word(&bytes, 0), 0x1234_5678);
    assert_eq!(read_le_word(&bytes, 1), 0x89ab_cdef);
    assert_eq!(byte_of_word(0x1234_5678, 0), 0x78);
    assert_eq!(byte_of_word(0x1234_5678, 1), 0x56);
    assert_eq!(byte_of_word(0x1234_5678, 2), 0x34);
    assert_eq!(byte_of_word(0x1234_5678, 3), 0x12);
}

#[test]
fn zero_register() {
    assert_eq!(lanes4(&U32x4::zero()), [0, 0, 0, 0]);
    assert_eq!(lanes8(&U32x8::zero()), vec![0u32; 8]);
    assert_eq!(lanes16(&U32x16::zero()), vec![0u32; 16]);
}

#[test]
fn lane_wise_arithmetic() {
    let a = U32x4::new([1, 0xffff_ffff, 0x8000_0000, 7]);
    let b = U32x4::new([2, 1, 0x8000_0000, 0xffff_fff9]);
    assert_eq!(lanes4(&a.wrapping_add(b)), [3, 0, 0, 0]);
    assert_eq!(lanes4(&a.xor(b)), [3, 0xffff_fffe, 0, 0xffff_fffe]);
    assert_eq!(lanes4(&a.or(b)), [3, 0xffff_ffff, 0x8000_0000, 0xffff_ffff]);
    assert_eq!(lanes4(&a.shl(4)), [0x10, 0xffff_fff0, 0, 0x70]);
    assert_eq!(lanes4(&a.shr(4)), [0, 0x0fff_ffff, 0x0800_0000, 0]);
    assert_eq!(lanes4(&a.shl(0)), lanes4(&a));
}

#[test]
fn rotation_three_ways() {
    let a = U32x4::new([0x1234_5678, 0x8000_0001, 0, 0xffff_ffff]);
    let expected7 = [0x1a2b_3c09, 0x0000_00c0, 0, 0xffff_ffff];
    let expected11 = [0xa2b3_c091, 0x0000_0c00, 0, 0xffff_ffff];
    assert_eq!(lanes4(&a.rotate_left(7)), expected7);
    assert_eq!(lanes4(&a.shl(7).or(a.shr(25))), expected7);
    assert_eq!(lanes4(&a.shl(7).shift_right_insert(a, 25)), expected7);
    assert_eq!(lanes4(&a.rotate_left(11)), expected11);
    assert_eq!(lanes4(&a.shl(11).or(a.shr(21))), expected11);
    assert_eq!(lanes4(&a.shl(11).shift_right_insert(a, 21)), expected11);
}

#[test]
fn shift_right_insert_keeps_the_top_bits() {
    let kept = U32x4::new([0xffff_ffff, 0, 0xaaaa_aaaa, 0x1234_5678]);
    let shifted = U32x4::new([0, 0xffff_ffff, 0xffff_ffff, 0xffff_ffff]);
    assert_eq!(
        lanes4(&kept.shift_right_insert(shifted, 8)),
        [0xff00_0000, 0x00ff_ffff, 0xaaff_ffff, 0x12ff_ffff]
    );
}

#[test]
fn shuffle_within_groups_of_four() {
    let a = U32x4::new([10, 11, 12, 13]);
    assert_eq!(lanes4(&a.shuffle32(0x4E)), [12, 13, 10, 11]);
    assert_eq!(lanes4(&a.shuffle32(0xB1)), [11, 10, 13, 12]);
    assert_eq!(lanes4(&a.shuffle32(0xE4)), [10, 11, 12, 13]);
    assert_eq!(lanes4(&a.shuffle32(0x00)), [10, 10, 10, 10]);
    assert_eq!(lanes4(&a.shuffle32(0x1B)), [13, 12, 11, 10]);
    assert_eq!(lanes4(&a.swap_halves()), [12, 13, 10, 11]);
    assert_eq!(lanes4(&a.swap_pairs()), [11, 10, 13, 12]);

    let wide = counting16();
    assert_eq!(
        lanes16(&wide.shuffle32(0x4E)),
        vec![2, 3, 0, 1, 6, 7, 4, 5, 10, 11, 8, 9, 14, 15, 12, 13]
    );
    assert_eq!(
        lanes16(&wide.shuffle32(0xB1)),
        vec![1, 0, 3, 2, 5, 4, 7, 6, 9, 8, 11, 10, 13, 12, 15, 14]
    );
}

#[test]
fn permutation_of_pairs_within_groups_of_eight() {
    let a = U32x8::new([0, 1, 2, 3, 4, 5, 6, 7]);
    assert_eq!(lanes8(&a.permute64(0x4E)), vec![4, 5, 6, 7, 0, 1, 2, 3]);
    assert_eq!(lanes8(&a.permute64(0xE4)), vec![0, 1, 2, 3, 4, 5, 6, 7]);
    assert_eq!(lanes8(&a.permute64(0x1B)), vec![6, 7, 4, 5, 2, 3, 0, 1]);
    assert_eq!(
        lanes16(&counting16().permute64(0x4E)),
        vec![4, 5, 6, 7, 0, 1, 2, 3, 12, 13, 14, 15, 8, 9, 10, 11]
    );
}

#[test]
fn shuffle_of_groups_of_four() {
    let a = counting16();
    let b = U32x16::new([
        100, 101, 102, 103, 104, 105, 106, 107, 108, 109, 110, 111, 112, 113, 114, 115,
    ]);
    assert_eq!(
        lanes16(&a.shuffle128(a, 0x4E)),
        vec![8, 9, 10, 11, 12, 13, 14, 15, 0, 1, 2, 3, 4, 5, 6, 7]
    );
    assert_eq!(
        lanes16(&a.shuffle128(b, 0x4E)),
        vec![8, 9, 10, 11, 12, 13, 14, 15, 100, 101, 102, 103, 104, 105, 106, 107]
    );
    assert_eq!(
        lanes16(&a.shuffle128(b, 0xE4)),
        vec![0, 1, 2, 3, 4, 5, 6, 7, 108, 109, 110, 111, 112, 113, 114, 115]
    );
}

#[test]
fn zero_extension() {
    let low = U32x8::new([1, 2, 3, 4, 5, 6, 7, 8]);
    assert_eq!(
        lanes16(&U32x16::zero_extend(low)),
        vec![1, 2, 3, 4, 5, 6, 7, 8, 0, 0, 0, 0, 0, 0, 0, 0]
    );
}

#[test]
fn loading_little_endian_words() {
    let mut block = [0u8; 32];
    for (i, b) in block.iter_mut().enumerate() {
        *b = i as u8;
    }
    assert_eq!(lanes4(&U32x4::load_le(&block, 0)), [0x03020100, 0x07060504, 0x0b0a0908, 0x0f0e0d0c]);
    assert_eq!(lanes4(&U32x4::load_le(&block, 4)), [0x13121110, 0x17161514, 0x1b1a1918, 0x1f1e1d1c]);
    assert_eq!(
        lanes8(&U32x8::load_le(&block, 0)),
        vec![
            0x03020100, 0x07060504, 0x0b0a0908, 0x0f0e0d0c, 0x13121110, 0x17161514, 0x1b1a1918,
            0x1f1e1d1c
        ]
    );
}

#[test]
fn appending_bytes_up_to_a_limit() {
    let a = U32x4::new([0x03020100, 0x07060504, 0x0b0a0908, 0x0f0e0d0c]);
    let mut out: Vec<u8> = Vec::new();
    a.append_le(&mut out, 64);
    assert_eq!(out, (0..16u8).collect::<Vec<u8>>());
    a.append_le(&mut out, 21);
    assert_eq!(out.len(), 21);
    assert_eq!(out[16..].to_vec(), vec![0u8, 1, 2, 3, 4]);
    a.append_le(&mut out, 21);
    assert_eq!(out.len(), 21);
}

#[test]
fn appending_words() {
    let a = U32x4::new([1, 2, 3, 4]);
    let mut out: Vec<u32> = vec![9];
    a.append_words(&mut out);
    assert_eq!(out, vec![9, 1, 2, 3, 4]);
}

#[test]
fn zeroize_a_register() {
    let mut a = U32x4::new([1, 2, 3, 4]);
    a.zeroize();
    assert_eq!(lanes4(&a), [0, 0, 0, 0]);
    let mut b = counting16();
    b.zeroize();
    assert_eq!(lanes16(&b), vec![0u32; 16]);
}

#[test]
fn squares() {
    assert_eq!(square(0u64), 0);
    assert_eq!(square(3u64), 9);
    assert_eq!(square(-4i32), 16);
    assert_eq!(square(65535u32), 4294836225);
    assert_eq!(square(1.5f64), 2.25);
}
