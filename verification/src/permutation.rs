//! The CubeHash permutation as a mathematical function.
//!
//! The state is 32 words of 32 bits in two halves of 16 words, `A` and `B`.
//! Everything a backend computes is stated against the functions of this
//! module.

use vstd::prelude::*;

verus! {

/// The state of the permutation: the half `A` (words 0 to 15) and the half
/// `B` (words 16 to 31).
#[verifier::ext_equal]
pub struct State {
    pub a: Seq<u32>,
    pub b: Seq<u32>,
}

impl State {
    /// Both halves hold 16 words.
    pub open spec fn wf(self) -> bool {
        self.a.len() == 16 && self.b.len() == 16
    }

    /// The 32 words in order: `A[0], .., A[15], B[0], .., B[15]`.
    pub open spec fn words(self) -> Seq<u32> {
        self.a + self.b
    }
}

/// Rotation of a word to the left by `n` bits, for `0 < n < 32`.
pub open spec fn rotl(x: u32, n: u32) -> u32 {
    (x << n) | (x >> ((32 - n) as u32))
}

/// The index `i xor m`.
pub open spec fn xor_index(i: int, m: usize) -> int {
    ((i as usize) ^ m) as int
}

/// Word by word, the wrapping sum.
pub open spec fn words_add(x: Seq<u32>, y: Seq<u32>) -> Seq<u32> {
    Seq::new(x.len(), |i: int| x[i].wrapping_add(y[i]))
}

/// Word by word, the exclusive or.
pub open spec fn words_xor(x: Seq<u32>, y: Seq<u32>) -> Seq<u32> {
    Seq::new(x.len(), |i: int| x[i] ^ y[i])
}

/// Every word rotated left by `n` bits.
pub open spec fn words_rotl(x: Seq<u32>, n: u32) -> Seq<u32> {
    Seq::new(x.len(), |i: int| rotl(x[i], n))
}

/// The words read at the index `i xor m`: place `i` takes `x[i xor m]`.
pub open spec fn words_swap(x: Seq<u32>, m: usize) -> Seq<u32> {
    Seq::new(x.len(), |i: int| x[xor_index(i, m)])
}

/// Word `i` of a byte string read as little-endian words.
pub open spec fn le_word(bytes: Seq<u8>, i: int) -> u32 {
    (bytes[4 * i] as u32) | ((bytes[4 * i + 1] as u32) << 8) | ((bytes[4 * i + 2] as u32) << 16) | (
    (bytes[4 * i + 3] as u32) << 24)
}

/// Byte `j` of a word, byte 0 the least significant.
pub open spec fn le_byte(w: u32, j: int) -> u8 {
    ((w >> ((8 * j) as u32)) & 0xff) as u8
}

/// A byte string of `4 * n` bytes read as `n` little-endian words.
pub open spec fn bytes_to_words(bytes: Seq<u8>) -> Seq<u32> {
    Seq::new(bytes.len() / 4, |i: int| le_word(bytes, i))
}

/// Words written out as little-endian bytes, four to a word.
pub open spec fn words_to_bytes(x: Seq<u32>) -> Seq<u8> {
    Seq::new(4 * x.len(), |k: int| le_byte(x[k / 4], k % 4))
}

/// One sub-round with rotation `rot` and index masks `m1` (on `A`) and `m2`
/// (on `B`):
///
/// 1. `B[i] = B[i] + A[i]`, wrapping;
/// 2. `A[i] = rotl(A[i xor m1], rot)`;
/// 3. `A[i] = A[i] xor B[i]`;
/// 4. `B[i] = B[i xor m2]`, every word read before any is written.
pub open spec fn subround(s: State, rot: u32, m1: usize, m2: usize) -> State {
    let b1 = words_add(s.b, s.a);
    let a1 = words_rotl(words_swap(s.a, m1), rot);
    let a2 = words_xor(a1, b1);
    State { a: a2, b: words_swap(b1, m2) }
}

/// One round of the permutation: the sub-round `(7, 8, 2)` followed by the
/// sub-round `(11, 4, 1)`.
pub open spec fn round(s: State) -> State {
    subround(subround(s, 7, 8, 2), 11, 4, 1)
}

/// `n` rounds of the permutation.
pub open spec fn rounds(s: State, n: nat) -> State
    decreases n,
{
    if n == 0 {
        s
    } else {
        round(rounds(s, (n - 1) as nat))
    }
}

/// On the indices of a half, `xor` with one of the masks 8, 4, 2, 1 moves
/// the index up or down by the mask.
pub proof fn lemma_xor_index(i: int)
    requires
        0 <= i < 16,
    ensures
        xor_index(i, 8) == if i < 8 { i + 8 } else { i - 8 },
        xor_index(i, 4) == if i % 8 < 4 { i + 4 } else { i - 4 },
        xor_index(i, 2) == if i % 4 < 2 { i + 2 } else { i - 2 },
        xor_index(i, 1) == if i % 2 < 1 { i + 1 } else { i - 1 },
{
    let u = i as usize;
    assert(u < 16 ==> (u ^ 8) == (if u < 8 { u + 8 } else { u - 8 })) by (bit_vector);
    assert(u < 16 ==> (u ^ 4) == (if u % 8 < 4 { u + 4 } else { u - 4 })) by (bit_vector);
    assert(u < 16 ==> (u ^ 2) == (if u % 4 < 2 { u + 2 } else { u - 2 })) by (bit_vector);
    assert(u < 16 ==> (u ^ 1) == (if u % 2 < 1 { u + 1 } else { u - 1 })) by (bit_vector);
}

/// A round keeps a well-formed state well-formed.
pub proof fn lemma_round_wf(s: State)
    requires
        s.wf(),
    ensures
        round(s).wf(),
{
}

/// Any number of rounds keeps a well-formed state well-formed.
pub proof fn lemma_rounds_wf(s: State, n: nat)
    requires
        s.wf(),
    ensures
        rounds(s, n).wf(),
    decreases n,
{
    if n > 0 {
        lemma_rounds_wf(s, (n - 1) as nat);
        lemma_round_wf(rounds(s, (n - 1) as nat));
    }
}

/// Reads word `i` of a byte string of little-endian words.
pub fn read_le_word(bytes: &[u8], i: usize) -> (w: u32)
    requires
        4 * i + 4 <= bytes@.len(),
    ensures
        w == le_word(bytes@, i as int),
{
    // The length as a machine integer bounds the index arithmetic below.
    let _len: usize = bytes.len();
    let b0 = bytes[4 * i] as u32;
    let b1 = bytes[4 * i + 1] as u32;
    let b2 = bytes[4 * i + 2] as u32;
    let b3 = bytes[4 * i + 3] as u32;
    b0 | (b1 << 8) | (b2 << 16) | (b3 << 24)
}

/// Byte `j` of the word `w`, byte 0 the least significant.
pub fn byte_of_word(w: u32, j: usize) -> (b: u8)
    requires
        j < 4,
    ensures
        b == le_byte(w, j as int),
{
    let shift: u32 = 8 * (j as u32);
    let v: u32 = (w >> shift) & 0xff;
    assert((w >> shift) & 0xff < 256) by (bit_vector);
    v as u8
}

/// Rotates `x` to the left by `n` bits.
pub fn rotate_left(x: u32, n: u32) -> (r: u32)
    requires
        0 < n < 32,
    ensures
        r == rotl(x, n),
{
    (x << n) | (x >> (32 - n))
}

} // verus!
