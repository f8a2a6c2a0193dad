//! Vector registers as arrays of 32-bit lanes, with the lane-wise and
//! lane-moving operations that the vector backends are written in.
//!
//! Each operation states what it does to the lanes. The lemmas below tie
//! the lane-moving operations to the index arithmetic of the permutation.

use vstd::prelude::*;
use crate::permutation::{
    byte_of_word, bytes_to_words, lemma_xor_index, read_le_word, rotl, words_add, words_rotl,
    words_swap, words_to_bytes, words_xor,
};
use crate::secure::wipe;

verus! {

/// A vector register of `N` lanes of 32 bits, lane 0 first.
#[derive(Clone, Copy)]
pub struct Lanes<const N: usize> {
    lanes: [u32; N],
}

/// A 128-bit register.
pub type U32x4 = Lanes<4>;

/// A 256-bit register.
pub type U32x8 = Lanes<8>;

/// A 512-bit register.
pub type U32x16 = Lanes<16>;

/// Lane by lane, the inclusive or.
pub open spec fn words_or(x: Seq<u32>, y: Seq<u32>) -> Seq<u32> {
    Seq::new(x.len(), |i: int| x[i] | y[i])
}

/// Every lane shifted left by `n` bits.
pub open spec fn words_shl(x: Seq<u32>, n: u32) -> Seq<u32> {
    Seq::new(x.len(), |i: int| x[i] << n)
}

/// Every lane shifted right by `n` bits.
pub open spec fn words_shr(x: Seq<u32>, n: u32) -> Seq<u32> {
    Seq::new(x.len(), |i: int| x[i] >> n)
}

/// Shift right and insert: each lane of `y` shifted right by `n` bits, its
/// `n` vacated top bits taken from the lane of `x`.
pub open spec fn words_sri(x: Seq<u32>, y: Seq<u32>, n: u32) -> Seq<u32> {
    Seq::new(x.len(), |i: int| (x[i] & !(0xffff_ffffu32 >> n)) | (y[i] >> n))
}

/// The two-bit field `j` of an immediate control byte.
pub open spec fn sel(imm: u8, j: int) -> int {
    ((imm >> ((2 * j) as u8)) & 3) as int
}

/// Within each group of four lanes, lane `j` takes the lane that field `j`
/// of `imm` names.
pub open spec fn words_shuffle32(x: Seq<u32>, imm: u8) -> Seq<u32> {
    Seq::new(x.len(), |k: int| x[k - k % 4 + sel(imm, k % 4)])
}

/// Within each group of eight lanes, taken as four pairs, pair `j` takes the
/// pair that field `j` of `imm` names.
pub open spec fn words_permute64(x: Seq<u32>, imm: u8) -> Seq<u32> {
    Seq::new(x.len(), |k: int| x[k - k % 8 + 2 * sel(imm, (k % 8) / 2) + k % 2])
}

/// Sixteen lanes taken as four groups of four: groups 0 and 1 take the
/// groups of `x` that fields 0 and 1 of `imm` name, groups 2 and 3 the
/// groups of `y` that fields 2 and 3 name.
pub open spec fn words_shuffle128(x: Seq<u32>, y: Seq<u32>, imm: u8) -> Seq<u32> {
    Seq::new(
        16,
        |k: int|
            if k < 8 {
                x[4 * sel(imm, k / 4) + k % 4]
            } else {
                y[4 * sel(imm, k / 4) + k % 4]
            },
    )
}

/// The lanes of `x` followed by zero lanes, `n` lanes in all.
pub open spec fn words_zext(x: Seq<u32>, n: nat) -> Seq<u32> {
    Seq::new(
        n,
        |i: int|
            if i < x.len() {
                x[i]
            } else {
                0u32
            },
    )
}

/// `n` zero words.
pub open spec fn zeros(n: nat) -> Seq<u32> {
    Seq::new(n, |i: int| 0u32)
}

/// `n` words, all zero but the last, which is 1.
pub open spec fn last_one(n: nat) -> Seq<u32> {
    Seq::new(
        n,
        |i: int|
            if i == n - 1 {
                1u32
            } else {
                0u32
            },
    )
}

/// The number of bytes that a register of `n` lanes adds to an output of
/// `have` bytes that stops at `limit` bytes.
pub open spec fn room(have: int, limit: int, n: int) -> int {
    if limit - have < 4 * n {
        limit - have
    } else {
        4 * n
    }
}

/// The fields of the control byte `0x4E` are 2, 3, 0, 1: the two halves of
/// a group change places.
pub proof fn lemma_sel_4e()
    ensures
        sel(0x4E, 0) == 2,
        sel(0x4E, 1) == 3,
        sel(0x4E, 2) == 0,
        sel(0x4E, 3) == 1,
{
    assert((0x4Eu8 >> 0u8) & 3 == 2) by (bit_vector);
    assert((0x4Eu8 >> 2u8) & 3 == 3) by (bit_vector);
    assert((0x4Eu8 >> 4u8) & 3 == 0) by (bit_vector);
    assert((0x4Eu8 >> 6u8) & 3 == 1) by (bit_vector);
}

/// The fields of the control byte `0xB1` are 1, 0, 3, 2: neighbours change
/// places.
pub proof fn lemma_sel_b1()
    ensures
        sel(0xB1, 0) == 1,
        sel(0xB1, 1) == 0,
        sel(0xB1, 2) == 3,
        sel(0xB1, 3) == 2,
{
    assert((0xB1u8 >> 0u8) & 3 == 1) by (bit_vector);
    assert((0xB1u8 >> 2u8) & 3 == 0) by (bit_vector);
    assert((0xB1u8 >> 4u8) & 3 == 3) by (bit_vector);
    assert((0xB1u8 >> 6u8) & 3 == 2) by (bit_vector);
}

/// A left shift by `n` or-ed with a right shift by `32 - n` is the rotation
/// by `n`.
pub proof fn lemma_shifts_rotate(x: Seq<u32>, n: u32)
    requires
        0 < n < 32,
    ensures
        words_or(words_shl(x, n), words_shr(x, (32 - n) as u32)) == words_rotl(x, n),
{
    assert(words_or(words_shl(x, n), words_shr(x, (32 - n) as u32)) =~= words_rotl(x, n));
}

/// A left shift by 7 (by 11) with the right shift by 25 (by 21) inserted is
/// the rotation by 7 (by 11).
pub proof fn lemma_insert_rotate(x: Seq<u32>)
    ensures
        words_sri(words_shl(x, 7), x, 25) == words_rotl(x, 7),
        words_sri(words_shl(x, 11), x, 21) == words_rotl(x, 11),
{
    assert forall|i: int| 0 <= i < x.len() implies #[trigger] words_sri(words_shl(x, 7), x, 25)[i]
        == rotl(x[i], 7) by {
        let w = x[i];
        assert(((w << 7u32) & !(0xffff_ffffu32 >> 25u32)) | (w >> 25u32) == (w << 7u32) | (w
            >> 25u32)) by (bit_vector);
    }
    assert forall|i: int| 0 <= i < x.len() implies #[trigger] words_sri(words_shl(x, 11), x, 21)[i]
        == rotl(x[i], 11) by {
        let w = x[i];
        assert(((w << 11u32) & !(0xffff_ffffu32 >> 21u32)) | (w >> 21u32) == (w << 11u32) | (w
            >> 21u32)) by (bit_vector);
    }
    assert(words_sri(words_shl(x, 7), x, 25) =~= words_rotl(x, 7));
    assert(words_sri(words_shl(x, 11), x, 21) =~= words_rotl(x, 11));
}

/// The shuffles by `0x4E` and `0xB1` within groups of four lanes are the
/// index masks 2 and 1.
pub proof fn lemma_shuffle32_swaps(x: Seq<u32>)
    requires
        x.len() % 4 == 0,
        x.len() <= 16,
    ensures
        words_shuffle32(x, 0x4E) == words_swap(x, 2),
        words_shuffle32(x, 0xB1) == words_swap(x, 1),
{
    lemma_sel_4e();
    lemma_sel_b1();
    assert forall|k: int| 0 <= k < x.len() implies words_shuffle32(x, 0x4E)[k] == words_swap(
        x,
        2,
    )[k] && words_shuffle32(x, 0xB1)[k] == words_swap(x, 1)[k] by {
        lemma_xor_index(k);
    }
    assert(words_shuffle32(x, 0x4E) =~= words_swap(x, 2));
    assert(words_shuffle32(x, 0xB1) =~= words_swap(x, 1));
}

/// The permutation of pairs by `0x4E` within groups of eight lanes is the
/// index mask 4.
pub proof fn lemma_permute64_swaps(x: Seq<u32>)
    requires
        x.len() % 8 == 0,
        x.len() <= 16,
    ensures
        words_permute64(x, 0x4E) == words_swap(x, 4),
{
    lemma_sel_4e();
    assert forall|k: int| 0 <= k < x.len() implies words_permute64(x, 0x4E)[k] == words_swap(
        x,
        4,
    )[k] by {
        lemma_xor_index(k);
    }
    assert(words_permute64(x, 0x4E) =~= words_swap(x, 4));
}

/// The shuffle of groups by `0x4E`, of a register with itself, is the index
/// mask 8.
pub proof fn lemma_shuffle128_swaps(x: Seq<u32>)
    requires
        x.len() == 16,
    ensures
        words_shuffle128(x, x, 0x4E) == words_swap(x, 8),
{
    lemma_sel_4e();
    assert forall|k: int| 0 <= k < 16 implies words_shuffle128(x, x, 0x4E)[k] == words_swap(
        x,
        8,
    )[k] by {
        lemma_xor_index(k);
    }
    assert(words_shuffle128(x, x, 0x4E) =~= words_swap(x, 8));
}

/// Two runs of `m` words each, one after the other, change places under
/// the index mask `m`.
pub proof fn lemma_swap_halves(p: Seq<u32>, q: Seq<u32>, m: usize)
    requires
        m == 8 || m == 4,
        p.len() == m,
        q.len() == m,
    ensures
        words_swap(p + q, m) == q + p,
{
    assert forall|k: int| 0 <= k < 2 * m implies words_swap(p + q, m)[k] == (q + p)[k] by {
        lemma_xor_index(k);
    }
    assert(words_swap(p + q, m) =~= q + p);
}

/// An index mask below the length of the first run acts on two runs one
/// after the other as it acts on each.
pub proof fn lemma_swap_concat(p: Seq<u32>, q: Seq<u32>, m: usize)
    requires
        m == 4 || m == 2 || m == 1,
        p.len() == q.len(),
        p.len() == 8 || (p.len() == 4 && m < 4),
    ensures
        words_swap(p + q, m) == words_swap(p, m) + words_swap(q, m),
{
    assert forall|k: int| 0 <= k < p.len() + q.len() implies words_swap(p + q, m)[k] == (words_swap(
        p,
        m,
    ) + words_swap(q, m))[k] by {
        lemma_xor_index(k);
        if k >= p.len() {
            lemma_xor_index(k - p.len());
        }
    }
    assert(words_swap(p + q, m) =~= words_swap(p, m) + words_swap(q, m));
}

/// The lane-wise operations act on two runs one after the other as they
/// act on each.
pub proof fn lemma_words_concat(p: Seq<u32>, q: Seq<u32>, u: Seq<u32>, v: Seq<u32>, n: u32)
    requires
        p.len() == u.len(),
        q.len() == v.len(),
    ensures
        words_add(p + q, u + v) == words_add(p, u) + words_add(q, v),
        words_xor(p + q, u + v) == words_xor(p, u) + words_xor(q, v),
        words_rotl(p + q, n) == words_rotl(p, n) + words_rotl(q, n),
{
    assert(words_add(p + q, u + v) =~= words_add(p, u) + words_add(q, v));
    assert(words_xor(p + q, u + v) =~= words_xor(p, u) + words_xor(q, v));
    assert(words_rotl(p + q, n) =~= words_rotl(p, n) + words_rotl(q, n));
}

impl<const N: usize> Lanes<N> {
    /// The lanes, lane 0 first.
    pub closed spec fn view(&self) -> Seq<u32> {
        self.lanes@
    }

    /// A register has `N` lanes.
    pub proof fn lemma_len(&self)
        ensures
            self@.len() == N,
    {
    }

    /// The register with the given lanes.
    pub fn new(lanes: [u32; N]) -> (r: Self)
        ensures
            r@ == lanes@,
    {
        Lanes { lanes }
    }

    /// The register with every lane zero.
    pub fn zero() -> (r: Self)
        ensures
            r@ == zeros(N as nat),
    {
        let mut r = Lanes { lanes: [0u32; N] };
        for i in 0..N
            invariant
                forall|k: int| 0 <= k < i ==> r.lanes@[k] == 0u32,
        {
            r.lanes[i] = 0;
        }
        assert(r@ =~= zeros(N as nat));
        r
    }

    /// Lane `i`.
    pub fn lane(&self, i: usize) -> (w: u32)
        requires
            i < N,
        ensures
            w == self@[i as int],
    {
        self.lanes[i]
    }

    /// Lane-wise wrapping addition.
    pub fn wrapping_add(self, other: Self) -> (r: Self)
        ensures
            r@ == words_add(self@, other@),
    {
        let mut r = self;
        for i in 0..N
            invariant
                forall|k: int| 0 <= k < i ==> r.lanes@[k] == words_add(self@, other@)[k],
                forall|k: int| i <= k < N ==> r.lanes@[k] == self.lanes@[k],
        {
            let v = self.lanes[i].wrapping_add(other.lanes[i]);
            r.lanes[i] = v;
        }
        assert(r@ =~= words_add(self@, other@));
        r
    }

    /// Lane-wise exclusive or.
    pub fn xor(self, other: Self) -> (r: Self)
        ensures
            r@ == words_xor(self@, other@),
    {
        let mut r = self;
        for i in 0..N
            invariant
                forall|k: int| 0 <= k < i ==> r.lanes@[k] == words_xor(self@, other@)[k],
                forall|k: int| i <= k < N ==> r.lanes@[k] == self.lanes@[k],
        {
            let v = self.lanes[i] ^ other.lanes[i];
            r.lanes[i] = v;
        }
        assert(r@ =~= words_xor(self@, other@));
        r
    }

    /// Lane-wise inclusive or.
    pub fn or(self, other: Self) -> (r: Self)
        ensures
            r@ == words_or(self@, other@),
    {
        let mut r = self;
        for i in 0..N
            invariant
                forall|k: int| 0 <= k < i ==> r.lanes@[k] == words_or(self@, other@)[k],
                forall|k: int| i <= k < N ==> r.lanes@[k] == self.lanes@[k],
        {
            let v = self.lanes[i] | other.lanes[i];
            r.lanes[i] = v;
        }
        assert(r@ =~= words_or(self@, other@));
        r
    }

    /// Every lane shifted left by `n` bits.
    pub fn shl(self, n: u32) -> (r: Self)
        requires
            n < 32,
        ensures
            r@ == words_shl(self@, n),
    {
        let mut r = self;
        for i in 0..N
            invariant
                n < 32,
                forall|k: int| 0 <= k < i ==> r.lanes@[k] == words_shl(self@, n)[k],
                forall|k: int| i <= k < N ==> r.lanes@[k] == self.lanes@[k],
        {
            let v = self.lanes[i] << n;
            r.lanes[i] = v;
        }
        assert(r@ =~= words_shl(self@, n));
        r
    }

    /// Every lane shifted right by `n` bits.
    pub fn shr(self, n: u32) -> (r: Self)
        requires
            n < 32,
        ensures
            r@ == words_shr(self@, n),
    {
        let mut r = self;
        for i in 0..N
            invariant
                n < 32,
                forall|k: int| 0 <= k < i ==> r.lanes@[k] == words_shr(self@, n)[k],
                forall|k: int| i <= k < N ==> r.lanes@[k] == self.lanes@[k],
        {
            let v = self.lanes[i] >> n;
            r.lanes[i] = v;
        }
        assert(r@ =~= words_shr(self@, n));
        r
    }

    /// Shift right and insert: every lane of `other` shifted right by `n`
    /// bits, the `n` top bits kept from the lane of `self`.
    pub fn shift_right_insert(self, other: Self, n: u32) -> (r: Self)
        requires
            0 < n < 32,
        ensures
            r@ == words_sri(self@, other@, n),
    {
        let mut r = self;
        for i in 0..N
            invariant
                0 < n < 32,
                forall|k: int| 0 <= k < i ==> r.lanes@[k] == words_sri(self@, other@, n)[k],
                forall|k: int| i <= k < N ==> r.lanes@[k] == self.lanes@[k],
        {
            let v = (self.lanes[i] & !(0xffff_ffffu32 >> n)) | (other.lanes[i] >> n);
            r.lanes[i] = v;
        }
        assert(r@ =~= words_sri(self@, other@, n));
        r
    }

    /// Every lane rotated left by `n` bits.
    pub fn rotate_left(self, n: u32) -> (r: Self)
        requires
            0 < n < 32,
        ensures
            r@ == words_rotl(self@, n),
    {
        let mut r = self;
        for i in 0..N
            invariant
                0 < n < 32,
                forall|k: int| 0 <= k < i ==> r.lanes@[k] == words_rotl(self@, n)[k],
                forall|k: int| i <= k < N ==> r.lanes@[k] == self.lanes@[k],
        {
            let w = self.lanes[i];
            let v = (w << n) | (w >> (32 - n));
            r.lanes[i] = v;
        }
        assert(r@ =~= words_rotl(self@, n));
        r
    }

    /// Shuffles the lanes within each group of four by the control byte
    /// `imm`.
    pub fn shuffle32(self, imm: u8) -> (r: Self)
        requires
            N == 4 || N == 8 || N == 16,
        ensures
            r@ == words_shuffle32(self@, imm),
    {
        let mut r = self;
        for i in 0..N
            invariant
                N == 4 || N == 8 || N == 16,
                forall|k: int| 0 <= k < i ==> r.lanes@[k] == words_shuffle32(self@, imm)[k],
                forall|k: int| i <= k < N ==> r.lanes@[k] == self.lanes@[k],
        {
            let j = i % 4;
            let shift: u8 = (2 * j) as u8;
            let s: u8 = (imm >> shift) & 3;
            assert((imm >> shift) & 3 < 4) by (bit_vector);
            let from = i - j + s as usize;
            assert(from == i - i % 4 + sel(imm, (i % 4) as int));
            let v = self.lanes[from];
            r.lanes[i] = v;
        }
        assert(r@ =~= words_shuffle32(self@, imm));
        r
    }

    /// Permutes the pairs of lanes within each group of eight lanes by the
    /// control byte `imm`.
    pub fn permute64(self, imm: u8) -> (r: Self)
        requires
            N == 8 || N == 16,
        ensures
            r@ == words_permute64(self@, imm),
    {
        let mut r = self;
        for i in 0..N
            invariant
                N == 8 || N == 16,
                forall|k: int| 0 <= k < i ==> r.lanes@[k] == words_permute64(self@, imm)[k],
                forall|k: int| i <= k < N ==> r.lanes@[k] == self.lanes@[k],
        {
            let j = i % 8;
            let shift: u8 = (2 * (j / 2)) as u8;
            let s: u8 = (imm >> shift) & 3;
            assert((imm >> shift) & 3 < 4) by (bit_vector);
            let from = i - j + 2 * (s as usize) + j % 2;
            assert(j % 2 == i % 2);
            assert(from == i - i % 8 + 2 * sel(imm, ((i % 8) / 2) as int) + i % 2);
            let v = self.lanes[from];
            r.lanes[i] = v;
        }
        assert(r@ =~= words_permute64(self@, imm));
        r
    }

    /// The lanes at `i xor 2` of a register of four lanes: its two halves
    /// change places.
    pub fn swap_halves(self) -> (r: Self)
        requires
            N == 4,
        ensures
            r@ == words_swap(self@, 2),
    {
        let mut r = self;
        r.lanes[0] = self.lanes[2];
        r.lanes[1] = self.lanes[3];
        r.lanes[2] = self.lanes[0];
        r.lanes[3] = self.lanes[1];
        proof {
            assert forall|k: int| 0 <= k < 4 implies r@[k] == words_swap(self@, 2)[k] by {
                lemma_xor_index(k);
            }
            assert(r@ =~= words_swap(self@, 2));
        }
        r
    }

    /// The lanes at `i xor 1`: the two lanes of every pair change places.
    pub fn swap_pairs(self) -> (r: Self)
        requires
            N == 4,
        ensures
            r@ == words_swap(self@, 1),
    {
        let mut r = self;
        r.lanes[0] = self.lanes[1];
        r.lanes[1] = self.lanes[0];
        r.lanes[2] = self.lanes[3];
        r.lanes[3] = self.lanes[2];
        proof {
            assert forall|k: int| 0 <= k < 4 implies r@[k] == words_swap(self@, 1)[k] by {
                lemma_xor_index(k);
            }
            assert(r@ =~= words_swap(self@, 1));
        }
        r
    }

    /// Appends the lanes to `out`, lane 0 first.
    pub fn append_words(&self, out: &mut Vec<u32>)
        ensures
            final(out)@ == old(out)@ + self@,
    {
        for i in 0..N
            invariant
                out@ == old(out)@ + self@.take(i as int),
        {
            out.push(self.lanes[i]);
            assert(self@.take(i as int).push(self@[i as int]) =~= self@.take(i + 1));
        }
        assert(self@.take(N as int) =~= self@);
    }

    /// Overwrites every lane with zero, by writes that are not optimised
    /// away.
    pub fn zeroize(&mut self)
        ensures
            final(self)@ == zeros(N as nat),
    {
        wipe(&mut self.lanes);
    }

    /// The `N` little-endian words of `bytes` from word `first` on.
    pub fn load_le(bytes: &[u8; 32], first: usize) -> (r: Self)
        requires
            first + N <= 8,
        ensures
            r@ == bytes_to_words(bytes@).subrange(first as int, first + N),
    {
        let mut r = Lanes { lanes: [0u32; N] };
        for i in 0..N
            invariant
                first + N <= 8,
                forall|k: int| 0 <= k < i ==> r.lanes@[k] == bytes_to_words(bytes@)[first + k],
        {
            let w = read_le_word(bytes.as_slice(), first + i);
            r.lanes[i] = w;
        }
        assert(r@ =~= bytes_to_words(bytes@).subrange(first as int, first + N));
        r
    }

    /// Appends the lanes to `out` as little-endian bytes, and stops where
    /// `out` holds `limit` bytes.
    pub fn append_le(&self, out: &mut Vec<u8>, limit: usize)
        requires
            old(out)@.len() <= limit,
            N <= 16,
        ensures
            final(out)@ == old(out)@ + words_to_bytes(self@).take(
                room(old(out)@.len() as int, limit as int, N as int),
            ),
    {
        let ghost start = out@;
        let ghost all = words_to_bytes(self@);
        let mut k: usize = 0;
        while k < 4 * N && out.len() < limit
            invariant
                N <= 16,
                k <= 4 * N,
                start.len() <= limit,
                all == words_to_bytes(self@),
                out@ == start + all.take(k as int),
                out@.len() <= limit,
            decreases 4 * N - k,
        {
            let b = byte_of_word(self.lanes[k / 4], k % 4);
            out.push(b);
            assert(all.take(k as int).push(b) =~= all.take(k + 1));
            k = k + 1;
        }
    }
}

impl Lanes<16> {
    /// Shuffles the four groups of four lanes: the low two groups from
    /// `self`, the high two from `other`, each named by a field of `imm`.
    pub fn shuffle128(self, other: Self, imm: u8) -> (r: Self)
        ensures
            r@ == words_shuffle128(self@, other@, imm),
    {
        let mut r = self;
        for i in 0..16usize
            invariant
                forall|k: int|
                    0 <= k < i ==> r.lanes@[k] == words_shuffle128(self@, other@, imm)[k],
        {
            let shift: u8 = (2 * (i / 4)) as u8;
            let s: u8 = (imm >> shift) & 3;
            assert((imm >> shift) & 3 < 4) by (bit_vector);
            let v = if i < 8 {
                self.lanes[4 * (s as usize) + i % 4]
            } else {
                other.lanes[4 * (s as usize) + i % 4]
            };
            r.lanes[i] = v;
        }
        assert(r@ =~= words_shuffle128(self@, other@, imm));
        r
    }

    /// The eight lanes of `low`, then eight zero lanes.
    pub fn zero_extend(low: Lanes<8>) -> (r: Self)
        ensures
            r@ == words_zext(low@, 16),
    {
        let mut r = Lanes { lanes: [0u32; 16] };
        for i in 0..16usize
            invariant
                forall|k: int| 0 <= k < i ==> r.lanes@[k] == words_zext(low@, 16)[k],
        {
            let v = if i < 8 {
                low.lanes[i]
            } else {
                0
            };
            r.lanes[i] = v;
        }
        assert(r@ =~= words_zext(low@, 16));
        r
    }
}

} // verus!
