//! The portable backend: the state as an array of 32 words.

use vstd::prelude::*;
use crate::backend::{CpuFeatures, CubeHashBackend};
use crate::lanes::zeros;
use crate::params::Params;
use crate::permutation::{
    byte_of_word, lemma_xor_index, read_le_word, rotate_left, round, rounds, words_add, words_rotl,
    words_swap, words_to_bytes, words_xor, xor_index, State,
};
use crate::secure::wipe;
use crate::sponge::{flip, seed_state, xor_block};

verus! {

/// The state held as 32 plain words: `A[0]` to `A[15]`, then `B[0]` to
/// `B[15]`.
pub struct Soft {
    r: [u32; 32],
    params: Params,
}

impl Clone for Soft {
    fn clone(&self) -> (res: Self)
        ensures
            res == *self,
    {
        Soft {
            r: self.r,
            params: self.params,
        }
    }
}

impl Soft {
    /// `B[i] = B[i] + A[i]`.
    fn add_half(&mut self)
        ensures
            final(self).params() == old(self).params(),
            final(self).state() == (State {
                a: old(self).state().a,
                b: words_add(old(self).state().b, old(self).state().a),
            }),
    {
        let ghost s0 = self.r@;
        for i in 0..16usize
            invariant
                s0.len() == 32,
                self.params == old(self).params,
                forall|k: int| 0 <= k < 16 ==> self.r@[k] == s0[k],
                forall|k: int| 16 <= k < 16 + i ==> self.r@[k] == s0[k].wrapping_add(s0[k - 16]),
                forall|k: int| 16 + i <= k < 32 ==> self.r@[k] == s0[k],
        {
            let v = self.r[i + 16].wrapping_add(self.r[i]);
            self.r[i + 16] = v;
        }
        assert(self.state().a =~= old(self).state().a);
        assert(self.state().b =~= words_add(old(self).state().b, old(self).state().a));
    }

    /// `A[i] = rotl(A[i xor m], rot)`.
    fn rotate_half(&mut self, rot: u32, m: usize)
        requires
            0 < rot < 32,
            m == 8 || m == 4,
        ensures
            final(self).params() == old(self).params(),
            final(self).state() == (State {
                a: words_rotl(words_swap(old(self).state().a, m), rot),
                b: old(self).state().b,
            }),
    {
        let ghost s0 = self.r@;
        let mut tmp: [u32; 16] = [0; 16];
        for i in 0..16usize
            invariant
                s0.len() == 32,
                self.r@ == s0,
                self.params == old(self).params,
                m == 8 || m == 4,
                forall|k: int| 0 <= k < i ==> tmp@[xor_index(k, m)] == s0[k],
        {
            proof {
                lemma_xor_index(i as int);
            }
            tmp[i ^ m] = self.r[i];
            assert forall|k: int| 0 <= k < i + 1 implies tmp@[xor_index(k, m)] == s0[k] by {
                lemma_xor_index(k);
            }
        }
        for i in 0..16usize
            invariant
                s0.len() == 32,
                self.params == old(self).params,
                0 < rot < 32,
                m == 8 || m == 4,
                forall|k: int| 0 <= k < 16 ==> tmp@[xor_index(k, m)] == s0[k],
                forall|k: int|
                    0 <= k < i ==> self.r@[k] == words_rotl(
                        words_swap(s0.subrange(0, 16), m),
                        rot,
                    )[k],
                forall|k: int| i <= k < 32 ==> self.r@[k] == s0[k],
        {
            proof {
                lemma_xor_index(i as int);
                lemma_xor_index(xor_index(i as int, m));
            }
            self.r[i] = rotate_left(tmp[i], rot);
        }
        assert(self.state().a =~= words_rotl(words_swap(old(self).state().a, m), rot));
        assert(self.state().b =~= old(self).state().b);
    }

    /// `A[i] = A[i] xor B[i]`.
    fn xor_half(&mut self)
        ensures
            final(self).params() == old(self).params(),
            final(self).state() == (State {
                a: words_xor(old(self).state().a, old(self).state().b),
                b: old(self).state().b,
            }),
    {
        let ghost s0 = self.r@;
        for i in 0..16usize
            invariant
                s0.len() == 32,
                self.params == old(self).params,
                forall|k: int| 0 <= k < i ==> self.r@[k] == s0[k] ^ s0[k + 16],
                forall|k: int| i <= k < 32 ==> self.r@[k] == s0[k],
        {
            self.r[i] ^= self.r[i + 16];
        }
        assert(self.state().a =~= words_xor(old(self).state().a, old(self).state().b));
        assert(self.state().b =~= old(self).state().b);
    }

    /// `B[i] = B[i xor m]`.
    fn permute_half(&mut self, m: usize)
        requires
            m == 2 || m == 1,
        ensures
            final(self).params() == old(self).params(),
            final(self).state() == (State {
                a: old(self).state().a,
                b: words_swap(old(self).state().b, m),
            }),
    {
        let ghost s0 = self.r@;
        let mut tmp: [u32; 16] = [0; 16];
        for i in 0..16usize
            invariant
                s0.len() == 32,
                self.r@ == s0,
                self.params == old(self).params,
                m == 2 || m == 1,
                forall|k: int| 0 <= k < i ==> tmp@[xor_index(k, m)] == s0[k + 16],
        {
            proof {
                lemma_xor_index(i as int);
                assert(i < 16 ==> (i | 16) == i + 16) by (bit_vector);
            }
            tmp[i ^ m] = self.r[i | 16];
            assert forall|k: int| 0 <= k < i + 1 implies tmp@[xor_index(k, m)] == s0[k + 16] by {
                lemma_xor_index(k);
            }
        }
        for i in 0..16usize
            invariant
                s0.len() == 32,
                self.params == old(self).params,
                m == 2 || m == 1,
                forall|k: int| 0 <= k < 16 ==> tmp@[xor_index(k, m)] == s0[k + 16],
                forall|k: int| 0 <= k < 16 ==> self.r@[k] == s0[k],
                forall|k: int|
                    16 <= k < 16 + i ==> self.r@[k] == words_swap(s0.subrange(16, 32), m)[k - 16],
                forall|k: int| 16 + i <= k < 32 ==> self.r@[k] == s0[k],
        {
            proof {
                lemma_xor_index(i as int);
                lemma_xor_index(xor_index(i as int, m));
            }
            self.r[i + 16] = tmp[i];
        }
        assert(self.state().a =~= old(self).state().a);
        assert(self.state().b =~= words_swap(old(self).state().b, m));
    }

    /// One round of the permutation on the state.
    pub fn round(&mut self)
        ensures
            final(self).params() == old(self).params(),
            final(self).state() == round(old(self).state()),
    {
        self.add_half();
        self.rotate_half(7, 8);
        self.xor_half();
        self.permute_half(2);
        self.add_half();
        self.rotate_half(11, 4);
        self.xor_half();
        self.permute_half(1);
    }

    /// The 32 words of the state: `A[0]` to `A[15]`, then `B[0]` to `B[15]`.
    pub fn words(&self) -> (w: Vec<u32>)
        ensures
            w@ == self.state().words(),
    {
        let mut w: Vec<u32> = Vec::new();
        for i in 0..32usize
            invariant
                w@ == self.r@.take(i as int),
        {
            w.push(self.r[i]);
            assert(self.r@.take(i as int).push(self.r@[i as int]) =~= self.r@.take(i + 1));
        }
        assert(w@ =~= self.state().words());
        w
    }

    /// Overwrites the state with zeros, by writes that are not optimised
    /// away. The parameters stay.
    pub fn zeroize(&mut self)
        ensures
            final(self).params() == old(self).params(),
            final(self).state() == (State { a: zeros(16), b: zeros(16) }),
    {
        wipe(&mut self.r);
        assert(self.state().a =~= zeros(16));
        assert(self.state().b =~= zeros(16));
    }

    /// `n` rounds of the permutation on the state.
    fn run_rounds(&mut self, n: u16)
        ensures
            final(self).params() == old(self).params(),
            final(self).state() == rounds(old(self).state(), n as nat),
    {
        let mut done: u16 = 0;
        while done < n
            invariant
                done <= n,
                self.params() == old(self).params(),
                self.state() == rounds(old(self).state(), done as nat),
            decreases n - done,
        {
            self.round();
            done = done + 1;
        }
    }
}

impl CubeHashBackend for Soft {
    closed spec fn state(&self) -> State {
        State { a: self.r@.subrange(0, 16), b: self.r@.subrange(16, 32) }
    }

    closed spec fn params(&self) -> Params {
        self.params
    }

    /// The portable backend runs on every processor.
    open spec fn available(cpu: CpuFeatures) -> bool {
        true
    }

    proof fn lemma_state_wf(&self) {
    }

    fn init(params: Params, cpu: &CpuFeatures) -> (res: Option<Self>) {
        let mut init = Soft {
            r: [
                params.output_len() as u32,
                32,
                params.block_rounds() as u32,
                0,
                0,
                0,
                0,
                0,
                0,
                0,
                0,
                0,
                0,
                0,
                0,
                0,
                0,
                0,
                0,
                0,
                0,
                0,
                0,
                0,
                0,
                0,
                0,
                0,
                0,
                0,
                0,
                0,
            ],
            params,
        };
        assert(init.state().a =~= seed_state(params).a);
        assert(init.state().b =~= seed_state(params).b);
        init.run_rounds(params.init_rounds());
        Some(init)
    }

    fn update_block(&mut self, block: &[u8; 32]) {
        let ghost s0 = self.r@;
        for i in 0..8usize
            invariant
                s0.len() == 32,
                s0 == old(self).r@,
                self.params == old(self).params,
                forall|k: int|
                    0 <= k < i ==> self.r@[k] == xor_block(old(self).state(), block@).a[k],
                forall|k: int| i <= k < 32 ==> self.r@[k] == s0[k],
        {
            let w = read_le_word(block.as_slice(), i);
            self.r[i] ^= w;
        }
        assert(self.state().a =~= xor_block(old(self).state(), block@).a);
        assert(self.state().b =~= xor_block(old(self).state(), block@).b);
        self.run_rounds(self.params.block_rounds());
    }

    fn finalize(self) -> (out: Vec<u8>) {
        let mut fin = self;
        let last = fin.r[31] ^ 1;
        fin.r[31] = last;
        assert(fin.state().a =~= flip(self.state()).a);
        assert(fin.state().b =~= flip(self.state()).b);
        fin.run_rounds(fin.params.final_rounds());
        let h = fin.params.output_len();
        let ghost bytes = words_to_bytes(fin.state().a);
        let mut out: Vec<u8> = Vec::new();
        for k in 0..h
            invariant
                h <= 64,
                bytes == words_to_bytes(fin.state().a),
                out@ == bytes.take(k as int),
        {
            let b = byte_of_word(fin.r[k / 4], k % 4);
            out.push(b);
            assert(bytes.take(k as int).push(b) =~= bytes.take(k + 1));
        }
        out
    }
}

} // verus!
