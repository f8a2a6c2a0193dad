//! The backend on two registers of 512 bits.

use vstd::prelude::*;
use crate::backend::{CpuFeatures, CubeHashBackend};
use crate::lanes::{
    last_one, lemma_permute64_swaps, lemma_shuffle128_swaps, lemma_shuffle32_swaps, U32x16, U32x8,
    zeros,
};
use crate::layout::{lemma_add_commutes, lemma_flip_1x16, lemma_seed_1x16, lemma_xor_block_1x16};
use crate::params::Params;
use crate::permutation::{round, rounds, subround, words_to_bytes, State};

verus! {

/// The state in two registers of sixteen lanes: `r0` holds the half `A`,
/// `r1` the half `B`.
pub struct Avx512 {
    r0: U32x16,
    r1: U32x16,
    params: Params,
}

impl Clone for Avx512 {
    fn clone(&self) -> (res: Self)
        ensures
            res == *self,
    {
        Avx512 {
            r0: self.r0,
            r1: self.r1,
            params: self.params,
        }
    }
}

impl Avx512 {
    /// Both registers have sixteen lanes.
    proof fn lemma_lens(&self)
        ensures
            self.r0@.len() == 16 && self.r1@.len() == 16,
            self.state().wf(),
    {
        self.r0.lemma_len();
        self.r1.lemma_len();
    }

    /// One round of the permutation on the state.
    pub fn round(&mut self)
        ensures
            final(self).params() == old(self).params(),
            final(self).state() == round(old(self).state()),
    {
        let Avx512 { r0, r1, .. } = *self;
        let ghost (a, b) = (r0@, r1@);
        proof {
            self.lemma_lens();
            lemma_add_commutes(a, b);
            lemma_shuffle128_swaps(a);
        }
        let r1 = r0.wrapping_add(r1);
        let r0 = r0.shuffle128(r0, 0x4E);
        let r0 = r0.rotate_left(7);
        let r0 = r0.xor(r1);
        proof {
            lemma_shuffle32_swaps(r1@);
        }
        let r1 = r1.shuffle32(0x4E);
        assert((State { a: r0@, b: r1@ }) == subround(old(self).state(), 7, 8, 2));
        let ghost (c, d) = (r0@, r1@);
        proof {
            lemma_add_commutes(c, d);
            lemma_permute64_swaps(c);
        }
        let r1 = r0.wrapping_add(r1);
        let r0 = r0.permute64(0x4E);
        let r0 = r0.rotate_left(11);
        let r0 = r0.xor(r1);
        proof {
            lemma_shuffle32_swaps(r1@);
        }
        let r1 = r1.shuffle32(0xB1);
        assert((State { a: r0@, b: r1@ }) == subround(State { a: c, b: d }, 11, 4, 1));
        self.r0 = r0;
        self.r1 = r1;
    }

    /// The 32 words of the state: `A[0]` to `A[15]`, then `B[0]` to `B[15]`.
    pub fn words(&self) -> (w: Vec<u32>)
        ensures
            w@ == self.state().words(),
    {
        let mut w: Vec<u32> = Vec::new();
        self.r0.append_words(&mut w);
        self.r1.append_words(&mut w);
        assert(w@ =~= self.state().words());
        w
    }

    /// Overwrites every register with zeros, by writes that are not
    /// optimised away. The parameters stay.
    pub fn zeroize(&mut self)
        ensures
            final(self).params() == old(self).params(),
            final(self).state() == (State { a: zeros(16), b: zeros(16) }),
    {
        self.r0.zeroize();
        self.r1.zeroize();
        assert(self.state().a =~= zeros(16));
        assert(self.state().b =~= zeros(16));
    }

    /// `n` rounds of the permutation on the state.
    fn run_rounds(&mut self, n: u16)
        ensures
            final(self).params() == old(self).params(),
            final(self).state() == rounds(old(self).state(), n as nat),
    {
        let mut done: u16 = 0;
        while done < n
            invariant
                done <= n,
                self.params() == old(self).params(),
                self.state() == rounds(old(self).state(), done as nat),
            decreases n - done,
        {
            self.round();
            done = done + 1;
        }
    }
}

impl CubeHashBackend for Avx512 {
    closed spec fn state(&self) -> State {
        State { a: self.r0@, b: self.r1@ }
    }

    closed spec fn params(&self) -> Params {
        self.params
    }

    /// The backend needs 512-bit integer vectors.
    open spec fn available(cpu: CpuFeatures) -> bool {
        cpu.avx512
    }

    proof fn lemma_state_wf(&self) {
        self.lemma_lens();
    }

    fn init(params: Params, cpu: &CpuFeatures) -> (res: Option<Self>) {
        if !cpu.avx512 {
            return None;
        }
        let mut init = Avx512 {
            r0: U32x16::new(
                [
                    params.output_len() as u32,
                    32,
                    params.block_rounds() as u32,
                    0,
                    0,
                    0,
                    0,
                    0,
                    0,
                    0,
                    0,
                    0,
                    0,
                    0,
                    0,
                    0,
                ],
            ),
            r1: U32x16::zero(),
            params,
        };
        proof {
            assert(init.r0@ =~= seq![
                params.h() as u32,
                32u32,
                params.r() as u32,
                0u32,
                0u32,
                0u32,
                0u32,
                0u32,
                0u32,
                0u32,
                0u32,
                0u32,
                0u32,
                0u32,
                0u32,
                0u32,
            ]);
            lemma_seed_1x16(params, init.r0@);
        }
        init.run_rounds(params.init_rounds());
        Some(init)
    }

    fn update_block(&mut self, block: &[u8; 32]) {
        proof {
            self.lemma_lens();
            lemma_xor_block_1x16(self.r0@, self.r1@, block@);
        }
        let c = U32x16::zero_extend(U32x8::load_le(block, 0));
        self.r0 = self.r0.xor(c);
        self.run_rounds(self.params.block_rounds());
    }

    fn finalize(self) -> (out: Vec<u8>) {
        let mut fin = self;
        proof {
            self.lemma_lens();
            lemma_flip_1x16(self.r0@, self.r1@);
        }
        let one = U32x16::new([0, 0, 0, 0, 0, 0, 0, 0, 0, 0, 0, 0, 0, 0, 0, 1]);
        assert(one@ =~= last_one(16));
        fin.r1 = fin.r1.xor(one);
        fin.run_rounds(fin.params.final_rounds());
        let h = fin.params.output_len();
        proof {
            fin.lemma_lens();
        }
        let mut out: Vec<u8> = Vec::new();
        fin.r0.append_le(&mut out, h);
        assert(out@ =~= words_to_bytes(fin.r0@).take(h as int));
        out
    }
}

} // verus!
