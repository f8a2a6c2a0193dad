//! The backend on four registers of 256 bits.

use vstd::prelude::*;
use crate::backend::{CpuFeatures, CubeHashBackend};
use crate::lanes::{
    last_one, lemma_permute64_swaps, lemma_shifts_rotate, lemma_shuffle32_swaps, U32x8, zeros,
};
use crate::layout::{
    half2, lemma_flip_2x8, lemma_output_2x8, lemma_seed_2x8, lemma_subround_first_2x8,
    lemma_subround_second_2x8, lemma_xor_block_2x8,
};
use crate::params::Params;
use crate::permutation::{round, rounds, subround, words_rotl, State};

verus! {

/// The state in four registers of eight lanes. Register `rAB` holds the
/// eight words whose index has the bits `A`, `B` on top.
pub struct Avx2 {
    r00: U32x8,
    r01: U32x8,
    r10: U32x8,
    r11: U32x8,
    params: Params,
}

impl Clone for Avx2 {
    fn clone(&self) -> (res: Self)
        ensures
            res == *self,
    {
        Avx2 {
            r00: self.r00,
            r01: self.r01,
            r10: self.r10,
            r11: self.r11,
            params: self.params,
        }
    }
}

impl Avx2 {
    /// Every register has eight lanes.
    proof fn lemma_lens(&self)
        ensures
            self.r00@.len() == 8 && self.r01@.len() == 8,
            self.r10@.len() == 8 && self.r11@.len() == 8,
            self.state().wf(),
    {
        self.r00.lemma_len();
        self.r01.lemma_len();
        self.r10.lemma_len();
        self.r11.lemma_len();
    }

    /// One round of the permutation on the state.
    pub fn round(&mut self)
        ensures
            final(self).params() == old(self).params(),
            final(self).state() == round(old(self).state()),
    {
        let Avx2 { r00, r01, r10, r11, .. } = *self;
        let ghost (a0, a1) = (r00@, r01@);
        let ghost (b0, b1) = (r10@, r11@);
        proof {
            self.lemma_lens();
        }

        // 1. add
        let r10 = r10.wrapping_add(r00);
        let r11 = r11.wrapping_add(r01);

        // 2. rotate
        let r00 = r00.shl(7).or(r00.shr(25));
        let r01 = r01.shl(7).or(r01.shr(25));

        // 3. swap
        let (r00, r01) = (r01, r00);

        // 4. xor
        let r00 = r00.xor(r10);
        let r01 = r01.xor(r11);

        // 5. swap
        let ghost (c0, c1) = (r10@, r11@);
        let r10 = r10.shuffle32(0x4E);
        let r11 = r11.shuffle32(0x4E);

        proof {
            lemma_shifts_rotate(a0, 7);
            lemma_shifts_rotate(a1, 7);
            lemma_shuffle32_swaps(c0);
            lemma_shuffle32_swaps(c1);
            lemma_subround_first_2x8(a0, a1, b0, b1, 7);
        }
        let ghost mid = State { a: half2(r00@, r01@), b: half2(r10@, r11@) };
        assert(mid == subround(old(self).state(), 7, 8, 2));
        let ghost (d0, d1) = (r00@, r01@);
        let ghost (e0, e1) = (r10@, r11@);

        // 6. add
        let r10 = r10.wrapping_add(r00);
        let r11 = r11.wrapping_add(r01);

        // 7. rotate
        let r00 = r00.shl(11).or(r00.shr(21));
        let r01 = r01.shl(11).or(r01.shr(21));

        // 8. swap
        let r00 = r00.permute64(0x4E);
        let r01 = r01.permute64(0x4E);

        // 9. xor
        let r00 = r00.xor(r10);
        let r01 = r01.xor(r11);

        // 10. swap
        let ghost (f0, f1) = (r10@, r11@);
        let r10 = r10.shuffle32(0xB1);
        let r11 = r11.shuffle32(0xB1);

        proof {
            lemma_shifts_rotate(d0, 11);
            lemma_shifts_rotate(d1, 11);
            lemma_permute64_swaps(words_rotl(d0, 11));
            lemma_permute64_swaps(words_rotl(d1, 11));
            lemma_shuffle32_swaps(f0);
            lemma_shuffle32_swaps(f1);
            lemma_subround_second_2x8(d0, d1, e0, e1, 11);
        }

        self.r00 = r00;
        self.r01 = r01;
        self.r10 = r10;
        self.r11 = r11;
    }

    /// The 32 words of the state: `A[0]` to `A[15]`, then `B[0]` to `B[15]`.
    pub fn words(&self) -> (w: Vec<u32>)
        ensures
            w@ == self.state().words(),
    {
        let mut w: Vec<u32> = Vec::new();
        self.r00.append_words(&mut w);
        self.r01.append_words(&mut w);
        self.r10.append_words(&mut w);
        self.r11.append_words(&mut w);
        assert(w@ =~= self.state().words());
        w
    }

    /// Overwrites every register with zeros, by writes that are not
    /// optimised away. The parameters stay.
    pub fn zeroize(&mut self)
        ensures
            final(self).params() == old(self).params(),
            final(self).state() == (State { a: zeros(16), b: zeros(16) }),
    {
        self.r00.zeroize();
        self.r01.zeroize();
        self.r10.zeroize();
        self.r11.zeroize();
        assert(self.state().a =~= zeros(16));
        assert(self.state().b =~= zeros(16));
    }

    /// `n` rounds of the permutation on the state.
    fn run_rounds(&mut self, n: u16)
        ensures
            final(self).params() == old(self).params(),
            final(self).state() == rounds(old(self).state(), n as nat),
    {
        let mut done: u16 = 0;
        while done < n
            invariant
                done <= n,
                self.params() == old(self).params(),
                self.state() == rounds(old(self).state(), done as nat),
            decreases n - done,
        {
            self.round();
            done = done + 1;
        }
    }
}

impl CubeHashBackend for Avx2 {
    closed spec fn state(&self) -> State {
        State { a: half2(self.r00@, self.r01@), b: half2(self.r10@, self.r11@) }
    }

    closed spec fn params(&self) -> Params {
        self.params
    }

    /// The backend needs 256-bit integer vectors.
    open spec fn available(cpu: CpuFeatures) -> bool {
        cpu.avx2
    }

    proof fn lemma_state_wf(&self) {
        self.lemma_lens();
    }

    fn init(params: Params, cpu: &CpuFeatures) -> (res: Option<Self>) {
        if !cpu.avx2 {
            return None;
        }
        let mut init = Avx2 {
            r00: U32x8::new(
                [params.output_len() as u32, 32, params.block_rounds() as u32, 0, 0, 0, 0, 0],
            ),
            r01: U32x8::zero(),
            r10: U32x8::zero(),
            r11: U32x8::zero(),
            params,
        };
        proof {
            assert(init.r00@ =~= seq![
                params.h() as u32,
                32u32,
                params.r() as u32,
                0u32,
                0u32,
                0u32,
                0u32,
                0u32,
            ]);
            lemma_seed_2x8(params, init.r00@);
        }
        init.run_rounds(params.init_rounds());
        Some(init)
    }

    fn update_block(&mut self, block: &[u8; 32]) {
        proof {
            self.lemma_lens();
            lemma_xor_block_2x8(self.r00@, self.r01@, self.state().b, block@);
        }
        self.r00 = self.r00.xor(U32x8::load_le(block, 0));
        self.run_rounds(self.params.block_rounds());
    }

    fn finalize(self) -> (out: Vec<u8>) {
        let mut fin = self;
        proof {
            self.lemma_lens();
            lemma_flip_2x8(self.state().a, self.r10@, self.r11@);
        }
        let one = U32x8::new([0, 0, 0, 0, 0, 0, 0, 1]);
        assert(one@ =~= last_one(8));
        fin.r11 = fin.r11.xor(one);
        fin.run_rounds(fin.params.final_rounds());
        let h = fin.params.output_len();
        proof {
            fin.lemma_lens();
            lemma_output_2x8(fin.r00@, fin.r01@, h as int);
        }
        let mut out: Vec<u8> = Vec::new();
        fin.r00.append_le(&mut out, h);
        fin.r01.append_le(&mut out, h);
        out
    }
}

} // verus!
