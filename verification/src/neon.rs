//! The backend on eight registers of 128 bits, with shift-and-insert
//! rotations and lane reversals.

use vstd::prelude::*;
use crate::backend::{CpuFeatures, CubeHashBackend};
use crate::lanes::{last_one, lemma_insert_rotate, U32x4, zeros};
use crate::layout::{
    half4, lemma_flip_4x4, lemma_output_4x4, lemma_seed_4x4, lemma_subround_first_4x4,
    lemma_subround_second_4x4, lemma_xor_block_4x4,
};
use crate::params::Params;
use crate::permutation::{round, rounds, subround, State};

verus! {

/// The state in eight registers of four lanes. Register `rABC` holds the
/// four words whose index has the bits `A`, `B`, `C` on top.
pub struct Neon {
    r000: U32x4,
    r001: U32x4,
    r010: U32x4,
    r011: U32x4,
    r100: U32x4,
    r101: U32x4,
    r110: U32x4,
    r111: U32x4,
    params: Params,
}

impl Clone for Neon {
    fn clone(&self) -> (res: Self)
        ensures
            res == *self,
    {
        Neon {
            r000: self.r000,
            r001: self.r001,
            r010: self.r010,
            r011: self.r011,
            r100: self.r100,
            r101: self.r101,
            r110: self.r110,
            r111: self.r111,
            params: self.params,
        }
    }
}

impl Neon {
    /// Every register has four lanes.
    proof fn lemma_lens(&self)
        ensures
            self.r000@.len() == 4 && self.r001@.len() == 4 && self.r010@.len() == 4
                && self.r011@.len() == 4,
            self.r100@.len() == 4 && self.r101@.len() == 4 && self.r110@.len() == 4
                && self.r111@.len() == 4,
            self.state().wf(),
    {
        self.r000.lemma_len();
        self.r001.lemma_len();
        self.r010.lemma_len();
        self.r011.lemma_len();
        self.r100.lemma_len();
        self.r101.lemma_len();
        self.r110.lemma_len();
        self.r111.lemma_len();
    }

    /// One round of the permutation on the state.
    pub fn round(&mut self)
        ensures
            final(self).params() == old(self).params(),
            final(self).state() == round(old(self).state()),
    {
        let Neon { r000, r001, r010, r011, r100, r101, r110, r111, .. } = *self;
        let ghost (a0, a1, a2, a3) = (r000@, r001@, r010@, r011@);
        let ghost (b0, b1, b2, b3) = (r100@, r101@, r110@, r111@);
        proof {
            self.lemma_lens();
        }

        // 1. add
        let r100 = r100.wrapping_add(r000);
        let r101 = r101.wrapping_add(r001);
        let r110 = r110.wrapping_add(r010);
        let r111 = r111.wrapping_add(r011);

        // 2. rotate
        let r000 = r000.shl(7).shift_right_insert(r000, 25);
        let r001 = r001.shl(7).shift_right_insert(r001, 25);
        let r010 = r010.shl(7).shift_right_insert(r010, 25);
        let r011 = r011.shl(7).shift_right_insert(r011, 25);

        // 3. swap
        let (r000, r010) = (r010, r000);
        let (r001, r011) = (r011, r001);

        // 4. xor
        let r000 = r000.xor(r100);
        let r001 = r001.xor(r101);
        let r010 = r010.xor(r110);
        let r011 = r011.xor(r111);

        // 5. swap
        let r100 = r100.swap_halves();
        let r101 = r101.swap_halves();
        let r110 = r110.swap_halves();
        let r111 = r111.swap_halves();

        proof {
            lemma_insert_rotate(a0);
            lemma_insert_rotate(a1);
            lemma_insert_rotate(a2);
            lemma_insert_rotate(a3);
            lemma_subround_first_4x4(a0, a1, a2, a3, b0, b1, b2, b3, 7);
        }
        let ghost mid = State {
            a: half4(r000@, r001@, r010@, r011@),
            b: half4(r100@, r101@, r110@, r111@),
        };
        assert(mid == subround(old(self).state(), 7, 8, 2));
        let ghost (d0, d1, d2, d3) = (r000@, r001@, r010@, r011@);
        let ghost (e0, e1, e2, e3) = (r100@, r101@, r110@, r111@);

        // 6. add
        let r100 = r100.wrapping_add(r000);
        let r101 = r101.wrapping_add(r001);
        let r110 = r110.wrapping_add(r010);
        let r111 = r111.wrapping_add(r011);

        // 7. rotate
        let r000 = r000.shl(11).shift_right_insert(r000, 21);
        let r001 = r001.shl(11).shift_right_insert(r001, 21);
        let r010 = r010.shl(11).shift_right_insert(r010, 21);
        let r011 = r011.shl(11).shift_right_insert(r011, 21);

        // 8. swap
        let (r000, r001) = (r001, r000);
        let (r010, r011) = (r011, r010);

        // 9. xor
        let r000 = r000.xor(r100);
        let r001 = r001.xor(r101);
        let r010 = r010.xor(r110);
        let r011 = r011.xor(r111);

        // 10. swap
        let r100 = r100.swap_pairs();
        let r101 = r101.swap_pairs();
        let r110 = r110.swap_pairs();
        let r111 = r111.swap_pairs();

        proof {
            lemma_insert_rotate(d0);
            lemma_insert_rotate(d1);
            lemma_insert_rotate(d2);
            lemma_insert_rotate(d3);
            lemma_subround_second_4x4(d0, d1, d2, d3, e0, e1, e2, e3, 11);
        }

        self.r000 = r000;
        self.r001 = r001;
        self.r010 = r010;
        self.r011 = r011;
        self.r100 = r100;
        self.r101 = r101;
        self.r110 = r110;
        self.r111 = r111;
    }

    /// The 32 words of the state: `A[0]` to `A[15]`, then `B[0]` to `B[15]`.
    pub fn words(&self) -> (w: Vec<u32>)
        ensures
            w@ == self.state().words(),
    {
        let mut w: Vec<u32> = Vec::new();
        self.r000.append_words(&mut w);
        self.r001.append_words(&mut w);
        self.r010.append_words(&mut w);
        self.r011.append_words(&mut w);
        self.r100.append_words(&mut w);
        self.r101.append_words(&mut w);
        self.r110.append_words(&mut w);
        self.r111.append_words(&mut w);
        assert(w@ =~= self.state().words());
        w
    }

    /// Overwrites every register with zeros, by writes that are not
    /// optimised away. The parameters stay.
    pub fn zeroize(&mut self)
        ensures
            final(self).params() == old(self).params(),
            final(self).state() == (State { a: zeros(16), b: zeros(16) }),
    {
        self.r000.zeroize();
        self.r001.zeroize();
        self.r010.zeroize();
        self.r011.zeroize();
        self.r100.zeroize();
        self.r101.zeroize();
        self.r110.zeroize();
        self.r111.zeroize();
        assert(self.state().a =~= zeros(16));
        assert(self.state().b =~= zeros(16));
    }

    /// `n` rounds of the permutation on the state.
    fn run_rounds(&mut self, n: u16)
        ensures
            final(self).params() == old(self).params(),
            final(self).state() == rounds(old(self).state(), n as nat),
    {
        let mut done: u16 = 0;
        while done < n
            invariant
                done <= n,
                self.params() == old(self).params(),
                self.state() == rounds(old(self).state(), done as nat),
            decreases n - done,
        {
            self.round();
            done = done + 1;
        }
    }
}

impl CubeHashBackend for Neon {
    closed spec fn state(&self) -> State {
        State {
            a: half4(self.r000@, self.r001@, self.r010@, self.r011@),
            b: half4(self.r100@, self.r101@, self.r110@, self.r111@),
        }
    }

    closed spec fn params(&self) -> Params {
        self.params
    }

    /// The backend needs NEON vectors.
    open spec fn available(cpu: CpuFeatures) -> bool {
        cpu.neon
    }

    proof fn lemma_state_wf(&self) {
        self.lemma_lens();
    }

    fn init(params: Params, cpu: &CpuFeatures) -> (res: Option<Self>) {
        if !cpu.neon {
            return None;
        }
        let mut init = Neon {
            r000: U32x4::new([params.output_len() as u32, 32, params.block_rounds() as u32, 0]),
            r001: U32x4::zero(),
            r010: U32x4::zero(),
            r011: U32x4::zero(),
            r100: U32x4::zero(),
            r101: U32x4::zero(),
            r110: U32x4::zero(),
            r111: U32x4::zero(),
            params,
        };
        proof {
            assert(init.r000@ =~= seq![params.h() as u32, 32u32, params.r() as u32, 0u32]);
            lemma_seed_4x4(params, init.r000@);
        }
        init.run_rounds(params.init_rounds());
        Some(init)
    }

    fn update_block(&mut self, block: &[u8; 32]) {
        proof {
            self.lemma_lens();
            lemma_xor_block_4x4(
                self.r000@,
                self.r001@,
                self.r010@,
                self.r011@,
                self.state().b,
                block@,
            );
        }
        let x000 = U32x4::load_le(block, 0);
        let x001 = U32x4::load_le(block, 4);
        self.r000 = self.r000.xor(x000);
        self.r001 = self.r001.xor(x001);
        self.run_rounds(self.params.block_rounds());
    }

    fn finalize(self) -> (out: Vec<u8>) {
        let mut fin = self;
        proof {
            self.lemma_lens();
            lemma_flip_4x4(self.state().a, self.r100@, self.r101@, self.r110@, self.r111@);
        }
        let one = U32x4::new([0, 0, 0, 1]);
        assert(one@ =~= last_one(4));
        fin.r111 = fin.r111.xor(one);
        fin.run_rounds(fin.params.final_rounds());
        let h = fin.params.output_len();
        proof {
            fin.lemma_lens();
            lemma_output_4x4(fin.r000@, fin.r001@, fin.r010@, fin.r011@, h as int);
        }
        let mut out: Vec<u8> = Vec::new();
        fin.r000.append_le(&mut out, h);
        fin.r001.append_le(&mut out, h);
        fin.r010.append_le(&mut out, h);
        fin.r011.append_le(&mut out, h);
        out
    }
}

} // verus!
