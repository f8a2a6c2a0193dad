//! What every backend offers: set-up, absorption of one block, and the
//! closing of the state, each stated against the functions of `sponge`.

use vstd::prelude::*;
use crate::params::Params;
use crate::permutation::State;
use crate::sponge::{absorb, digest_of, init_state};

verus! {

/// The vector features of the processor, as they were detected. The library
/// takes them as given and never probes the processor itself.
#[derive(Clone, Copy, Debug, PartialEq, Eq, Structural)]
pub struct CpuFeatures {
    /// 128-bit integer vectors (SSE2).
    pub sse2: bool,
    /// 256-bit integer vectors (AVX and AVX2).
    pub avx2: bool,
    /// 512-bit integer vectors (AVX and AVX-512F).
    pub avx512: bool,
    /// 128-bit integer vectors (NEON).
    pub neon: bool,
}

impl CpuFeatures {
    /// A processor with none of the vector features.
    pub fn none() -> (cpu: CpuFeatures)
        ensures
            cpu == (CpuFeatures { sse2: false, avx2: false, avx512: false, neon: false }),
    {
        CpuFeatures { sse2: false, avx2: false, avx512: false, neon: false }
    }
}

/// One way of holding the state and of running the permutation on it.
///
/// Whatever layout a backend keeps its words in, `state` names the words as
/// the permutation numbers them, and each operation does to `state` what the
/// function of `sponge` says: two backends that start from the same
/// parameters and are given the same blocks hold the same state and give the
/// same digest.
pub trait CubeHashBackend: Sized {
    /// The state, its words numbered as the permutation numbers them.
    spec fn state(&self) -> State;

    /// The parameters the backend was set up with.
    spec fn params(&self) -> Params;

    /// Whether a processor with the features `cpu` can run this backend.
    spec fn available(cpu: CpuFeatures) -> bool;

    /// The state has its 32 words, whatever the layout.
    proof fn lemma_state_wf(&self)
        ensures
            self.state().wf(),
    ;

    /// Sets the state up for `params`, unless the processor lacks the
    /// feature that this backend runs on.
    fn init(params: Params, cpu: &CpuFeatures) -> (res: Option<Self>)
        requires
            params.wf(),
        ensures
            res is Some <==> Self::available(*cpu),
            res matches Some(b) ==> b.params() == params && b.state() == init_state(params),
    ;

    /// Absorbs one block of 32 bytes.
    fn update_block(&mut self, block: &[u8; 32])
        requires
            old(self).params().wf(),
        ensures
            final(self).params() == old(self).params(),
            final(self).state() == absorb(old(self).params(), old(self).state(), block@),
    ;

    /// Closes the state and returns the digest.
    fn finalize(self) -> (out: Vec<u8>)
        requires
            self.params().wf(),
        ensures
            out@ == digest_of(self.params(), self.state()),
    ;
}

} // verus!
