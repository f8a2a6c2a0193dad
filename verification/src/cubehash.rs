//! The hash object: a backend chosen for the processor, and the block
//! buffer in front of it.

use vstd::prelude::*;
use crate::avx2::Avx2;
use crate::avx512::Avx512;
use crate::backend::{CpuFeatures, CubeHashBackend};
use crate::buffer::BlockBuffer;
use crate::neon::Neon;
use crate::params::Params;
use crate::permutation::State;
use crate::soft::Soft;
use crate::sponge::{absorb_all, feed, finish, hash, lemma_hash_streamed, start, Stream};
use crate::sse2::Sse2;
use crate::stream::{finalize_fixed_core, join, update, update_blocks};

verus! {

/// The name of a backend.
#[derive(Clone, Copy, Debug, PartialEq, Eq, Structural)]
pub enum BackendSelector {
    /// The portable backend.
    Soft,
    /// The backend on 128-bit vectors of x86.
    Sse2,
    /// The backend on 256-bit vectors of x86.
    Avx2,
    /// The backend on 512-bit vectors of x86.
    Avx512,
    /// The backend on 128-bit vectors of ARM.
    Neon,
}

/// Whether a processor with the features `cpu` can run the backend.
pub open spec fn supported(backend: BackendSelector, cpu: CpuFeatures) -> bool {
    match backend {
        BackendSelector::Soft => true,
        BackendSelector::Sse2 => cpu.sse2,
        BackendSelector::Avx2 => cpu.avx2,
        BackendSelector::Avx512 => cpu.avx512,
        BackendSelector::Neon => cpu.neon,
    }
}

/// The backend that is taken when none is named: the widest vectors that
/// the processor has, and the portable backend where it has none.
pub open spec fn preferred(cpu: CpuFeatures) -> BackendSelector {
    if cpu.avx512 {
        BackendSelector::Avx512
    } else if cpu.avx2 {
        BackendSelector::Avx2
    } else if cpu.sse2 {
        BackendSelector::Sse2
    } else if cpu.neon {
        BackendSelector::Neon
    } else {
        BackendSelector::Soft
    }
}

/// The backend in use.
enum Backend {
    Soft(Soft),
    Sse2(Sse2),
    Avx2(Avx2),
    Avx512(Avx512),
    Neon(Neon),
}

impl Clone for Backend {
    fn clone(&self) -> (res: Self)
        ensures
            res == *self,
    {
        match self {
            Backend::Soft(b) => Backend::Soft(b.clone()),
            Backend::Sse2(b) => Backend::Sse2(b.clone()),
            Backend::Avx2(b) => Backend::Avx2(b.clone()),
            Backend::Avx512(b) => Backend::Avx512(b.clone()),
            Backend::Neon(b) => Backend::Neon(b.clone()),
        }
    }
}

impl Backend {
    spec fn state(&self) -> State {
        match self {
            Backend::Soft(b) => b.state(),
            Backend::Sse2(b) => b.state(),
            Backend::Avx2(b) => b.state(),
            Backend::Avx512(b) => b.state(),
            Backend::Neon(b) => b.state(),
        }
    }

    spec fn params(&self) -> Params {
        match self {
            Backend::Soft(b) => b.params(),
            Backend::Sse2(b) => b.params(),
            Backend::Avx2(b) => b.params(),
            Backend::Avx512(b) => b.params(),
            Backend::Neon(b) => b.params(),
        }
    }

    spec fn selector(&self) -> BackendSelector {
        match self {
            Backend::Soft(_) => BackendSelector::Soft,
            Backend::Sse2(_) => BackendSelector::Sse2,
            Backend::Avx2(_) => BackendSelector::Avx2,
            Backend::Avx512(_) => BackendSelector::Avx512,
            Backend::Neon(_) => BackendSelector::Neon,
        }
    }

    proof fn lemma_state_wf(&self)
        ensures
            self.state().wf(),
    {
        match self {
            Backend::Soft(b) => b.lemma_state_wf(),
            Backend::Sse2(b) => b.lemma_state_wf(),
            Backend::Avx2(b) => b.lemma_state_wf(),
            Backend::Avx512(b) => b.lemma_state_wf(),
            Backend::Neon(b) => b.lemma_state_wf(),
        }
    }
}

/// A CubeHash computation in progress.
pub struct CubeHashCore {
    backend: Backend,
    buffer: BlockBuffer,
}

impl Clone for CubeHashCore {
    /// A copy that goes on by itself: the state and the held bytes are
    /// copied.
    fn clone(&self) -> (res: Self)
        ensures
            res == *self,
    {
        CubeHashCore { backend: self.backend.clone(), buffer: self.buffer.clone() }
    }
}

impl CubeHashCore {
    /// The hash in progress: the state of the permutation and the bytes
    /// held back.
    pub closed spec fn view(&self) -> Stream {
        Stream { state: self.backend.state(), held: self.buffer@ }
    }

    /// The parameters of the instance.
    pub closed spec fn params(&self) -> Params {
        self.backend.params()
    }

    /// The backend of the instance.
    pub closed spec fn selector(&self) -> BackendSelector {
        self.backend.selector()
    }

    /// The parameters are valid and less than a block is held back.
    pub closed spec fn wf(&self) -> bool {
        self.backend.params().wf() && self.buffer.wf()
    }

    /// What well-formedness says of the view.
    pub proof fn lemma_wf(&self)
        requires
            self.wf(),
        ensures
            self.params().wf(),
            self@.state.wf(),
            self@.held.len() < 32,
    {
        self.buffer.lemma_len();
        self.backend.lemma_state_wf();
    }

    /// A fresh hash on the named backend, or `None` where the processor
    /// cannot run that backend.
    pub fn new_with_backend(params: Params, backend: BackendSelector, cpu: &CpuFeatures) -> (res:
        Option<Self>)
        requires
            params.wf(),
        ensures
            res is Some <==> supported(backend, *cpu),
            res matches Some(h) ==> h.wf() && h.params() == params && h.selector() == backend && h@
                == start(params),
    {
        let chosen = match backend {
            BackendSelector::Soft => match Soft::init(params, cpu) {
                Some(b) => Some(Backend::Soft(b)),
                None => None,
            },
            BackendSelector::Sse2 => match Sse2::init(params, cpu) {
                Some(b) => Some(Backend::Sse2(b)),
                None => None,
            },
            BackendSelector::Avx2 => match Avx2::init(params, cpu) {
                Some(b) => Some(Backend::Avx2(b)),
                None => None,
            },
            BackendSelector::Avx512 => match Avx512::init(params, cpu) {
                Some(b) => Some(Backend::Avx512(b)),
                None => None,
            },
            BackendSelector::Neon => match Neon::init(params, cpu) {
                Some(b) => Some(Backend::Neon(b)),
                None => None,
            },
        };
        match chosen {
            Some(b) => Some(CubeHashCore { backend: b, buffer: BlockBuffer::new() }),
            None => None,
        }
    }

    /// The backend that `new` takes on a processor with the features `cpu`.
    pub fn default_backend(cpu: &CpuFeatures) -> (backend: BackendSelector)
        ensures
            backend == preferred(*cpu),
            supported(backend, *cpu),
    {
        if cpu.avx512 {
            BackendSelector::Avx512
        } else if cpu.avx2 {
            BackendSelector::Avx2
        } else if cpu.sse2 {
            BackendSelector::Sse2
        } else if cpu.neon {
            BackendSelector::Neon
        } else {
            BackendSelector::Soft
        }
    }

    /// A fresh hash on the backend that is preferred for the processor. The
    /// portable backend is the last resort, so this never fails.
    pub fn new(params: Params, cpu: &CpuFeatures) -> (h: Self)
        requires
            params.wf(),
        ensures
            h.wf(),
            h.params() == params,
            h.selector() == preferred(*cpu),
            h@ == start(params),
    {
        if cpu.avx512 {
            if let Some(b) = Avx512::init(params, cpu) {
                return CubeHashCore { backend: Backend::Avx512(b), buffer: BlockBuffer::new() };
            }
        }
        if cpu.avx2 {
            if let Some(b) = Avx2::init(params, cpu) {
                return CubeHashCore { backend: Backend::Avx2(b), buffer: BlockBuffer::new() };
            }
        }
        if cpu.sse2 {
            if let Some(b) = Sse2::init(params, cpu) {
                return CubeHashCore { backend: Backend::Sse2(b), buffer: BlockBuffer::new() };
            }
        }
        if cpu.neon {
            if let Some(b) = Neon::init(params, cpu) {
                return CubeHashCore { backend: Backend::Neon(b), buffer: BlockBuffer::new() };
            }
        }
        let soft = Soft::init(params, cpu);
        CubeHashCore { backend: Backend::Soft(soft.unwrap()), buffer: BlockBuffer::new() }
    }

    /// The backend in use.
    pub fn backend(&self) -> (backend: BackendSelector)
        ensures
            backend == self.selector(),
    {
        match &self.backend {
            Backend::Soft(_) => BackendSelector::Soft,
            Backend::Sse2(_) => BackendSelector::Sse2,
            Backend::Avx2(_) => BackendSelector::Avx2,
            Backend::Avx512(_) => BackendSelector::Avx512,
            Backend::Neon(_) => BackendSelector::Neon,
        }
    }

    /// Absorbs whole blocks, past the block buffer: what is held back stays
    /// held back.
    pub fn update_blocks(&mut self, blocks: &[[u8; 32]])
        requires
            old(self).wf(),
        ensures
            final(self).wf(),
            final(self).params() == old(self).params(),
            final(self).selector() == old(self).selector(),
            final(self)@ == (Stream {
                state: absorb_all(old(self).params(), old(self)@.state, join(blocks@)),
                held: old(self)@.held,
            }),
    {
        match &mut self.backend {
            Backend::Soft(b) => update_blocks(b, blocks),
            Backend::Sse2(b) => update_blocks(b, blocks),
            Backend::Avx2(b) => update_blocks(b, blocks),
            Backend::Avx512(b) => update_blocks(b, blocks),
            Backend::Neon(b) => update_blocks(b, blocks),
        }
    }

    /// Feeds `data` to the hash. However a message is cut into calls of
    /// `update`, the hash in progress is the same.
    pub fn update(&mut self, data: &[u8])
        requires
            old(self).wf(),
        ensures
            final(self).wf(),
            final(self).params() == old(self).params(),
            final(self).selector() == old(self).selector(),
            final(self)@ == feed(old(self).params(), old(self)@, data@),
    {
        match &mut self.backend {
            Backend::Soft(b) => update(b, &mut self.buffer, data),
            Backend::Sse2(b) => update(b, &mut self.buffer, data),
            Backend::Avx2(b) => update(b, &mut self.buffer, data),
            Backend::Avx512(b) => update(b, &mut self.buffer, data),
            Backend::Neon(b) => update(b, &mut self.buffer, data),
        }
    }

    /// Pads what is held back, absorbs it, closes the state and returns the
    /// digest. The hash is used up.
    pub fn finalize(self) -> (digest: Vec<u8>)
        requires
            self.wf(),
        ensures
            digest@ == finish(self.params(), self@),
            digest@.len() == self.params().h(),
    {
        match self.backend {
            Backend::Soft(b) => finalize_fixed_core(b, &self.buffer),
            Backend::Sse2(b) => finalize_fixed_core(b, &self.buffer),
            Backend::Avx2(b) => finalize_fixed_core(b, &self.buffer),
            Backend::Avx512(b) => finalize_fixed_core(b, &self.buffer),
            Backend::Neon(b) => finalize_fixed_core(b, &self.buffer),
        }
    }

    /// The digest of `data`, on the named backend; `None` where the
    /// processor cannot run that backend. Whatever the backend, the digest
    /// is the same.
    pub fn digest(params: Params, backend: BackendSelector, cpu: &CpuFeatures, data: &[u8]) -> (res:
        Option<Vec<u8>>)
        requires
            params.wf(),
        ensures
            res is Some <==> supported(backend, *cpu),
            res matches Some(d) ==> d@ == hash(params, data@),
    {
        match CubeHashCore::new_with_backend(params, backend, cpu) {
            Some(mut h) => {
                h.update(data);
                proof {
                    lemma_hash_streamed(params, data@);
                }
                Some(h.finalize())
            },
            None => None,
        }
    }
}

} // verus!
