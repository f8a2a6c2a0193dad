//! The prefix-MAC: a hash that has absorbed a key of 64 bytes before the
//! message.

use vstd::prelude::*;
use crate::backend::CpuFeatures;
use crate::cubehash::{preferred, BackendSelector, CubeHashCore};
use crate::params::{CubeHashError, Params, KEY_BYTES};
use crate::secure::ct_eq;
use crate::sponge::{
    absorb_all, feed, finish, init_state, keyed, lemma_absorb_all_concat,
    lemma_mac_is_prefixed_hash, mac, Stream,
};
use crate::stream::join;

verus! {

/// A MAC computation in progress.
pub struct CubeMacCore {
    hash: CubeHashCore,
}

impl Clone for CubeMacCore {
    /// A copy that goes on by itself.
    fn clone(&self) -> (res: Self)
        ensures
            res == *self,
    {
        CubeMacCore { hash: self.hash.clone() }
    }
}

impl CubeMacCore {
    /// The hash in progress underneath.
    pub closed spec fn view(&self) -> Stream {
        self.hash@
    }

    /// The parameters of the instance.
    pub closed spec fn params(&self) -> Params {
        self.hash.params()
    }

    /// The backend of the instance.
    pub closed spec fn selector(&self) -> BackendSelector {
        self.hash.selector()
    }

    /// The hash underneath is well-formed.
    pub closed spec fn wf(&self) -> bool {
        self.hash.wf()
    }

    /// What well-formedness says of the view.
    pub proof fn lemma_wf(&self)
        requires
            self.wf(),
        ensures
            self.params().wf(),
            self@.state.wf(),
            self@.held.len() < 32,
    {
        self.hash.lemma_wf();
    }

    /// A MAC under `key`, on the backend that is preferred for the
    /// processor. The key must be exactly 64 bytes long; it is absorbed as
    /// two blocks, past the block buffer.
    pub fn new(params: Params, key: &[u8], cpu: &CpuFeatures) -> (res: Result<Self, CubeHashError>)
        requires
            params.wf(),
        ensures
            res is Ok <==> key@.len() == 64,
            res matches Ok(m) ==> m.wf() && m.params() == params && m.selector() == preferred(*cpu)
                && m@ == keyed(params, key@),
            res matches Err(e) ==> e == CubeHashError::InvalidKeyLength,
    {
        if key.len() != KEY_BYTES {
            return Err(CubeHashError::InvalidKeyLength);
        }
        let mut low = [0u8; 32];
        let mut high = [0u8; 32];
        for i in 0..32usize
            invariant
                key@.len() == 64,
                forall|j: int| 0 <= j < i ==> low@[j] == key@[j],
                forall|j: int| 0 <= j < i ==> high@[j] == key@[32 + j],
        {
            low[i] = key[i];
            high[i] = key[32 + i];
        }
        let mut init = CubeHashCore::new(params, cpu);
        let low_block = [low];
        let high_block = [high];
        proof {
            let first = low_block@;
            let second = high_block@;
            assert(first.drop_last() =~= Seq::<[u8; 32]>::empty());
            assert(second.drop_last() =~= Seq::<[u8; 32]>::empty());
            assert(join(first.drop_last()) =~= Seq::<u8>::empty());
            assert(join(first) =~= low@);
            assert(join(second) =~= high@);
            assert(low@ + high@ =~= key@);
            lemma_absorb_all_concat(params, init_state(params), low@, high@);
        }
        init.update_blocks(low_block.as_slice());
        init.update_blocks(high_block.as_slice());
        Ok(CubeMacCore { hash: init })
    }

    /// The backend in use.
    pub fn backend(&self) -> (backend: BackendSelector)
        ensures
            backend == self.selector(),
    {
        self.hash.backend()
    }

    /// Absorbs whole blocks, past the block buffer.
    pub fn update_blocks(&mut self, blocks: &[[u8; 32]])
        requires
            old(self).wf(),
        ensures
            final(self).wf(),
            final(self).params() == old(self).params(),
            final(self).selector() == old(self).selector(),
            final(self)@ == (Stream {
                state: absorb_all(old(self).params(), old(self)@.state, join(blocks@)),
                held: old(self)@.held,
            }),
    {
        self.hash.update_blocks(blocks)
    }

    /// Feeds `data` of the message to the MAC.
    pub fn update(&mut self, data: &[u8])
        requires
            old(self).wf(),
        ensures
            final(self).wf(),
            final(self).params() == old(self).params(),
            final(self).selector() == old(self).selector(),
            final(self)@ == feed(old(self).params(), old(self)@, data@),
    {
        self.hash.update(data)
    }

    /// Closes the MAC and returns the tag. The MAC is used up.
    pub fn finalize(self) -> (tag: Vec<u8>)
        requires
            self.wf(),
        ensures
            tag@ == finish(self.params(), self@),
            tag@.len() == self.params().h(),
    {
        self.hash.finalize()
    }

    /// Whether `tag` is the tag of what was fed so far. The tag is computed
    /// on a copy and compared with `tag` in constant time.
    pub fn verify(&self, tag: &[u8]) -> (ok: bool)
        requires
            self.wf(),
        ensures
            ok == (tag@ == finish(self.params(), self@)),
    {
        let expected = self.hash.clone().finalize();
        ct_eq(expected.as_slice(), tag)
    }

    /// The tag of `msg` under `key`, or the error where the key is not 64
    /// bytes long.
    pub fn tag(params: Params, key: &[u8], cpu: &CpuFeatures, msg: &[u8]) -> (res: Result<
        Vec<u8>,
        CubeHashError,
    >)
        requires
            params.wf(),
        ensures
            res is Ok <==> key@.len() == 64,
            res matches Ok(t) ==> t@ == mac(params, key@, msg@),
            res matches Err(e) ==> e == CubeHashError::InvalidKeyLength,
    {
        match CubeMacCore::new(params, key, cpu) {
            Ok(mut m) => {
                m.update(msg);
                proof {
                    lemma_mac_is_prefixed_hash(params, key@, msg@);
                }
                Ok(m.finalize())
            },
            Err(e) => Err(e),
        }
    }
}

} // verus!
