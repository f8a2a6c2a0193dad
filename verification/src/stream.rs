//! The streaming layer over any backend: bytes in, blocks to the backend,
//! padding at the end. Written once for every backend, so that what it
//! computes cannot depend on the backend underneath.

use vstd::prelude::*;
use crate::backend::{CpuFeatures, CubeHashBackend};
use crate::buffer::BlockBuffer;
use crate::params::Params;
use crate::sponge::{
    absorb_all, feed, finish, hash, lemma_absorb_all_concat, lemma_absorb_all_one,
    lemma_digest_len, lemma_feed_concat, lemma_feed_fill, lemma_feed_nothing, lemma_feed_short,
    lemma_hash_streamed, Stream,
};

verus! {

/// The blocks one after the other, as bytes.
pub open spec fn join(blocks: Seq<[u8; 32]>) -> Seq<u8>
    decreases blocks.len(),
{
    if blocks.len() == 0 {
        Seq::empty()
    } else {
        join(blocks.drop_last()) + blocks.last()@
    }
}

/// `n` blocks are `32 * n` bytes.
pub proof fn lemma_join_len(blocks: Seq<[u8; 32]>)
    ensures
        join(blocks).len() == 32 * blocks.len(),
    decreases blocks.len(),
{
    if blocks.len() > 0 {
        lemma_join_len(blocks.drop_last());
    }
}

/// Absorbs whole blocks into the backend, first block first.
pub fn update_blocks<B: CubeHashBackend>(backend: &mut B, blocks: &[[u8; 32]])
    requires
        old(backend).params().wf(),
    ensures
        final(backend).params() == old(backend).params(),
        final(backend).state() == absorb_all(
            old(backend).params(),
            old(backend).state(),
            join(blocks@),
        ),
{
    let ghost p = backend.params();
    let ghost s0 = backend.state();
    let n = blocks.len();
    assert(blocks@.take(0) =~= Seq::<[u8; 32]>::empty());
    for i in 0..n
        invariant
            n == blocks@.len(),
            backend.params().wf(),
            backend.params() == p,
            backend.state() == absorb_all(p, s0, join(blocks@.take(i as int))),
    {
        proof {
            let done = blocks@.take(i as int);
            let next = blocks@.take(i + 1);
            assert(next.drop_last() =~= done);
            assert(next.last() == blocks@[i as int]);
            lemma_join_len(done);
            lemma_absorb_all_concat(p, s0, join(done), blocks@[i as int]@);
            lemma_absorb_all_one(p, absorb_all(p, s0, join(done)), blocks@[i as int]@);
        }
        backend.update_block(&blocks[i]);
    }
    assert(blocks@.take(n as int) =~= blocks@);
}

/// Feeds `data` through the buffer: every block that fills up goes to the
/// backend at once, the rest is held back.
pub fn update<B: CubeHashBackend>(backend: &mut B, buffer: &mut BlockBuffer, data: &[u8])
    requires
        old(backend).params().wf(),
        old(buffer).wf(),
    ensures
        final(buffer).wf(),
        final(backend).params() == old(backend).params(),
        (Stream { state: final(backend).state(), held: final(buffer)@ }) == feed(
            old(backend).params(),
            Stream { state: old(backend).state(), held: old(buffer)@ },
            data@,
        ),
{
    let ghost p = backend.params();
    let ghost t0 = Stream { state: backend.state(), held: buffer@ };
    let n = data.len();
    let mut i: usize = 0;
    proof {
        buffer.lemma_len();
        assert(data@.take(0) =~= Seq::<u8>::empty());
        lemma_feed_nothing(p, t0);
    }
    while i < n
        invariant
            n == data@.len(),
            i <= n,
            backend.params().wf(),
            buffer.wf(),
            backend.params() == p,
            (Stream { state: backend.state(), held: buffer@ }) == feed(p, t0, data@.take(i as int)),
        decreases n - i,
    {
        let ghost before = Stream { state: backend.state(), held: buffer@ };
        let (taken, full) = buffer.fill(data, i);
        let ghost chunk = data@.subrange(i as int, i + taken);
        proof {
            assert(data@.take(i as int) + chunk =~= data@.take(i + taken));
            lemma_feed_concat(p, t0, data@.take(i as int), chunk);
        }
        match full {
            Some(block) => {
                proof {
                    lemma_feed_fill(p, before, chunk);
                }
                backend.update_block(&block);
            },
            None => {
                proof {
                    lemma_feed_short(p, before, chunk);
                }
            },
        }
        i = i + taken;
    }
    assert(data@.take(n as int) =~= data@);
}

/// Ends the message: what the buffer holds is padded to one block, the
/// block is absorbed, and the backend closes its state and gives the
/// digest.
pub fn finalize_fixed_core<B: CubeHashBackend>(backend: B, buffer: &BlockBuffer) -> (digest: Vec<
    u8,
>)
    requires
        backend.params().wf(),
        buffer.wf(),
    ensures
        digest@ == finish(backend.params(), Stream { state: backend.state(), held: buffer@ }),
        digest@.len() == backend.params().h(),
{
    let mut backend = backend;
    let block = buffer.pad();
    backend.update_block(&block);
    proof {
        backend.lemma_state_wf();
        lemma_digest_len(backend.params(), backend.state());
    }
    backend.finalize()
}

/// The digest of `data` computed on the backend `B`, or `None` where the
/// processor cannot run `B`. The digest is the same for every backend.
pub fn digest<B: CubeHashBackend>(params: Params, cpu: &CpuFeatures, data: &[u8]) -> (res: Option<
    Vec<u8>,
>)
    requires
        params.wf(),
    ensures
        res is Some <==> B::available(*cpu),
        res matches Some(d) ==> d@ == hash(params, data@),
{
    match B::init(params, cpu) {
        Some(mut backend) => {
            let mut buffer = BlockBuffer::new();
            update(&mut backend, &mut buffer, data);
            proof {
                lemma_hash_streamed(params, data@);
            }
            Some(finalize_fixed_core(backend, &buffer))
        },
        None => None,
    }
}

} // verus!
