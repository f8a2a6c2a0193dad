//! What a CubeHash instance computes, as mathematical functions: set-up,
//! absorption of blocks, padding, the closing of the state and the output.

use vstd::prelude::*;
use crate::params::Params;
use crate::permutation::{le_word, lemma_rounds_wf, rounds, words_to_bytes, State};

verus! {

/// The state before the set-up rounds: `A[0]` is the output size in bytes,
/// `A[1]` the block size in bytes, `A[2]` the rounds per block, and every
/// other word is zero.
pub open spec fn seed_state(p: Params) -> State {
    State {
        a: Seq::new(
            16,
            |i: int|
                if i == 0 {
                    p.h() as u32
                } else if i == 1 {
                    32u32
                } else if i == 2 {
                    p.r() as u32
                } else {
                    0u32
                },
        ),
        b: Seq::new(16, |i: int| 0u32),
    }
}

/// The state of a fresh instance: the seed state after the set-up rounds.
pub open spec fn init_state(p: Params) -> State {
    rounds(seed_state(p), p.i())
}

/// The eight little-endian words of a block, xor-ed into `A[0..8]`.
pub open spec fn xor_block(s: State, block: Seq<u8>) -> State {
    State {
        a: Seq::new(
            16,
            |i: int|
                if i < 8 {
                    s.a[i] ^ le_word(block, i)
                } else {
                    s.a[i]
                },
        ),
        b: s.b,
    }
}

/// The state after one block of 32 bytes: the block is xor-ed in, then the
/// rounds per block are applied.
pub open spec fn absorb(p: Params, s: State, block: Seq<u8>) -> State {
    rounds(xor_block(s, block), p.r())
}

/// The state after the blocks of `data`, 32 bytes each, first block first.
/// Bytes after the last whole block are not looked at.
pub open spec fn absorb_all(p: Params, s: State, data: Seq<u8>) -> State
    decreases data.len(),
{
    if data.len() < 32 {
        s
    } else {
        let n = (data.len() / 32 - 1) * 32 as int;
        absorb(p, absorb_all(p, s, data.take(n)), data.subrange(n, n + 32))
    }
}

/// The last block of a message: the held bytes, the marker `0x80`, then
/// zeros up to 32 bytes. No length is appended.
pub open spec fn pad(held: Seq<u8>) -> Seq<u8> {
    Seq::new(
        32,
        |i: int|
            if i < held.len() {
                held[i]
            } else if i == held.len() {
                0x80u8
            } else {
                0u8
            },
    )
}

/// The state with bit 0 of its last word, `B[15]`, flipped.
pub open spec fn flip(s: State) -> State {
    State { a: s.a, b: s.b.update(15, s.b[15] ^ 1) }
}

/// The closed state: the last bit is flipped, then the final rounds are
/// applied.
pub open spec fn close(p: Params, s: State) -> State {
    rounds(flip(s), p.f())
}

/// The output read from a closed state: the first bytes of its words, each
/// word little-endian.
pub open spec fn output(p: Params, s: State) -> Seq<u8> {
    words_to_bytes(s.a).take(p.h() as int)
}

/// The digest that a state gives when it is closed as it stands.
pub open spec fn digest_of(p: Params, s: State) -> Seq<u8> {
    output(p, close(p, s))
}

/// A hash in progress: the state of the permutation, and the bytes held
/// back until they fill a block.
#[verifier::ext_equal]
pub struct Stream {
    pub state: State,
    pub held: Seq<u8>,
}

/// A hash to which nothing was fed.
pub open spec fn start(p: Params) -> Stream {
    Stream { state: init_state(p), held: Seq::empty() }
}

/// The hash after `data` is fed to it: every whole block of the held bytes
/// followed by `data` is absorbed, and the rest is held.
pub open spec fn feed(p: Params, t: Stream, data: Seq<u8>) -> Stream {
    let all = t.held + data;
    let n = (all.len() / 32) * 32 as int;
    Stream { state: absorb_all(p, t.state, all.take(n)), held: all.skip(n) }
}

/// The digest of a hash in progress: the held bytes are padded to one block,
/// the block is absorbed, the state is closed and read.
pub open spec fn finish(p: Params, t: Stream) -> Seq<u8> {
    digest_of(p, absorb(p, t.state, pad(t.held)))
}

/// What a message is absorbed as: its whole blocks, then its last bytes
/// padded to one more block.
pub open spec fn padded(msg: Seq<u8>) -> Seq<u8> {
    let n = (msg.len() / 32) * 32 as int;
    msg.take(n) + pad(msg.skip(n))
}

/// The digest of a message: the padded message is absorbed block by block
/// into a fresh state, the state is closed and read.
pub open spec fn hash(p: Params, msg: Seq<u8>) -> Seq<u8> {
    digest_of(p, absorb_all(p, init_state(p), padded(msg)))
}

/// The hash in progress of a MAC that was given `key` and no message yet:
/// the key is absorbed block by block, nothing is held back.
pub open spec fn keyed(p: Params, key: Seq<u8>) -> Stream {
    Stream { state: absorb_all(p, init_state(p), key), held: Seq::empty() }
}

/// The tag of a message under a key: the digest of the key followed by the
/// message.
pub open spec fn mac(p: Params, key: Seq<u8>, msg: Seq<u8>) -> Seq<u8> {
    hash(p, key + msg)
}

/// A digest has as many bytes as the parameters say.
pub proof fn lemma_digest_len(p: Params, s: State)
    requires
        p.wf(),
        s.wf(),
    ensures
        digest_of(p, s).len() == p.h(),
{
    lemma_rounds_wf(flip(s), p.f());
}

/// Absorbing whole blocks and then more data is absorbing the two one after
/// the other.
pub proof fn lemma_absorb_all_concat(p: Params, s: State, u: Seq<u8>, v: Seq<u8>)
    requires
        u.len() % 32 == 0,
    ensures
        absorb_all(p, s, u + v) == absorb_all(p, absorb_all(p, s, u), v),
    decreases v.len(),
{
    if v.len() < 32 {
        if u.len() >= 32 {
            let n = (u.len() / 32 - 1) * 32 as int;
            assert((u + v).take(n) =~= u.take(n));
            assert((u + v).subrange(n, n + 32) =~= u.subrange(n, n + 32));
        }
    } else {
        let m = (v.len() / 32 - 1) * 32 as int;
        let n = ((u + v).len() / 32 - 1) * 32 as int;
        assert(n == u.len() + m);
        assert((u + v).take(n) =~= u + v.take(m));
        assert((u + v).subrange(n, n + 32) =~= v.subrange(m, m + 32));
        lemma_absorb_all_concat(p, s, u, v.take(m));
    }
}

/// Absorbing exactly one block.
pub proof fn lemma_absorb_all_one(p: Params, s: State, block: Seq<u8>)
    requires
        block.len() == 32,
    ensures
        absorb_all(p, s, block) == absorb(p, s, block),
{
    assert(block.take(0).len() < 32);
    assert(block.subrange(0, 32) =~= block);
    assert(absorb_all(p, s, block.take(0)) == s);
}

/// Feeding bytes that do not fill the block only holds them back.
pub proof fn lemma_feed_short(p: Params, t: Stream, data: Seq<u8>)
    requires
        t.held.len() + data.len() < 32,
    ensures
        feed(p, t, data) == (Stream { state: t.state, held: t.held + data }),
{
    let all = t.held + data;
    assert(all.take(0).len() < 32);
    assert(all.skip(0) =~= all);
}

/// Feeding bytes that exactly fill the block absorbs the block and holds
/// nothing back.
pub proof fn lemma_feed_fill(p: Params, t: Stream, data: Seq<u8>)
    requires
        t.held.len() + data.len() == 32,
    ensures
        feed(p, t, data) == (Stream {
            state: absorb(p, t.state, t.held + data),
            held: Seq::empty(),
        }),
{
    let all = t.held + data;
    assert(all.take(32) =~= all);
    assert(all.skip(32) =~= Seq::<u8>::empty());
    lemma_absorb_all_one(p, t.state, all);
}

/// Feeding whole blocks to a hash that holds nothing back absorbs them and
/// holds nothing back.
pub proof fn lemma_feed_blocks(p: Params, t: Stream, data: Seq<u8>)
    requires
        t.held.len() == 0,
        data.len() % 32 == 0,
    ensures
        feed(p, t, data) == (Stream {
            state: absorb_all(p, t.state, data),
            held: Seq::empty(),
        }),
{
    let all = t.held + data;
    assert(all =~= data);
    assert(data.take(data.len() as int) =~= data);
    assert(data.skip(data.len() as int) =~= Seq::<u8>::empty());
}

/// Chunking does not matter: feeding `x` and then `y` gives the same hash
/// in progress as feeding `x` followed by `y` at once.
pub proof fn lemma_feed_concat(p: Params, t: Stream, x: Seq<u8>, y: Seq<u8>)
    ensures
        feed(p, feed(p, t, x), y) == feed(p, t, x + y),
{
    let a = t.held + x;
    let na = (a.len() / 32) * 32 as int;
    let rest = a.skip(na) + y;
    let nr = (rest.len() / 32) * 32 as int;
    let b = t.held + (x + y);
    let nb = (b.len() / 32) * 32 as int;
    assert(b =~= a + y);
    assert(nb == na + nr);
    assert(b.take(nb) =~= a.take(na) + rest.take(nr));
    assert(b.skip(nb) =~= rest.skip(nr));
    lemma_absorb_all_concat(p, t.state, a.take(na), rest.take(nr));
}

/// The bytes of `chunks`, one chunk after the other.
pub open spec fn concat(chunks: Seq<Seq<u8>>) -> Seq<u8>
    decreases chunks.len(),
{
    if chunks.len() == 0 {
        Seq::empty()
    } else {
        concat(chunks.drop_last()) + chunks.last()
    }
}

/// The hash after the chunks are fed to it one by one.
pub open spec fn feed_each(p: Params, t: Stream, chunks: Seq<Seq<u8>>) -> Stream
    decreases chunks.len(),
{
    if chunks.len() == 0 {
        t
    } else {
        feed(p, feed_each(p, t, chunks.drop_last()), chunks.last())
    }
}

/// Feeding nothing changes nothing, if less than a block is held back.
pub proof fn lemma_feed_nothing(p: Params, t: Stream)
    requires
        t.held.len() < 32,
    ensures
        feed(p, t, Seq::empty()) == t,
{
    assert(t.held + Seq::<u8>::empty() =~= t.held);
    lemma_feed_short(p, t, Seq::empty());
}

/// Chunking does not matter, however many chunks: feeding a message chunk
/// by chunk gives the same hash in progress as feeding it in one piece.
pub proof fn lemma_feed_each(p: Params, t: Stream, chunks: Seq<Seq<u8>>)
    requires
        t.held.len() < 32,
    ensures
        feed_each(p, t, chunks) == feed(p, t, concat(chunks)),
    decreases chunks.len(),
{
    if chunks.len() == 0 {
        lemma_feed_nothing(p, t);
    } else {
        lemma_feed_each(p, t, chunks.drop_last());
        lemma_feed_concat(p, t, concat(chunks.drop_last()), chunks.last());
    }
}

/// A fresh hash that is fed a message and finished gives the digest of the
/// message.
pub proof fn lemma_hash_streamed(p: Params, msg: Seq<u8>)
    ensures
        finish(p, feed(p, start(p), msg)) == hash(p, msg),
{
    let n = (msg.len() / 32) * 32 as int;
    assert(Seq::<u8>::empty() + msg =~= msg);
    lemma_absorb_all_concat(p, init_state(p), msg.take(n), pad(msg.skip(n)));
    lemma_absorb_all_one(p, absorb_all(p, init_state(p), msg.take(n)), pad(msg.skip(n)));
}

/// The digest of a message fed chunk by chunk is the digest of the message.
pub proof fn lemma_hash_chunked(p: Params, chunks: Seq<Seq<u8>>)
    ensures
        finish(p, feed_each(p, start(p), chunks)) == hash(p, concat(chunks)),
{
    lemma_feed_each(p, start(p), chunks);
    lemma_hash_streamed(p, concat(chunks));
}

/// A MAC under a key of 64 bytes that is fed a message and finished gives
/// what a fresh hash gives that is fed the key and then the message: the
/// digest of the key followed by the message.
pub proof fn lemma_mac_is_prefixed_hash(p: Params, key: Seq<u8>, msg: Seq<u8>)
    requires
        key.len() == 64,
    ensures
        finish(p, feed(p, keyed(p, key), msg)) == finish(p, feed(p, feed(p, start(p), key), msg)),
        finish(p, feed(p, keyed(p, key), msg)) == mac(p, key, msg),
{
    lemma_feed_blocks(p, start(p), key);
    lemma_feed_concat(p, start(p), key, msg);
    lemma_hash_streamed(p, key + msg);
}

/// The padding tells the held bytes apart: two runs of held bytes that pad
/// to the same block are the same bytes.
pub proof fn lemma_pad_injective(x: Seq<u8>, y: Seq<u8>)
    requires
        x.len() < 32,
        y.len() < 32,
        pad(x) == pad(y),
    ensures
        x == y,
{
    if x.len() < y.len() {
        assert(pad(x)[y.len() as int] == 0u8);
        assert(pad(y)[y.len() as int] == 0x80u8);
    } else if y.len() < x.len() {
        assert(pad(y)[x.len() as int] == 0u8);
        assert(pad(x)[x.len() as int] == 0x80u8);
    } else {
        assert forall|i: int| 0 <= i < x.len() implies x[i] == y[i] by {
            assert(pad(x)[i] == x[i]);
            assert(pad(y)[i] == y[i]);
        }
        assert(x =~= y);
    }
}

/// Padding forces no collision: two messages that are absorbed as the same
/// blocks are the same message.
pub proof fn lemma_padded_injective(x: Seq<u8>, y: Seq<u8>)
    requires
        padded(x) == padded(y),
    ensures
        x == y,
{
    let n = (x.len() / 32) * 32 as int;
    let m = (y.len() / 32) * 32 as int;
    assert(padded(x).len() == n + 32);
    assert(padded(y).len() == m + 32);
    assert(padded(x).skip(n) =~= pad(x.skip(n)));
    assert(padded(y).skip(n) =~= pad(y.skip(n)));
    assert(padded(x).take(n) =~= x.take(n));
    assert(padded(y).take(n) =~= y.take(n));
    lemma_pad_injective(x.skip(n), y.skip(n));
    assert(x =~= x.take(n) + x.skip(n));
    assert(y =~= y.take(n) + y.skip(n));
}

} // verus!
